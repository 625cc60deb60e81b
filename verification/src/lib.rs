//! Closure-driven iteration over dynamically typed values, with the static
//! descriptors that go with it, and a small aggregator of request counters.

pub mod expression;
pub mod for_each;
pub mod function;
pub mod iter;
pub mod kind;
pub mod map_values;
pub mod request_metadata;
pub mod value;
