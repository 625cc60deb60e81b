//! Static descriptors: which shapes a value may take, and whether producing
//! it may fail.

use crate::value::ValueView;
use vstd::prelude::*;

verus! {

/// A set of value variants.
#[derive(Clone, Copy, Debug, PartialEq, Eq, Structural)]
pub struct Shapes {
    pub null: bool,
    pub boolean: bool,
    pub integer: bool,
    pub float: bool,
    pub bytes: bool,
    pub timestamp: bool,
    pub regex: bool,
    pub array: bool,
    pub object: bool,
}

/// The set of shapes an expression may produce: the variants of the value
/// itself and, for a container, the variants of its entries.
#[derive(Clone, Copy, Debug, PartialEq, Eq, Structural)]
pub struct Kind {
    pub shapes: Shapes,
    pub array_items: Shapes,
    pub object_items: Shapes,
}

/// A kind together with whether evaluation may fail at run time.
#[derive(Clone, Copy, Debug, PartialEq, Eq, Structural)]
pub struct TypeDef {
    pub kind: Kind,
    pub fallible: bool,
}

impl Shapes {
    /// Whether the variant of `value` is in the set.
    pub open spec fn holds(self, value: ValueView) -> bool {
        match value {
            ValueView::Null => self.null,
            ValueView::Boolean(_) => self.boolean,
            ValueView::Integer(_) => self.integer,
            ValueView::Float(_) => self.float,
            ValueView::Bytes(_) => self.bytes,
            ValueView::Timestamp(_) => self.timestamp,
            ValueView::Regex(_) => self.regex,
            ValueView::Array(_) => self.array,
            ValueView::Object(_) => self.object,
        }
    }

    pub open spec fn spec_none() -> Shapes {
        Shapes {
            null: false,
            boolean: false,
            integer: false,
            float: false,
            bytes: false,
            timestamp: false,
            regex: false,
            array: false,
            object: false,
        }
    }

    pub open spec fn spec_all() -> Shapes {
        Shapes {
            null: true,
            boolean: true,
            integer: true,
            float: true,
            bytes: true,
            timestamp: true,
            regex: true,
            array: true,
            object: true,
        }
    }

    pub open spec fn spec_union(self, other: Shapes) -> Shapes {
        Shapes {
            null: self.null || other.null,
            boolean: self.boolean || other.boolean,
            integer: self.integer || other.integer,
            float: self.float || other.float,
            bytes: self.bytes || other.bytes,
            timestamp: self.timestamp || other.timestamp,
            regex: self.regex || other.regex,
            array: self.array || other.array,
            object: self.object || other.object,
        }
    }

    pub open spec fn spec_intersects(self, other: Shapes) -> bool {
        ||| self.null && other.null
        ||| self.boolean && other.boolean
        ||| self.integer && other.integer
        ||| self.float && other.float
        ||| self.bytes && other.bytes
        ||| self.timestamp && other.timestamp
        ||| self.regex && other.regex
        ||| self.array && other.array
        ||| self.object && other.object
    }

    /// The empty set.
    pub fn none() -> (r: Shapes)
        ensures
            r == Shapes::spec_none(),
    {
        Shapes {
            null: false,
            boolean: false,
            integer: false,
            float: false,
            bytes: false,
            timestamp: false,
            regex: false,
            array: false,
            object: false,
        }
    }

    /// Every variant.
    pub fn all() -> (r: Shapes)
        ensures
            r == Shapes::spec_all(),
    {
        Shapes {
            null: true,
            boolean: true,
            integer: true,
            float: true,
            bytes: true,
            timestamp: true,
            regex: true,
            array: true,
            object: true,
        }
    }

    /// The variants of either set.
    pub fn union(self, other: Shapes) -> (r: Shapes)
        ensures
            r == self.spec_union(other),
    {
        Shapes {
            null: self.null || other.null,
            boolean: self.boolean || other.boolean,
            integer: self.integer || other.integer,
            float: self.float || other.float,
            bytes: self.bytes || other.bytes,
            timestamp: self.timestamp || other.timestamp,
            regex: self.regex || other.regex,
            array: self.array || other.array,
            object: self.object || other.object,
        }
    }

    /// Whether the two sets share a variant.
    pub fn intersects(self, other: Shapes) -> (r: bool)
        ensures
            r == self.spec_intersects(other),
    {
        (self.null && other.null) || (self.boolean && other.boolean) || (self.integer
            && other.integer) || (self.float && other.float) || (self.bytes && other.bytes) || (
        self.timestamp && other.timestamp) || (self.regex && other.regex) || (self.array
            && other.array) || (self.object && other.object)
    }
}

impl Kind {
    /// Whether `value` is one of the shapes this kind describes: its variant
    /// is listed and, for a container, so is the variant of each entry.
    pub open spec fn admits(self, value: ValueView) -> bool {
        &&& self.shapes.holds(value)
        &&& value is Array ==> forall|i: int|
            0 <= i < value->Array_0.len() ==> self.array_items.holds(#[trigger] value->Array_0[i])
        &&& value is Object ==> forall|i: int|
            0 <= i < value->Object_0.len() ==> self.object_items.holds(
                (#[trigger] value->Object_0[i]).1,
            )
    }

    pub open spec fn spec_any() -> Kind {
        Kind {
            shapes: Shapes::spec_all(),
            array_items: Shapes::spec_all(),
            object_items: Shapes::spec_all(),
        }
    }

    pub open spec fn spec_null() -> Kind {
        Kind {
            shapes: (Shapes { null: true, ..Shapes::spec_none() }),
            array_items: Shapes::spec_none(),
            object_items: Shapes::spec_none(),
        }
    }

    pub open spec fn spec_boolean() -> Kind {
        Kind {
            shapes: (Shapes { boolean: true, ..Shapes::spec_none() }),
            array_items: Shapes::spec_none(),
            object_items: Shapes::spec_none(),
        }
    }

    pub open spec fn spec_array(items: Shapes) -> Kind {
        Kind {
            shapes: (Shapes { array: true, ..Shapes::spec_none() }),
            array_items: items,
            object_items: Shapes::spec_none(),
        }
    }

    pub open spec fn spec_object(items: Shapes) -> Kind {
        Kind {
            shapes: (Shapes { object: true, ..Shapes::spec_none() }),
            array_items: Shapes::spec_none(),
            object_items: items,
        }
    }

    pub open spec fn spec_or(self, other: Kind) -> Kind {
        Kind {
            shapes: self.shapes.spec_union(other.shapes),
            array_items: self.array_items.spec_union(other.array_items),
            object_items: self.object_items.spec_union(other.object_items),
        }
    }

    /// The broadest kind: any value, holding anything.
    pub fn any() -> (r: Kind)
        ensures
            r == Kind::spec_any(),
    {
        Kind { shapes: Shapes::all(), array_items: Shapes::all(), object_items: Shapes::all() }
    }

    /// Exactly the null value.
    pub fn null() -> (r: Kind)
        ensures
            r == Kind::spec_null(),
    {
        let mut shapes = Shapes::none();
        shapes.null = true;
        Kind { shapes, array_items: Shapes::none(), object_items: Shapes::none() }
    }

    /// Exactly the booleans.
    pub fn boolean() -> (r: Kind)
        ensures
            r == Kind::spec_boolean(),
    {
        let mut shapes = Shapes::none();
        shapes.boolean = true;
        Kind { shapes, array_items: Shapes::none(), object_items: Shapes::none() }
    }

    /// An array whose items have one of the given variants.
    pub fn array(items: Shapes) -> (r: Kind)
        ensures
            r == Kind::spec_array(items),
    {
        let mut shapes = Shapes::none();
        shapes.array = true;
        Kind { shapes, array_items: items, object_items: Shapes::none() }
    }

    /// An object whose values have one of the given variants.
    pub fn object(items: Shapes) -> (r: Kind)
        ensures
            r == Kind::spec_object(items),
    {
        let mut shapes = Shapes::none();
        shapes.object = true;
        Kind { shapes, array_items: Shapes::none(), object_items: items }
    }

    /// The union of two kinds.
    pub fn or(self, other: Kind) -> (r: Kind)
        ensures
            r == self.spec_or(other),
    {
        Kind {
            shapes: self.shapes.union(other.shapes),
            array_items: self.array_items.union(other.array_items),
            object_items: self.object_items.union(other.object_items),
        }
    }

    /// This kind, or an array of the given items.
    pub fn or_array(self, items: Shapes) -> (r: Kind)
        ensures
            r == self.spec_or(Kind::spec_array(items)),
    {
        self.or(Kind::array(items))
    }

    /// Whether some variant is listed by both kinds.
    pub fn intersects(self, other: Kind) -> (r: bool)
        ensures
            r == self.shapes.spec_intersects(other.shapes),
    {
        self.shapes.intersects(other.shapes)
    }
}

/// A union never narrows: whatever either kind admits, the union admits.
pub proof fn union_is_monotonic(a: Kind, b: Kind, value: ValueView)
    requires
        a.admits(value) || b.admits(value),
    ensures
        a.spec_or(b).admits(value),
        b.spec_or(a).admits(value),
{
}

/// The broadest kind admits every value.
pub proof fn any_admits_all(value: ValueView)
    ensures
        Kind::spec_any().admits(value),
{
}

impl TypeDef {
    pub open spec fn spec_with_fallibility(self, fallible: bool) -> TypeDef {
        TypeDef { kind: self.kind, fallible }
    }

    /// The null value, infallibly.
    pub fn null() -> (r: TypeDef)
        ensures
            r == (TypeDef { kind: Kind::spec_null(), fallible: false }),
    {
        TypeDef { kind: Kind::null(), fallible: false }
    }

    /// Any value, infallibly.
    pub fn any() -> (r: TypeDef)
        ensures
            r == (TypeDef { kind: Kind::spec_any(), fallible: false }),
    {
        TypeDef { kind: Kind::any(), fallible: false }
    }

    /// An object whose values have one of the given variants, infallibly.
    pub fn object(items: Shapes) -> (r: TypeDef)
        ensures
            r == (TypeDef { kind: Kind::spec_object(items), fallible: false }),
    {
        TypeDef { kind: Kind::object(items), fallible: false }
    }

    /// The same kind with the given fallibility.
    pub fn with_fallibility(self, fallible: bool) -> (r: TypeDef)
        ensures
            r == self.spec_with_fallibility(fallible),
    {
        TypeDef { kind: self.kind, fallible }
    }

    pub fn is_fallible(&self) -> (r: bool)
        ensures
            r == self.fallible,
    {
        self.fallible
    }

    pub fn kind(&self) -> (r: Kind)
        ensures
            r == self.kind,
    {
        self.kind
    }
}

} // verus!
