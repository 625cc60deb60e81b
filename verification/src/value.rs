//! The dynamically typed value tree and its mathematical model.

use vstd::prelude::*;

verus! {

/// A runtime datum: a scalar, an ordered array, or an object whose entries
/// keep the order in which they were inserted.
#[derive(Debug, PartialEq, Eq)]
pub enum Value {
    Null,
    Boolean(bool),
    Integer(i64),
    /// A float, held as the 64 bits of its encoding.
    Float(u64),
    Bytes(Vec<u8>),
    /// Nanoseconds since the epoch.
    Timestamp(i64),
    /// The source text of a regular expression.
    Regex(String),
    Array(Vec<Value>),
    Object(Vec<(String, Value)>),
}

/// What a `Value` is, over sequences.
pub enum ValueView {
    Null,
    Boolean(bool),
    Integer(i64),
    Float(u64),
    Bytes(Seq<u8>),
    Timestamp(i64),
    Regex(Seq<char>),
    Array(Seq<ValueView>),
    Object(Seq<(Seq<char>, ValueView)>),
}

impl ValueView {
    /// Arrays and objects are the containers; everything else is a scalar.
    pub open spec fn is_container(self) -> bool {
        self is Array || self is Object
    }

    /// The number of entries of a container, zero for a scalar.
    pub open spec fn entry_count(self) -> nat {
        match self {
            ValueView::Array(items) => items.len(),
            ValueView::Object(entries) => entries.len(),
            _ => 0,
        }
    }

    /// The value in slot `i` of a container.
    pub open spec fn slot(self, i: int) -> ValueView
        recommends
            0 <= i < self.entry_count(),
    {
        match self {
            ValueView::Array(items) => items[i],
            ValueView::Object(entries) => entries[i].1,
            _ => ValueView::Null,
        }
    }

    /// The container with slot `i` holding `value`; keys and the other
    /// slots stay as they are.
    pub open spec fn with_slot(self, i: int, value: ValueView) -> ValueView
        recommends
            0 <= i < self.entry_count(),
    {
        match self {
            ValueView::Array(items) => ValueView::Array(items.update(i, value)),
            ValueView::Object(entries) => ValueView::Object(
                entries.update(i, (entries[i].0, value)),
            ),
            _ => self,
        }
    }

    /// The keys of an object, in entry order; empty for anything else.
    pub open spec fn keys(self) -> Seq<Seq<char>> {
        match self {
            ValueView::Object(entries) => Seq::new(entries.len(), |i: int| entries[i].0),
            _ => Seq::empty(),
        }
    }

    /// No key occurs twice, in this object or in any container below it.
    pub open spec fn well_formed(self) -> bool
        decreases self,
    {
        match self {
            ValueView::Array(items) => forall|i: int|
                0 <= i < items.len() ==> (#[trigger] items[i]).well_formed(),
            ValueView::Object(entries) => {
                &&& forall|i: int|
                    0 <= i < entries.len() ==> (#[trigger] entries[i]).1.well_formed()
                &&& forall|i: int, j: int|
                    0 <= i < j < entries.len() ==> (#[trigger] entries[i]).0 != (
                    #[trigger] entries[j]).0
            },
            _ => true,
        }
    }
}

/// The views of the first `n` items of an array, in order.
pub open spec fn items_view(items: Vec<Value>, n: nat) -> Seq<ValueView>
    decreases items, n,
{
    if n == 0 || n > items.len() {
        Seq::empty()
    } else {
        items_view(items, (n - 1) as nat).push(items[n - 1].view())
    }
}

/// The views of the first `n` entries of an object, in order.
pub open spec fn entries_view(entries: Vec<(String, Value)>, n: nat) -> Seq<(Seq<char>, ValueView)>
    decreases entries, n,
{
    if n == 0 || n > entries.len() {
        Seq::empty()
    } else {
        entries_view(entries, (n - 1) as nat).push((entries[n - 1].0@, entries[n - 1].1.view()))
    }
}

impl View for Value {
    type V = ValueView;

    open spec fn view(&self) -> ValueView
        decreases self, 0nat,
    {
        match self {
            Value::Null => ValueView::Null,
            Value::Boolean(b) => ValueView::Boolean(*b),
            Value::Integer(n) => ValueView::Integer(*n),
            Value::Float(bits) => ValueView::Float(*bits),
            Value::Bytes(bytes) => ValueView::Bytes(bytes@),
            Value::Timestamp(t) => ValueView::Timestamp(*t),
            Value::Regex(source) => ValueView::Regex(source@),
            Value::Array(items) => ValueView::Array(items_view(*items, items.len() as nat)),
            Value::Object(entries) => ValueView::Object(
                entries_view(*entries, entries.len() as nat),
            ),
        }
    }
}

/// A prefix of an array's view has one item per item of the array, each the
/// view of the item in its place.
pub proof fn items_view_pointwise(items: Vec<Value>, n: nat)
    requires
        n <= items.len(),
    ensures
        items_view(items, n).len() == n,
        forall|i: int| 0 <= i < n ==> items_view(items, n)[i] == (#[trigger] items[i])@,
    decreases n,
{
    reveal_with_fuel(items_view, 2);
    if n > 0 {
        items_view_pointwise(items, (n - 1) as nat);
        assert(items_view(items, n) == items_view(items, (n - 1) as nat).push(items[n - 1].view()));
    } else {
        assert(items_view(items, n) == Seq::<ValueView>::empty());
    }
}

/// A prefix of an object's view keeps each entry's key and holds the view of
/// its value.
pub proof fn entries_view_pointwise(entries: Vec<(String, Value)>, n: nat)
    requires
        n <= entries.len(),
    ensures
        entries_view(entries, n).len() == n,
        forall|i: int|
            0 <= i < n ==> entries_view(entries, n)[i] == ((#[trigger] entries[i]).0@, entries[i].1@),
    decreases n,
{
    if n > 0 {
        entries_view_pointwise(entries, (n - 1) as nat);
    }
}

/// The view of an array is the sequence of its items' views.
pub proof fn array_view(items: Vec<Value>)
    ensures
        Value::Array(items)@ is Array,
        Value::Array(items)@->Array_0.len() == items.len(),
        forall|i: int|
            #![trigger Value::Array(items)@->Array_0[i]]
            #![trigger items[i]]
            0 <= i < items.len() ==> Value::Array(items)@->Array_0[i] == items[i]@,
{
    items_view_pointwise(items, items.len() as nat);
}

/// The view of an object is the sequence of its keys' and values' views.
pub proof fn object_view(entries: Vec<(String, Value)>)
    ensures
        Value::Object(entries)@ is Object,
        Value::Object(entries)@->Object_0.len() == entries.len(),
        forall|i: int|
            #![trigger Value::Object(entries)@->Object_0[i]]
            #![trigger entries[i]]
            0 <= i < entries.len() ==> Value::Object(entries)@->Object_0[i] == (
                entries[i].0@,
                entries[i].1@,
            ),
{
    entries_view_pointwise(entries, entries.len() as nat);
}

/// A copy of `bytes`.
pub fn copy_bytes(bytes: &Vec<u8>) -> (r: Vec<u8>)
    ensures
        r@ == bytes@,
{
    let mut out: Vec<u8> = Vec::new();
    let mut i: usize = 0;
    while i < bytes.len()
        invariant
            i <= bytes.len(),
            out@ == bytes@.take(i as int),
        decreases bytes.len() - i,
    {
        out.push(bytes[i]);
        i += 1;
        assert(out@ =~= bytes@.take(i as int));
    }
    assert(bytes@.take(bytes.len() as int) =~= bytes@);
    out
}

impl Value {
    /// Whether this value is an array or an object.
    pub fn is_container(&self) -> (r: bool)
        ensures
            r == self@.is_container(),
    {
        match self {
            Value::Array(_) => true,
            Value::Object(_) => true,
            _ => false,
        }
    }

    /// The number of entries of a container, zero for a scalar.
    pub fn entry_count(&self) -> (r: usize)
        ensures
            r == self@.entry_count(),
    {
        match self {
            Value::Array(items) => {
                proof {
                    array_view(*items);
                }
                items.len()
            },
            Value::Object(entries) => {
                proof {
                    object_view(*entries);
                }
                entries.len()
            },
            _ => 0,
        }
    }

    /// Whether no object in this value, at any depth, has a key twice.
    pub fn is_well_formed(&self) -> (r: bool)
        ensures
            r == self@.well_formed(),
        decreases self,
    {
        match self {
            Value::Array(items) => {
                proof {
                    array_view(*items);
                }
                let mut i: usize = 0;
                while i < items.len()
                    invariant
                        self is Array,
                        self->Array_0 == *items,
                        self@ is Array,
                        self@->Array_0.len() == items.len(),
                        forall|j: int|
                            0 <= j < items.len() ==> self@->Array_0[j] == (#[trigger] items[j])@,
                        i <= items.len(),
                        forall|j: int| 0 <= j < i ==> (#[trigger] self@->Array_0[j]).well_formed(),
                    decreases items.len() - i,
                {
                    if !items[i].is_well_formed() {
                        assert(!self@->Array_0[i as int].well_formed());
                        return false;
                    }
                    i += 1;
                }
                true
            },
            Value::Object(entries) => {
                proof {
                    object_view(*entries);
                }
                let mut i: usize = 0;
                while i < entries.len()
                    invariant
                        self is Object,
                        self->Object_0 == *entries,
                        self@ is Object,
                        self@->Object_0.len() == entries.len(),
                        forall|j: int|
                            0 <= j < entries.len() ==> self@->Object_0[j] == (
                                (#[trigger] entries[j]).0@,
                                entries[j].1@,
                            ),
                        i <= entries.len(),
                        forall|j: int|
                            0 <= j < i ==> (#[trigger] self@->Object_0[j]).1.well_formed(),
                        forall|j: int, k: int|
                            0 <= j < k < i ==> (#[trigger] self@->Object_0[j]).0 != (
                            #[trigger] self@->Object_0[k]).0,
                    decreases entries.len() - i,
                {
                    if !entries[i].1.is_well_formed() {
                        assert(!self@->Object_0[i as int].1.well_formed());
                        return false;
                    }
                    let mut j: usize = 0;
                    while j < i
                        invariant
                            self@ is Object,
                            self@->Object_0.len() == entries.len(),
                            forall|k: int|
                                0 <= k < entries.len() ==> self@->Object_0[k] == (
                                    (#[trigger] entries[k]).0@,
                                    entries[k].1@,
                                ),
                            i < entries.len(),
                            j <= i,
                            forall|k: int|
                                0 <= k < j ==> (#[trigger] self@->Object_0[k]).0
                                    != self@->Object_0[i as int].0,
                        decreases i - j,
                    {
                        if entries[j].0 == entries[i].0 {
                            assert(self@->Object_0[j as int].0 == self@->Object_0[i as int].0);
                            return false;
                        }
                        j += 1;
                    }
                    i += 1;
                }
                true
            },
            _ => true,
        }
    }

    /// A deep copy: a separate tree with the same contents.
    pub fn duplicate(&self) -> (r: Value)
        ensures
            r@ == self@,
        decreases self,
    {
        match self {
            Value::Null => Value::Null,
            Value::Boolean(b) => Value::Boolean(*b),
            Value::Integer(n) => Value::Integer(*n),
            Value::Float(bits) => Value::Float(*bits),
            Value::Bytes(bytes) => Value::Bytes(copy_bytes(bytes)),
            Value::Timestamp(t) => Value::Timestamp(*t),
            Value::Regex(source) => Value::Regex(source.clone()),
            Value::Array(items) => {
                let mut out: Vec<Value> = Vec::new();
                let mut i: usize = 0;
                while i < items.len()
                    invariant
                        self is Array,
                        self->Array_0 == *items,
                        i <= items.len(),
                        out.len() == i,
                        forall|j: int| 0 <= j < i ==> (#[trigger] out[j])@ == items[j]@,
                    decreases items.len() - i,
                {
                    out.push(items[i].duplicate());
                    i += 1;
                }
                let r = Value::Array(out);
                proof {
                    array_view(out);
                    array_view(*items);
                }
                assert(r@->Array_0 =~= self@->Array_0);
                r
            },
            Value::Object(entries) => {
                let mut out: Vec<(String, Value)> = Vec::new();
                let mut i: usize = 0;
                while i < entries.len()
                    invariant
                        self is Object,
                        self->Object_0 == *entries,
                        i <= entries.len(),
                        out.len() == i,
                        forall|j: int|
                            0 <= j < i ==> (#[trigger] out[j]).0@ == entries[j].0@ && out[j].1@
                                == entries[j].1@,
                    decreases entries.len() - i,
                {
                    out.push((entries[i].0.clone(), entries[i].1.duplicate()));
                    i += 1;
                }
                let r = Value::Object(out);
                proof {
                    object_view(out);
                    object_view(*entries);
                }
                assert(r@->Object_0 =~= self@->Object_0);
                r
            },
        }
    }
}

/// A slot of a container is a smaller value than the container.
pub proof fn slot_is_smaller(container: ValueView, i: int)
    requires
        0 <= i < container.entry_count(),
    ensures
        decreases_to!(container => container.slot(i)),
{
    match container {
        ValueView::Array(items) => {
            assert(decreases_to!(items => items[i]));
        },
        ValueView::Object(entries) => {
            assert(decreases_to!(entries => entries[i]));
            assert(decreases_to!(entries[i] => entries[i].1));
        },
        _ => {},
    }
}

/// Writing to a slot what it holds changes nothing.
pub proof fn slot_rewritten_is_same(container: ValueView, i: int)
    requires
        0 <= i < container.entry_count(),
    ensures
        container.with_slot(i, container.slot(i)) == container,
{
    match container {
        ValueView::Array(items) => {
            assert(items.update(i, items[i]) =~= items);
        },
        ValueView::Object(entries) => {
            assert(entries.update(i, (entries[i].0, entries[i].1)) =~= entries);
        },
        _ => {},
    }
}

/// Every slot of a container without duplicate keys is without them.
pub proof fn slot_is_well_formed(container: ValueView, i: int)
    requires
        0 <= i < container.entry_count(),
        container.well_formed(),
    ensures
        container.slot(i).well_formed(),
{
    match container {
        ValueView::Array(items) => {
            assert(items[i].well_formed());
        },
        ValueView::Object(entries) => {
            assert(entries[i].1.well_formed());
        },
        _ => {},
    }
}

/// Writing a value without duplicate keys into a slot of a container
/// without duplicate keys leaves none.
pub proof fn slot_write_keeps_keys_unique(container: ValueView, i: int, value: ValueView)
    requires
        0 <= i < container.entry_count(),
        container.well_formed(),
        value.well_formed(),
    ensures
        container.with_slot(i, value).well_formed(),
{
    match container {
        ValueView::Array(items) => {
            let now = items.update(i, value);
            assert forall|j: int| 0 <= j < now.len() implies (#[trigger] now[j]).well_formed() by {
                if j != i {
                    assert(items[j].well_formed());
                }
            }
        },
        ValueView::Object(entries) => {
            let now = entries.update(i, (entries[i].0, value));
            assert forall|j: int| 0 <= j < now.len() implies (#[trigger] now[j]).1.well_formed() by {
                if j != i {
                    assert(entries[j].1.well_formed());
                }
            }
            assert forall|j: int, k: int| 0 <= j < k < now.len() implies (#[trigger] now[j]).0 != (
            #[trigger] now[k]).0 by {
                assert(entries[j].0 != entries[k].0);
            }
        },
        _ => {},
    }
}

} // verus!
