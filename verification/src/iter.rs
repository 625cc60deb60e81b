//! Traversal of a value, entry by entry, with write-back and reconstruction.

use crate::value::{array_view, object_view, Value, ValueView};
use vstd::prelude::*;

verus! {

/// One unit of a traversal.
#[derive(Debug, PartialEq, Eq)]
pub enum IterItem {
    /// A value whose position does not matter.
    Value(Value),
    /// An entry of an object.
    KeyValue(String, Value),
    /// An item of an array.
    IndexValue(usize, Value),
}

/// What an `IterItem` holds.
pub enum ItemView {
    Value(ValueView),
    KeyValue(Seq<char>, ValueView),
    IndexValue(nat, ValueView),
}

impl ItemView {
    /// The value component, whatever the item's shape.
    pub open spec fn value(self) -> ValueView {
        match self {
            ItemView::Value(v) => v,
            ItemView::KeyValue(_, v) => v,
            ItemView::IndexValue(_, v) => v,
        }
    }
}

impl View for IterItem {
    type V = ItemView;

    open spec fn view(&self) -> ItemView {
        match self {
            IterItem::Value(v) => ItemView::Value(v@),
            IterItem::KeyValue(k, v) => ItemView::KeyValue(k@, v@),
            IterItem::IndexValue(i, v) => ItemView::IndexValue(*i as nat, v@),
        }
    }
}

impl IterItem {
    /// The value component, whatever the item's shape.
    pub fn into_value(self) -> (r: Value)
        ensures
            r@ == self@.value(),
    {
        match self {
            IterItem::Value(v) => v,
            IterItem::KeyValue(_, v) => v,
            IterItem::IndexValue(_, v) => v,
        }
    }
}

/// The item that stands for slot `i` of a container: keyed for an object,
/// indexed for an array.
pub open spec fn item_at(container: ValueView, i: int) -> ItemView
    recommends
        0 <= i < container.entry_count(),
{
    match container {
        ValueView::Object(entries) => ItemView::KeyValue(entries[i].0, entries[i].1),
        _ => ItemView::IndexValue(i as nat, container.slot(i)),
    }
}

/// The items that a traversal of `container` yields, in order: one per
/// entry, none for a scalar.
pub open spec fn items_of(container: ValueView) -> Seq<ItemView> {
    Seq::new(container.entry_count(), |i: int| item_at(container, i))
}

/// The items of the first `n` entries of `container`, in order. In a
/// recursive traversal the items below a container entry come first, then
/// the entry itself.
pub open spec fn deep_prefix(container: ValueView, recursive: bool, n: nat) -> Seq<ItemView>
    decreases container, n,
{
    if n == 0 || n > container.entry_count() {
        Seq::empty()
    } else {
        let before = deep_prefix(container, recursive, (n - 1) as nat);
        let slot = container.slot(n - 1);
        let below = if recursive && slot.is_container() {
            deep_prefix(slot, recursive, slot.entry_count())
        } else {
            Seq::empty()
        };
        (before + below).push(item_at(container, n - 1))
    }
}

/// Every item of a traversal of `value`: its entries, and in a recursive
/// traversal the entries at every depth, depth first.
pub open spec fn deep_items(value: ValueView, recursive: bool) -> Seq<ItemView> {
    deep_prefix(value, recursive, value.entry_count())
}

/// The views of a list of items.
pub open spec fn item_views(items: Seq<IterItem>) -> Seq<ItemView> {
    Seq::new(items.len(), |i: int| items[i]@)
}

/// A traversal that is not recursive has one item per entry.
pub proof fn flat_items_are_entries(container: ValueView, n: nat)
    requires
        n <= container.entry_count(),
    ensures
        deep_prefix(container, false, n) == items_of(container).take(n as int),
    decreases n,
{
    if n > 0 {
        flat_items_are_entries(container, (n - 1) as nat);
        assert(deep_prefix(container, false, n) =~= items_of(container).take(n as int));
    } else {
        assert(deep_prefix(container, false, n) =~= items_of(container).take(n as int));
    }
}

/// A traversal that is not recursive lists exactly the entries.
pub proof fn flat_items_are_all_entries(value: ValueView)
    ensures
        deep_items(value, false) == items_of(value),
{
    flat_items_are_entries(value, value.entry_count());
    assert(items_of(value).take(value.entry_count() as int) =~= items_of(value));
}

/// Where a traversal stands: the value as it is by now, whether containers
/// among the entries are to be traversed in turn, and how many entries have
/// been handed out.
pub struct IterState {
    pub value: ValueView,
    pub recursive: bool,
    pub position: nat,
}

impl IterState {
    /// The state of a traversal that has not begun.
    pub open spec fn start(value: ValueView, recursive: bool) -> IterState {
        IterState { value, recursive, position: 0 }
    }

    /// The value that the traversal gives back when it is converted.
    pub open spec fn rebuilt(self) -> ValueView {
        self.value
    }

    /// The items still to be handed out: one for each entry from the
    /// position on, and none from below an entry, whether or not the
    /// traversal is recursive.
    pub open spec fn pending(self) -> Seq<ItemView> {
        if self.position <= self.value.entry_count() {
            items_of(self.value).skip(self.position as int)
        } else {
            Seq::empty()
        }
    }

    /// Whether the consumer has to traverse `value`, an entry that was
    /// handed out, before it handles the entry itself: in a recursive
    /// traversal, where the entry is a container.
    pub open spec fn descends(self, value: ValueView) -> bool {
        self.recursive && value.is_container()
    }

    /// Whether another entry is left to hand out.
    pub open spec fn has_next(self) -> bool {
        self.position < self.value.entry_count()
    }

    /// The state after the next entry was handed out.
    pub open spec fn advanced(self) -> IterState {
        IterState { position: self.position + 1, ..self }
    }

    /// The state after `value` was written to the slot of the entry handed
    /// out last; unchanged where none was handed out yet.
    pub open spec fn written(self, value: ValueView) -> IterState {
        if 0 < self.position <= self.value.entry_count() {
            IterState { value: self.value.with_slot(self.position - 1, value), ..self }
        } else {
            self
        }
    }
}

/// Converting a traversal that never advanced gives the value it was
/// started on.
pub proof fn fresh_iterator_rebuilds_value(value: ValueView, recursive: bool)
    ensures
        IterState::start(value, recursive).rebuilt() == value,
{
}

/// Writing a slot changes neither the number of entries nor any key.
pub proof fn write_keeps_shape(state: IterState, value: ValueView)
    ensures
        state.written(value).value.entry_count() == state.value.entry_count(),
        state.written(value).value.keys() =~= state.value.keys(),
        state.written(value).value is Array <==> state.value is Array,
        state.written(value).value is Object <==> state.value is Object,
{
}

/// A traversal over a value. It owns the value, hands out a copy of each
/// entry in order, takes replacements for the entries it handed out, and
/// gives the value back in the end. Entries below a container entry are
/// reached by a traversal of that entry, which a recursive traversal asks
/// its consumer to make before the entry itself is handled.
#[derive(Debug)]
pub struct ValueIter {
    value: Value,
    recursive: bool,
    position: usize,
}

impl View for ValueIter {
    type V = IterState;

    closed spec fn view(&self) -> IterState {
        IterState { value: self.value@, recursive: self.recursive, position: self.position as nat }
    }
}

impl Value {
    /// Starts a traversal of this value. The traversal hands out the
    /// entries of the value itself, one item each, whether or not it is
    /// recursive. A recursive one asks its consumer to descend: to traverse
    /// each container it is handed, write the outcome back, and only then
    /// handle the container itself.
    pub fn into_iter(self, recursive: bool) -> (r: ValueIter)
        ensures
            r@ == IterState::start(self@, recursive),
            r@.pending() == items_of(self@),
    {
        assert(items_of(self@).skip(0) =~= items_of(self@));
        ValueIter { value: self, recursive, position: 0 }
    }

    /// Every item of a traversal of this value, in order, each with a copy
    /// of the value in its slot.
    pub fn items(&self, recursive: bool) -> (r: Vec<IterItem>)
        ensures
            item_views(r@) == deep_items(self@, recursive),
        decreases self,
    {
        let mut out: Vec<IterItem> = Vec::new();
        match self {
            Value::Array(items) => {
                proof {
                    array_view(*items);
                }
                let mut i: usize = 0;
                while i < items.len()
                    invariant
                        self is Array,
                        self->Array_0 == *items,
                        self@ is Array,
                        self@->Array_0.len() == items.len(),
                        forall|j: int|
                            0 <= j < items.len() ==> self@->Array_0[j] == (#[trigger] items[j])@,
                        i <= items.len(),
                        item_views(out@) == deep_prefix(self@, recursive, i as nat),
                    decreases items.len() - i,
                {
                    let ghost before = out@;
                    let entry = &items[i];
                    if recursive && entry.is_container() {
                        let mut below = entry.items(recursive);
                        let ghost found = below@;
                        out.append(&mut below);
                        assert(item_views(out@) =~= item_views(before) + item_views(found));
                    } else {
                        assert(item_views(out@) =~= item_views(before) + Seq::<ItemView>::empty());
                    }
                    let ghost middle = out@;
                    out.push(IterItem::IndexValue(i, entry.duplicate()));
                    assert(item_views(out@) =~= item_views(middle).push(
                        item_at(self@, i as int),
                    ));
                    i += 1;
                }
            },
            Value::Object(entries) => {
                proof {
                    object_view(*entries);
                }
                let mut i: usize = 0;
                while i < entries.len()
                    invariant
                        self is Object,
                        self->Object_0 == *entries,
                        self@ is Object,
                        self@->Object_0.len() == entries.len(),
                        forall|j: int|
                            0 <= j < entries.len() ==> self@->Object_0[j] == (
                                (#[trigger] entries[j]).0@,
                                entries[j].1@,
                            ),
                        i <= entries.len(),
                        item_views(out@) == deep_prefix(self@, recursive, i as nat),
                    decreases entries.len() - i,
                {
                    let ghost before = out@;
                    let entry = &entries[i];
                    if recursive && entry.1.is_container() {
                        let mut below = entry.1.items(recursive);
                        let ghost found = below@;
                        out.append(&mut below);
                        assert(item_views(out@) =~= item_views(before) + item_views(found));
                    } else {
                        assert(item_views(out@) =~= item_views(before) + Seq::<ItemView>::empty());
                    }
                    let ghost middle = out@;
                    out.push(IterItem::KeyValue(entry.0.clone(), entry.1.duplicate()));
                    assert(item_views(out@) =~= item_views(middle).push(
                        item_at(self@, i as int),
                    ));
                    i += 1;
                }
            },
            _ => {
                assert(item_views(out@) =~= deep_items(self@, recursive));
            },
        }
        out
    }
}

impl ValueIter {
    /// Whether containers among the entries are to be traversed in turn.
    pub fn is_recursive(&self) -> (r: bool)
        ensures
            r == self@.recursive,
    {
        self.recursive
    }

    /// Whether the consumer has to traverse `value`, an entry that this
    /// traversal handed out, before it handles the entry itself.
    pub fn descends(&self, value: &Value) -> (r: bool)
        ensures
            r == self@.descends(value@),
    {
        self.recursive && value.is_container()
    }

    /// Hands out the next entry, if one is left: the first of the pending
    /// items, which is an entry of the value itself.
    pub fn next(&mut self) -> (r: Option<IterItem>)
        ensures
            old(self)@.has_next() ==> r is Some && r->Some_0@ == item_at(
                old(self)@.value,
                old(self)@.position as int,
            ) && final(self)@ == old(self)@.advanced(),
            old(self)@.has_next() ==> r->Some_0@ == old(self)@.pending()[0],
            old(self)@.has_next() ==> final(self)@.pending() == old(self)@.pending().skip(1),
            !old(self)@.has_next() ==> r is None && final(self)@ == old(self)@,
    {
        let i = self.position;
        proof {
            let before = self@;
            if before.has_next() {
                assert(before.advanced().pending() =~= before.pending().skip(1));
            }
        }
        match &self.value {
            Value::Array(items) => {
                proof {
                    array_view(*items);
                }
                if i < items.len() {
                    let item = IterItem::IndexValue(i, items[i].duplicate());
                    self.position = i + 1;
                    Some(item)
                } else {
                    None
                }
            },
            Value::Object(entries) => {
                proof {
                    object_view(*entries);
                }
                if i < entries.len() {
                    let item = IterItem::KeyValue(
                        entries[i].0.clone(),
                        entries[i].1.duplicate(),
                    );
                    self.position = i + 1;
                    Some(item)
                } else {
                    None
                }
            },
            _ => None,
        }
    }

    /// Replaces the entry handed out last by `value`. Before the first entry
    /// was handed out there is nothing to replace.
    pub fn write_back(&mut self, value: Value)
        ensures
            final(self)@ == old(self)@.written(value@),
    {
        let i = self.position;
        if i == 0 {
            return ;
        }
        match &mut self.value {
            Value::Array(items) => {
                proof {
                    array_view(*items);
                }
                if i <= items.len() {
                    let ghost before = *items;
                    items.set(i - 1, value);
                    proof {
                        array_view(*items);
                        assert(Value::Array(*items)@->Array_0 =~= Value::Array(
                            before,
                        )@->Array_0.update(i - 1, value@));
                    }
                }
            },
            Value::Object(entries) => {
                proof {
                    object_view(*entries);
                }
                if i <= entries.len() {
                    let ghost before = *entries;
                    let key = entries[i - 1].0.clone();
                    entries.set(i - 1, (key, value));
                    proof {
                        object_view(*entries);
                        assert(Value::Object(*entries)@->Object_0 =~= Value::Object(
                            before,
                        )@->Object_0.update(
                            i - 1,
                            (Value::Object(before)@->Object_0[i - 1].0, value@),
                        ));
                    }
                }
            },
            _ => {},
        }
    }

    /// Ends the traversal and gives the value back, with every replacement
    /// in its slot.
    pub fn into_value(self) -> (r: Value)
        ensures
            r@ == self@.rebuilt(),
    {
        self.value
    }
}

} // verus!
