//! The slabs that a store keeps its items in.
use slab::Slab;
use vstd::prelude::*;
use wasm_bindgen::JsValue;

use crate::func::FuncInner;

verus! {

/// A pre-allocated store of items of one type, each found by its key.
#[verifier::external_type_specification]
#[verifier::external_body]
#[verifier::reject_recursive_types(T)]
pub struct ExSlab<T>(Slab<T>);

/// The entries of a slab of functions in the order of their keys: `Some` for an
/// occupied entry, `None` for a vacant one.
pub uninterp spec fn func_slots(slab: Slab<FuncInner>) -> Seq<Option<FuncInner>>;

/// The entries of a slab of JavaScript objects in the order of their keys:
/// `Some` for an occupied entry, `None` for a vacant one.
pub uninterp spec fn object_slots(slab: Slab<JsValue>) -> Seq<Option<JsValue>>;

/// No entry is vacant.
pub open spec fn full<V>(slots: Seq<Option<V>>) -> bool {
    forall|i: int| 0 <= i < slots.len() ==> #[trigger] slots[i] is Some
}

/// `key` is the key of an occupied entry.
pub open spec fn live<V>(slots: Seq<Option<V>>, key: int) -> bool {
    0 <= key < slots.len() && slots[key] is Some
}

/// `item` went into an entry of its own, whose key is `key`, and nothing else
/// changed: a new entry at the end where none was vacant, else a vacant one.
pub open spec fn inserted<V>(
    before: Seq<Option<V>>,
    after: Seq<Option<V>>,
    key: int,
    item: V,
) -> bool {
    if full(before) {
        key == before.len() && after == before.push(Some(item))
    } else {
        0 <= key < before.len() && before[key] is None && after == before.update(key, Some(item))
    }
}

/// The entries with `item` at `key`, which is one of theirs or the next one.
pub open spec fn put<V>(slots: Seq<Option<V>>, key: int, item: V) -> Seq<Option<V>> {
    if key < slots.len() {
        slots.update(key, Some(item))
    } else {
        slots.push(Some(item))
    }
}

/// The keys of the occupied entries.
pub open spec fn keys<V>(slots: Seq<Option<V>>) -> Set<int> {
    Set::new(|key: int| live(slots, key))
}

/// What was found by a key before is found by it after.
pub open spec fn keeps<V>(before: Seq<Option<V>>, after: Seq<Option<V>>) -> bool {
    forall|key: int| live(before, key) ==> live(after, key) && #[trigger] after[key] == before[key]
}

/// `Slab::new`: a slab without entries.
#[verifier::external_body]
pub(crate) fn new_func_slab() -> (slab: Slab<FuncInner>)
    ensures
        func_slots(slab) == Seq::<Option<FuncInner>>::empty(),
{
    Slab::new()
}

/// `Slab::insert`: takes the key that the slab holds ready, which is that of a
/// vacant entry where there is one and else the number of entries, and puts the
/// item there.
///
/// Like `Vec::push` it panics when the entries would fill more than
/// `isize::MAX` bytes, which is not modelled.
#[verifier::external_body]
pub(crate) fn insert_func_slot(slab: &mut Slab<FuncInner>, item: FuncInner) -> (key: usize)
    ensures
        inserted(func_slots(*old(slab)), func_slots(*final(slab)), key as int, item),
{
    slab.insert(item)
}

/// `Slab` indexed by a key: the item of the occupied entry; a key of none panics.
#[verifier::external_body]
pub(crate) fn func_slot(slab: &Slab<FuncInner>, key: usize) -> (item: &FuncInner)
    requires
        live(func_slots(*slab), key as int),
    ensures
        Some(*item) == func_slots(*slab)[key as int],
{
    &slab[key]
}

/// `Slab::new`, for JavaScript objects: a slab without entries.
#[verifier::external_body]
pub(crate) fn new_object_slab() -> (slab: Slab<JsValue>)
    ensures
        object_slots(slab) == Seq::<Option<JsValue>>::empty(),
{
    Slab::new()
}

/// `Slab::insert`, for JavaScript objects: as for functions.
#[verifier::external_body]
pub(crate) fn insert_object_slot(slab: &mut Slab<JsValue>, item: JsValue) -> (key: usize)
    ensures
        inserted(object_slots(*old(slab)), object_slots(*final(slab)), key as int, item),
{
    slab.insert(item)
}

/// `Slab` indexed by a key, for JavaScript objects: as for functions.
#[verifier::external_body]
pub(crate) fn object_slot(slab: &Slab<JsValue>, key: usize) -> (item: &JsValue)
    requires
        live(object_slots(*slab), key as int),
    ensures
        Some(*item) == object_slots(*slab)[key as int],
{
    &slab[key]
}

/// A table is full exactly when each of its entries holds an item.
pub proof fn law_full_tables_have_no_gap<V>(slots: Seq<Option<V>>)
    ensures
        full(slots) <==> (forall|i: int| 0 <= i < slots.len() ==> #[trigger] slots[i] is Some),
{
}

/// A key is live exactly when the table has an item at it, and those are its keys.
pub proof fn law_live_keys_find_an_item<V>(slots: Seq<Option<V>>, key: int)
    ensures
        live(slots, key) <==> 0 <= key < slots.len() && slots[key] is Some,
        keys(slots).contains(key) <==> 0 <= key < slots.len() && slots[key] is Some,
{
}

/// To insert an item is to have it at its key, where nothing was, and everything else
/// where it was. The key is the next one exactly when there is no gap to fill.
pub proof fn law_insertion_fills_one_entry<V>(
    before: Seq<Option<V>>,
    after: Seq<Option<V>>,
    key: int,
    item: V,
)
    ensures
        inserted(before, after, key, item) <==> {
            &&& 0 <= key <= before.len()
            &&& key < before.len() ==> before[key] is None
            &&& key == before.len() <==> (forall|i: int|
                0 <= i < before.len() ==> #[trigger] before[i] is Some)
            &&& after.len() == before.len() + if key == before.len() {
                1int
            } else {
                0int
            }
            &&& after[key] == Some(item)
            &&& forall|i: int|
                0 <= i < before.len() && i != key ==> #[trigger] after[i] == before[i]
        },
{
    if {
        &&& 0 <= key <= before.len()
        &&& key < before.len() ==> before[key] is None
        &&& key == before.len() <==> (forall|i: int|
            0 <= i < before.len() ==> #[trigger] before[i] is Some)
        &&& after.len() == before.len() + if key == before.len() {
            1int
        } else {
            0int
        }
        &&& after[key] == Some(item)
        &&& forall|i: int| 0 <= i < before.len() && i != key ==> #[trigger] after[i] == before[i]
    } {
        if key == before.len() {
            assert(after =~= before.push(Some(item)));
        } else {
            assert(after =~= before.update(key, Some(item)));
        }
    }
}

/// To put an item at a key changes that entry, or adds it at the end, and no other.
pub proof fn law_put_changes_one_entry<V>(slots: Seq<Option<V>>, key: int, item: V)
    requires
        0 <= key <= slots.len(),
    ensures
        put(slots, key, item).len() == slots.len() + if key == slots.len() {
            1int
        } else {
            0int
        },
        put(slots, key, item)[key] == Some(item),
        forall|i: int|
            0 <= i < slots.len() && i != key ==> #[trigger] put(slots, key, item)[i] == slots[i],
{
}

/// A table keeps another exactly when it has each item of that at the same key.
pub proof fn law_kept_items_stay_at_their_keys<V>(before: Seq<Option<V>>, after: Seq<Option<V>>)
    ensures
        keeps(before, after) <==> (forall|i: int|
            0 <= i < before.len() && #[trigger] before[i] is Some ==> i < after.len() && after[i]
                == before[i]),
{
    if keeps(before, after) {
        assert forall|i: int| 0 <= i < before.len() && #[trigger] before[i] is Some implies i
            < after.len() && after[i] == before[i] by {
            assert(live(before, i) ==> live(after, i) && after[i] == before[i]);
        }
    }
}

} // verus!
