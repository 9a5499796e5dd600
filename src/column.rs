//! The sparse array of nullable slots kept for one component type.
//!
//! Slot `i` belongs to entity `i`. Adding past the end grows the array and
//! fills the gap with empty slots; adding inside it changes nothing; removing
//! empties a slot and never shrinks the array.
use vstd::prelude::*;

verus! {

/// What the slot at `index` holds, or `None` when it is empty or out of range.
pub open spec fn slot_at<T>(slots: Seq<Option<T>>, index: int) -> Option<T> {
    if 0 <= index < slots.len() {
        slots[index]
    } else {
        None
    }
}

/// The slots after adding `value` at `index`: an index inside the array
/// leaves it as it is; one past it grows the array to `index + 1` slots,
/// the new ones empty but the last, which holds `value`.
pub open spec fn added<T>(slots: Seq<Option<T>>, index: int, value: T) -> Seq<Option<T>> {
    if index < slots.len() {
        slots
    } else {
        slots + Seq::new((index - slots.len()) as nat, |j: int| None::<T>) + seq![Some(value)]
    }
}

/// The slots after emptying the one at `index`; an index out of range
/// changes nothing.
pub open spec fn removed<T>(slots: Seq<Option<T>>, index: int) -> Seq<Option<T>> {
    if 0 <= index < slots.len() {
        slots.update(index, None)
    } else {
        slots
    }
}

/// Which slots are filled.
pub open spec fn presence<T>(slots: Seq<Option<T>>) -> Seq<bool> {
    slots.map_values(|o: Option<T>| o is Some)
}

/// Which slots are filled after adding at `index`.
pub open spec fn grown(filled: Seq<bool>, index: int) -> Seq<bool> {
    if index < filled.len() {
        filled
    } else {
        filled + Seq::new((index - filled.len()) as nat, |j: int| false) + seq![true]
    }
}

/// Which slots are filled after removing at `index`.
pub open spec fn cleared(filled: Seq<bool>, index: int) -> Seq<bool> {
    if 0 <= index < filled.len() {
        filled.update(index, false)
    } else {
        filled
    }
}

/// Adding, removing and writing through an exclusive view act on which
/// slots are filled as `grown`, `cleared` and nothing.
pub proof fn lemma_presence<T>(slots: Seq<Option<T>>, index: int, value: T)
    ensures
        presence(added(slots, index, value)) == grown(presence(slots), index),
        presence(removed(slots, index)) == cleared(presence(slots), index),
        0 <= index < slots.len() && slots[index] is Some ==> forall|written: T|
            #[trigger] presence(slots.update(index, Some(written))) == presence(slots),
{
    assert(presence(added(slots, index, value)) =~= grown(presence(slots), index));
    assert(presence(removed(slots, index)) =~= cleared(presence(slots), index));
    if 0 <= index < slots.len() && slots[index] is Some {
        assert forall|written: T| #[trigger] presence(slots.update(index, Some(written))) == presence(slots) by {
            assert(presence(slots.update(index, Some(written))) =~= presence(slots));
        }
    }
}

/// Adding at an index whose slot is filled leaves every slot as it was.
pub proof fn lemma_add_never_overwrites<T>(slots: Seq<Option<T>>, index: int, value: T)
    requires
        slot_at(slots, index) is Some,
    ensures
        added(slots, index, value) == slots,
        slot_at(added(slots, index, value), index) == slot_at(slots, index),
{
}

/// Adding at `index` leaves at least `index + 1` slots, keeps the slots that
/// were there, and leaves empty those between the old end and `index`.
pub proof fn lemma_growth<T>(slots: Seq<Option<T>>, index: int, value: T)
    requires
        0 <= index,
    ensures
        added(slots, index, value).len() >= index + 1,
        added(slots, index, value).len() >= slots.len(),
        forall|j: int| 0 <= j < slots.len() ==> #[trigger] added(slots, index, value)[j] == slots[j],
        forall|j: int| slots.len() <= j < index ==> #[trigger] added(slots, index, value)[j] is None,
{
}

/// A value added past the end is read back; a value then written through
/// the exclusive view of that slot is read back in its place.
pub proof fn lemma_round_trip<T>(slots: Seq<Option<T>>, index: int, value: T, written: T)
    requires
        slots.len() <= index,
    ensures
        slot_at(added(slots, index, value), index) == Some(value),
        slot_at(added(slots, index, value).update(index, Some(written)), index) == Some(written),
{
}

/// Removing empties the slot, keeps the length, and leaves the other slots
/// as they were.
pub proof fn lemma_remove_clears<T>(slots: Seq<Option<T>>, index: int)
    ensures
        slot_at(removed(slots, index), index) is None,
        removed(slots, index).len() == slots.len(),
        forall|j: int| j != index ==> #[trigger] slot_at(removed(slots, index), j) == slot_at(slots, j),
{
}

/// Stores `value` at `index` unless the array already reaches that index.
pub fn add_slot<T>(slots: &mut Vec<Option<T>>, index: usize, value: T)
    requires
        index < usize::MAX,
    ensures
        final(slots)@ == added(old(slots)@, index as int, value),
{
    if index >= slots.len() {
        let ghost start = slots@;
        while slots.len() < index
            invariant
                start.len() <= slots@.len() <= index,
                slots@ == start + Seq::new((slots@.len() - start.len()) as nat, |j: int| None::<T>),
            decreases index - slots.len(),
        {
            slots.push(None);
            assert(slots@ =~= start + Seq::new((slots@.len() - start.len()) as nat, |j: int| None::<T>));
        }
        slots.push(Some(value));
        assert(slots@ =~= added(start, index as int, value));
    }
}

/// A shared view of the value at `index`, if that slot is filled.
pub fn slot<T>(slots: &Vec<Option<T>>, index: usize) -> (r: Option<&T>)
    ensures
        slot_at(slots@, index as int) == match r {
            Some(x) => Some(*x),
            None => None::<T>,
        },
{
    if index < slots.len() {
        slots[index].as_ref()
    } else {
        None
    }
}

/// An exclusive view of the value at `index`, if that slot is filled; what
/// is written through it lands in that slot and nowhere else.
pub fn slot_mut<T>(slots: &mut Vec<Option<T>>, index: usize) -> (r: Option<&mut T>)
    ensures
        r is Some <==> slot_at(old(slots)@, index as int) is Some,
        r is Some ==> *r->0 == slot_at(old(slots)@, index as int)->0
            && final(slots)@ == old(slots)@.update(index as int, Some(*final(r->0))),
        r is None ==> final(slots)@ == old(slots)@,
{
    if index < slots.len() {
        slots[index].as_mut()
    } else {
        None
    }
}

/// Empties the slot at `index`; an index out of range changes nothing.
pub fn clear_slot<T>(slots: &mut Vec<Option<T>>, index: usize)
    ensures
        final(slots)@ == removed(old(slots)@, index as int),
{
    if index < slots.len() {
        slots.set(index, None);
    }
}

} // verus!
