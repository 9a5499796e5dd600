//! The component storage: one erased column per component type, found by
//! the type's identifier.
use crate::column::{add_slot, clear_slot, cleared, grown, lemma_presence, presence, slot, slot_mut};
use crate::erased::{filled_slots, ErasedColumn};
use std::any::TypeId;
use vstd::prelude::*;
use vstd::std_specs::iter::IteratorSpec;

verus! {

/// One registered component type and its column.
struct Entry {
    id: TypeId,
    column: ErasedColumn,
}

/// The identifiers of `entries`, in registration order.
spec fn ids_of(entries: Seq<Entry>) -> Seq<TypeId> {
    entries.map_values(|e: Entry| e.id)
}

/// The columns of `entries`, in registration order.
spec fn columns_of(entries: Seq<Entry>) -> Seq<ErasedColumn> {
    entries.map_values(|e: Entry| e.column)
}

/// The identifiers after registering `id`: unchanged when it is already
/// there, else `id` is appended.
pub open spec fn registered(ids: Seq<TypeId>, id: TypeId) -> Seq<TypeId> {
    if ids.contains(id) {
        ids
    } else {
        ids.push(id)
    }
}

/// Storage for components of any number of types, each type with its own
/// sparse array of slots indexed by entity.
pub struct ComponentStorage {
    entries: Vec<Entry>,
}

impl View for ComponentStorage {
    type V = Seq<TypeId>;

    /// The identifiers of the registered types, in registration order.
    closed spec fn view(&self) -> Seq<TypeId> {
        ids_of(self.entries@)
    }
}

impl ComponentStorage {
    /// No type is registered twice.
    pub closed spec fn wf(&self) -> bool {
        self@.no_duplicates()
    }

    /// An empty storage, with no registered type.
    pub fn new() -> (r: ComponentStorage)
        ensures
            r.wf(),
            r@ == Seq::<TypeId>::empty(),
    {
        let r = ComponentStorage { entries: Vec::new() };
        assert(r@ =~= Seq::<TypeId>::empty());
        r
    }

    /// The columns, in the order of `self@`.
    pub closed spec fn columns(&self) -> Seq<ErasedColumn> {
        columns_of(self.entries@)
    }

    /// The column registered for `id`, if there is one.
    pub open spec fn column_of(&self, id: TypeId) -> Option<ErasedColumn> {
        if self@.contains(id) {
            Some(self.columns()[self@.index_of(id)])
        } else {
            None
        }
    }

    /// Which slots of the column of `id` are filled; none when `id` has no
    /// column.
    pub open spec fn filled(&self, id: TypeId) -> Seq<bool> {
        match self.column_of(id) {
            Some(c) => filled_slots(c),
            None => Seq::empty(),
        }
    }

    /// How many types have a column.
    pub fn type_count(&self) -> (r: usize)
        ensures
            r == self@.len(),
    {
        self.entries.len()
    }

    /// The position of the entry for `id`, if that type is registered.
    fn find(&self, id: &TypeId) -> (r: Option<usize>)
        ensures
            match r {
                Some(i) => i < self@.len() && self@[i as int] == *id,
                None => !self@.contains(*id),
            },
    {
        let mut i: usize = 0;
        while i < self.entries.len()
            invariant
                i <= self.entries@.len(),
                forall|j: int| 0 <= j < i ==> self@[j] != *id,
            decreases self.entries@.len() - i,
        {
            if self.entries[i].id == *id {
                return Some(i);
            }
            i += 1;
        }
        None
    }
}

impl Default for ComponentStorage {
    /// An empty storage, with no registered type.
    fn default() -> (r: ComponentStorage)
        ensures
            r.wf(),
            r@ == Seq::<TypeId>::empty(),
    {
        ComponentStorage::new()
    }
}

/// `after` keeps the registered types of `before` in place, with at most
/// `id` added, and every column but the one of `id` as it was.
pub open spec fn touches_only(before: &ComponentStorage, after: &ComponentStorage, id: TypeId) -> bool {
    &&& (after@ == before@ || after@ == registered(before@, id))
    &&& after.columns().len() == after@.len()
    &&& forall|j: int|
        0 <= j < before@.len() && before@[j] != id ==> #[trigger] after.columns()[j] == before.columns()[j]
}

/// A change confined to the column of `id` leaves the column of every other
/// type as it was, registered or not.
pub proof fn lemma_type_isolation(before: &ComponentStorage, after: &ComponentStorage, id: TypeId, other: TypeId)
    requires
        before.wf(),
        touches_only(before, after, id),
        other != id,
    ensures
        after.column_of(other) == before.column_of(other),
{
    if before@.contains(other) {
        let k = before@.index_of(other);
        assert(after@[k] == other);
        assert(after@.contains(other));
        let m = after@.index_of(other);
        assert(m < before@.len());
        assert(before@[m] == other);
    } else {
        if after@.contains(other) {
            let m = choose|m: int| 0 <= m < after@.len() && after@[m] == other;
            assert(before@[m] == other);
        }
    }
}

/// In a sequence without duplicates an element's index is its only one.
proof fn lemma_index_of_unique(ids: Seq<TypeId>, i: int)
    requires
        ids.no_duplicates(),
        0 <= i < ids.len(),
    ensures
        ids.contains(ids[i]),
        ids.index_of(ids[i]) == i,
{
    assert(ids.contains(ids[i]));
}

/// Registering a type that is already registered changes nothing, and
/// after any number of registrations each identifier appears exactly once.
pub proof fn lemma_register_idempotent(ids: Seq<TypeId>, id: TypeId)
    requires
        ids.no_duplicates(),
    ensures
        registered(registered(ids, id), id) == registered(ids, id),
        registered(ids, id).no_duplicates(),
        registered(ids, id).contains(id),
        forall|other: TypeId| ids.contains(other) ==> #[trigger] registered(ids, id).contains(other),
{
    if !ids.contains(id) {
        assert(registered(ids, id).last() == id);
        assert forall|other: TypeId| ids.contains(other) implies #[trigger] registered(ids, id).contains(other) by {
            let k = choose|k: int| 0 <= k < ids.len() && ids[k] == other;
            assert(registered(ids, id)[k] == other);
        }
    }
}

impl ComponentStorage {
    /// Appends an entry for `id`, with an empty column of `T`s, unless one
    /// is there; no existing column changes.
    fn register_id<T: 'static>(&mut self, id: TypeId)
        requires
            old(self).wf(),
        ensures
            final(self).wf(),
            final(self)@ == registered(old(self)@, id),
            final(self).filled(id) == old(self).filled(id),
            final(self).columns().len() == final(self)@.len(),
            forall|j: int| 0 <= j < old(self)@.len() ==> #[trigger] final(self).columns()[j] == old(self).columns()[j],
    {
        match self.find(&id) {
            Some(_) => {},
            None => {
                let column = ErasedColumn::empty::<T>();
                self.entries.push(Entry { id, column });
                assert(self@ =~= old(self)@.push(id));
            },
        }
    }

    /// The column registered for `id`, as `Vec<Option<T>>`.
    fn typed_column<T: 'static>(&self, id: &TypeId) -> (r: Option<&Vec<Option<T>>>)
        requires
            self.wf(),
        ensures
            r is Some ==> self@.contains(*id) && presence(r->0@) == self.filled(*id),
    {
        match self.find(id) {
            Some(i) => {
                proof {
                    lemma_index_of_unique(self@, i as int);
                }
                self.entries[i].column.typed::<T>()
            },
            None => None,
        }
    }

    /// The column registered for `id`, as `Vec<Option<T>>`, for writing;
    /// nothing else can change through it.
    fn typed_column_mut<T: 'static>(&mut self, id: &TypeId) -> (r: Option<&mut Vec<Option<T>>>)
        requires
            old(self).wf(),
        ensures
            final(self).wf(),
            touches_only(old(self), final(self), *id),
            final(self)@ == old(self)@,
            r is Some ==> old(self)@.contains(*id) && presence(r->0@) == old(self).filled(*id)
                && final(self).filled(*id) == presence(final(r->0)@),
            r is None ==> final(self).columns() == old(self).columns(),
    {
        match self.find(id) {
            Some(i) => {
                proof {
                    lemma_index_of_unique(self@, i as int);
                }
                let entry = &mut self.entries[i];
                let r = entry.column.typed_mut::<T>();
                proof {
                    let after = after_borrow(self.entries)@;
                    assert(ids_of(after) =~= ids_of(old(self).entries@));
                    assert forall|j: int|
                        0 <= j < old(self)@.len() && old(self)@[j] != *id implies #[trigger] columns_of(after)[j]
                        == old(self).columns()[j] by {
                        assert(j != i);
                    }
                }
                r
            },
            None => None,
        }
    }

    /// Gives `T` a column, empty, unless it has one; an existing column is
    /// left as it is.
    pub fn add_type<T: 'static>(&mut self)
        requires
            old(self).wf(),
        ensures
            final(self).wf(),
            exists|id: TypeId| #[trigger] registered(old(self)@, id) == final(self)@,
            final(self).columns().len() == final(self)@.len(),
            forall|j: int| 0 <= j < old(self)@.len() ==> #[trigger] final(self).columns()[j] == old(self).columns()[j],
    {
        let id = TypeId::of::<T>();
        self.register_id::<T>(id);
    }

    /// The column of `T`, if `T` has one.
    pub fn get_vec<T: 'static>(&self) -> (r: Option<&Vec<Option<T>>>)
        requires
            self.wf(),
        ensures
            self@.len() == 0 ==> r is None,
            r is Some ==> exists|id: TypeId| #[trigger] self.filled(id) == presence(r->0@) && self@.contains(id),
    {
        let id = TypeId::of::<T>();
        self.typed_column::<T>(&id)
    }

    /// The column of `T`, if `T` has one, for writing; no type is
    /// registered and no other column changes.
    pub fn get_mut_vec<T: 'static>(&mut self) -> (r: Option<&mut Vec<Option<T>>>)
        requires
            old(self).wf(),
        ensures
            final(self).wf(),
            final(self)@ == old(self)@,
            old(self)@.len() == 0 ==> r is None,
            exists|id: TypeId|
                #[trigger] touches_only(old(self), final(self), id) && (r is Some ==> presence(r->0@)
                    == old(self).filled(id) && final(self).filled(id) == presence(final(r->0)@)),
    {
        let id = TypeId::of::<T>();
        self.typed_column_mut::<T>(&id)
    }

    /// Stores `component` for entity `index`, registering `T` first if it
    /// is new. A slot the column already reaches is left as it is; past the
    /// end the column grows to `index + 1` slots, the new ones empty but the
    /// one at `index`. The column of no other type changes.
    pub fn add_component<T: 'static>(&mut self, index: usize, component: T)
        requires
            old(self).wf(),
            index < usize::MAX,
        ensures
            final(self).wf(),
            exists|id: TypeId|
                #[trigger] registered(old(self)@, id) == final(self)@ && touches_only(old(self), final(self), id)
                    && (final(self).filled(id) == old(self).filled(id) || final(self).filled(id) == grown(
                    old(self).filled(id),
                    index as int,
                )),
    {
        let id = TypeId::of::<T>();
        self.register_id::<T>(id);
        match self.typed_column_mut::<T>(&id) {
            Some(slots) => {
                proof {
                    lemma_presence(slots@, index as int, component);
                }
                add_slot(slots, index, component);
            },
            None => {},
        }
        assert(touches_only(old(self), self, id));
    }

    /// The component of type `T` of entity `index`, if there is one.
    pub fn get_component<T: 'static>(&self, index: usize) -> (r: Option<&T>)
        requires
            self.wf(),
        ensures
            self@.len() == 0 ==> r is None,
            r is Some ==> exists|id: TypeId|
                self@.contains(id) && index < self.filled(id).len() && #[trigger] self.filled(id)[index as int],
    {
        let id = TypeId::of::<T>();
        match self.typed_column::<T>(&id) {
            Some(slots) => {
                let r = slot(slots, index);
                proof {
                    if r is Some {
                        assert(presence(slots@)[index as int]);
                        assert(self.filled(id)[index as int]);
                    }
                }
                r
            },
            None => None,
        }
    }

    /// The component of type `T` of entity `index`, if there is one, for
    /// writing. Which slots are filled stays as it is, and no other column
    /// changes.
    pub fn get_mut_component<T: 'static>(&mut self, index: usize) -> (r: Option<&mut T>)
        requires
            old(self).wf(),
        ensures
            final(self).wf(),
            final(self)@ == old(self)@,
            old(self)@.len() == 0 ==> r is None,
            exists|id: TypeId|
                #[trigger] touches_only(old(self), final(self), id) && final(self).filled(id) == old(self).filled(
                    id,
                ),
    {
        let id = TypeId::of::<T>();
        match self.typed_column_mut::<T>(&id) {
            Some(slots) => {
                proof {
                    if (index as int) < slots@.len() {
                        lemma_presence(slots@, index as int, arbitrary());
                    }
                }
                slot_mut(slots, index)
            },
            None => None,
        }
    }

    /// The slots of `T`, one per entity index and empty ones included, if
    /// `T` has a column.
    pub fn get_components_iter<T: 'static>(&self) -> (r: Option<std::slice::Iter<'_, Option<T>>>)
        requires
            self.wf(),
        ensures
            self@.len() == 0 ==> r is None,
            r is Some ==> exists|id: TypeId|
                self@.contains(id) && #[trigger] self.filled(id) == presence(r->0.remaining().map_values(|o: &Option<T>| *o)),
    {
        match self.get_vec::<T>() {
            Some(slots) => {
                let it = slots.iter();
                proof {
                    assert(it.remaining().map_values(|o: &Option<T>| *o) =~= slots@);
                }
                Some(it)
            },
            None => None,
        }
    }

    /// Empties the slot of entity `index` for `T`. Neither an unknown type
    /// nor an index past the end is a fault: both change nothing. The
    /// column keeps its length, and no other column changes.
    pub fn remove_component<T: 'static>(&mut self, index: usize)
        requires
            old(self).wf(),
        ensures
            final(self).wf(),
            final(self)@ == old(self)@,
            exists|id: TypeId|
                #[trigger] touches_only(old(self), final(self), id) && (final(self).filled(id) == old(self).filled(
                    id,
                ) || final(self).filled(id) == cleared(old(self).filled(id), index as int)),
    {
        let id = TypeId::of::<T>();
        match self.typed_column_mut::<T>(&id) {
            Some(slots) => {
                proof {
                    lemma_presence(slots@, index as int, arbitrary());
                }
                clear_slot(slots, index);
            },
            None => {},
        }
    }
}

} // verus!
