//! The boundary where a column's element type is forgotten and recovered.
//!
//! The registry keeps each column behind `Box<dyn Any>`, keyed by the
//! column's `TypeId`. Verus cannot look through `dyn Any`, so the box and the
//! checked downcasts out of it are trusted items, each a single call into
//! `std::any`.
use crate::column::presence;
use std::any::{Any, TypeId};
use vstd::prelude::*;

verus! {

/// Which slots of the `Vec<Option<T>>` held by `column` are filled, whatever
/// its element type `T`.
pub uninterp spec fn filled_slots(column: ErasedColumn) -> Seq<bool>;

/// `std::any::TypeId`, carried through as an opaque value.
#[verifier::external_type_specification]
#[verifier::external_body]
pub struct ExTypeId(TypeId);

/// Relies on `std::any::TypeId::of`: the identifier of the type `T`.
pub assume_specification<T: ?Sized + 'static>[ TypeId::of::<T> ]() -> TypeId;

/// Relies on `<TypeId as PartialEq>::eq`: two identifiers compare equal
/// exactly when they are the same value.
pub assume_specification[ <TypeId as PartialEq>::eq ](a: &TypeId, b: &TypeId) -> (r: bool)
    ensures
        r == (*a == *b),
;

/// A column of some element type `T`, held as `Vec<Option<T>>` behind
/// `Box<dyn Any>`, as `std::any` alone can hold it.
#[verifier::external_body]
pub struct ErasedColumn {
    inner: Box<dyn Any>,
}

impl ErasedColumn {
    /// Relies on `Box::new` with an unsizing coercion to `Box<dyn Any>`: an
    /// empty column of `T`s.
    #[verifier::external_body]
    pub(crate) fn empty<T: 'static>() -> (r: ErasedColumn)
        ensures
            filled_slots(r) == Seq::<bool>::empty(),
    {
        let slots: Vec<Option<T>> = Vec::new();
        ErasedColumn { inner: Box::new(slots) }
    }

    /// Relies on `<dyn Any>::downcast_ref`: the column as `Vec<Option<T>>`,
    /// or `None` when it holds another element type.
    #[verifier::external_body]
    pub(crate) fn typed<T: 'static>(&self) -> (r: Option<&Vec<Option<T>>>)
        ensures
            r is Some ==> presence(r->0@) == filled_slots(*self),
    {
        self.inner.downcast_ref::<Vec<Option<T>>>()
    }

    /// Relies on `<dyn Any>::downcast_mut`: the column as `Vec<Option<T>>`,
    /// or `None` when it holds another element type.
    #[verifier::external_body]
    pub(crate) fn typed_mut<T: 'static>(&mut self) -> (r: Option<&mut Vec<Option<T>>>)
        ensures
            r is Some ==> presence(r->0@) == filled_slots(*old(self)) && filled_slots(*final(self))
                == presence(final(r->0)@),
            r is None ==> *final(self) == *old(self),
    {
        self.inner.downcast_mut::<Vec<Option<T>>>()
    }
}

} // verus!
