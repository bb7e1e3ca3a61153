//! Offset-based references into an arena's content region.
//!
//! An allocation is identified by its distance from the bump origin (the end
//! of the content region), not by an absolute address. The distance is stable
//! when an owned arena grows, because growth keeps the allocated bytes at the
//! same distance from the end of the new, larger region.

use vstd::prelude::*;

use crate::arena::ArenaModel;
use core::marker::PhantomData;

verus! {

/// The mathematical shape of an arena reference: how far the referenced
/// range starts from the bump origin, and how many bytes it covers.
pub ghost struct RefModel {
    /// Distance from the end of the content region to the start of the range.
    pub back: nat,
    /// Number of bytes covered by the reference.
    pub len: nat,
}

/// A reference to a range of bytes inside one arena's content region.
///
/// The reference carries a byte offset rather than an address, so it stays
/// valid across growth of an owned arena and across persistence of the
/// content. It must be resolved against the arena that issued it: pairing it
/// with another arena is a caller error, which in this offset-based model
/// yields well-defined but meaningless bytes rather than undefined behavior.
/// The type parameter records what the referenced bytes are meant to hold;
/// the reference itself is byte-granular.
#[derive(Debug)]
pub struct ArenaRefMut<T> {
    back: u32,
    len: u32,
    marker: PhantomData<T>,
}

impl<T> View for ArenaRefMut<T> {
    type V = RefModel;

    closed spec fn view(&self) -> RefModel {
        RefModel { back: self.back as nat, len: self.len as nat }
    }
}

impl<T> Clone for ArenaRefMut<T> {
    fn clone(&self) -> (r: Self)
        ensures
            r@ == self@,
    {
        ArenaRefMut { back: self.back, len: self.len, marker: PhantomData }
    }
}

impl<T> Copy for ArenaRefMut<T> {

}

impl<T> ArenaRefMut<T> {
    /// The reference points into the allocated part of an arena in state `m`.
    pub open spec fn valid_for(self, m: ArenaModel) -> bool {
        self@.len <= self@.back <= m.used
    }

    /// Packs an offset-from-end and a length into a reference.
    pub(crate) fn make(back: u32, len: u32) -> (r: Self)
        ensures
            r@ == (RefModel { back: back as nat, len: len as nat }),
    {
        ArenaRefMut { back, len, marker: PhantomData }
    }

    /// Distance from the end of the content region to the start of the
    /// referenced range.
    pub fn back_offset(&self) -> (b: u32)
        ensures
            b as nat == self@.back,
    {
        self.back
    }

    /// Number of bytes covered by the reference.
    pub fn byte_len(&self) -> (n: u32)
        ensures
            n as nat == self@.len,
    {
        self.len
    }
}

} // verus!
