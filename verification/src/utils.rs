//! Small shared conversions: rendering values as wire bytes, and
//! making view-preserving copies.

use vstd::prelude::*;
use vstd::slice::slice_to_vec;
use crate::num::DecNum;
use crate::text::dec_u8;

verus! {

/// A value with a canonical byte rendering on the wire.
pub trait ToBytes: View {
    /// The rendering, at the specification level.
    spec fn bytes_spec(&self) -> Seq<u8>;

    /// Render this value as bytes.
    fn to_bytes(&self) -> (r: Vec<u8>)
        ensures
            r@ == self.bytes_spec(),
    ;
}

impl ToBytes for DecNum {
    open spec fn bytes_spec(&self) -> Seq<u8> {
        self.render()
    }

    fn to_bytes(&self) -> (r: Vec<u8>) {
        self.to_text()
    }
}

impl ToBytes for u8 {
    open spec fn bytes_spec(&self) -> Seq<u8> {
        dec_u8(*self)
    }

    fn to_bytes(&self) -> (r: Vec<u8>) {
        crate::text::render_u8(*self)
    }
}

/// A value that can be copied without losing anything its view shows.
/// The bindings keep such copies as last-known values.
pub trait Dup: View + Sized {
    /// Make a copy with the same view.
    fn dup(&self) -> (r: Self)
        ensures
            r@ == self@,
    ;
}

impl Dup for DecNum {
    fn dup(&self) -> (r: Self) {
        self.duplicate()
    }
}

impl Dup for u16 {
    fn dup(&self) -> (r: Self) {
        *self
    }
}

impl Dup for Vec<u8> {
    fn dup(&self) -> (r: Self) {
        slice_to_vec(self.as_slice())
    }
}

} // verus!
