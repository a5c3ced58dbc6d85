//! The interface-side variable: the typed value a supervisory layer
//! sees, with last-known-value retention.
//!
//! The variable shows a posted value to the outside. A successful
//! device operation posts the fresh value and remembers it; a failure
//! is reported as a rejection and changes nothing. When the outside
//! writes a new value, the binding snapshots it, rolls the visible
//! contents back to the last accepted value (so a rejected write is
//! visibly undone), and posts the snapshot again only when the device
//! acknowledged it.

use vstd::prelude::*;
use crate::types::DevError;
use crate::utils::Dup;

verus! {

/// The views of an optional value.
pub open spec fn opt_view<T: View>(o: Option<T>) -> Option<<T as View>::V> {
    match o {
        Some(v) => Some(v@),
        None => None,
    }
}

/// Two binding-level errors of the same kind carrying the same
/// payload.
pub open spec fn same_dev_error(a: DevError, b: DevError) -> bool {
    match (a, b) {
        (DevError::NoResponse, DevError::NoResponse) => true,
        (DevError::Parse(x), DevError::Parse(y)) => x@ == y@,
        _ => false,
    }
}

/// The registry name of one device's interface variable:
/// `PS<addr>:<field>`.
pub open spec fn var_name_spec(addr: u8, field: Seq<u8>) -> Seq<u8> {
    seq![80u8, 83u8] + crate::text::dec_u8(addr) + seq![58u8] + field
}

/// Build the registry name of one device's interface variable, as the
/// startup code claims variables out of the registry.
pub fn var_name(addr: u8, field: &[u8]) -> (r: Vec<u8>)
    ensures
        r@ == var_name_spec(addr, field@),
{
    let mut out: Vec<u8> = Vec::new();
    out.push(80);
    out.push(83);
    let digits = crate::text::render_u8(addr);
    out.extend_from_slice(digits.as_slice());
    out.push(58);
    out.extend_from_slice(field);
    proof {
        assert(out@ =~= var_name_spec(addr, field@));
    }
    out
}

pub struct IfaceVariable<T> {
    /// The value currently visible on the interface side, if any value
    /// has been posted yet.
    pub posted: Option<T>,
    /// The last value a completed operation established, on either
    /// side.
    pub last_value: Option<T>,
}

impl<T: Dup> IfaceVariable<T> {
    /// A fresh variable: nothing posted, nothing remembered.
    pub fn new() -> (r: Self)
        ensures
            (r.posted is None),
            (r.last_value is None),
    {
        IfaceVariable { posted: None, last_value: None }
    }

    /// Publish a device-operation outcome. A value is posted and
    /// remembered, and the write is accepted; an error leaves the
    /// variable as it was and is reported back as the rejection
    /// reason.
    pub fn write(&mut self, result: Result<T, DevError>) -> (r: Option<DevError>)
        ensures
            (match result {
                Ok(v) => {
                    &&& final(self).posted == Some(v)
                    &&& opt_view(final(self).posted) == Some(v@)
                    &&& opt_view(final(self).last_value) == Some(v@)
                    &&& r == None::<DevError>
                },
                Err(e) => {
                    &&& opt_view(final(self).posted) == opt_view(old(self).posted)
                    &&& opt_view(final(self).last_value) == opt_view(old(self).last_value)
                    &&& (match r {
                        Some(e2) => same_dev_error(e2, e),
                        None => false,
                    })
                },
            }),
    {
        match result {
            Ok(v) => {
                let c = v.dup();
                self.last_value = Some(c);
                self.posted = Some(v);
                None
            },
            Err(e) => Some(e),
        }
    }

    /// The outside peer wrote a new value into the variable.
    pub fn peer_write(&mut self, v: T)
        ensures
            opt_view(final(self).posted) == Some(v@),
            opt_view(final(self).last_value) == opt_view(old(self).last_value),
    {
        self.posted = Some(v);
    }

    /// Take a snapshot of the posted value to carry through a device
    /// write, rolling the visible contents back to the last accepted
    /// value so a rejected write is visibly undone. Yields nothing if
    /// no value was ever posted.
    pub fn begin_read(&mut self) -> (r: Option<T>)
        ensures
            (match old(self).posted {
                None => r is None && (final(self).posted is None) && opt_view(
                    final(self).last_value,
                ) == opt_view(old(self).last_value),
                Some(v) => {
                    &&& (match r {
                        Some(snap) => snap@ == v@,
                        None => false,
                    })
                    &&& opt_view(final(self).posted) == (match old(self).last_value {
                        Some(lv) => Some(lv@),
                        None => Some(v@),
                    })
                    &&& opt_view(final(self).last_value) == opt_view(old(self).last_value)
                },
            }),
    {
        match &self.posted {
            None => None,
            Some(v) => {
                let snap = v.dup();
                match &self.last_value {
                    Some(lv) => {
                        let rolled = lv.dup();
                        self.posted = Some(rolled);
                    },
                    None => {},
                }
                Some(snap)
            },
        }
    }

    /// The device acknowledged the snapshotted value: post it and
    /// remember it as the authoritative value.
    pub fn accept(&mut self, snapshot: T)
        ensures
            opt_view(final(self).posted) == Some(snapshot@),
            opt_view(final(self).last_value) == Some(snapshot@),
    {
        let c = snapshot.dup();
        self.posted = Some(c);
        self.last_value = Some(snapshot);
    }
}

} // verus!
