//! Parameter bindings: the steps that mirror one parameter between its
//! interface-side variable and its device-side variable.
//!
//! Three binding shapes share these steps. An init-only binding
//! publishes one read when the device gate rises. An input binding
//! publishes a read on every poll while the device gate is up. An output
//! binding publishes a read when the device gate rises, then relays each
//! interface-side write to the device at immediate priority, accepting
//! on `OK` and rejecting otherwise. While the device gate is down, every
//! binding publishes the missing-device error.

use vstd::prelude::*;
use crate::device_var::DeviceVariable;
use crate::iface::{opt_view, same_dev_error, IfaceVariable};
use crate::parser::Parser;
use crate::types::DevError;
use crate::utils::Dup;

verus! {

/// Publish the outcome of one device read: the reply to `NAME?` is
/// parsed and posted, so the interface side shows the device's value —
/// in particular, the device's initial value appears there on the first
/// read after the device gate rises, even if the interface side was never
/// written. A missing or undecodable reply is published as a
/// rejection and changes nothing.
pub fn publish_read<T: Dup, P: Parser<T>>(
    iface: &mut IfaceVariable<T>,
    dev: &DeviceVariable<T, P>,
    res: Option<Vec<u8>>,
) -> (r: Option<DevError>)
    ensures
        (match res {
            None => {
                &&& opt_view(final(iface).posted) == opt_view(old(iface).posted)
                &&& opt_view(final(iface).last_value) == opt_view(old(iface).last_value)
                &&& (match r {
                    Some(e) => e matches DevError::NoResponse,
                    None => false,
                })
            },
            Some(line) => {
                if dev.parser.loadable(line@) {
                    &&& (match final(iface).posted {
                        Some(v) => dev.parser.load_ok(line@, &v),
                        None => false,
                    })
                    &&& opt_view(final(iface).last_value) == opt_view(final(iface).posted)
                    &&& r == None::<DevError>
                } else {
                    &&& opt_view(final(iface).posted) == opt_view(old(iface).posted)
                    &&& opt_view(final(iface).last_value) == opt_view(old(iface).last_value)
                    &&& (match r {
                        Some(DevError::Parse(t)) => t@ == line@,
                        _ => false,
                    })
                }
            },
        }),
{
    let outcome = dev.interpret_read_reply(res);
    iface.write(outcome)
}

/// Publish the missing-device error, as every binding does when the
/// gate goes down. The variable keeps its contents; the peer sees a
/// rejection.
pub fn publish_offline<T: Dup>(iface: &mut IfaceVariable<T>) -> (r: Option<DevError>)
    ensures
        opt_view(final(iface).posted) == opt_view(old(iface).posted),
        opt_view(final(iface).last_value) == opt_view(old(iface).last_value),
        (match r {
            Some(e) => e matches DevError::NoResponse,
            None => false,
        }),
{
    iface.write(Err(DevError::NoResponse))
}

/// Begin an output-binding write: snapshot the value the peer wrote
/// and build the device's set command. Yields nothing when no value is
/// posted. The visible contents roll back to the last accepted value
/// until the device acknowledges.
pub fn output_write_begin<T: Dup, P: Parser<T>>(
    iface: &mut IfaceVariable<T>,
    dev: &DeviceVariable<T, P>,
) -> (r: Option<(T, Vec<u8>)>)
    requires
        (match old(iface).posted {
            Some(v) => dev.parser.in_domain(&v),
            None => true,
        }),
    ensures
        (match old(iface).posted {
            None => r is None && opt_view(final(iface).posted) == opt_view(old(iface).posted)
                && opt_view(final(iface).last_value) == opt_view(old(iface).last_value),
            Some(v) => {
                &&& (match r {
                    Some(p) => p.0@ == v@ && p.1@ == dev.name@ + seq![crate::device_var::SPACE]
                        + dev.parser.stores(&p.0),
                    None => false,
                })
                &&& opt_view(final(iface).posted) == (match old(iface).last_value {
                    Some(lv) => Some(lv@),
                    None => Some(v@),
                })
                &&& opt_view(final(iface).last_value) == opt_view(old(iface).last_value)
            },
        }),
{
    let ghost posted0 = old(iface).posted;
    let snap = match iface.begin_read() {
        None => {
            return None;
        },
        Some(s) => s,
    };
    proof {
        // The snapshot carries the posted value's view, and the
        // parser's domain is a property of the view.
        let v = posted0->Some_0;
        assert(snap@ == v@);
        dev.parser.lemma_view_domain(&v, &snap);
    }
    let cmd = dev.write_cmd(&snap);
    Some((snap, cmd))
}

/// Finish an output-binding write: on the exact reply `OK` the
/// snapshot is accepted and becomes the authoritative value; a missing
/// reply rejects with the missing-device error and any other reply
/// rejects with the reply itself, leaving the rolled-back contents.
pub fn output_write_finish<T: Dup>(
    iface: &mut IfaceVariable<T>,
    snapshot: T,
    res: Option<Vec<u8>>,
) -> (r: Option<DevError>)
    ensures
        (match res {
            Some(line) => {
                if line@ == crate::conn::ok_text() {
                    &&& opt_view(final(iface).posted) == Some(snapshot@)
                    &&& opt_view(final(iface).last_value) == Some(snapshot@)
                    &&& r == None::<DevError>
                } else {
                    &&& opt_view(final(iface).posted) == opt_view(old(iface).posted)
                    &&& opt_view(final(iface).last_value) == opt_view(old(iface).last_value)
                    &&& (match r {
                        Some(DevError::Parse(t)) => t@ == line@,
                        _ => false,
                    })
                }
            },
            None => {
                &&& opt_view(final(iface).posted) == opt_view(old(iface).posted)
                &&& opt_view(final(iface).last_value) == opt_view(old(iface).last_value)
                &&& (match r {
                    Some(e) => e matches DevError::NoResponse,
                    None => false,
                })
            },
        }),
{
    match crate::device_var::interpret_write_reply(res) {
        Ok(()) => {
            iface.accept(snapshot);
            None
        },
        Err(e) => Some(e),
    }
}

} // verus!
