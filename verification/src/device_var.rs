//! The device-side variable: one named parameter of one device,
//! reached over the bus through a commander.
//!
//! A read sends `NAME?` and parses the reply; a write sends
//! `NAME <value>` and expects exactly `OK` back. The exchanges
//! themselves travel through the multiplexer; these functions build the
//! command text and digest the optional reply, where a missing reply
//! means the multiplexer dropped the exchange.

use vstd::prelude::*;
use core::marker::PhantomData;
use crate::conn::ok_text;
use crate::parser::Parser;
use crate::types::DevError;

verus! {

/// ASCII question mark: the query suffix of the wire protocol.
pub const QUERY_MARK: u8 = 63;

/// ASCII space: separates a command name from its argument.
pub const SPACE: u8 = 32;

/// Digest the reply to a set command: only the exact reply `OK`
/// acknowledges it; a missing reply means the multiplexer dropped the
/// exchange and any other reply is a protocol-level surprise.
pub fn interpret_write_reply(res: Option<Vec<u8>>) -> (r: Result<(), DevError>)
    ensures
        (match res {
            None => r matches Err(DevError::NoResponse),
            Some(line) => {
                if line@ == ok_text() {
                    r is Ok
                } else {
                    match r {
                        Err(DevError::Parse(t)) => t@ == line@,
                        _ => false,
                    }
                }
            },
        }),
{
    match res {
        None => Err(DevError::NoResponse),
        Some(line) => {
            let ok = crate::conn::ok_response();
            if crate::text::bytes_eq(line.as_slice(), ok.as_slice()) {
                Ok(())
            } else {
                Err(DevError::Parse(line))
            }
        },
    }
}

/// A typed variable on the device side: the wire name of the
/// parameter, and the parser translating its textual form.
pub struct DeviceVariable<T: View, P: Parser<T>> {
    /// The device command name, e.g. `PV` or `OUT`.
    pub name: Vec<u8>,
    /// The adapter between wire text and values.
    pub parser: P,
    pub marker: PhantomData<T>,
}

impl<T: View, P: Parser<T>> DeviceVariable<T, P> {
    pub fn new(name: Vec<u8>, parser: P) -> (r: Self)
        ensures
            r.name@ == name@,
            r.parser == parser,
    {
        DeviceVariable { name, parser, marker: PhantomData }
    }

    /// The query command for this parameter: `NAME?`.
    pub fn read_cmd(&self) -> (r: Vec<u8>)
        ensures
            r@ == self.name@ + seq![QUERY_MARK],
    {
        let mut out: Vec<u8> = Vec::new();
        out.extend_from_slice(self.name.as_slice());
        out.push(QUERY_MARK);
        proof {
            assert(out@ =~= self.name@ + seq![QUERY_MARK]);
        }
        out
    }

    /// The set command for this parameter: `NAME <value>`.
    pub fn write_cmd(&self, v: &T) -> (r: Vec<u8>)
        requires
            self.parser.in_domain(v),
        ensures
            r@ == self.name@ + seq![SPACE] + self.parser.stores(v),
    {
        let mut out: Vec<u8> = Vec::new();
        out.extend_from_slice(self.name.as_slice());
        out.push(SPACE);
        let stored = self.parser.store(v);
        out.extend_from_slice(stored.as_slice());
        proof {
            assert(out@ =~= self.name@ + seq![SPACE] + self.parser.stores(v));
        }
        out
    }

    /// Digest the reply to this parameter's query: a missing reply
    /// means the multiplexer dropped the exchange; a reply the parser
    /// cannot decode is handed back inside the error.
    pub fn interpret_read_reply(&self, res: Option<Vec<u8>>) -> (r: Result<T, DevError>)
        ensures
            (match res {
                None => r matches Err(DevError::NoResponse),
                Some(line) => {
                    if self.parser.loadable(line@) {
                        match r {
                            Ok(v) => self.parser.load_ok(line@, &v),
                            Err(_) => false,
                        }
                    } else {
                        match r {
                            Err(DevError::Parse(t)) => t@ == line@,
                            _ => false,
                        }
                    }
                },
            }),
    {
        match res {
            None => Err(DevError::NoResponse),
            Some(line) => {
                match self.parser.load(line) {
                    Ok(v) => Ok(v),
                    Err(t) => Err(DevError::Parse(t)),
                }
            },
        }
    }
}

} // verus!
