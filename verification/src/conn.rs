//! The framed-connection retry policy and the addressed-connection
//! cache.
//!
//! One framed line exchange waits a fixed inter-command delay, writes
//! the command, and reads one terminated line, all under a timeout;
//! on timeout it is retried up to a small bound. The addressed wrapper
//! remembers which device answered last: it issues `ADR n` only when
//! the target changes, expects exactly `OK` back, and forgets the
//! cached address when an exchange fails.

use vstd::prelude::*;
use crate::types::{Addr, Error};
use crate::text::dec_u8;

verus! {

/// Inter-command bus turnaround delay, in milliseconds.
pub const CMD_DELAY_MS: u64 = 10;

/// Per-attempt timeout, in milliseconds.
pub const CMD_TIMEOUT_MS: u64 = 200;

/// How many additional attempts follow a first timed-out attempt.
pub const CMD_RETRIES: u64 = 2;

/// The exact reply that acknowledges an addressing or set command.
pub open spec fn ok_text() -> Seq<u8> {
    seq![79u8, 75u8]
}

/// The reply that acknowledges an addressing or set command: `OK`.
pub fn ok_response() -> (r: Vec<u8>)
    ensures
        r@ == ok_text(),
{
    let mut v: Vec<u8> = Vec::new();
    v.push(79);
    v.push(75);
    proof {
        assert(v@ =~= ok_text());
    }
    v
}

/// The addressing command for a device: `ADR ` followed by the decimal
/// address.
pub open spec fn adr_cmd_spec(addr: Addr) -> Seq<u8> {
    seq![65u8, 68u8, 82u8, 32u8] + dec_u8(addr)
}

/// Render the addressing command for a device.
pub fn adr_command(addr: Addr) -> (r: Vec<u8>)
    ensures
        r@ == adr_cmd_spec(addr),
{
    let mut v: Vec<u8> = Vec::new();
    v.push(65);
    v.push(68);
    v.push(82);
    v.push(32);
    let digits = crate::text::render_u8(addr);
    v.extend_from_slice(digits.as_slice());
    proof {
        assert(v@ =~= adr_cmd_spec(addr));
    }
    v
}

/// Two errors of the same kind carrying the same payload.
pub open spec fn same_error(a: Error, b: Error) -> bool {
    match (a, b) {
        (Error::Io, Error::Io) => true,
        (Error::Decode, Error::Decode) => true,
        (Error::Timeout, Error::Timeout) => true,
        (Error::Device(x), Error::Device(y)) => x@ == y@,
        _ => false,
    }
}

/// The attempt budget of one framed line exchange. Each attempt costs
/// at most the turnaround delay plus the timeout; after
/// `CMD_RETRIES + 1` timed-out attempts the exchange resolves to
/// `Timeout`.
pub struct LineRetry {
    /// Attempts begun so far.
    pub attempts: u64,
}

impl LineRetry {
    /// The attempt counter never passes its budget.
    pub open spec fn wf(&self) -> bool {
        self.attempts <= CMD_RETRIES + 1
    }

    /// A fresh exchange: no attempt made yet.
    pub fn new() -> (r: LineRetry)
        ensures
            r.wf(),
            r.attempts == 0,
    {
        LineRetry { attempts: 0 }
    }

    /// Ask to make one more attempt. Grants exactly `CMD_RETRIES + 1`
    /// attempts in total; once they are spent the exchange has timed
    /// out.
    pub fn begin_attempt(&mut self) -> (go: bool)
        requires
            old(self).wf(),
        ensures
            final(self).wf(),
            go == (old(self).attempts < CMD_RETRIES + 1),
            go ==> final(self).attempts == old(self).attempts + 1,
            !go ==> *final(self) == *old(self),
    {
        if self.attempts < CMD_RETRIES + 1 {
            self.attempts = self.attempts + 1;
            true
        } else {
            false
        }
    }

    /// An upper bound on the wall-clock time this exchange has spent,
    /// in milliseconds: every attempt costs at most the delay plus the
    /// timeout.
    pub fn elapsed_bound_ms(&self) -> (r: u64)
        requires
            self.wf(),
        ensures
            r == self.attempts * (CMD_DELAY_MS + CMD_TIMEOUT_MS),
    {
        self.attempts * (CMD_DELAY_MS + CMD_TIMEOUT_MS)
    }
}

/// A line exchange whose stream never produces a terminator makes
/// exactly `CMD_RETRIES + 1` attempts, and its total wall-clock time is
/// bounded by `(CMD_RETRIES + 1) * (CMD_DELAY_MS + CMD_TIMEOUT_MS)`
/// milliseconds.
pub proof fn lemma_retry_budget(m: LineRetry)
    requires
        m.wf(),
    ensures
        m.attempts <= CMD_RETRIES + 1,
        m.attempts * (CMD_DELAY_MS + CMD_TIMEOUT_MS) <= (CMD_RETRIES + 1) * (CMD_DELAY_MS
            + CMD_TIMEOUT_MS),
{
    assert(m.attempts * (CMD_DELAY_MS + CMD_TIMEOUT_MS) <= (CMD_RETRIES + 1) * (CMD_DELAY_MS
        + CMD_TIMEOUT_MS)) by (nonlinear_arith)
        requires
            m.attempts <= CMD_RETRIES + 1,
    ;
}

/// The addressed-connection cache: which device, if any, is currently
/// addressed on the bus.
pub struct AddrConnection {
    /// The last successfully addressed device.
    pub active: Option<Addr>,
}

impl AddrConnection {
    /// A fresh connection has addressed nobody.
    pub fn new() -> (r: AddrConnection)
        ensures
            r.active == None::<Addr>,
    {
        AddrConnection { active: None }
    }

    /// Whether a request for this device must be preceded by an
    /// addressing command.
    pub fn adr_needed(&self, addr: Addr) -> (r: bool)
        ensures
            r == (self.active != Some(addr)),
    {
        match self.active {
            Some(a) => a != addr,
            None => true,
        }
    }

    /// Digest the outcome of an `ADR n` exchange issued because the
    /// target changed. Exactly the reply `OK` switches the cache to the
    /// new device; any other reply is a device-level error and any
    /// transport error is passed on, both leaving the cache as it was.
    pub fn apply_adr(&mut self, addr: Addr, res: Result<Vec<u8>, Error>) -> (r: Result<(), Error>)
        ensures
            (match res {
                Ok(line) => {
                    if line@ == ok_text() {
                        r is Ok && final(self).active == Some(addr)
                    } else {
                        &&& (match r {
                            Err(Error::Device(t)) => t@ == line@,
                            _ => false,
                        })
                        &&& final(self).active == old(self).active
                    }
                },
                Err(e) => (match r {
                    Err(e2) => same_error(e2, e),
                    Ok(_) => false,
                }) && final(self).active == old(self).active,
            }),
    {
        match res {
            Ok(line) => {
                let ok = ok_response();
                if crate::text::bytes_eq(line.as_slice(), ok.as_slice()) {
                    self.active = Some(addr);
                    Ok(())
                } else {
                    Err(Error::Device(line))
                }
            },
            Err(e) => Err(e),
        }
    }

    /// Digest the outcome of the command exchange itself. A reply
    /// passes through; a transport error forgets the cached address,
    /// because the bus state is no longer known.
    pub fn apply_cmd(&mut self, res: Result<Vec<u8>, Error>) -> (r: Result<Vec<u8>, Error>)
        ensures
            (match res {
                Ok(line) => (match r {
                    Ok(l2) => l2@ == line@,
                    Err(_) => false,
                }) && final(self).active == old(self).active,
                Err(e) => (match r {
                    Err(e2) => same_error(e2, e),
                    Ok(_) => false,
                }) && final(self).active == None::<Addr>,
            }),
    {
        match res {
            Ok(line) => Ok(line),
            Err(e) => {
                self.active = None;
                Err(e)
            },
        }
    }

    /// Begin a liveness probe: the probe re-addresses the device from
    /// scratch, so the cache is cleared first.
    pub fn probe_begin(&mut self)
        ensures
            final(self).active == None::<Addr>,
    {
        self.active = None;
    }

    /// Digest the outcome of a liveness probe's `ADR n` exchange.
    /// `OK` proves the device online and re-addresses it; a timeout
    /// proves it offline; any other reply is a device-level error and
    /// any other transport error is passed on.
    pub fn apply_probe(&mut self, addr: Addr, res: Result<Vec<u8>, Error>) -> (r: Result<
        bool,
        Error,
    >)
        ensures
            (match res {
                Ok(line) => {
                    if line@ == ok_text() {
                        r == Ok::<bool, Error>(true) && final(self).active == Some(addr)
                    } else {
                        &&& (match r {
                            Err(Error::Device(t)) => t@ == line@,
                            _ => false,
                        })
                        &&& final(self).active == old(self).active
                    }
                },
                Err(Error::Timeout) => r == Ok::<bool, Error>(false) && final(self).active == old(
                    self,
                ).active,
                Err(e) => (match r {
                    Err(e2) => same_error(e2, e),
                    Ok(_) => false,
                }) && final(self).active == old(self).active,
            }),
    {
        match res {
            Ok(line) => {
                let ok = ok_response();
                if crate::text::bytes_eq(line.as_slice(), ok.as_slice()) {
                    self.active = Some(addr);
                    Ok(true)
                } else {
                    Err(Error::Device(line))
                }
            },
            Err(Error::Timeout) => Ok(false),
            Err(e) => Err(e),
        }
    }
}

} // verus!
