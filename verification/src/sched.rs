//! The bus scheduler: online and offline address queues, the current
//! turn, and the fairness policy that interleaves servicing responsive
//! devices with re-probing unresponsive ones.
//!
//! Every tracked address is in exactly one place at any time: the
//! current slot, the online queue, or the offline queue. Offline
//! entries carry an earliest-retry timestamp and are consumed in
//! timestamp order; yielding a turn appends to the tail of the chosen
//! queue.

use vstd::prelude::*;
use vstd::multiset::Multiset;
use vstd::seq_lib::group_to_multiset_ensures;
use crate::types::Addr;

verus! {

/// How long an offline device rests before its next liveness probe, in
/// milliseconds.
pub const OFFLINE_BACKOFF_MS: u64 = 1000;

/// What the scheduler says when asked for the next turn.
#[derive(Debug, Clone, Copy, PartialEq, Eq, Structural)]
pub enum SchedSelect {
    /// Serve this address now; the flag says whether it came from the
    /// online queue.
    Selected(Addr, bool),
    /// Nothing is due yet: sleep until this time, then ask again.
    SleepUntil(u64),
    /// No address is tracked at all.
    Idle,
}

/// The fairness counter after one successful selection.
pub open spec fn bump(c: u64) -> u64 {
    if c == u64::MAX {
        0
    } else {
        (c + 1) as u64
    }
}

pub struct Scheduler {
    /// The turn being served: the address and whether it came from the
    /// online queue.
    pub current: Option<(Addr, bool)>,
    /// Addresses that answered recently, served round-robin.
    pub online: Vec<Addr>,
    /// Earliest-retry timestamps of the offline queue, oldest first.
    pub offline_ts: Vec<u64>,
    /// Addresses of the offline queue, parallel to the timestamps.
    pub offline_addr: Vec<Addr>,
    /// Fairness counter: its parity decides whether a due offline
    /// probe may pre-empt online service.
    pub counter: u64,
    /// The latest time this scheduler has observed, in milliseconds.
    pub clock: u64,
}

impl Scheduler {
    /// The address in the current slot, as a multiset.
    pub open spec fn cur_ms(&self) -> Multiset<Addr> {
        match self.current {
            Some(p) => Multiset::singleton(p.0),
            None => Multiset::empty(),
        }
    }

    /// All tracked addresses with multiplicity, across the current
    /// slot and both queues.
    pub open spec fn addr_ms(&self) -> Multiset<Addr> {
        self.cur_ms().add(self.online@.to_multiset()).add(self.offline_addr@.to_multiset())
    }

    /// Well-formed: the offline queue's two columns line up, its
    /// timestamps never decrease and never run ahead of the clock by
    /// more than one backoff, and no address is tracked twice.
    pub open spec fn wf(&self) -> bool {
        &&& self.offline_ts@.len() == self.offline_addr@.len()
        &&& (forall|i: int, j: int|
            0 <= i <= j < self.offline_ts@.len() ==> self.offline_ts@[i] <= self.offline_ts@[j])
        &&& (forall|i: int|
            0 <= i < self.offline_ts@.len() ==> self.offline_ts@[i] <= self.clock
                + OFFLINE_BACKOFF_MS)
        &&& (forall|a: Addr| self.addr_ms().count(a) <= 1)
    }

    /// A new scheduler: every address starts offline, due immediately,
    /// in registration order.
    pub fn new(addrs: Vec<Addr>, now: u64) -> (r: Scheduler)
        requires
            addrs@.no_duplicates(),
        ensures
            r.wf(),
            r.current == None::<(Addr, bool)>,
            r.online@ == Seq::<Addr>::empty(),
            r.offline_addr@ == addrs@,
            (forall|i: int| 0 <= i < r.offline_ts@.len() ==> r.offline_ts@[i] == now),
            r.offline_ts@.len() == addrs@.len(),
            r.counter == 0,
            r.clock == now,
            r.addr_ms() == addrs@.to_multiset(),
    {
        broadcast use group_to_multiset_ensures;

        let n = addrs.len();
        let mut ts: Vec<u64> = Vec::new();
        let mut i: usize = 0;
        while i < n
            invariant
                0 <= i <= n,
                ts@.len() == i,
                forall|j: int| 0 <= j < i ==> ts@[j] == now,
            decreases n - i,
        {
            ts.push(now);
            i = i + 1;
        }
        let r = Scheduler {
            current: None,
            online: Vec::new(),
            offline_ts: ts,
            offline_addr: addrs,
            counter: 0,
            clock: now,
        };
        proof {
            assert(r.online@.to_multiset() =~= Multiset::<Addr>::empty());
            assert(r.addr_ms() =~= r.offline_addr@.to_multiset());
            assert(forall|a: Addr| r.addr_ms().count(a) <= 1) by {
                r.offline_addr@.lemma_multiset_has_no_duplicates();
            }
        }
        r
    }

    /// Track one more address: it joins the tail of the offline queue,
    /// due immediately, so the first thing the bus does for a new
    /// client is prove the device responsive. Registration happens at
    /// startup, before any offline backoff can reach past `now`.
    pub fn track(&mut self, a: Addr, now: u64)
        requires
            old(self).wf(),
            old(self).addr_ms().count(a) == 0,
            old(self).clock <= now,
            forall|i: int| 0 <= i < old(self).offline_ts@.len() ==> old(self).offline_ts@[i] <= now,
        ensures
            final(self).wf(),
            final(self).addr_ms() == old(self).addr_ms().insert(a),
            final(self).current == old(self).current,
            final(self).online@ == old(self).online@,
            final(self).offline_ts@ == old(self).offline_ts@.push(now),
            final(self).offline_addr@ == old(self).offline_addr@.push(a),
            final(self).counter == old(self).counter,
            final(self).clock == now,
    {
        broadcast use group_to_multiset_ensures;

        let ghost pre = *self;
        self.offline_ts.push(now);
        self.offline_addr.push(a);
        self.clock = now;
        proof {
            assert(self.addr_ms() =~= pre.addr_ms().insert(a));
        }
    }

    /// The selection policy, as a function of the state and the time:
    /// an already-current turn stays; otherwise a due offline probe
    /// goes first when the fairness counter is even or nobody is
    /// online; then the online head; and when only not-yet-due offline
    /// entries remain, sleep until the earliest of them.
    pub open spec fn selection(&self, now: u64) -> SchedSelect {
        match self.current {
            Some(p) => SchedSelect::Selected(p.0, p.1),
            None => {
                let off_due = self.offline_ts@.len() > 0 && self.offline_ts@[0] <= now;
                if off_due && (self.counter % 2 == 0 || self.online@.len() == 0) {
                    SchedSelect::Selected(self.offline_addr@[0], false)
                } else if self.online@.len() > 0 {
                    SchedSelect::Selected(self.online@[0], true)
                } else if self.offline_ts@.len() > 0 {
                    SchedSelect::SleepUntil(self.offline_ts@[0])
                } else {
                    SchedSelect::Idle
                }
            },
        }
    }

    /// Pick the turn to serve at time `now`, exactly as `selection`
    /// says.
    pub fn select_next(&mut self, now: u64) -> (r: SchedSelect)
        requires
            old(self).wf(),
            old(self).clock <= now,
        ensures
            final(self).wf(),
            final(self).clock == now,
            final(self).addr_ms() == old(self).addr_ms(),
            r == old(self).selection(now),
            (match old(self).current {
                Some(p) => {
                    &&& r == SchedSelect::Selected(p.0, p.1)
                    &&& final(self).current == old(self).current
                    &&& final(self).online@ == old(self).online@
                    &&& final(self).offline_ts@ == old(self).offline_ts@
                    &&& final(self).offline_addr@ == old(self).offline_addr@
                    &&& final(self).counter == old(self).counter
                },
                None => {
                    let off_due = old(self).offline_ts@.len() > 0 && old(self).offline_ts@[0]
                        <= now;
                    let prefer_off = off_due && (old(self).counter % 2 == 0 || old(
                        self,
                    ).online@.len() == 0);
                    if prefer_off {
                        &&& r == SchedSelect::Selected(old(self).offline_addr@[0], false)
                        &&& final(self).current == Some((old(self).offline_addr@[0], false))
                        &&& final(self).offline_ts@ == old(self).offline_ts@.remove(0)
                        &&& final(self).offline_addr@ == old(self).offline_addr@.remove(0)
                        &&& final(self).online@ == old(self).online@
                        &&& final(self).counter == bump(old(self).counter)
                    } else if old(self).online@.len() > 0 {
                        &&& r == SchedSelect::Selected(old(self).online@[0], true)
                        &&& final(self).current == Some((old(self).online@[0], true))
                        &&& final(self).online@ == old(self).online@.remove(0)
                        &&& final(self).offline_ts@ == old(self).offline_ts@
                        &&& final(self).offline_addr@ == old(self).offline_addr@
                        &&& final(self).counter == bump(old(self).counter)
                    } else if old(self).offline_ts@.len() > 0 {
                        // Only offline entries, none due: sleep until
                        // the earliest retry timestamp.
                        &&& r == SchedSelect::SleepUntil(old(self).offline_ts@[0])
                        &&& (forall|i: int|
                            0 <= i < old(self).offline_ts@.len() ==> old(self).offline_ts@[0] <= #[trigger] old(self).offline_ts@[i])
                        &&& final(self).current == old(self).current
                        &&& final(self).online@ == old(self).online@
                        &&& final(self).offline_ts@ == old(self).offline_ts@
                        &&& final(self).offline_addr@ == old(self).offline_addr@
                        &&& final(self).counter == old(self).counter
                    } else {
                        &&& r == SchedSelect::Idle
                        &&& final(self).current == old(self).current
                        &&& final(self).online@ == old(self).online@
                        &&& final(self).offline_ts@ == old(self).offline_ts@
                        &&& final(self).offline_addr@ == old(self).offline_addr@
                        &&& final(self).counter == old(self).counter
                    }
                },
            }),
    {
        broadcast use group_to_multiset_ensures;

        let ghost pre0 = *old(self);
        self.clock = now;
        proof {
            assert(forall|i: int|
                0 <= i < self.offline_ts@.len() ==> #[trigger] self.offline_ts@[i] <= self.clock
                    + OFFLINE_BACKOFF_MS);
            assert(self.current == pre0.current && self.online@ == pre0.online@
                && self.offline_addr@ == pre0.offline_addr@);
            assert(self.addr_ms() == pre0.addr_ms());
        }
        match self.current {
            Some(p) => SchedSelect::Selected(p.0, p.1),
            None => {
                let off_due = self.offline_ts.len() > 0 && self.offline_ts[0] <= now;
                if off_due && (self.counter % 2 == 0 || self.online.len() == 0) {
                    let ghost pre = *self;
                    let a = self.offline_addr[0];
                    self.offline_ts.remove(0);
                    self.offline_addr.remove(0);
                    self.current = Some((a, false));
                    self.counter = if self.counter == u64::MAX {
                        0
                    } else {
                        self.counter + 1
                    };
                    proof {
                        assert(pre.offline_addr@.to_multiset().count(a) > 0);
                        assert(self.addr_ms() =~= pre.addr_ms());
                        assert(self.clock == now && pre.clock <= now);
                    }
                    SchedSelect::Selected(a, false)
                } else if self.online.len() > 0 {
                    let ghost pre = *self;
                    let a = self.online.remove(0);
                    self.current = Some((a, true));
                    self.counter = if self.counter == u64::MAX {
                        0
                    } else {
                        self.counter + 1
                    };
                    proof {
                        assert(pre.online@.to_multiset().count(a) > 0);
                        assert(self.addr_ms() =~= pre.addr_ms());
                    }
                    SchedSelect::Selected(a, true)
                } else if self.offline_ts.len() > 0 {
                    SchedSelect::SleepUntil(self.offline_ts[0])
                } else {
                    SchedSelect::Idle
                }
            },
        }
    }

    /// Give the current turn back as responsive: the address goes to
    /// the tail of the online queue.
    pub fn yield_online(&mut self)
        requires
            old(self).wf(),
            (old(self).current is Some),
        ensures
            final(self).wf(),
            final(self).addr_ms() == old(self).addr_ms(),
            final(self).current == None::<(Addr, bool)>,
            final(self).online@ == old(self).online@.push(old(self).current->Some_0.0),
            final(self).offline_ts@ == old(self).offline_ts@,
            final(self).offline_addr@ == old(self).offline_addr@,
            final(self).counter == old(self).counter,
            final(self).clock == old(self).clock,
    {
        broadcast use group_to_multiset_ensures;

        let ghost pre = *self;
        let a = match self.current {
            Some(p) => p.0,
            None => 0,
        };
        self.current = None;
        self.online.push(a);
        proof {
            assert(self.addr_ms() =~= pre.addr_ms());
        }
    }

    /// Give the current turn back as unresponsive: the address goes to
    /// the tail of the offline queue, due again one backoff from now.
    pub fn yield_offline(&mut self, now: u64)
        requires
            old(self).wf(),
            (old(self).current is Some),
            old(self).clock <= now,
            now + OFFLINE_BACKOFF_MS <= u64::MAX,
        ensures
            final(self).wf(),
            final(self).addr_ms() == old(self).addr_ms(),
            final(self).current == None::<(Addr, bool)>,
            final(self).online@ == old(self).online@,
            final(self).offline_ts@ == old(self).offline_ts@.push((now + OFFLINE_BACKOFF_MS)
                as u64),
            final(self).offline_addr@ == old(self).offline_addr@.push(
                old(self).current->Some_0.0,
            ),
            final(self).counter == old(self).counter,
            final(self).clock == now,
    {
        broadcast use group_to_multiset_ensures;

        let ghost pre = *self;
        let a = match self.current {
            Some(p) => p.0,
            None => 0,
        };
        self.current = None;
        self.offline_ts.push(now + OFFLINE_BACKOFF_MS);
        self.offline_addr.push(a);
        self.clock = now;
        proof {
            assert(self.addr_ms() =~= pre.addr_ms());
        }
    }
}

/// Every tracked address is in exactly one of the current slot, the
/// online queue and the offline queue.
pub proof fn lemma_addr_partition(s: Scheduler, a: Addr)
    requires
        s.wf(),
        s.addr_ms().count(a) == 1,
    ensures
        ({
            let in_cur = match s.current {
                Some(p) => p.0 == a,
                None => false,
            };
            let in_on = s.online@.contains(a);
            let in_off = s.offline_addr@.contains(a);
            &&& (in_cur || in_on || in_off)
            &&& !(in_cur && in_on)
            &&& !(in_cur && in_off)
            &&& !(in_on && in_off)
        }),
{
    broadcast use group_to_multiset_ensures;

    let in_cur = match s.current {
        Some(p) => p.0 == a,
        None => false,
    };
    assert(s.cur_ms().count(a) == if in_cur {
        1int
    } else {
        0int
    });
    assert(s.online@.contains(a) <==> s.online@.to_multiset().count(a) > 0);
    assert(s.offline_addr@.contains(a) <==> s.offline_addr@.to_multiset().count(a) > 0);
}

} // verus!
