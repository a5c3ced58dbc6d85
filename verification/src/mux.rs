//! The bus multiplexer: client registration, the two request classes,
//! and the decision core of the serving loop.
//!
//! The multiplexer owns the addressed connection and the scheduler,
//! keeps one record per registered client, and arbitrates between the
//! shared immediate-request queue and the current client's queued
//! requests, immediate traffic strictly first. A queued failure turns
//! the device offline and signals `Off`; a successful liveness probe
//! signals `On`.

use vstd::prelude::*;
use crate::conn::AddrConnection;
use crate::sched::{SchedSelect, Scheduler};
use crate::types::{Addr, Error, Priority, Signal};

verus! {

/// A queued-channel message: a command to execute on the device, or an
/// explicit yield marker ending the client's turn.
pub enum QueReq {
    Cmd(Vec<u8>),
    Yield,
}

/// An immediate-channel message: the issuing client's address and the
/// command to execute.
pub struct ImmReq {
    pub addr: Addr,
    pub cmd: Vec<u8>,
}

/// What a commander submits for one `execute` call: immediate requests
/// go to the shared immediate channel, queued ones to the client's own
/// queue.
pub enum ClientRequest {
    Imm(ImmReq),
    Que(QueReq),
}

/// Route one command by its priority class, as a client's commander
/// does.
pub fn route_request(addr: Addr, cmd: Vec<u8>, priority: Priority) -> (r: ClientRequest)
    ensures
        (match priority {
            Priority::Immediate => (match r {
                ClientRequest::Imm(m) => m.addr == addr && m.cmd@ == cmd@,
                _ => false,
            }),
            Priority::Queued => (match r {
                ClientRequest::Que(QueReq::Cmd(c)) => c@ == cmd@,
                _ => false,
            }),
        }),
{
    match priority {
        Priority::Immediate => ClientRequest::Imm(ImmReq { addr, cmd }),
        Priority::Queued => ClientRequest::Que(QueReq::Cmd(cmd)),
    }
}

/// One registered client: its address and its pending queued requests,
/// oldest first.
pub struct ClientRec {
    pub addr: Addr,
    pub queue: Vec<QueReq>,
}

/// What the serving loop must do next.
pub enum MuxStep {
    /// Run this command on the bus for this client, then report the
    /// outcome through `finish_immediate`.
    ServeImmediate { addr: Addr, cmd: Vec<u8> },
    /// Run this queued command for the current client, then report the
    /// outcome through `finish_queued`.
    ServeQueued { addr: Addr, cmd: Vec<u8> },
    /// The current client's device is offline: probe it with an
    /// addressing command, then report through `finish_probe`.
    CheckOnline { addr: Addr },
    /// The current client's turn ended without a transaction: it
    /// yielded, or had nothing to send.
    TurnEnded { addr: Addr },
    /// Nothing is due: sleep until this time, then ask again.
    Sleep { until: u64 },
    /// No client is registered.
    Idle,
}

pub struct Multiplexer {
    /// One record per registered client, in registration order.
    pub clients: Vec<ClientRec>,
    /// Pending immediate requests from all clients, oldest first.
    pub imm_queue: Vec<ImmReq>,
    /// The addressed-connection cache.
    pub conn: AddrConnection,
    /// The online/offline scheduler.
    pub sched: Scheduler,
}

impl Multiplexer {
    /// Whether an address has been registered.
    pub open spec fn registered(&self, a: Addr) -> bool {
        exists|i: int| 0 <= i < self.clients@.len() && self.clients@[i].addr == a
    }

    /// The index of a registered client.
    pub open spec fn client_index(&self, a: Addr) -> int {
        choose|i: int| 0 <= i < self.clients@.len() && self.clients@[i].addr == a
    }

    /// Well-formed: the scheduler is sound, it tracks exactly the
    /// registered addresses, and no address is registered twice.
    pub open spec fn wf(&self) -> bool {
        &&& self.sched.wf()
        &&& (forall|i: int, j: int|
            0 <= i < j < self.clients@.len() ==> self.clients@[i].addr != self.clients@[j].addr)
        &&& (forall|a: Addr|
            self.sched.addr_ms().count(a) == if self.registered(a) {
                1int
            } else {
                0int
            })
    }

    /// A fresh multiplexer with no clients.
    pub fn new(now: u64) -> (r: Multiplexer)
        ensures
            r.wf(),
            r.clients@.len() == 0,
            r.imm_queue@.len() == 0,
            r.conn.active == None::<Addr>,
            r.sched.clock == now,
            r.sched.current == None::<(Addr, bool)>,
    {
        let r = Multiplexer {
            clients: Vec::new(),
            imm_queue: Vec::new(),
            conn: AddrConnection::new(),
            sched: Scheduler::new(Vec::new(), now),
        };
        proof {
            assert(forall|a: Addr| !r.registered(a));
            assert(Seq::<Addr>::empty().to_multiset() =~= vstd::multiset::Multiset::empty()) by {
                broadcast use vstd::seq_lib::group_to_multiset_ensures;

            }
        }
        r
    }

    /// Register a client for an address. Exactly one handle exists per
    /// address: a second registration of the same address fails and
    /// changes nothing. The new device starts offline, due for an
    /// immediate liveness probe.
    pub fn add_client(&mut self, addr: Addr, now: u64) -> (r: Option<Addr>)
        requires
            old(self).wf(),
            old(self).sched.clock <= now,
            forall|i: int|
                0 <= i < old(self).sched.offline_ts@.len() ==> old(self).sched.offline_ts@[i]
                    <= now,
        ensures
            final(self).wf(),
            r == (if old(self).registered(addr) {
                None::<Addr>
            } else {
                Some(addr)
            }),
            (if old(self).registered(addr) {
                *final(self) == *old(self)
            } else {
                &&& final(self).clients@.len() == old(self).clients@.len() + 1
                &&& final(self).clients@[old(self).clients@.len() as int].addr == addr
                &&& final(self).clients@[old(self).clients@.len() as int].queue@.len() == 0
                &&& (forall|i: int|
                    0 <= i < old(self).clients@.len() ==> final(self).clients@[i] == old(
                        self,
                    ).clients@[i])
                &&& final(self).registered(addr)
                &&& final(self).imm_queue@ == old(self).imm_queue@
                &&& final(self).conn == old(self).conn
                &&& final(self).sched.clock == now
            }),
    {
        let n = self.clients.len();
        let mut i: usize = 0;
        while i < n
            invariant
                0 <= i <= n,
                *self == *old(self),
                old(self).wf(),
                n == self.clients@.len(),
                forall|j: int| 0 <= j < i ==> self.clients@[j].addr != addr,
            decreases n - i,
        {
            if self.clients[i].addr == addr {
                assert(self.registered(addr));
                return None;
            }
            i = i + 1;
        }
        assert(!self.registered(addr));
        let ghost pre = *self;
        self.sched.track(addr, now);
        self.clients.push(ClientRec { addr, queue: Vec::new() });
        proof {
            let ghost m = pre.clients@.len() as int;
            assert(self.clients@.len() == m + 1);
            assert forall|a: Addr| a != addr implies (self.registered(a) <==> pre.registered(
                a,
            )) by {
                if pre.registered(a) {
                    let j = choose|j: int|
                        0 <= j < pre.clients@.len() && pre.clients@[j].addr == a;
                    assert(self.clients@[j].addr == a);
                }
                if self.registered(a) {
                    let j = choose|j: int|
                        0 <= j < self.clients@.len() && self.clients@[j].addr == a;
                    if j == m {
                        assert(self.clients@[j].addr == addr);
                    } else {
                        assert(pre.clients@[j].addr == a);
                    }
                }
            }
            assert(self.registered(addr)) by {
                assert(self.clients@[m].addr == addr);
            }
        }
        Some(addr)
    }

    /// Find a registered client's index.
    fn find_client(&self, addr: Addr) -> (r: Option<usize>)
        ensures
            (match r {
                Some(i) => i < self.clients@.len() && self.clients@[i as int].addr == addr,
                None => !self.registered(addr),
            }),
    {
        let n = self.clients.len();
        let mut i: usize = 0;
        while i < n
            invariant
                0 <= i <= n,
                n == self.clients@.len(),
                forall|j: int| 0 <= j < i ==> self.clients@[j].addr != addr,
            decreases n - i,
        {
            if self.clients[i].addr == addr {
                return Some(i);
            }
            i = i + 1;
        }
        None
    }

    /// Accept one queued-channel message from a client: it joins the
    /// tail of that client's pending queue. Unregistered addresses are
    /// refused.
    pub fn push_queued(&mut self, addr: Addr, req: QueReq) -> (r: bool)
        requires
            old(self).wf(),
        ensures
            final(self).wf(),
            r == old(self).registered(addr),
            (if old(self).registered(addr) {
                let i = old(self).client_index(addr);
                &&& final(self).clients@.len() == old(self).clients@.len()
                &&& final(self).clients@[i].addr == addr
                &&& final(self).clients@[i].queue@ == old(self).clients@[i].queue@.push(req)
                &&& (forall|j: int|
                    0 <= j < old(self).clients@.len() && j != i ==> final(self).clients@[j] == old(
                        self,
                    ).clients@[j])
                &&& final(self).imm_queue@ == old(self).imm_queue@
                &&& final(self).conn == old(self).conn
                &&& final(self).sched == old(self).sched
            } else {
                *final(self) == *old(self)
            }),
    {
        match self.find_client(addr) {
            None => false,
            Some(i) => {
                proof {
                    let k = self.client_index(addr);
                    assert(self.clients@[i as int].addr == addr);
                    assert(0 <= k < self.clients@.len() && self.clients@[k].addr == addr);
                    assert(k == i as int);
                }
                let ghost pre = *self;
                let rec = &mut self.clients[i];
                rec.queue.push(req);
                proof {
                    assert(self.registered(addr)) by {
                        assert(self.clients@[i as int].addr == addr);
                    }
                    assert(forall|a: Addr| self.registered(a) <==> pre.registered(a)) by {
                        assert(forall|j: int|
                            0 <= j < self.clients@.len() ==> self.clients@[j].addr
                                == pre.clients@[j].addr);
                    }
                }
                true
            },
        }
    }

    /// Accept one immediate-channel message: it joins the tail of the
    /// shared immediate queue.
    pub fn push_immediate(&mut self, req: ImmReq)
        requires
            old(self).wf(),
        ensures
            final(self).wf(),
            final(self).imm_queue@ == old(self).imm_queue@.push(req),
            final(self).clients@ == old(self).clients@,
            final(self).conn == old(self).conn,
            final(self).sched == old(self).sched,
    {
        self.imm_queue.push(req);
        proof {
            assert(forall|a: Addr| self.registered(a) <==> old(self).registered(a)) by {
                assert(self.clients@ == old(self).clients@);
            }
        }
    }

    /// Decide what the serving loop does next at time `now`. A pending
    /// immediate request always goes first; otherwise the scheduler
    /// picks the turn, an online client's queue head is served or its
    /// turn ends, and an offline client is drained and probed.
    pub fn next_step(&mut self, now: u64) -> (r: MuxStep)
        requires
            old(self).wf(),
            old(self).sched.clock <= now,
        ensures
            final(self).wf(),
            final(self).conn == old(self).conn,
            // Immediate requests pre-empt all queued service: if one is
            // pending, this step dispatches it.
            old(self).imm_queue@.len() > 0 ==> (match r {
                MuxStep::ServeImmediate { addr, cmd } => {
                    &&& addr == old(self).imm_queue@[0].addr
                    &&& cmd@ == old(self).imm_queue@[0].cmd@
                    &&& final(self).imm_queue@ == old(self).imm_queue@.remove(0)
                    &&& final(self).clients@ == old(self).clients@
                    &&& final(self).sched == old(self).sched
                },
                _ => false,
            }),
            old(self).imm_queue@.len() == 0 ==> final(self).imm_queue@.len() == 0,
            final(self).sched.addr_ms() == old(self).sched.addr_ms(),
            // With no immediate request pending, the step is determined
            // by the scheduler's selection policy on the starting
            // state: an online turn serves its pending queue head or
            // ends, an offline turn is drained and probed, nothing due
            // sleeps until the offline head is due, and only an empty
            // registry idles.
            old(self).imm_queue@.len() == 0 ==> ({
                let sel = old(self).sched.selection(now);
                match sel {
                    SchedSelect::Idle => {
                        &&& (r is Idle)
                        &&& old(self).clients@.len() == 0
                        &&& final(self).clients@ == old(self).clients@
                        &&& final(self).sched.current == None::<(Addr, bool)>
                    },
                    SchedSelect::SleepUntil(t) => {
                        &&& (match r {
                            MuxStep::Sleep { until } => until == t && until > now,
                            _ => false,
                        })
                        &&& t == old(self).sched.offline_ts@[0]
                        &&& final(self).clients@ == old(self).clients@
                        &&& final(self).sched.current == None::<(Addr, bool)>
                    },
                    SchedSelect::Selected(a, online) => {
                        let i = old(self).client_index(a);
                        &&& old(self).registered(a)
                        &&& (if !online {
                            // Offline turn: the pending queued requests
                            // are dropped without replies and the
                            // device is probed.
                            &&& (match r {
                                MuxStep::CheckOnline { addr } => addr == a,
                                _ => false,
                            })
                            &&& final(self).sched.current == Some((a, false))
                            &&& final(self).clients@[i].queue@.len() == 0
                            &&& final(self).clients@[i].addr == a
                            &&& final(self).clients@.len() == old(self).clients@.len()
                            &&& (forall|j: int|
                                0 <= j < old(self).clients@.len() && j != i
                                    ==> #[trigger] final(self).clients@[j]
                                    == old(self).clients@[j])
                        } else if old(self).clients@[i].queue@.len() == 0 {
                            // Silent client: its turn ends and it goes
                            // to the online tail.
                            &&& (match r {
                                MuxStep::TurnEnded { addr } => addr == a,
                                _ => false,
                            })
                            &&& final(self).sched.current == None::<(Addr, bool)>
                            &&& final(self).sched.online@.len() > 0
                            &&& final(self).sched.online@.last() == a
                            &&& final(self).clients@ == old(self).clients@
                        } else {
                            match old(self).clients@[i].queue@[0] {
                                QueReq::Cmd(c) => {
                                    // The pending head is served and
                                    // the turn is kept.
                                    &&& (match r {
                                        MuxStep::ServeQueued { addr, cmd } => addr == a && cmd@
                                            == c@,
                                        _ => false,
                                    })
                                    &&& final(self).sched.current == Some((a, true))
                                    &&& final(self).clients@[i].queue@
                                        == old(self).clients@[i].queue@.remove(0)
                                    &&& final(self).clients@[i].addr == a
                                    &&& final(self).clients@.len() == old(self).clients@.len()
                                    &&& (forall|j: int|
                                        0 <= j < old(self).clients@.len() && j != i
                                            ==> #[trigger] final(self).clients@[j]
                                            == old(self).clients@[j])
                                },
                                QueReq::Yield => {
                                    // The client gave its turn back.
                                    &&& (match r {
                                        MuxStep::TurnEnded { addr } => addr == a,
                                        _ => false,
                                    })
                                    &&& final(self).sched.current == None::<(Addr, bool)>
                                    &&& final(self).sched.online@.len() > 0
                                    &&& final(self).sched.online@.last() == a
                                    &&& final(self).clients@[i].queue@
                                        == old(self).clients@[i].queue@.remove(0)
                                    &&& final(self).clients@[i].addr == a
                                    &&& final(self).clients@.len() == old(self).clients@.len()
                                    &&& (forall|j: int|
                                        0 <= j < old(self).clients@.len() && j != i
                                            ==> #[trigger] final(self).clients@[j]
                                            == old(self).clients@[j])
                                },
                            }
                        })
                    },
                }
            }),
    {
        if self.imm_queue.len() > 0 {
            let m = self.imm_queue.remove(0);
            proof {
                assert(forall|a: Addr| self.registered(a) <==> old(self).registered(a)) by {
                    assert(self.clients@ == old(self).clients@);
                }
            }
            return MuxStep::ServeImmediate { addr: m.addr, cmd: m.cmd };
        }
        let sel = self.sched.select_next(now);
        proof {
            assert(forall|a: Addr| self.registered(a) <==> old(self).registered(a)) by {
                assert(self.clients@ == old(self).clients@);
            }
        }
        match sel {
            SchedSelect::Idle => {
                proof {
                    // An idle selection means nothing is tracked, and
                    // every registered client is tracked.
                    broadcast use vstd::seq_lib::group_to_multiset_ensures;

                    if self.clients.len() > 0 {
                        let a0 = self.clients@[0].addr;
                        assert(self.registered(a0));
                        assert(old(self).sched.online@.len() == 0);
                        assert(old(self).sched.offline_ts@.len() == 0);
                        assert(old(self).sched.offline_addr@.len() == 0);
                        assert(!old(self).sched.online@.contains(a0));
                        assert(!old(self).sched.offline_addr@.contains(a0));
                        assert(old(self).sched.online@.to_multiset().count(a0) == 0);
                        assert(old(self).sched.offline_addr@.to_multiset().count(a0) == 0);
                        assert(old(self).sched.addr_ms().count(a0) == 0);
                        assert(false);
                    }
                }
                MuxStep::Idle
            },
            SchedSelect::SleepUntil(t) => {
                proof {
                    // The head was not due and nobody was online, else
                    // the scheduler would have selected a turn.
                    assert(t > now);
                }
                MuxStep::Sleep { until: t }
            },
            SchedSelect::Selected(addr, online) => {
                proof {
                    assert(self.sched.addr_ms().count(addr) >= 1) by {
                        broadcast use vstd::seq_lib::group_to_multiset_ensures;

                        match old(self).sched.current {
                            Some(p) => {},
                            None => {},
                        }
                    }
                    assert(self.registered(addr));
                }
                let io = self.find_client(addr);
                let i = match io {
                    Some(i) => i,
                    None => {
                        proof {
                            assert(false);
                        }
                        0
                    },
                };
                proof {
                    let k = self.client_index(addr);
                    assert(0 <= k < self.clients@.len() && self.clients@[k].addr == addr);
                    assert(k == i as int);
                }
                if online {
                    let qlen = self.clients[i].queue.len();
                    if qlen == 0 {
                        // No request within the yield timeout: the turn
                        // ends and the client goes to the online tail.
                        self.sched.yield_online();
                        proof {
                            lemma_same_clients(*old(self), *self);
                        }
                        MuxStep::TurnEnded { addr }
                    } else {
                        let rec = &mut self.clients[i];
                        let req = rec.queue.remove(0);
                        match req {
                            QueReq::Cmd(cmd) => {
                                proof {
                                    lemma_same_clients_except(*old(self), *self, i as int);
                                }
                                MuxStep::ServeQueued { addr, cmd }
                            },
                            QueReq::Yield => {
                                self.sched.yield_online();
                                proof {
                                    lemma_same_clients_except(*old(self), *self, i as int);
                                }
                                MuxStep::TurnEnded { addr }
                            },
                        }
                    }
                } else {
                    // The device is offline: drop its pending queued
                    // requests without responses and probe it.
                    let rec = &mut self.clients[i];
                    rec.queue.clear();
                    proof {
                        lemma_same_clients_except(*old(self), *self, i as int);
                    }
                    MuxStep::CheckOnline { addr }
                }
            },
        }
    }

    /// Digest the outcome of a queued command. Success hands the reply
    /// back for the waiting client and keeps the turn; failure ends the
    /// turn, moves the device to the offline queue, and signals `Off`.
    pub fn finish_queued(&mut self, addr: Addr, res: Result<Vec<u8>, Error>, now: u64) -> (r: (
        Option<Vec<u8>>,
        Option<Signal>,
    ))
        requires
            old(self).wf(),
            old(self).sched.current == Some((addr, true)),
            old(self).sched.clock <= now,
            now + crate::sched::OFFLINE_BACKOFF_MS <= u64::MAX,
        ensures
            final(self).wf(),
            final(self).clients@ == old(self).clients@,
            final(self).imm_queue@ == old(self).imm_queue@,
            final(self).conn == old(self).conn,
            (match res {
                Ok(line) => {
                    &&& (match r.0 {
                        Some(l) => l@ == line@,
                        None => false,
                    })
                    &&& r.1 == None::<Signal>
                    &&& final(self).sched == old(self).sched
                },
                Err(_) => {
                    &&& r.0 == None::<Vec<u8>>
                    &&& r.1 == Some(Signal::Off)
                    &&& final(self).sched.current == None::<(Addr, bool)>
                    &&& final(self).sched.offline_addr@ == old(self).sched.offline_addr@.push(addr)
                    &&& final(self).sched.offline_ts@ == old(self).sched.offline_ts@.push(
                        (now + crate::sched::OFFLINE_BACKOFF_MS) as u64,
                    )
                    &&& final(self).sched.online@ == old(self).sched.online@
                },
            }),
    {
        match res {
            Ok(line) => (Some(line), None),
            Err(_) => {
                self.sched.yield_offline(now);
                proof {
                    lemma_same_clients(*old(self), *self);
                }
                (None, Some(Signal::Off))
            },
        }
    }

    /// Digest the outcome of an offline liveness probe. A proven-online
    /// device joins the online queue and its client is signalled `On`;
    /// anything else sends the device back to the offline queue for the
    /// next backoff.
    pub fn finish_probe(&mut self, addr: Addr, res: Result<bool, Error>, now: u64) -> (r: Option<
        Signal,
    >)
        requires
            old(self).wf(),
            old(self).sched.current == Some((addr, false)),
            old(self).sched.clock <= now,
            now + crate::sched::OFFLINE_BACKOFF_MS <= u64::MAX,
        ensures
            final(self).wf(),
            final(self).clients@ == old(self).clients@,
            final(self).imm_queue@ == old(self).imm_queue@,
            final(self).conn == old(self).conn,
            final(self).sched.current == None::<(Addr, bool)>,
            (match res {
                Ok(true) => {
                    &&& r == Some(Signal::On)
                    &&& final(self).sched.online@ == old(self).sched.online@.push(addr)
                    &&& final(self).sched.offline_addr@ == old(self).sched.offline_addr@
                },
                _ => {
                    &&& r == None::<Signal>
                    &&& final(self).sched.offline_addr@ == old(self).sched.offline_addr@.push(addr)
                    &&& final(self).sched.online@ == old(self).sched.online@
                },
            }),
    {
        let online = match res {
            Ok(true) => true,
            _ => false,
        };
        if online {
            self.sched.yield_online();
            proof {
                lemma_same_clients(*old(self), *self);
            }
            Some(Signal::On)
        } else {
            self.sched.yield_offline(now);
            proof {
                lemma_same_clients(*old(self), *self);
            }
            None
        }
    }
}

/// The reply a waiting immediate requester sees: the line on success,
/// nothing on failure (the request is logged and dropped, and the
/// requester maps the missing reply to a transport error).
pub fn immediate_response(res: Result<Vec<u8>, Error>) -> (r: Option<Vec<u8>>)
    ensures
        (match res {
            Ok(line) => (match r {
                Some(l) => l@ == line@,
                None => false,
            }),
            Err(_) => r == None::<Vec<u8>>,
        }),
{
    match res {
        Ok(line) => Some(line),
        Err(_) => None,
    }
}

/// Issuance order is service order: a client's pending queue grows only
/// at the tail, so of two requests issued in order, the earlier one
/// sits at the smaller index and is served first.
pub proof fn lemma_queued_fifo(q: Seq<QueReq>, a: QueReq, b: QueReq)
    ensures
        q.push(a).push(b)[q.len() as int] == a,
        q.push(a).push(b)[q.len() as int + 1] == b,
        forall|k: int| 0 <= k < q.len() ==> q.push(a).push(b)[k] == q[k],
{
}

/// Two multiplexer states with identical client vectors register the
/// same addresses.
proof fn lemma_same_clients(m1: Multiplexer, m2: Multiplexer)
    requires
        m1.clients@ == m2.clients@,
    ensures
        forall|a: Addr| m1.registered(a) <==> m2.registered(a),
{
}

/// Two multiplexer states whose client vectors agree on length and
/// addresses register the same addresses.
proof fn lemma_same_clients_except(m1: Multiplexer, m2: Multiplexer, i: int)
    requires
        m1.clients@.len() == m2.clients@.len(),
        0 <= i < m1.clients@.len(),
        m1.clients@[i].addr == m2.clients@[i].addr,
        forall|j: int| 0 <= j < m1.clients@.len() && j != i ==> m1.clients@[j] == m2.clients@[j],
    ensures
        forall|a: Addr| m1.registered(a) <==> m2.registered(a),
{
    assert(forall|j: int|
        0 <= j < m1.clients@.len() ==> m1.clients@[j].addr == #[trigger] m2.clients@[j].addr);
}

} // verus!
