use psgate::mux::{ClientRequest, ImmReq, Multiplexer, MuxStep, QueReq, route_request};
use psgate::sched::{SchedSelect, Scheduler, OFFLINE_BACKOFF_MS};
use psgate::types::{Error, Priority, Signal};

fn in_exactly_one(s: &Scheduler, a: u8) -> bool {
    let in_cur = matches!(s.current, Some((c, _)) if c == a);
    let in_on = s.online.contains(&a);
    let in_off = s.offline_addr.contains(&a);
    (in_cur as u8 + in_on as u8 + in_off as u8) == 1
}

#[test]
fn scheduler_partitions_addresses() {
    let mut s = Scheduler::new(vec![1, 2, 3], 0);
    for a in [1u8, 2, 3] {
        assert!(in_exactly_one(&s, a));
    }
    // Take the first offline entry (due immediately).
    match s.select_next(0) {
        SchedSelect::Selected(a, online) => {
            assert_eq!(a, 1);
            assert!(!online);
        }
        _ => panic!("a due offline entry must be selected"),
    }
    for a in [1u8, 2, 3] {
        assert!(in_exactly_one(&s, a));
    }
    s.yield_online();
    for a in [1u8, 2, 3] {
        assert!(in_exactly_one(&s, a));
    }
    match s.select_next(1) {
        SchedSelect::Selected(_, _) => {}
        _ => panic!("something is due"),
    }
    s.yield_offline(1);
    for a in [1u8, 2, 3] {
        assert!(in_exactly_one(&s, a));
    }
}

#[test]
fn scheduler_sleeps_until_earliest_offline_timestamp() {
    let mut s = Scheduler::new(vec![4, 5], 0);
    // Serve both entries and send them back offline at different times.
    assert!(matches!(s.select_next(0), SchedSelect::Selected(4, false)));
    s.yield_offline(10);
    assert!(matches!(s.select_next(10), SchedSelect::Selected(5, false)));
    s.yield_offline(20);
    // Nothing due until the earliest retry timestamp.
    match s.select_next(30) {
        SchedSelect::SleepUntil(t) => assert_eq!(t, 10 + OFFLINE_BACKOFF_MS),
        _ => panic!("only not-yet-due offline entries: the scheduler must sleep"),
    }
    // Once it is due, the earliest entry is taken.
    match s.select_next(10 + OFFLINE_BACKOFF_MS) {
        SchedSelect::Selected(a, online) => {
            assert_eq!(a, 4);
            assert!(!online);
        }
        _ => panic!("the due entry must be selected"),
    }
}

#[test]
fn scheduler_fairness_interleaves_online_and_offline() {
    let mut s = Scheduler::new(vec![7], 0);
    assert!(matches!(s.select_next(0), SchedSelect::Selected(7, false)));
    // counter is now 1 (odd): with an online client and a due offline
    // entry, the online head goes first.
    s.yield_online();
    s.track(8, 0);
    match s.select_next(OFFLINE_BACKOFF_MS) {
        SchedSelect::Selected(a, online) => {
            assert_eq!(a, 7);
            assert!(online);
        }
        _ => panic!("online head expected on an odd counter"),
    }
    // counter is now 2 (even): the due offline entry pre-empts.
    s.yield_online();
    match s.select_next(OFFLINE_BACKOFF_MS) {
        SchedSelect::Selected(a, online) => {
            assert_eq!(a, 8);
            assert!(!online);
        }
        _ => panic!("due offline entry expected on an even counter"),
    }
}

#[test]
fn duplicate_registration_fails() {
    let mut m = Multiplexer::new(0);
    assert_eq!(m.add_client(3, 0), Some(3));
    assert_eq!(m.add_client(3, 0), None);
    assert_eq!(m.add_client(4, 0), Some(4));
    assert_eq!(m.add_client(4, 0), None);
    assert_eq!(m.clients.len(), 2);
}

#[test]
fn immediate_requests_preempt_queued_service() {
    let mut m = Multiplexer::new(0);
    m.add_client(1, 0).unwrap();
    assert!(m.push_queued(1, QueReq::Cmd(b"MV?".to_vec())));
    m.push_immediate(ImmReq { addr: 1, cmd: b"PV 3.3".to_vec() });
    match m.next_step(0) {
        MuxStep::ServeImmediate { addr, cmd } => {
            assert_eq!(addr, 1);
            assert_eq!(cmd, b"PV 3.3".to_vec());
        }
        _ => panic!("a pending immediate request must be dispatched first"),
    }
}

#[test]
fn queued_requests_served_in_issuance_order() {
    let mut m = Multiplexer::new(0);
    m.add_client(1, 0).unwrap();
    // Bring the client online.
    match m.next_step(0) {
        MuxStep::CheckOnline { addr } => assert_eq!(addr, 1),
        _ => panic!("a fresh client starts with a liveness probe"),
    }
    let sig = m.finish_probe(1, Ok(true), 0);
    assert_eq!(sig, Some(Signal::On));
    assert!(m.push_queued(1, QueReq::Cmd(b"MV?".to_vec())));
    assert!(m.push_queued(1, QueReq::Cmd(b"MC?".to_vec())));
    match m.next_step(0) {
        MuxStep::ServeQueued { addr, cmd } => {
            assert_eq!(addr, 1);
            assert_eq!(cmd, b"MV?".to_vec());
        }
        _ => panic!("the online client's queue head is served"),
    }
    let (resp, sig) = m.finish_queued(1, Ok(b"5.5".to_vec()), 0);
    assert_eq!(resp, Some(b"5.5".to_vec()));
    assert_eq!(sig, None);
    match m.next_step(0) {
        MuxStep::ServeQueued { addr, cmd } => {
            assert_eq!(addr, 1);
            assert_eq!(cmd, b"MC?".to_vec());
        }
        _ => panic!("the second request follows the first"),
    }
}

#[test]
fn queued_failure_signals_off_and_goes_offline() {
    let mut m = Multiplexer::new(0);
    m.add_client(2, 0).unwrap();
    assert!(matches!(m.next_step(0), MuxStep::CheckOnline { addr: 2 }));
    assert_eq!(m.finish_probe(2, Ok(true), 0), Some(Signal::On));
    assert!(m.push_queued(2, QueReq::Cmd(b"MV?".to_vec())));
    assert!(matches!(m.next_step(0), MuxStep::ServeQueued { .. }));
    let (resp, sig) = m.finish_queued(2, Err(Error::Timeout), 0);
    assert_eq!(resp, None);
    assert_eq!(sig, Some(Signal::Off));
    assert_eq!(m.sched.offline_addr, vec![2]);
    assert_eq!(m.sched.offline_ts, vec![OFFLINE_BACKOFF_MS]);
}

#[test]
fn yield_marker_ends_the_turn() {
    let mut m = Multiplexer::new(0);
    m.add_client(6, 0).unwrap();
    assert!(matches!(m.next_step(0), MuxStep::CheckOnline { addr: 6 }));
    m.finish_probe(6, Ok(true), 0);
    assert!(m.push_queued(6, QueReq::Yield));
    assert!(matches!(m.next_step(0), MuxStep::TurnEnded { addr: 6 }));
    // The silent client's next turn also ends without a transaction.
    assert!(matches!(m.next_step(0), MuxStep::TurnEnded { addr: 6 }));
}

#[test]
fn routing_by_priority() {
    match route_request(3, b"PV 1.5".to_vec(), Priority::Immediate) {
        ClientRequest::Imm(m) => {
            assert_eq!(m.addr, 3);
            assert_eq!(m.cmd, b"PV 1.5".to_vec());
        }
        _ => panic!("immediate requests go to the shared channel"),
    }
    match route_request(3, b"MV?".to_vec(), Priority::Queued) {
        ClientRequest::Que(QueReq::Cmd(c)) => assert_eq!(c, b"MV?".to_vec()),
        _ => panic!("queued requests go to the client's own queue"),
    }
}
