use nym_bazaar::client::{get_request, list_request, menu_choice, search_request, MenuChoice};
use nym_bazaar::connection::{open_session, step, Action, Event, Session};
use nym_bazaar::server::BazaarServer;
use nym_bazaar::stress::{requests_per_worker, reply_succeeds, StressStats};

#[test]
fn session_answers_and_reads_again() {
    let s = BazaarServer::new();
    let (st, act) = open_session();
    assert_eq!(st, Session::Reading);
    assert!(matches!(act, Action::Read));
    let (st, act) = step(&s, st, Event::Received(b"HEAD\n".to_vec()));
    assert_eq!(st, Session::Writing);
    match act {
        Action::Write(r) => assert_eq!(r, "OK\n"),
        _ => panic!("expected a reply"),
    }
    let (st, act) = step(&s, st, Event::Written);
    assert_eq!(st, Session::Reading);
    assert!(matches!(act, Action::Read));
}

#[test]
fn session_closes_on_end_of_stream() {
    let s = BazaarServer::new();
    let (st, act) = step(&s, Session::Reading, Event::Received(Vec::new()));
    assert_eq!(st, Session::Closed);
    assert!(matches!(act, Action::Close));
}

#[test]
fn session_closes_on_failures() {
    let s = BazaarServer::new();
    let (st, _) = step(&s, Session::Reading, Event::ReadFailed);
    assert_eq!(st, Session::Closed);
    let (st, act) = step(&s, Session::Writing, Event::WriteFailed);
    assert_eq!(st, Session::Closed);
    assert!(matches!(act, Action::Close));
}

#[test]
fn session_decodes_invalid_utf8() {
    let s = BazaarServer::new();
    let (_, act) = step(&s, Session::Reading, Event::Received(vec![0x47, 0x45, 0x54, 0x20, 0xff, 0x0a]));
    match act {
        Action::Write(r) => assert_eq!(r, "Item with ID \u{fffd} not found\n"),
        _ => panic!("expected a reply"),
    }
}

#[test]
fn session_lookup_over_the_wire() {
    let s = BazaarServer::new();
    let (_, act) = step(&s, Session::Reading, Event::Received(b"GET 3\n".to_vec()));
    match act {
        Action::Write(r) => assert_eq!(r, "Item with ID 3 not found\n"),
        _ => panic!("expected a reply"),
    }
}

#[test]
fn shares_drop_the_remainder() {
    assert_eq!(requests_per_worker(3, 10), 3);
    assert_eq!(requests_per_worker(10, 1000), 100);
    assert_eq!(requests_per_worker(4, 3), 0);
    assert_eq!(requests_per_worker(0, 5), 0);
}

#[test]
fn probe_replies() {
    assert!(reply_succeeds(b"OK\n"));
    assert!(reply_succeeds(b" OK "));
    assert!(!reply_succeeds(b""));
    assert!(!reply_succeeds(b"Invalid command"));
    assert!(!reply_succeeds(&[0x4f, 0xff]));
}

#[test]
fn stats_balance_after_a_run() {
    for (concurrency, total) in [(3usize, 10usize), (1, 7), (4, 3), (5, 25)] {
        let per = requests_per_worker(concurrency, total);
        let mut all = StressStats::new();
        for w in 0..concurrency {
            let mut mine = StressStats::new();
            for k in 0..per {
                if (w + k) % 3 == 0 {
                    mine.record_probe(None, 5);
                } else {
                    mine.record_probe(Some(b"OK\n"), 10);
                }
            }
            assert!(all.merge(&mine));
        }
        assert_eq!(all.sent, all.succeeded + all.failed);
        assert_eq!(all.sent as usize, concurrency * (total / concurrency));
        assert_eq!(all.total_latency_ns, 10 * all.succeeded);
    }
}

#[test]
fn stats_counters() {
    let mut s = StressStats::new();
    assert_eq!(s.mean_latency_ns(), None);
    s.record_success(100);
    s.record_success(50);
    s.record_failure();
    s.record_probe(Some(b"nope"), 1000);
    assert_eq!(s, StressStats { sent: 4, succeeded: 2, failed: 2, total_latency_ns: 150 });
    assert_eq!(s.mean_latency_ns(), Some(75));
}

#[test]
fn stats_latency_saturates() {
    let mut s = StressStats::new();
    s.record_success(u64::MAX - 1);
    s.record_success(5);
    assert_eq!(s.total_latency_ns, u64::MAX);
    assert_eq!(s.sent, 2);
}

#[test]
fn stats_merge_refuses_overflow() {
    let mut a = StressStats { sent: u64::MAX, succeeded: u64::MAX, failed: 0, total_latency_ns: 0 };
    let b = StressStats { sent: 1, succeeded: 0, failed: 1, total_latency_ns: 0 };
    assert!(!a.merge(&b));
    assert_eq!(a.sent, u64::MAX);
}

#[test]
fn menu_entries() {
    assert_eq!(menu_choice("1\n"), MenuChoice::ListAll);
    assert_eq!(menu_choice(" 2 "), MenuChoice::ListCategory);
    assert_eq!(menu_choice("3"), MenuChoice::Search);
    assert_eq!(menu_choice("4\r\n"), MenuChoice::Details);
    assert_eq!(menu_choice("5"), MenuChoice::Categories);
    assert_eq!(menu_choice("6"), MenuChoice::Exit);
    assert_eq!(menu_choice("7"), MenuChoice::Unknown);
    assert_eq!(menu_choice(""), MenuChoice::Unknown);
}

#[test]
fn menu_requests() {
    assert_eq!(list_request("  gaming \n"), "LIST gaming\n");
    assert_eq!(search_request("fm\n"), "SEARCH fm\n");
    assert_eq!(get_request(" 2"), "GET 2\n");
}
