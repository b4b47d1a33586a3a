//! The hysteretic per-endpoint state machine.

use ephc::endpoint::{Addr, Counter, Endpoint, EndpointStatus, Protocol, Threshold};
use ephc::error::ErrorKind;

fn ep(status: EndpointStatus, up: u32, down: u32) -> Endpoint {
    Endpoint {
        addr: Addr {
            ip: "10.0.0.1".to_string(),
            port: 80,
        },
        protocol: Protocol::TCP,
        status,
        counter: Counter { up, down },
        threshold: Threshold {
            restore: 3,
            remove: 3,
        },
    }
}

#[test]
fn down_counts_to_threshold() {
    let mut e = ep(EndpointStatus::Healthy, 0, 0);
    assert!(!e.down());
    assert_eq!(e.counter.down, 1);
    assert!(!e.down());
    assert_eq!(e.counter.down, 2);
    // the third consecutive failure warrants the demotion
    assert!(e.down());
    assert_eq!(e.counter.down, 3);
    assert!(matches!(e.status, EndpointStatus::Healthy));
}

#[test]
fn up_counts_to_threshold() {
    let mut e = ep(EndpointStatus::Removed, 0, 0);
    assert!(!e.up());
    assert!(!e.up());
    assert!(e.up());
    assert_eq!(e.counter.up, 3);
}

#[test]
fn success_in_healthy_run_erases_flakes() {
    let mut e = ep(EndpointStatus::Healthy, 0, 2);
    assert!(!e.up());
    assert_eq!(e.counter.down, 0);
    assert_eq!(e.counter.up, 0);
    // the flap must start over
    assert!(!e.down());
    assert!(!e.down());
    assert!(e.down());
}

#[test]
fn failure_in_removed_run_erases_half_recoveries() {
    let mut e = ep(EndpointStatus::Removed, 2, 0);
    assert!(!e.down());
    assert_eq!(e.counter.up, 0);
    assert_eq!(e.counter.down, 0);
}

#[test]
fn at_most_one_counter_is_nonzero() {
    let mut e = ep(EndpointStatus::Healthy, 0, 0);
    let outcomes = [false, false, true, false, true, true, false];
    for &ok in &outcomes {
        if ok {
            e.up();
        } else {
            e.down();
        }
        assert!(e.counter.up == 0 || e.counter.down == 0);
    }
}

#[test]
fn reset_zeroes_both_tallies() {
    let mut e = ep(EndpointStatus::Healthy, 0, 2);
    e.reset_counter();
    assert_eq!(e.counter.up, 0);
    assert_eq!(e.counter.down, 0);
}

#[test]
fn set_status_leaves_counters() {
    let mut e = ep(EndpointStatus::Healthy, 0, 2);
    e.set_status(EndpointStatus::Removed);
    assert!(matches!(e.status, EndpointStatus::Removed));
    assert_eq!(e.counter.down, 2);
}

#[test]
fn transitions_are_rate_limited() {
    // with thresholds (3, 3), 12 outcomes can cause at most 4 transitions;
    // a worst-case run of alternating triples reaches exactly that
    let mut e = ep(EndpointStatus::Healthy, 0, 0);
    let mut transitions: u32 = 0;
    for round in 0..4 {
        let ok = round % 2 == 1;
        for _ in 0..3 {
            let t = if ok { e.up() } else { e.down() };
            if t {
                transitions += 1;
                e.set_status(if ok {
                    EndpointStatus::Healthy
                } else {
                    EndpointStatus::Removed
                });
                e.reset_counter();
            }
        }
    }
    assert_eq!(transitions, 4);
}

#[test]
fn endpoints_compare_by_address_and_protocol() {
    let a = ep(EndpointStatus::Healthy, 0, 0);
    let b = ep(EndpointStatus::Removed, 1, 0);
    assert!(a == b);
    let mut c = ep(EndpointStatus::Healthy, 0, 0);
    c.addr.port = 81;
    assert!(a != c);
}

#[test]
fn protocol_parses_known_tags() {
    assert!(matches!(Protocol::from_str("TCP"), Ok(Protocol::TCP)));
    assert!(matches!(Protocol::from_str("UDP"), Ok(Protocol::UDP)));
    let e = Protocol::from_str("SCTP").err().unwrap();
    assert_eq!(e.kind, ErrorKind::Other);
    assert_eq!(e.reason, "unknown service type");
}
