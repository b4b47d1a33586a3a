//! End-to-end probe/decision scenarios on the service aggregate.

use ephc::alert::Msg;
use ephc::endpoint::{EndpointStatus, Threshold};
use ephc::service::{Pending, Service};

fn two_ep_blob() -> String {
    "\
apiVersion: v1
kind: Endpoints
metadata:
  name: web
  resourceVersion: \"100\"
subsets:
- addresses:
  - ip: 10.0.0.1
  - ip: 10.0.0.2
  ports:
  - port: 80
    protocol: TCP
"
    .to_string()
}

fn make(blob: String) -> Service {
    Service::new(blob, Threshold { restore: 3, remove: 3 })
        .unwrap()
        .unwrap()
}

#[test]
fn single_flap_removes_without_apply() {
    let blob = "\
apiVersion: v1
kind: Endpoints
metadata:
  name: web
  resourceVersion: \"100\"
subsets:
- addresses:
  - ip: 10.0.0.1
  ports:
  - port: 80
    protocol: TCP
"
    .to_string();
    let mut svc = make(blob);
    for round in 0..2 {
        let act = svc.handle_probe(0, false).unwrap();
        assert!(act.alerts.is_empty(), "round {}", round);
        assert!(act.apply.is_none());
        assert!(matches!(svc.endpoints[0].status, EndpointStatus::Healthy));
    }
    let act = svc.handle_probe(0, false).unwrap();
    // the sole endpoint is only marked; no cluster apply is issued
    assert!(act.apply.is_none());
    assert_eq!(act.alerts.len(), 1);
    match &act.alerts[0] {
        Msg::EpDown(svc_name, addr) => {
            assert_eq!(svc_name, "web");
            assert_eq!(addr, "10.0.0.1:80");
        }
        other => panic!("unexpected alert {:?}", other.to_string(&None)),
    }
    assert!(matches!(svc.endpoints[0].status, EndpointStatus::Removed));
    assert_eq!(svc.our_version, "100");
}

#[test]
fn recovery_of_one_of_two_applies_reduced_document() {
    let mut svc = make(two_ep_blob());
    for _ in 0..2 {
        let a0 = svc.handle_probe(0, true).unwrap();
        assert!(a0.apply.is_none());
        let a1 = svc.handle_probe(1, false).unwrap();
        assert!(a1.apply.is_none());
    }
    let _ = svc.handle_probe(0, true).unwrap();
    let act = svc.handle_probe(1, false).unwrap();
    assert_eq!(act.alerts.len(), 1);
    let req = act.apply.expect("a cluster apply must be requested");
    let expected = "apiVersion: v1\nkind: Endpoints\nmetadata:\n  name: web\nsubsets:\n\
- addresses:\n  - ip: 10.0.0.1\n  ports:\n  - port: 80\n    protocol: TCP\n";
    assert_eq!(req.yaml, expected);
    match &req.pending {
        Pending::RemovePlain { ip } => assert_eq!(ip, "10.0.0.2"),
        other => panic!("unexpected pending {:?}", other),
    }
    // statuses flip at commit
    assert!(matches!(svc.endpoints[1].status, EndpointStatus::Healthy));
    svc.commit_apply(req.pending, "101".to_string());
    assert_eq!(svc.our_version, "101");
    assert!(matches!(svc.endpoints[0].status, EndpointStatus::Healthy));
    assert!(matches!(svc.endpoints[1].status, EndpointStatus::Removed));
    assert_eq!(svc.endpoints[1].counter.up, 0);
    assert_eq!(svc.endpoints[1].counter.down, 0);
}

#[test]
fn all_down_rescue_reapplies_original_document() {
    let mut svc = make(two_ep_blob());
    for _ in 0..2 {
        let _ = svc.handle_probe(0, false).unwrap();
        let _ = svc.handle_probe(1, false).unwrap();
    }
    let act0 = svc.handle_probe(0, false).unwrap();
    let req0 = act0.apply.expect("first removal applies");
    svc.commit_apply(req0.pending, "101".to_string());
    assert!(matches!(svc.endpoints[0].status, EndpointStatus::Removed));
    assert_eq!(svc.repr.subsets[0].addresses.len(), 1);

    // the second endpoint's removal would empty the list: rescue
    let act1 = svc.handle_probe(1, false).unwrap();
    assert_eq!(act1.alerts.len(), 2);
    match &act1.alerts[1] {
        Msg::AllEpDown(name) => assert_eq!(name, "web"),
        other => panic!("unexpected alert {:?}", other.to_string(&None)),
    }
    let req1 = act1.apply.expect("the rescue applies the original");
    let expected = "apiVersion: v1\nkind: Endpoints\nmetadata:\n  name: web\nsubsets:\n\
- addresses:\n  - ip: 10.0.0.1\n  - ip: 10.0.0.2\n  ports:\n  - port: 80\n    protocol: TCP\n";
    assert_eq!(req1.yaml, expected);
    assert!(matches!(req1.pending, Pending::RemoveAllDown { .. }));
    // both endpoints are marked before the write
    assert!(matches!(svc.endpoints[0].status, EndpointStatus::Removed));
    assert!(matches!(svc.endpoints[1].status, EndpointStatus::Removed));
    svc.commit_apply(req1.pending, "102".to_string());
    assert_eq!(svc.our_version, "102");
    assert_eq!(svc.repr.subsets[0].addresses.len(), 2);

    // one recovery after the rescue flips everything healthy, no write
    for _ in 0..2 {
        let a = svc.handle_probe(1, true).unwrap();
        assert!(a.apply.is_none());
        assert!(a.alerts.is_empty());
    }
    let act2 = svc.handle_probe(1, true).unwrap();
    assert!(act2.apply.is_none());
    assert_eq!(act2.alerts.len(), 1);
    assert!(matches!(svc.endpoints[0].status, EndpointStatus::Healthy));
    assert!(matches!(svc.endpoints[1].status, EndpointStatus::Healthy));
}

#[test]
fn partial_ip_recovery_holds_the_document() {
    let blob = "\
apiVersion: v1
kind: Endpoints
metadata:
  name: web
  resourceVersion: \"100\"
subsets:
- addresses:
  - ip: 10.0.0.1
  ports:
  - port: 80
    protocol: TCP
  - port: 81
    protocol: TCP
"
    .to_string();
    let mut svc = make(blob);
    assert_eq!(svc.endpoints.len(), 2);
    svc.endpoints[0].status = EndpointStatus::Removed;
    svc.endpoints[1].status = EndpointStatus::Removed;
    let doc_before = svc.repr.to_yaml();
    for _ in 0..2 {
        let a = svc.handle_probe(0, true).unwrap();
        assert!(a.apply.is_none());
        assert!(a.alerts.is_empty());
    }
    let act = svc.handle_probe(0, true).unwrap();
    // port 81 is still down: only endpoint 0 turns healthy, no apply
    assert!(act.apply.is_none());
    assert_eq!(act.alerts.len(), 1);
    assert!(matches!(act.alerts[0], Msg::EpUp(..)));
    assert!(matches!(svc.endpoints[0].status, EndpointStatus::Healthy));
    assert!(matches!(svc.endpoints[1].status, EndpointStatus::Removed));
    assert_eq!(svc.repr.to_yaml(), doc_before);
}

#[test]
fn restore_appends_ip_once() {
    // one endpoint of the pair is removed and stripped from the document,
    // then recovers: the IP is appended exactly once
    let mut svc = make(two_ep_blob());
    for _ in 0..2 {
        let _ = svc.handle_probe(1, false).unwrap();
    }
    let act = svc.handle_probe(1, false).unwrap();
    let req = act.apply.unwrap();
    svc.commit_apply(req.pending, "101".to_string());
    assert_eq!(svc.repr.subsets[0].addresses.len(), 1);

    for _ in 0..2 {
        let a = svc.handle_probe(1, true).unwrap();
        assert!(a.apply.is_none());
    }
    let act = svc.handle_probe(1, true).unwrap();
    let req = act.apply.expect("restoration applies the appended document");
    let expected = "apiVersion: v1\nkind: Endpoints\nmetadata:\n  name: web\nsubsets:\n\
- addresses:\n  - ip: 10.0.0.1\n  - ip: 10.0.0.2\n  ports:\n  - port: 80\n    protocol: TCP\n";
    assert_eq!(req.yaml, expected);
    let n = svc
        .repr
        .subsets[0]
        .addresses
        .iter()
        .filter(|a| a.ip == "10.0.0.2")
        .count();
    assert_eq!(n, 1);
    match &req.pending {
        Pending::Restore { i } => assert_eq!(*i, 1),
        other => panic!("unexpected pending {:?}", other),
    }
    assert!(matches!(svc.endpoints[1].status, EndpointStatus::Removed));
    svc.commit_apply(req.pending, "102".to_string());
    assert!(matches!(svc.endpoints[1].status, EndpointStatus::Healthy));
    assert_eq!(svc.our_version, "102");
}
