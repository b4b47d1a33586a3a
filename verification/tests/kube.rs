//! Ingest and document tests.

use ephc::endpoint::{EndpointStatus, Protocol, Threshold};
use ephc::error::ErrorKind;
use ephc::service::Service;
use ephc::yaml::{AddressRepr, PortRepr, ServiceMetadataRepr, ServiceRepr, SubsetRepr};

const YML_STR: &str = "
        apiVersion: v1
        kind: Endpoints
        metadata:
          creationTimestamp: 2019-03-20T07:23:28Z
          name: account
          namespace: default
          resourceVersion: \"82479279\"
          selfLink: /api/v1/namespaces/default/endpoints/ephc-test
          uid: 0ec10531-4ae1-11e9-9c9c-f86eee307061
        subsets:
        - addresses:
          - ip: 172.16.61.84
          - ip: 172.16.61.85
          - ip: 172.16.61.86
          - ip: 172.16.61.87
          - ip: 172.16.61.88
          - ip: 172.16.61.90
          ports:
          - name: port80
            port: 31000
            protocol: TCP
          - name: port82
            port: 31002
            protocol: TCP
          - name: port81
            port: 31001
            protocol: TCP";

#[test]
fn service_from_str() {
    let svc = ServiceRepr::from_str(YML_STR);
    println!("{:?}", svc);
}

#[test]
fn service_new() {
    let threshold = Threshold {
        restore: 3,
        remove: 3,
    };
    let svc = Service::new(String::from(YML_STR), threshold);
    println!("{:?}", svc);
}

#[test]
fn to_yaml() {
    let s = ServiceRepr {
        api_version: "v1".to_owned(),
        kind: "Endpoints".to_owned(),
        metadata: ServiceMetadataRepr {
            name: "test".to_owned(),
            resource_version: "1".to_owned(),
        },
        subsets: vec![SubsetRepr {
            addresses: vec![AddressRepr {
                ip: "1.1.1.1".to_owned(),
            }],
            ports: vec![
                PortRepr {
                    name: Some("23".to_owned()),
                    port: 23,
                    protocol: "UDP".to_owned(),
                },
                PortRepr {
                    name: None,
                    port: 80,
                    protocol: "TCP".to_owned(),
                },
            ],
        }],
        yaml: "s".to_owned(),
    };
    println!("{:?}", s.to_yaml());
}

#[test]
fn ingest_flattens_in_order() {
    let blob = "\
apiVersion: v1
kind: Endpoints
metadata:
  name: web
  resourceVersion: \"100\"
subsets:
- addresses:
  - ip: 10.0.0.1
  - ip: 10.0.0.2
  ports:
  - port: 80
    protocol: TCP
  - port: 81
    protocol: TCP
";
    let svc = Service::new(blob.to_string(), Threshold { restore: 3, remove: 3 })
        .unwrap()
        .unwrap();
    assert_eq!(svc.name, "web");
    assert_eq!(svc.our_version, "100");
    assert_eq!(svc.endpoints.len(), 4);
    let got: Vec<(String, u16)> = svc
        .endpoints
        .iter()
        .map(|e| (e.addr.ip.clone(), e.addr.port))
        .collect();
    assert_eq!(
        got,
        vec![
            ("10.0.0.1".to_string(), 80),
            ("10.0.0.2".to_string(), 80),
            ("10.0.0.1".to_string(), 81),
            ("10.0.0.2".to_string(), 81),
        ]
    );
    for e in &svc.endpoints {
        assert!(matches!(e.status, EndpointStatus::Healthy));
        assert!(matches!(e.protocol, Protocol::TCP));
        assert_eq!(e.counter.up, 0);
        assert_eq!(e.counter.down, 0);
    }
}

#[test]
fn ingest_skips_datagram_ports() {
    let blob = "\
apiVersion: v1
kind: Endpoints
metadata:
  name: web
  resourceVersion: \"1\"
subsets:
- addresses:
  - ip: 10.0.0.1
  ports:
  - port: 53
    protocol: UDP
  - port: 80
    protocol: TCP
";
    let svc = Service::new(blob.to_string(), Threshold { restore: 3, remove: 3 })
        .unwrap()
        .unwrap();
    assert_eq!(svc.endpoints.len(), 1);
    assert_eq!(svc.endpoints[0].addr.port, 80);
}

#[test]
fn ingest_all_datagram_is_none() {
    let blob = "\
apiVersion: v1
kind: Endpoints
metadata:
  name: web
  resourceVersion: \"1\"
subsets:
- addresses:
  - ip: 10.0.0.1
  ports:
  - port: 53
    protocol: UDP
";
    let svc = Service::new(blob.to_string(), Threshold { restore: 3, remove: 3 }).unwrap();
    assert!(svc.is_none());
}

#[test]
fn ingest_rejects_bad_yaml() {
    let r = Service::new("{ not yaml ".to_string(), Threshold { restore: 3, remove: 3 });
    let e = r.err().unwrap();
    assert_eq!(e.kind, ErrorKind::Serde);
}

#[test]
fn ingest_rejects_bad_address() {
    let blob = "\
apiVersion: v1
kind: Endpoints
metadata:
  name: web
  resourceVersion: \"1\"
subsets:
- addresses:
  - ip: 999.0.0.1
  ports:
  - port: 80
    protocol: TCP
";
    let e = Service::new(blob.to_string(), Threshold { restore: 3, remove: 3 })
        .err()
        .unwrap();
    assert_eq!(e.kind, ErrorKind::AddrParseError);
}

#[test]
fn ingest_rejects_oversized_port() {
    let blob = "\
apiVersion: v1
kind: Endpoints
metadata:
  name: web
  resourceVersion: \"1\"
subsets:
- addresses:
  - ip: 10.0.0.1
  ports:
  - port: 70000
    protocol: TCP
";
    let e = Service::new(blob.to_string(), Threshold { restore: 3, remove: 3 })
        .err()
        .unwrap();
    assert_eq!(e.kind, ErrorKind::AddrParseError);
}

#[test]
fn ingest_rejects_unknown_protocol() {
    let blob = "\
apiVersion: v1
kind: Endpoints
metadata:
  name: web
  resourceVersion: \"1\"
subsets:
- addresses:
  - ip: 10.0.0.1
  ports:
  - port: 80
    protocol: SCTP
";
    let e = Service::new(blob.to_string(), Threshold { restore: 3, remove: 3 })
        .err()
        .unwrap();
    assert_eq!(e.kind, ErrorKind::Other);
}

#[test]
fn from_repr_builds_the_aggregate() {
    let blob = "\
apiVersion: v1
kind: Endpoints
metadata:
  name: web
  resourceVersion: \"9\"
subsets:
- addresses:
  - ip: 10.0.0.1
  ports:
  - port: 80
    protocol: TCP
";
    let repr = ServiceRepr::from_str(blob).unwrap();
    let svc = Service::from_repr(repr, Threshold { restore: 3, remove: 3 })
        .unwrap()
        .unwrap();
    assert_eq!(svc.name, "web");
    assert_eq!(svc.our_version, "9");
    assert_eq!(svc.endpoints.len(), 1);
    assert_eq!(svc.repr.yaml, blob);
}

#[test]
fn reingest_of_serialized_document_keeps_endpoints() {
    let blob = "\
apiVersion: v1
kind: Endpoints
metadata:
  name: web
  resourceVersion: \"100\"
subsets:
- addresses:
  - ip: 10.0.0.1
  - ip: 10.0.0.2
  ports:
  - name: http
    port: 80
    protocol: TCP
";
    let t = Threshold { restore: 3, remove: 3 };
    let first = Service::new(blob.to_string(), t).unwrap().unwrap();
    let serialized = first.repr.to_yaml();
    let second = Service::new(serialized, t).unwrap().unwrap();
    assert_eq!(first.endpoints.len(), second.endpoints.len());
    for (a, b) in first.endpoints.iter().zip(second.endpoints.iter()) {
        assert_eq!(a.addr.ip, b.addr.ip);
        assert_eq!(a.addr.port, b.addr.port);
        assert!(a == b);
    }
}

#[test]
fn emitted_yaml_has_expected_shape() {
    let blob = "\
apiVersion: v1
kind: Endpoints
metadata:
  name: web
  resourceVersion: \"100\"
subsets:
- addresses:
  - ip: 10.0.0.1
  ports:
  - port: 80
    protocol: TCP
";
    let svc = Service::new(blob.to_string(), Threshold { restore: 3, remove: 3 })
        .unwrap()
        .unwrap();
    let expected = "apiVersion: v1\nkind: Endpoints\nmetadata:\n  name: web\nsubsets:\n\
- addresses:\n  - ip: 10.0.0.1\n  ports:\n  - port: 80\n    protocol: TCP\n";
    assert_eq!(svc.repr.to_yaml(), expected);
}
