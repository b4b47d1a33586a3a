//! Alert channel selection and message rendering.

use ephc::alert::{Alert, ChannelKind, Msg};
use ephc::error::{Error, ErrorKind};
use ephc::strutil::{is_valid_ipv4, str_eq, u32_to_string};

#[test]
fn wecom_scheme_selects_channel() {
    let a = Alert::from_url_scheme(&Some("wecom://http://hook.example/send".to_string()));
    match a.channel {
        Some(ChannelKind::WeCom { url }) => assert_eq!(url, "http://hook.example/send"),
        None => panic!("expected a channel"),
    }
}

#[test]
fn unknown_scheme_disables_alerting() {
    let a = Alert::from_url_scheme(&Some("pager://x".to_string()));
    assert!(a.channel.is_none());
}

#[test]
fn absent_and_empty_urls_disable_alerting() {
    assert!(Alert::from_url_scheme(&None).channel.is_none());
    assert!(Alert::from_url_scheme(&Some(String::new())).channel.is_none());
}

#[test]
fn url_without_separator_is_all_scheme() {
    let a = Alert::from_url_scheme(&Some("wecom".to_string()));
    match a.channel {
        Some(ChannelKind::WeCom { url }) => assert_eq!(url, ""),
        None => panic!("expected a channel"),
    }
}

#[test]
fn later_separators_stay_in_target() {
    let a = Alert::from_url_scheme(&Some("wecom://a://b".to_string()));
    match a.channel {
        Some(ChannelKind::WeCom { url }) => assert_eq!(url, "a://b"),
        None => panic!("expected a channel"),
    }
}

#[test]
fn messages_render_with_cluster_label() {
    let m = Msg::EpDown("web".to_string(), "10.0.0.1:80".to_string());
    assert_eq!(
        m.to_string(&Some("prod".to_string())),
        "ENDPOINT DOWN\nCluster: prod\nService: web\nendpoint: 10.0.0.1:80"
    );
    let m = Msg::EpUp("web".to_string(), "10.0.0.1:80".to_string());
    assert_eq!(
        m.to_string(&None),
        "ENDPOINT UP\nCluster: unknown\nService: web\nendpoint: 10.0.0.1:80"
    );
    let m = Msg::AllEpDown("web".to_string());
    assert_eq!(
        m.to_string(&None),
        "ALL ENDPOINTS DOWN\nCluster: unknown\nService: web"
    );
}

#[test]
fn errors_describe_themselves() {
    let e = Error::new("boom");
    assert_eq!(e.kind, ErrorKind::Other);
    assert_eq!(e.describe(), "ephc error, kind: other, err: boom");
    assert_eq!(ErrorKind::Io.to_string(), "io");
    assert_eq!(ErrorKind::Serde.to_string(), "serde");
    assert_eq!(ErrorKind::AddrParseError.to_string(), "AddrParseError");
    let e = Error::io("lost".to_string());
    assert_eq!(e.describe(), "ephc error, kind: io, err: lost");
}

#[test]
fn ipv4_validation() {
    assert!(is_valid_ipv4("10.0.0.1"));
    assert!(is_valid_ipv4("0.0.0.0"));
    assert!(is_valid_ipv4("255.255.255.255"));
    assert!(!is_valid_ipv4(""));
    assert!(!is_valid_ipv4("1.2.3"));
    assert!(!is_valid_ipv4("1.2.3.4.5"));
    assert!(!is_valid_ipv4("256.1.1.1"));
    assert!(!is_valid_ipv4("01.2.3.4"));
    assert!(!is_valid_ipv4("1..2.3"));
    assert!(!is_valid_ipv4("a.b.c.d"));
    assert!(!is_valid_ipv4("1.2.3.4 "));
}

#[test]
fn decimal_rendering() {
    assert_eq!(u32_to_string(0), "0");
    assert_eq!(u32_to_string(7), "7");
    assert_eq!(u32_to_string(80), "80");
    assert_eq!(u32_to_string(65535), "65535");
    assert_eq!(u32_to_string(u32::MAX), "4294967295");
}

#[test]
fn string_equality_helper() {
    assert!(str_eq("abc", "abc"));
    assert!(!str_eq("abc", "abd"));
    assert!(str_eq("", ""));
}
