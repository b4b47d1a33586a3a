//! Refresh reconciliation and version comparison.

use ephc::endpoint::Threshold;
use ephc::registry::{select_names, version_num, RefreshOutcome, ServiceRegistry};
use ephc::service::Service;

fn make(name: &str, version: &str) -> Service {
    let blob = format!(
        "apiVersion: v1\nkind: Endpoints\nmetadata:\n  name: {}\n  resourceVersion: \"{}\"\n\
subsets:\n- addresses:\n  - ip: 10.0.0.1\n  ports:\n  - port: 80\n    protocol: TCP\n",
        name, version
    );
    Service::new(blob, Threshold { restore: 3, remove: 3 })
        .unwrap()
        .unwrap()
}

#[test]
fn external_edit_replaces_aggregate() {
    let mut reg = ServiceRegistry::new();
    assert_eq!(reg.upsert(make("web", "100")), RefreshOutcome::Inserted);
    // flip some endpoint state so the replacement is observable
    reg.services[0].endpoints[0].counter.down = 2;
    assert_eq!(reg.upsert(make("web", "150")), RefreshOutcome::Replaced);
    assert_eq!(reg.len(), 1);
    assert_eq!(reg.services[0].our_version, "150");
    // the replacement restarts from the cluster's view
    assert_eq!(reg.services[0].endpoints[0].counter.down, 0);
}

#[test]
fn stale_cluster_read_is_ignored() {
    let mut reg = ServiceRegistry::new();
    assert_eq!(reg.upsert(make("web", "200")), RefreshOutcome::Inserted);
    assert_eq!(reg.upsert(make("web", "199")), RefreshOutcome::Stale);
    assert_eq!(reg.services[0].our_version, "200");
}

#[test]
fn equal_versions_change_nothing() {
    let mut reg = ServiceRegistry::new();
    assert_eq!(reg.upsert(make("web", "7")), RefreshOutcome::Inserted);
    assert_eq!(reg.upsert(make("web", "7")), RefreshOutcome::Unchanged);
}

#[test]
fn distinct_names_coexist() {
    let mut reg = ServiceRegistry::new();
    assert_eq!(reg.upsert(make("a", "1")), RefreshOutcome::Inserted);
    assert_eq!(reg.upsert(make("b", "1")), RefreshOutcome::Inserted);
    assert_eq!(reg.len(), 2);
    assert_eq!(reg.service_name(0), "a");
    assert_eq!(reg.service_name(1), "b");
    assert_eq!(reg.endpoint_count(0), 1);
    let (ip, port) = reg.endpoint_target(0, 0);
    assert_eq!(ip, "10.0.0.1");
    assert_eq!(port, 80);
}

#[test]
fn version_tokens_compare_numerically() {
    assert_eq!(version_num("82479279"), 82479279);
    assert_eq!(version_num("0"), 0);
    assert_eq!(version_num("007"), 7);
    assert_eq!(version_num("+5"), 5);
    assert_eq!(version_num(""), 0);
    assert_eq!(version_num("abc"), 0);
    assert_eq!(version_num("12a"), 0);
    assert_eq!(version_num("-3"), 0);
    assert_eq!(version_num("18446744073709551615"), u64::MAX);
    // one past the largest value does not parse and compares lowest
    assert_eq!(version_num("18446744073709551616"), 0);
}

#[test]
fn unparseable_version_is_replaced_by_numeric_one() {
    let mut reg = ServiceRegistry::new();
    assert_eq!(reg.upsert(make("web", "oops")), RefreshOutcome::Inserted);
    assert_eq!(reg.upsert(make("web", "1")), RefreshOutcome::Replaced);
}

#[test]
fn working_set_blocks_default_name() {
    let listed = vec![
        "kubernetes".to_string(),
        "web".to_string(),
        "db".to_string(),
    ];
    let out = select_names(listed, &None);
    assert_eq!(out, vec!["web".to_string(), "db".to_string()]);
}

#[test]
fn working_set_honours_block_list() {
    let listed = vec![
        "kubernetes".to_string(),
        "web".to_string(),
        "db".to_string(),
    ];
    let block = Some(vec!["db".to_string()]);
    let out = select_names(listed, &block);
    // an explicit block list replaces the default one
    assert_eq!(out, vec!["kubernetes".to_string(), "web".to_string()]);
}
