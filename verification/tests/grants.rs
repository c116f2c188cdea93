//! Grants and how long they last.

use secretd::clock::{clamp_millis, clamp_seconds, now_seconds};
use secretd::grants::{
    now_millis, Grant, GrantStore, DEFAULT_GRANT_SECONDS, MAX_GRANT_SECONDS,
};
use secretd::process::ProcessIdentity;

fn process() -> ProcessIdentity {
    ProcessIdentity {
        pid: 42,
        ppid: 1,
        started_at: "start".to_owned(),
        executable: "/bin/tool".to_owned(),
        command: "tool".to_owned(),
    }
}

fn expiries(grants: Vec<Grant>) -> Vec<u64> {
    grants.into_iter().map(|grant| grant.expires_at).collect()
}

#[test]
fn matches_a_secret() {
    let mut grants = GrantStore::default();
    grants.add("aws/key".to_owned(), process(), 30).unwrap();
    assert!(grants.find("aws/key", &vec![process()]).is_some());
    assert!(grants.find("aws/other", &vec![process()]).is_none());
}

#[test]
fn a_grant_for_an_ancestor_matches_its_descendants() {
    let ancestor = process();
    let mut child = process();
    child.pid = 43;
    child.ppid = ancestor.pid;
    child.started_at = "child-start".to_owned();
    child.executable = "/bin/child".to_owned();
    let mut grants = GrantStore::default();
    grants.add("token".to_owned(), ancestor.clone(), 30).unwrap();

    assert!(grants.find("token", &vec![child, ancestor]).is_some());
}

#[test]
fn extensions_add_fifteen_minutes_and_cap_remaining_time_at_one_hour() {
    let mut grants = GrantStore::default();
    let grant = grants.add("token".to_owned(), process(), DEFAULT_GRANT_SECONDS).unwrap();
    let first = grants.extend(&grant.id).unwrap();
    let second = grants.extend(&grant.id).unwrap();
    let third = grants.extend(&grant.id).unwrap();

    assert_eq!(first.expires_at, grant.expires_at + 15 * 60 * 1_000);
    assert_eq!(second.expires_at, grant.expires_at + 30 * 60 * 1_000);
    assert!(third.expires_at <= now_millis() + MAX_GRANT_SECONDS * 1_000);
}

#[test]
fn grants_last_from_one_second_to_one_hour() {
    let mut grants = GrantStore::default();
    for seconds in [0, MAX_GRANT_SECONDS + 1] {
        assert_eq!(
            grants.add("token".to_owned(), process(), seconds).unwrap_err(),
            "Grant duration must be between 1 and 3600 seconds"
        );
    }
    let grant = grants.add_at("token".to_owned(), process(), 3_600, "id".to_owned(), 1_000).unwrap();
    assert_eq!(grant.created_at, 1_000);
    assert_eq!(grant.expires_at, 3_601_000);
}

#[test]
fn a_grant_ends_when_its_time_is_over() {
    let mut grants = GrantStore::default();
    grants.add_at("token".to_owned(), process(), 10, "id".to_owned(), 1_000).unwrap();
    assert!(grants.find_at("token", &vec![process()], 10_999).is_some());
    assert!(grants.find_at("token", &vec![process()], 11_000).is_none());
    assert!(grants.list_at(11_000).is_empty());
    assert!(grants.extend_at("id", 11_001).is_none());
}

#[test]
fn grants_are_listed_by_the_time_they_end() {
    let mut grants = GrantStore::default();
    grants.add_at("a".to_owned(), process(), 30, "1".to_owned(), 0).unwrap();
    grants.add_at("b".to_owned(), process(), 10, "2".to_owned(), 0).unwrap();
    grants.add_at("c".to_owned(), process(), 20, "3".to_owned(), 0).unwrap();
    assert_eq!(expiries(grants.list_at(1)), vec![10_000, 20_000, 30_000]);
    assert_eq!(grants.revoke("2").unwrap().resource, "b");
    assert!(grants.revoke("2").is_none());
    assert_eq!(expiries(grants.list_at(1)), vec![20_000, 30_000]);
}

#[test]
fn an_extension_leaves_an_hour_at_most() {
    let mut grants = GrantStore::default();
    grants.add_at("a".to_owned(), process(), 3_600, "1".to_owned(), 0).unwrap();
    assert_eq!(grants.extend_at("1", 0).unwrap().expires_at, 3_600_000);
    assert_eq!(grants.extend_at("1", 600_000).unwrap().expires_at, 4_200_000);
}

#[test]
fn identifiers_are_fresh() {
    let mut grants = GrantStore::default();
    let first = grants.add("token".to_owned(), process(), 30).unwrap();
    let second = grants.add("token".to_owned(), process(), 30).unwrap();
    assert_eq!(first.id.len(), 36);
    assert_ne!(first.id, second.id);
    let now = now_millis();
    assert!(first.created_at <= now && now < first.created_at + 60_000);
}

#[test]
fn times_before_the_epoch_are_zero() {
    assert_eq!(clamp_millis(Some(1_500)), 1_500);
    assert_eq!(clamp_millis(Some(u128::MAX)), u64::MAX);
    assert_eq!(clamp_millis(None), 0);
    assert_eq!(clamp_seconds(Some(1)), 1);
    assert_eq!(clamp_seconds(None), 0);
    let (before, millis, after) = (now_seconds(), now_millis(), now_seconds());
    assert!(before <= millis / 1_000 && millis / 1_000 <= after);
}
