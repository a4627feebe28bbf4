use std::collections::HashMap;

use end_switcher::account::{AccountInfo, ProfileStore};
use end_switcher::config::WebDavConfig;
use end_switcher::error::SyncError;
use end_switcher::listing::parse_listing;
use end_switcher::pull::{PullAction, PullEvent, PullSession};
use end_switcher::push::{member_url, PushAction, PushSession, RemoteOutcome};

fn config() -> WebDavConfig {
    WebDavConfig {
        url: "https://dav.example.com/".to_string(),
        username: "u".to_string(),
        password: Some("p".to_string()),
        path: Some("store".to_string()),
    }
}

const LISTING: &str = r#"<?xml version="1.0" encoding="utf-8"?>
<D:multistatus xmlns:D="DAV:">
  <D:response>
    <D:href>/store/</D:href>
    <D:propstat><D:prop><D:resourcetype><D:collection/></D:resourcetype></D:prop></D:propstat>
  </D:response>
  <D:response>
    <D:href>/store/al%20ice</D:href>
    <D:propstat><D:prop><D:resourcetype/></D:prop></D:propstat>
  </D:response>
  <D:response>
    <D:href>/store/accounts.json</D:href>
    <D:propstat><D:prop><D:resourcetype/></D:prop></D:propstat>
  </D:response>
</D:multistatus>"#;

#[test]
fn listing_keeps_only_the_decoded_member_file() {
    assert_eq!(parse_listing(LISTING).unwrap(), vec!["al ice".to_string()]);
}

#[test]
fn listing_skips_collection_marked_by_start_tag_and_trailing_slash() {
    let body = "<multistatus><response><href>/s/sub</href><resourcetype><collection></collection></resourcetype></response>\
                <response><href>/s/dir/</href></response>\
                <response><href>/s/bob</href></response></multistatus>";
    assert_eq!(parse_listing(body).unwrap(), vec!["bob".to_string()]);
}

#[test]
fn listing_malformed_is_unavailable() {
    let r = parse_listing("<a><b></a>");
    assert!(matches!(r, Err(SyncError::ListingUnavailable(_))));
}

#[test]
fn member_url_encodes_the_name() {
    assert_eq!(member_url("https://h/c/", "a b"), "https://h/c/a%20b");
}

fn profiles(names: &[&str]) -> Vec<AccountInfo> {
    names.iter().enumerate().map(|(i, n)| AccountInfo { alias: n.to_string(), updated_at: i as i64 }).collect()
}

#[test]
fn push_failing_on_second_upload_publishes_nothing() {
    let (mut s, a) = PushSession::new(&config(), profiles(&["a", "b", "c"]));
    assert!(matches!(a, PushAction::CreateCollection { ref url } if url == "https://dav.example.com/store/"));
    let a = s.on_event(RemoteOutcome::Response(405));
    assert!(matches!(a, PushAction::Upload { index: 0, .. }));
    let a = s.on_event(RemoteOutcome::Response(201));
    assert!(matches!(a, PushAction::Upload { index: 1, .. }));
    match s.on_event(RemoteOutcome::Response(500)) {
        PushAction::Failed { error, succeeded } => {
            assert_eq!(succeeded, 1);
            assert_eq!(
                error,
                SyncError::TransportError { operation: "PUT".to_string(), status: 500, alias: "b".to_string() }
            );
        }
        _ => panic!("expected a failure"),
    }
    assert!(matches!(s.on_event(RemoteOutcome::Response(201)), PushAction::Idle));
}

#[test]
fn push_fails_when_collection_cannot_be_created() {
    let (mut s, _) = PushSession::new(&config(), profiles(&["a"]));
    assert!(matches!(s.on_event(RemoteOutcome::Unreachable), PushAction::Failed { succeeded: 0, .. }));
}

#[test]
fn push_of_nothing_publishes_empty_manifest() {
    let (mut s, _) = PushSession::new(&config(), Vec::new());
    match s.on_event(RemoteOutcome::Response(201)) {
        PushAction::PublishManifest { url, entries } => {
            assert_eq!(url, "https://dav.example.com/store/accounts.json");
            assert!(entries.is_empty());
        }
        _ => panic!("expected the manifest"),
    }
    assert!(matches!(s.on_event(RemoteOutcome::Response(204)), PushAction::Finished { uploaded: 0 }));
}

#[test]
fn pull_falls_back_to_listing_and_records_failures() {
    let (mut s, a) = PullSession::new(&config());
    assert!(matches!(a, PullAction::FetchManifest { ref url } if url == "https://dav.example.com/store/accounts.json"));
    assert!(matches!(s.on_event(PullEvent::ManifestMissing), PullAction::ListCollection { .. }));
    match s.on_event(PullEvent::Listed(LISTING.to_string())) {
        PullAction::Download { alias, url } => {
            assert_eq!(alias, "al ice");
            assert_eq!(url, "https://dav.example.com/store/al%20ice");
        }
        _ => panic!("expected a download"),
    }
    match s.on_event(PullEvent::DownloadFailed) {
        PullAction::Finished { pulled, failed } => {
            assert!(pulled.is_empty());
            assert_eq!(failed, vec!["al ice".to_string()]);
        }
        _ => panic!("expected the end"),
    }
}

#[test]
fn pull_fails_on_corrupt_manifest() {
    let (mut s, _) = PullSession::new(&config());
    assert!(matches!(s.on_event(PullEvent::ManifestCorrupt), PullAction::Failed { error: SyncError::ManifestCorrupt }));
}

#[test]
fn push_then_pull_reproduces_profiles() {
    let mut local = ProfileStore::new();
    local.save("alice", b"AAA".to_vec(), 1).unwrap();
    local.save("bob", b"BBB".to_vec(), 2).unwrap();
    let mut remote: HashMap<String, Vec<u8>> = HashMap::new();
    let mut manifest: Option<Vec<AccountInfo>> = None;

    let (mut push, mut action) = PushSession::new(&config(), local.list());
    loop {
        action = match action {
            PushAction::CreateCollection { .. } => push.on_event(RemoteOutcome::Response(201)),
            PushAction::Upload { alias, url, .. } => {
                remote.insert(url, local.load(&alias).unwrap().payload);
                push.on_event(RemoteOutcome::Response(201))
            }
            PushAction::PublishManifest { entries, .. } => {
                manifest = Some(entries);
                push.on_event(RemoteOutcome::Response(201))
            }
            PushAction::Finished { uploaded } => {
                assert_eq!(uploaded, 2);
                break;
            }
            _ => panic!("push did not finish"),
        };
    }
    let manifest = manifest.unwrap();
    let mut names: Vec<&str> = manifest.iter().map(|a| a.alias.as_str()).collect();
    names.sort();
    assert_eq!(names, vec!["alice", "bob"]);

    let mut fresh = ProfileStore::new();
    let (mut pull, mut action) = PullSession::new(&config());
    loop {
        action = match action {
            PullAction::FetchManifest { .. } => pull.on_event(PullEvent::ManifestFetched(manifest.clone())),
            PullAction::Download { alias, url } => {
                fresh.save(&alias, remote[&url].clone(), 9).unwrap();
                pull.on_event(PullEvent::Downloaded)
            }
            PullAction::Finished { pulled, failed } => {
                assert_eq!(pulled.len(), 2);
                assert!(failed.is_empty());
                break;
            }
            _ => panic!("pull did not finish"),
        };
    }
    assert_eq!(fresh.load("alice").unwrap().payload, b"AAA".to_vec());
    assert_eq!(fresh.load("bob").unwrap().payload, b"BBB".to_vec());
    assert_eq!(fresh.list().len(), 2);
}
