use end_switcher::account::{get_account_cache_file, sort_accounts, AccountInfo, ProfileStore};
use end_switcher::config::WebDavConfig;
use end_switcher::error::SyncError;
use end_switcher::game::{find_live_slot_entry, find_login_cache_entry, plan_activation, GameDirEntry};

#[test]
fn save_then_load_round_trips() {
    let mut s = ProfileStore::new();
    s.save("alice", b"AAA".to_vec(), 10).unwrap();
    let b = s.load("alice").unwrap();
    assert_eq!(b.alias, "alice");
    assert_eq!(b.payload, b"AAA".to_vec());
    assert_eq!(b.modified_at, 10);
}

#[test]
fn save_overwrites_earlier_profile() {
    let mut s = ProfileStore::new();
    s.save("alice", b"AAA".to_vec(), 10).unwrap();
    s.save("alice", b"ZZZ".to_vec(), 20).unwrap();
    let b = s.load("alice").unwrap();
    assert_eq!(b.payload, b"ZZZ".to_vec());
    assert_eq!(b.modified_at, 20);
    assert_eq!(s.list().len(), 1);
}

#[test]
fn save_rejects_bad_alias() {
    let mut s = ProfileStore::new();
    assert_eq!(s.save("", b"x".to_vec(), 1), Err(SyncError::InvalidAlias));
    assert_eq!(s.save("a/b", b"x".to_vec(), 1), Err(SyncError::InvalidAlias));
    assert_eq!(s.save("a\\b", b"x".to_vec(), 1), Err(SyncError::InvalidAlias));
    assert!(s.list().is_empty());
}

#[test]
fn delete_absent_is_fine_and_delete_removes() {
    let mut s = ProfileStore::new();
    s.delete("nobody");
    s.save("bob", b"BBB".to_vec(), 5).unwrap();
    s.delete("bob");
    assert_eq!(s.load("bob").unwrap_err(), SyncError::NotFound);
    assert!(!s.contains("bob"));
}

#[test]
fn list_is_empty_then_newest_first() {
    let mut s = ProfileStore::new();
    assert!(s.list().is_empty());
    s.save("a", vec![1], 100).unwrap();
    s.save("b", vec![2], 300).unwrap();
    s.save("c", vec![3], 200).unwrap();
    let l = s.list();
    let names: Vec<&str> = l.iter().map(|a| a.alias.as_str()).collect();
    assert_eq!(names, vec!["b", "c", "a"]);
    assert_eq!(l[0].updated_at, 300);
}

#[test]
fn sort_accounts_is_stable_and_descending() {
    let v = vec![
        AccountInfo { alias: "x".to_string(), updated_at: 1 },
        AccountInfo { alias: "y".to_string(), updated_at: 5 },
        AccountInfo { alias: "z".to_string(), updated_at: 1 },
    ];
    let r = sort_accounts(v);
    let names: Vec<&str> = r.iter().map(|a| a.alias.as_str()).collect();
    assert_eq!(names, vec!["y", "x", "z"]);
}

#[test]
fn cache_file_path() {
    assert_eq!(get_account_cache_file("/data/accounts", "alice").unwrap(), "/data/accounts/alice");
    assert_eq!(get_account_cache_file("/data/accounts/", "alice").unwrap(), "/data/accounts/alice");
    assert_eq!(get_account_cache_file("/data", "../x"), Err(SyncError::InvalidAlias));
}

#[test]
fn collection_url_and_auth() {
    let mut c = WebDavConfig {
        url: "https://dav.example.com".to_string(),
        username: String::new(),
        password: None,
        path: None,
    };
    assert_eq!(c.collection_url(), "https://dav.example.com/EndSwitcherBackup/");
    assert!(c.basic_auth().is_none());
    c.url = "https://dav.example.com/".to_string();
    c.path = Some("backup".to_string());
    assert_eq!(c.collection_url(), "https://dav.example.com/backup/");
    c.username = "u".to_string();
    let a = c.basic_auth().unwrap();
    assert_eq!(a.username, "u");
    assert_eq!(a.password, None);
    c.password = Some("p".to_string());
    assert_eq!(c.basic_auth().unwrap().password, Some("p".to_string()));
}

fn entry(name: &str, is_dir: bool, has_login_cache: bool) -> GameDirEntry {
    GameDirEntry { name: name.to_string(), is_dir, has_login_cache }
}

#[test]
fn game_dir_selection() {
    let entries = vec![
        entry("sdk_data_file", false, false),
        entry("other", true, true),
        entry("sdk_data_1", true, false),
        entry("sdk_data_2", true, true),
    ];
    assert_eq!(find_live_slot_entry(&entries), Some(2));
    assert_eq!(find_login_cache_entry(&entries), Some(3));
    assert_eq!(find_live_slot_entry(&vec![entry("x", true, true)]), None);
}

#[test]
fn activation_errors() {
    let mut s = ProfileStore::new();
    s.save("alice", b"AAA".to_vec(), 1).unwrap();
    let none = vec![entry("other", true, true)];
    let some = vec![entry("sdk_data_9", true, false)];
    assert_eq!(plan_activation(&none, &s, "alice"), Err(SyncError::NoActiveTarget));
    assert_eq!(plan_activation(&some, &s, "bob"), Err(SyncError::NotFound));
    assert_eq!(plan_activation(&some, &s, "alice"), Ok(0));
}
