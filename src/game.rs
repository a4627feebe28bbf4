use vstd::prelude::*;
use crate::account::ProfileStore;
use crate::error::SyncError;
use crate::text::{starts_with, starts_with_spec};

verus! {

/// Prefix of the game client's per-installation data directories.
pub const SDK_DIR_PREFIX: &'static str = "sdk_data_";

/// Name of the game client's live credential cache inside such a directory.
pub const LOGIN_CACHE_FILE: &'static str = "login_cache";

/// An entry of the game client's data directory, as read from disk.
pub struct GameDirEntry {
    pub name: String,
    pub is_dir: bool,
    /// Whether the entry holds a regular file named `login_cache`.
    pub has_login_cache: bool,
}

/// Whether an entry is one of the client's SDK data directories.
pub open spec fn is_sdk_dir(e: GameDirEntry) -> bool {
    e.is_dir && starts_with_spec(e.name@, SDK_DIR_PREFIX@)
}

pub fn is_sdk_dir_entry(e: &GameDirEntry) -> (r: bool)
    ensures
        r == is_sdk_dir(*e),
{
    e.is_dir && starts_with(e.name.as_str(), SDK_DIR_PREFIX)
}

/// The first SDK data directory that holds a live credential cache, if any.
pub fn find_login_cache_entry(entries: &Vec<GameDirEntry>) -> (r: Option<usize>)
    ensures
        match r {
            Some(i) => i < entries@.len() && is_sdk_dir(entries@[i as int])
                && entries@[i as int].has_login_cache && forall|j: int|
                0 <= j < i ==> !(is_sdk_dir(#[trigger] entries@[j]) && entries@[j].has_login_cache),
            None => forall|j: int|
                0 <= j < entries@.len() ==> !(is_sdk_dir(#[trigger] entries@[j])
                    && entries@[j].has_login_cache),
        },
{
    let mut i: usize = 0;
    while i < entries.len()
        invariant
            i <= entries@.len(),
            forall|j: int|
                0 <= j < i ==> !(is_sdk_dir(#[trigger] entries@[j]) && entries@[j].has_login_cache),
        decreases entries@.len() - i,
    {
        if is_sdk_dir_entry(&entries[i]) && entries[i].has_login_cache {
            return Some(i);
        }
        i = i + 1;
    }
    None
}

/// The first SDK data directory, if any: where an activated profile is written.
pub fn find_live_slot_entry(entries: &Vec<GameDirEntry>) -> (r: Option<usize>)
    ensures
        match r {
            Some(i) => i < entries@.len() && is_sdk_dir(entries@[i as int]) && forall|j: int|
                0 <= j < i ==> !is_sdk_dir(#[trigger] entries@[j]),
            None => forall|j: int| 0 <= j < entries@.len() ==> !is_sdk_dir(#[trigger] entries@[j]),
        },
{
    let mut i: usize = 0;
    while i < entries.len()
        invariant
            i <= entries@.len(),
            forall|j: int| 0 <= j < i ==> !is_sdk_dir(#[trigger] entries@[j]),
        decreases entries@.len() - i,
    {
        if is_sdk_dir_entry(&entries[i]) {
            return Some(i);
        }
        i = i + 1;
    }
    None
}

/// Where activating profile `alias` writes it: the first SDK data directory. Fails
/// with `NoActiveTarget` when there is none, else with `NotFound` when the store has
/// no such profile.
pub fn plan_activation(entries: &Vec<GameDirEntry>, store: &ProfileStore, alias: &str) -> (r:
    Result<usize, SyncError>)
    requires
        store.wf(),
    ensures
        (forall|j: int| 0 <= j < entries@.len() ==> !is_sdk_dir(#[trigger] entries@[j])) ==> (
        r matches Err(SyncError::NoActiveTarget)),
        (exists|j: int| 0 <= j < entries@.len() && is_sdk_dir(#[trigger] entries@[j]))
            && !store.view().contains_key(alias@) ==> (r matches Err(SyncError::NotFound)),
        r matches Ok(i) ==> i < entries@.len() && is_sdk_dir(entries@[i as int]) && (forall|j: int|
            0 <= j < i ==> !is_sdk_dir(#[trigger] entries@[j])) && store.view().contains_key(alias@),
        (exists|j: int| 0 <= j < entries@.len() && is_sdk_dir(#[trigger] entries@[j]))
            && store.view().contains_key(alias@) ==> r is Ok,
{
    match find_live_slot_entry(entries) {
        None => Err(SyncError::NoActiveTarget),
        Some(i) => {
            if store.contains(alias) {
                Ok(i)
            } else {
                Err(SyncError::NotFound)
            }
        },
    }
}

} // verus!
