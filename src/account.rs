use vstd::prelude::*;
use vstd::string::*;
use crate::error::SyncError;
use crate::text::{contains_char, contains_char_spec, ends_with_char, ends_with_char_spec, str_eq};

verus! {

broadcast use vstd::seq_lib::group_to_multiset_ensures;

/// A saved profile as listed: its alias and when it was last written (Unix seconds).
#[derive(Debug, Clone)]
pub struct AccountInfo {
    pub alias: String,
    pub updated_at: i64,
}

/// Whether `s` is in order of descending `updated_at`.
pub open spec fn sorted_desc(s: Seq<AccountInfo>) -> bool {
    forall|a: int, b: int| 0 <= a < b < s.len() ==> s[a].updated_at >= s[b].updated_at
}

/// The same accounts, most recently updated first; accounts with equal times keep
/// their order.
pub fn sort_accounts(v: Vec<AccountInfo>) -> (r: Vec<AccountInfo>)
    ensures
        sorted_desc(r@),
        r@.to_multiset() == v@.to_multiset(),
{
    let ghost orig = v@;
    let mut rest = v;
    let mut out: Vec<AccountInfo> = Vec::new();
    let ghost mut k: int = 0;
    while rest.len() > 0
        invariant
            0 <= k <= orig.len(),
            rest@ == orig.subrange(k, orig.len() as int),
            out@.to_multiset() == orig.subrange(0, k).to_multiset(),
            sorted_desc(out@),
        decreases rest@.len(),
    {
        let x = rest.remove(0);
        let mut pos: usize = 0;
        while pos < out.len() && out[pos].updated_at >= x.updated_at
            invariant
                pos <= out@.len(),
                forall|j: int| 0 <= j < pos ==> out@[j].updated_at >= x.updated_at,
            decreases out@.len() - pos,
        {
            pos = pos + 1;
        }
        let ghost before = out@;
        out.insert(pos, x);
        proof {
            assert(orig.subrange(0, k + 1) =~= orig.subrange(0, k).push(x));
            assert(orig.subrange(k + 1, orig.len() as int) =~= orig.subrange(
                k,
                orig.len() as int,
            ).remove(0));
            assert forall|a: int, b: int| 0 <= a < b < out@.len() implies out@[a].updated_at
                >= out@[b].updated_at by {
                if b < pos {
                } else if b == pos {
                } else if a < pos {
                    assert(out@[b] == before[b - 1]);
                } else if a == pos {
                    assert(pos < before.len());
                    assert(before[pos as int].updated_at < x.updated_at);
                    assert(out@[b] == before[b - 1]);
                } else {
                    assert(out@[b] == before[b - 1]);
                    assert(out@[a] == before[a - 1]);
                }
            }
            k = k + 1;
        }
    }
    proof {
        assert(orig.subrange(0, k) =~= orig);
    }
    out
}

/// Whether `alias` can name a profile: non-empty and free of path separators.
pub open spec fn valid_alias(alias: Seq<char>) -> bool {
    alias.len() > 0 && !contains_char_spec(alias, '/') && !contains_char_spec(alias, '\\')
}

pub fn is_valid_alias(alias: &str) -> (r: bool)
    ensures
        r == valid_alias(alias@),
{
    alias.unicode_len() > 0 && !contains_char(alias, '/') && !contains_char(alias, '\\')
}

/// Path of the file that holds the profile `alias` under the directory `dir`.
pub open spec fn cache_file_spec(dir: Seq<char>, alias: Seq<char>) -> Seq<char> {
    if ends_with_char_spec(dir, '/') {
        dir + alias
    } else {
        dir + seq!['/'] + alias
    }
}

/// Path of the file that holds the profile `alias` in the accounts directory
/// `accounts_dir`; fails with `InvalidAlias` when the alias could not be a file name.
pub fn get_account_cache_file(accounts_dir: &str, alias: &str) -> (r: Result<String, SyncError>)
    ensures
        valid_alias(alias@) ==> (r matches Ok(p) && p@ == cache_file_spec(accounts_dir@, alias@)),
        !valid_alias(alias@) ==> r matches Err(SyncError::InvalidAlias),
{
    if !is_valid_alias(alias) {
        return Err(SyncError::InvalidAlias);
    }
    let mut p = String::from_str(accounts_dir);
    if !ends_with_char(accounts_dir, '/') {
        p.append("/");
        proof {
            reveal_strlit("/");
        }
    }
    p.append(alias);
    Ok(p)
}

/// A stored profile: the opaque credential blob and when it was written.
#[derive(Debug, Clone)]
pub struct ProfileBlob {
    pub alias: String,
    pub payload: Vec<u8>,
    pub modified_at: i64,
}

/// What the store holds for one alias: the payload and its write time.
pub type StoredProfile = (Seq<u8>, i64);

/// The local profiles, one per alias.
pub struct ProfileStore {
    entries: Vec<ProfileBlob>,
}

impl ProfileStore {
    /// Aliases are valid and unique.
    pub closed spec fn wf(&self) -> bool {
        &&& forall|i: int| 0 <= i < self.entries@.len() ==> valid_alias(self.entries@[i].alias@)
        &&& forall|i: int, j: int|
            0 <= i < j < self.entries@.len() ==> self.entries@[i].alias@ != self.entries@[j].alias@
    }

    /// Each alias with what is stored under it.
    pub closed spec fn view(&self) -> Map<Seq<char>, StoredProfile> {
        Map::new(
            |a: Seq<char>| exists|i: int| 0 <= i < self.entries@.len() && self.entries@[i].alias@ == a,
            |a: Seq<char>|
                {
                    let i = choose|i: int| 0 <= i < self.entries@.len() && self.entries@[i].alias@ == a;
                    (self.entries@[i].payload@, self.entries@[i].modified_at)
                },
        )
    }

    proof fn lemma_view_at(&self, i: int)
        requires
            self.wf(),
            0 <= i < self.entries@.len(),
        ensures
            self.view().contains_key(self.entries@[i].alias@),
            self.view()[self.entries@[i].alias@] == (
                self.entries@[i].payload@,
                self.entries@[i].modified_at,
            ),
    {
        let a = self.entries@[i].alias@;
        assert(self.view().contains_key(a));
        let j = choose|j: int| 0 <= j < self.entries@.len() && self.entries@[j].alias@ == a;
        assert(i == j);
    }

    /// An empty store.
    pub fn new() -> (r: ProfileStore)
        ensures
            r.wf(),
            r.view() == Map::<Seq<char>, StoredProfile>::empty(),
    {
        let r = ProfileStore { entries: Vec::new() };
        assert(r.view() =~= Map::<Seq<char>, StoredProfile>::empty());
        r
    }

    /// Position of `alias` in the store, if it is there.
    fn find(&self, alias: &str) -> (r: Option<usize>)
        requires
            self.wf(),
        ensures
            match r {
                Some(i) => i < self.entries@.len() && self.entries@[i as int].alias@ == alias@,
                None => !self.view().contains_key(alias@),
            },
    {
        let mut i: usize = 0;
        while i < self.entries.len()
            invariant
                i <= self.entries@.len(),
                forall|j: int| 0 <= j < i ==> self.entries@[j].alias@ != alias@,
            decreases self.entries@.len() - i,
        {
            if str_eq(self.entries[i].alias.as_str(), alias) {
                return Some(i);
            }
            i = i + 1;
        }
        None
    }

    /// Whether a profile is stored under `alias`.
    pub fn contains(&self, alias: &str) -> (r: bool)
        requires
            self.wf(),
        ensures
            r == self.view().contains_key(alias@),
    {
        match self.find(alias) {
            Some(i) => {
                proof {
                    self.lemma_view_at(i as int);
                }
                true
            },
            None => false,
        }
    }

    /// Writes the profile `alias`, replacing any earlier one, with write time `now`.
    /// Fails with `InvalidAlias`, leaving the store as it was, when the alias could
    /// not be a file name.
    pub fn save(&mut self, alias: &str, payload: Vec<u8>, now: i64) -> (r: Result<(), SyncError>)
        requires
            old(self).wf(),
        ensures
            final(self).wf(),
            valid_alias(alias@) ==> r is Ok && final(self).view() == old(self).view().insert(
                alias@,
                (payload@, now),
            ),
            !valid_alias(alias@) ==> (r matches Err(SyncError::InvalidAlias) && final(self).view()
                == old(self).view()),
    {
        if !is_valid_alias(alias) {
            return Err(SyncError::InvalidAlias);
        }
        let ghost pv = payload@;
        let blob = ProfileBlob { alias: String::from_str(alias), payload, modified_at: now };
        let ghost old_self = *self;
        match self.find(alias) {
            Some(i) => {
                self.entries.set(i, blob);
                proof {
                    assert forall|a: Seq<char>| #![auto]
                        self.view().contains_key(a) == old_self.view().insert(
                            alias@,
                            (pv, now),
                        ).contains_key(a) by {
                        if a == alias@ {
                            assert(self.entries@[i as int].alias@ == a);
                            assert(old_self.entries@[i as int].alias@ == a);
                        }
                        if old_self.view().contains_key(a) && a != alias@ {
                            let j = choose|j: int|
                                0 <= j < old_self.entries@.len() && old_self.entries@[j].alias@
                                    == a;
                            assert(self.entries@[j] == old_self.entries@[j]);
                        }
                        if self.view().contains_key(a) && a != alias@ {
                            let j = choose|j: int|
                                0 <= j < self.entries@.len() && self.entries@[j].alias@ == a;
                            assert(self.entries@[j] == old_self.entries@[j]);
                        }
                    }
                    assert forall|a: Seq<char>| #[trigger]
                        self.view().contains_key(a) implies self.view()[a] == old_self.view().insert(
                        alias@,
                        (pv, now),
                    )[a] by {
                        let j = choose|j: int|
                            0 <= j < self.entries@.len() && self.entries@[j].alias@ == a;
                        self.lemma_view_at(j);
                        if a != alias@ {
                            assert(self.entries@[j] == old_self.entries@[j]);
                            old_self.lemma_view_at(j);
                        }
                    }
                    assert(self.view() =~= old_self.view().insert(alias@, (pv, now)));
                }
            },
            None => {
                self.entries.push(blob);
                proof {
                    let n = old_self.entries@.len() as int;
                    self.lemma_view_at(n);
                    assert forall|a: Seq<char>| #![auto]
                        self.view().contains_key(a) == old_self.view().insert(
                            alias@,
                            (pv, now),
                        ).contains_key(a) by {
                        if old_self.view().contains_key(a) {
                            let j = choose|j: int|
                                0 <= j < old_self.entries@.len() && old_self.entries@[j].alias@
                                    == a;
                            assert(self.entries@[j] == old_self.entries@[j]);
                        }
                        if self.view().contains_key(a) && a != alias@ {
                            let j = choose|j: int|
                                0 <= j < self.entries@.len() && self.entries@[j].alias@ == a;
                            assert(j < n);
                            assert(self.entries@[j] == old_self.entries@[j]);
                        }
                    }
                    assert forall|a: Seq<char>| #[trigger]
                        self.view().contains_key(a) implies self.view()[a] == old_self.view().insert(
                        alias@,
                        (pv, now),
                    )[a] by {
                        let j = choose|j: int|
                            0 <= j < self.entries@.len() && self.entries@[j].alias@ == a;
                        self.lemma_view_at(j);
                        if a != alias@ {
                            assert(j < n);
                            assert(self.entries@[j] == old_self.entries@[j]);
                            old_self.lemma_view_at(j);
                        }
                    }
                    assert(self.view() =~= old_self.view().insert(alias@, (pv, now)));
                }
            },
        }
        Ok(())
    }

    /// The stored profile `alias`; fails with `NotFound` when there is none.
    pub fn load(&self, alias: &str) -> (r: Result<ProfileBlob, SyncError>)
        requires
            self.wf(),
        ensures
            self.view().contains_key(alias@) ==> (r matches Ok(b) && b.alias@ == alias@ && (
            b.payload@, b.modified_at) == self.view()[alias@]),
            !self.view().contains_key(alias@) ==> (r matches Err(SyncError::NotFound)),
    {
        match self.find(alias) {
            Some(i) => {
                proof {
                    self.lemma_view_at(i as int);
                }
                let e = &self.entries[i];
                Ok(
                    ProfileBlob {
                        alias: e.alias.clone(),
                        payload: vstd::slice::slice_to_vec(e.payload.as_slice()),
                        modified_at: e.modified_at,
                    },
                )
            },
            None => Err(SyncError::NotFound),
        }
    }

    /// Removes the profile `alias`; removing an absent alias changes nothing.
    pub fn delete(&mut self, alias: &str)
        requires
            old(self).wf(),
        ensures
            final(self).wf(),
            final(self).view() == old(self).view().remove(alias@),
    {
        let ghost old_self = *self;
        match self.find(alias) {
            Some(i) => {
                let ghost n = old_self.entries@.len() as int;
                self.entries.swap_remove(i);
                proof {
                    let e = old_self.entries@;
                    let moved = |j: int| if j == i { n - 1 } else { j };
                    assert forall|j: int| 0 <= j < self.entries@.len() implies self.entries@[j] == e[moved(j)] by {}
                    assert forall|j: int, k: int| 0 <= j < k < self.entries@.len() implies self.entries@[j].alias@ != self.entries@[k].alias@ by {
                        assert(self.entries@[j] == e[moved(j)]);
                        assert(self.entries@[k] == e[moved(k)]);
                    }
                    assert forall|a: Seq<char>| #![auto]
                        self.view().contains_key(a) == old_self.view().remove(alias@).contains_key(a) by {
                        if self.view().contains_key(a) {
                            let j = choose|j: int| 0 <= j < self.entries@.len() && self.entries@[j].alias@ == a;
                            assert(self.entries@[j] == e[moved(j)]);
                            assert(moved(j) != i);
                        }
                        if old_self.view().contains_key(a) && a != alias@ {
                            let j = choose|j: int| 0 <= j < n && e[j].alias@ == a;
                            assert(j != i);
                            if j == n - 1 {
                                assert(self.entries@[i as int] == e[j]);
                            } else {
                                assert(self.entries@[j] == e[j]);
                            }
                        }
                    }
                    assert forall|a: Seq<char>| #[trigger] self.view().contains_key(a)
                        implies self.view()[a] == old_self.view()[a] by {
                        let j = choose|j: int| 0 <= j < self.entries@.len() && self.entries@[j].alias@ == a;
                        self.lemma_view_at(j);
                        assert(self.entries@[j] == e[moved(j)]);
                        old_self.lemma_view_at(moved(j));
                    }
                    assert(self.view() =~= old_self.view().remove(alias@));
                }
            },
            None => {
                assert(self.view() =~= old_self.view().remove(alias@));
            },
        }
    }

    /// The stored aliases with their write times, most recently written first.
    pub fn list(&self) -> (r: Vec<AccountInfo>)
        requires
            self.wf(),
        ensures
            sorted_desc(r@),
            r@.len() == self.view().len(),
            forall|i: int| #![auto] 0 <= i < r@.len() ==> self.view().contains_key(r@[i].alias@)
                && self.view()[r@[i].alias@].1 == r@[i].updated_at,
            forall|a: Seq<char>| #[trigger] self.view().contains_key(a) ==> exists|i: int|
                0 <= i < r@.len() && r@[i].alias@ == a,
    {
        let mut v: Vec<AccountInfo> = Vec::new();
        let mut i: usize = 0;
        while i < self.entries.len()
            invariant
                i <= self.entries@.len(),
                v@.len() == i,
                forall|j: int| #![auto] 0 <= j < i ==> v@[j].alias@ == self.entries@[j].alias@
                    && v@[j].updated_at == self.entries@[j].modified_at,
            decreases self.entries@.len() - i,
        {
            v.push(AccountInfo { alias: self.entries[i].alias.clone(), updated_at: self.entries[i].modified_at });
            i = i + 1;
        }
        let ghost unsorted = v@;
        let r = sort_accounts(v);
        proof {
            let aliases = self.entries@.map_values(|b: ProfileBlob| b.alias@);
            assert forall|a: Seq<char>| self.view().dom().contains(a) == aliases.to_set().contains(a) by {
                if aliases.contains(a) {
                    let j = choose|j: int| 0 <= j < aliases.len() && aliases[j] == a;
                    assert(self.entries@[j].alias@ == a);
                }
                if self.view().dom().contains(a) {
                    let j = choose|j: int| 0 <= j < self.entries@.len() && self.entries@[j].alias@ == a;
                    assert(aliases[j] == a);
                }
            }
            assert(self.view().dom() =~= aliases.to_set());
            assert(aliases.no_duplicates()) by {
                assert forall|x: int, y: int| 0 <= x < aliases.len() && 0 <= y < aliases.len() && x != y implies aliases[x] != aliases[y] by {
                    if x < y {
                        assert(self.entries@[x].alias@ != self.entries@[y].alias@);
                    } else {
                        assert(self.entries@[y].alias@ != self.entries@[x].alias@);
                    }
                }
            }
            aliases.unique_seq_to_set();
            assert(r@.to_multiset().len() == r@.len());
            assert(unsorted.to_multiset().len() == unsorted.len());
            assert(aliases.len() == unsorted.len());
            assert forall|k: int| #![auto] 0 <= k < r@.len() implies self.view().contains_key(r@[k].alias@)
                && self.view()[r@[k].alias@].1 == r@[k].updated_at by {
                assert(r@.contains(r@[k]));
                assert(r@.to_multiset().contains(r@[k]));
                assert(unsorted.to_multiset().contains(r@[k]));
                assert(unsorted.contains(r@[k]));
                let j = choose|j: int| 0 <= j < unsorted.len() && unsorted[j] == r@[k];
                self.lemma_view_at(j);
            }
            assert forall|a: Seq<char>| #[trigger] self.view().contains_key(a) implies exists|k: int|
                0 <= k < r@.len() && r@[k].alias@ == a by {
                let j = choose|j: int| 0 <= j < self.entries@.len() && self.entries@[j].alias@ == a;
                assert(unsorted.contains(unsorted[j]));
                assert(unsorted.to_multiset().contains(unsorted[j]));
                assert(r@.to_multiset().contains(unsorted[j]));
                assert(r@.contains(unsorted[j]));
            }
        }
        r
    }
}


/// A profile is read back as it was saved: after `save(a, p, t)`, `load(a)` finds
/// payload `p`.
pub proof fn law_save_then_load(
    before: Map<Seq<char>, StoredProfile>,
    alias: Seq<char>,
    payload: Seq<u8>,
    now: i64,
)
    requires
        valid_alias(alias),
    ensures
        before.insert(alias, (payload, now)).contains_key(alias),
        before.insert(alias, (payload, now))[alias].0 == payload,
{
}

/// Deleting is idempotent: deleting an absent alias leaves the store as it was, and
/// after a delete, `load` of that alias fails with `NotFound`.
pub proof fn law_delete(before: Map<Seq<char>, StoredProfile>, alias: Seq<char>)
    ensures
        !before.remove(alias).contains_key(alias),
        !before.contains_key(alias) ==> before.remove(alias) == before,
{
    if !before.contains_key(alias) {
        assert(before.remove(alias) =~= before);
    }
}

/// The store after saving each `(alias, payload, time)` of `saves` in turn into an
/// empty store.
pub open spec fn saved_map(saves: Seq<(Seq<char>, Seq<u8>, i64)>) -> Map<Seq<char>, StoredProfile>
    decreases saves.len(),
{
    if saves.len() == 0 {
        Map::empty()
    } else {
        let s = saves.last();
        saved_map(saves.drop_last()).insert(s.0, (s.1, s.2))
    }
}

/// The aliases of `saves`, in order.
pub open spec fn saved_aliases(saves: Seq<(Seq<char>, Seq<u8>, i64)>) -> Seq<Seq<char>> {
    saves.map_values(|s: (Seq<char>, Seq<u8>, i64)| s.0)
}

/// An empty store lists nothing; after saving N distinct aliases into it, the store
/// holds exactly those N aliases, each with the time of its save, so that `list`
/// returns exactly N entries, one per alias, by descending time.
pub proof fn law_list_after_saves(saves: Seq<(Seq<char>, Seq<u8>, i64)>)
    requires
        saved_aliases(saves).no_duplicates(),
    ensures
        Map::<Seq<char>, StoredProfile>::empty().len() == 0,
        saved_map(saves).dom() == saved_aliases(saves).to_set(),
        saved_map(saves).len() == saves.len(),
        forall|i: int|
            0 <= i < saves.len() ==> #[trigger] saved_map(saves)[saves[i].0].1 == saves[i].2,
    decreases saves.len(),
{
    let m = saved_map(saves);
    assert(Map::<Seq<char>, StoredProfile>::empty().dom() =~= Set::empty());
    if saves.len() == 0 {
        assert(m.dom() =~= saved_aliases(saves).to_set());
    } else {
        let pre = saves.drop_last();
        let last = saves.last();
        let n = saves.len() - 1;
        assert(saved_aliases(pre) =~= saved_aliases(saves).drop_last());
        assert(saved_aliases(pre).no_duplicates());
        law_list_after_saves(pre);
        assert forall|a: Seq<char>| m.dom().contains(a) == saved_aliases(saves).to_set().contains(a) by {
            if saved_aliases(saves).contains(a) {
                let j = choose|j: int| 0 <= j < saves.len() && saved_aliases(saves)[j] == a;
                if j < n {
                    assert(saved_aliases(pre)[j] == a);
                }
            }
            if saved_aliases(pre).contains(a) {
                let j = choose|j: int| 0 <= j < pre.len() && saved_aliases(pre)[j] == a;
                assert(saved_aliases(saves)[j] == a);
            }
            if a == last.0 {
                assert(saved_aliases(saves)[n] == a);
            }
        }
        assert(m.dom() =~= saved_aliases(saves).to_set());
        assert(!saved_map(pre).dom().contains(last.0)) by {
            if saved_aliases(pre).contains(last.0) {
                let j = choose|j: int| 0 <= j < pre.len() && saved_aliases(pre)[j] == last.0;
                assert(saved_aliases(saves)[j] == saved_aliases(saves)[n]);
            }
        }
        assert forall|i: int| 0 <= i < saves.len() implies #[trigger] m[saves[i].0].1 == saves[i].2 by {
            if i < n {
                assert(saves[i] == pre[i]);
                assert(saved_map(pre)[pre[i].0].1 == pre[i].2);
                assert(saved_aliases(saves)[i] != saved_aliases(saves)[n]);
            }
        }
    }
}

} // verus!
