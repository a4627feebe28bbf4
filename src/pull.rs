use vstd::prelude::*;
use vstd::string::*;
use crate::account::AccountInfo;
use crate::config::{collection_url_spec, WebDavConfig};
use crate::error::SyncError;
use crate::listing::{listed_files_spec, parse_listing, views, xml_events_of, MANIFEST_NAME};
use crate::push::{member_url, member_url_spec};

verus! {

/// What came back for the last request of a pull.
pub enum PullEvent {
    /// The manifest was fetched and deserialised into these entries.
    ManifestFetched(Vec<AccountInfo>),
    /// The manifest resource does not exist.
    ManifestMissing,
    /// The manifest exists but could not be deserialised.
    ManifestCorrupt,
    /// The manifest request failed otherwise, with this HTTP status (0 when none).
    ManifestUnreachable(u16),
    /// The listing request succeeded with this body.
    Listed(String),
    /// The listing request failed, with this HTTP status (0 when none).
    ListingFailed(u16),
    /// The requested profile was downloaded and saved locally.
    Downloaded,
    /// The requested profile could not be downloaded or saved.
    DownloadFailed,
}

/// Where a pull stands.
#[derive(Clone, Copy, PartialEq, Eq, Structural)]
pub enum PullPhase {
    FetchingManifest,
    Listing,
    Downloading,
    Done,
    Failed,
}

/// A pull as a state: the aliases to pull, the next position, and the aliases
/// pulled and failed so far.
pub struct PullModel {
    pub phase: PullPhase,
    pub names: Seq<Seq<char>>,
    pub next: nat,
    pub pulled: Seq<Seq<char>>,
    pub failed: Seq<Seq<char>>,
}

/// What a pull asks for next, without its data.
pub enum PullStep {
    FetchManifest,
    List,
    Download(Seq<char>),
    Finish,
    Fail,
    Idle,
}

pub open spec fn aliases_of(v: Seq<AccountInfo>) -> Seq<Seq<char>> {
    v.map_values(|a: AccountInfo| a.alias@)
}

/// A pull that knows its aliases: the first download, or the end when there are none.
pub open spec fn pull_begin(names: Seq<Seq<char>>) -> (PullModel, PullStep) {
    if names.len() == 0 {
        (
            PullModel { phase: PullPhase::Done, names, next: 0, pulled: seq![], failed: seq![] },
            PullStep::Finish,
        )
    } else {
        (
            PullModel { phase: PullPhase::Downloading, names, next: 0, pulled: seq![], failed: seq![] },
            PullStep::Download(names[0]),
        )
    }
}

pub open spec fn pull_failed(m: PullModel) -> (PullModel, PullStep) {
    (PullModel { phase: PullPhase::Failed, ..m }, PullStep::Fail)
}

/// How a pull moves on what came back. The manifest decides the aliases when it
/// exists; when it is missing the listing does; each download failure is recorded
/// and the pull goes on.
pub open spec fn pull_next(m: PullModel, ev: PullEvent) -> (PullModel, PullStep) {
    match m.phase {
        PullPhase::FetchingManifest => match ev {
            PullEvent::ManifestFetched(v) => pull_begin(aliases_of(v@)),
            PullEvent::ManifestMissing => (PullModel { phase: PullPhase::Listing, ..m }, PullStep::List),
            PullEvent::ManifestCorrupt => pull_failed(m),
            PullEvent::ManifestUnreachable(_) => pull_failed(m),
            _ => (m, PullStep::Idle),
        },
        PullPhase::Listing => match ev {
            PullEvent::Listed(body) => match xml_events_of(body@) {
                Some(evs) => pull_begin(listed_files_spec(evs)),
                None => pull_failed(m),
            },
            PullEvent::ListingFailed(_) => pull_failed(m),
            _ => (m, PullStep::Idle),
        },
        PullPhase::Downloading => {
            let (ok, done) = match ev {
                PullEvent::Downloaded => (true, true),
                PullEvent::DownloadFailed => (false, true),
                _ => (false, false),
            };
            if !done {
                (m, PullStep::Idle)
            } else {
                let alias = m.names[m.next as int];
                let m1 = PullModel {
                    next: m.next + 1,
                    pulled: if ok { m.pulled.push(alias) } else { m.pulled },
                    failed: if ok { m.failed } else { m.failed.push(alias) },
                    ..m
                };
                if m1.next >= m.names.len() {
                    (PullModel { phase: PullPhase::Done, ..m1 }, PullStep::Finish)
                } else {
                    (m1, PullStep::Download(m.names[m1.next as int]))
                }
            }
        },
        _ => (m, PullStep::Idle),
    }
}

/// What a pull asks the transport to do next.
pub enum PullAction {
    /// Fetch the manifest (GET).
    FetchManifest { url: String },
    /// List the collection (PROPFIND, depth 1).
    ListCollection { url: String },
    /// Download profile `alias` and save it into the local store, replacing any
    /// profile of that alias (GET).
    Download { alias: String, url: String },
    /// The pull is over: the aliases pulled and those that failed.
    Finished { pulled: Vec<String>, failed: Vec<String> },
    /// The pull could not find out what to pull.
    Failed { error: SyncError },
    /// Nothing is left to do.
    Idle,
}

impl PullAction {
    pub open spec fn step(&self) -> PullStep {
        match self {
            PullAction::FetchManifest { .. } => PullStep::FetchManifest,
            PullAction::ListCollection { .. } => PullStep::List,
            PullAction::Download { alias, .. } => PullStep::Download(alias@),
            PullAction::Finished { .. } => PullStep::Finish,
            PullAction::Failed { .. } => PullStep::Fail,
            PullAction::Idle => PullStep::Idle,
        }
    }
}

pub fn clone_strings(v: &Vec<String>) -> (r: Vec<String>)
    ensures
        r@ == v@,
{
    let mut r: Vec<String> = Vec::new();
    let mut i: usize = 0;
    while i < v.len()
        invariant
            i <= v@.len(),
            r@ == v@.subrange(0, i as int),
        decreases v@.len() - i,
    {
        r.push(v[i].clone());
        i = i + 1;
        assert(r@ =~= v@.subrange(0, i as int));
    }
    assert(v@.subrange(0, i as int) =~= v@);
    r
}

/// The decisions of a pull from the remote collection into the local store.
pub struct PullSession {
    collection: String,
    phase: PullPhase,
    names: Vec<String>,
    next: usize,
    pulled: Vec<String>,
    failed: Vec<String>,
}

impl PullSession {
    pub closed spec fn model(&self) -> PullModel {
        PullModel {
            phase: self.phase,
            names: views(self.names@),
            next: self.next as nat,
            pulled: views(self.pulled@),
            failed: views(self.failed@),
        }
    }

    pub closed spec fn collection(&self) -> Seq<char> {
        self.collection@
    }

    pub closed spec fn wf(&self) -> bool {
        &&& self.next <= self.names@.len()
        &&& self.phase == PullPhase::Downloading ==> self.next < self.names@.len()
    }

    /// Starts a pull from the collection that `config` names; the first action
    /// fetches the manifest.
    pub fn new(config: &WebDavConfig) -> (r: (PullSession, PullAction))
        ensures
            r.0.wf(),
            r.0.model() == (PullModel {
                phase: PullPhase::FetchingManifest,
                names: seq![],
                next: 0,
                pulled: seq![],
                failed: seq![],
            }),
            r.0.collection() == collection_url_spec(*config),
            r.1 matches PullAction::FetchManifest { url } && url@ == member_url_spec(
                collection_url_spec(*config),
                MANIFEST_NAME@,
            ),
    {
        let collection = config.collection_url();
        let url = member_url(collection.as_str(), MANIFEST_NAME);
        let s = PullSession {
            collection,
            phase: PullPhase::FetchingManifest,
            names: Vec::new(),
            next: 0,
            pulled: Vec::new(),
            failed: Vec::new(),
        };
        assert(s.model().names =~= seq![]);
        assert(s.model().pulled =~= seq![]);
        assert(s.model().failed =~= seq![]);
        (s, PullAction::FetchManifest { url })
    }

    fn begin(&mut self, names: Vec<String>) -> (r: PullAction)
        ensures
            final(self).wf(),
            final(self).collection == old(self).collection,
            (final(self).model(), r.step()) == pull_begin(views(names@)),
            r matches PullAction::Download { alias, url } ==> url@ == member_url_spec(
                old(self).collection@,
                alias@,
            ),
            r matches PullAction::Finished { pulled, failed } ==> pulled@.len() == 0
                && failed@.len() == 0,
    {
        self.names = names;
        self.next = 0;
        self.pulled = Vec::new();
        self.failed = Vec::new();
        assert(views(self.pulled@) =~= seq![]);
        assert(views(self.failed@) =~= seq![]);
        if self.names.len() == 0 {
            self.phase = PullPhase::Done;
            PullAction::Finished { pulled: Vec::new(), failed: Vec::new() }
        } else {
            self.phase = PullPhase::Downloading;
            let alias = self.names[0].clone();
            let url = member_url(self.collection.as_str(), alias.as_str());
            PullAction::Download { alias, url }
        }
    }

    fn fail(&mut self, error: SyncError) -> (r: PullAction)
        ensures
            final(self).collection == old(self).collection,
            final(self).names == old(self).names,
            final(self).next == old(self).next,
            final(self).pulled == old(self).pulled,
            final(self).failed == old(self).failed,
            final(self).phase == PullPhase::Failed,
            r == (PullAction::Failed { error }),
    {
        self.phase = PullPhase::Failed;
        PullAction::Failed { error }
    }

    /// Takes what came back for the last requested action and gives the next one.
    pub fn on_event(&mut self, ev: PullEvent) -> (r: PullAction)
        requires
            old(self).wf(),
        ensures
            final(self).wf(),
            final(self).collection() == old(self).collection(),
            (final(self).model(), r.step()) == pull_next(old(self).model(), ev),
            r matches PullAction::ListCollection { url } ==> url@ == old(self).collection(),
            r matches PullAction::Download { alias, url } ==> url@ == member_url_spec(
                old(self).collection(),
                alias@,
            ),
            r matches PullAction::Finished { pulled, failed } ==> views(pulled@)
                == final(self).model().pulled && views(failed@) == final(self).model().failed,
            r matches PullAction::Failed { error } ==> match ev {
                PullEvent::ManifestCorrupt => error is ManifestCorrupt,
                PullEvent::Listed(_) => error is ListingUnavailable,
                _ => error is TransportError,
            },
    {
        match self.phase {
            PullPhase::FetchingManifest => match ev {
                PullEvent::ManifestFetched(v) => {
                    let mut names: Vec<String> = Vec::new();
                    let mut i: usize = 0;
                    while i < v.len()
                        invariant
                            i <= v@.len(),
                            views(names@) == aliases_of(v@.subrange(0, i as int)),
                        decreases v@.len() - i,
                    {
                        let ghost before = names@;
                        names.push(v[i].alias.clone());
                        i = i + 1;
                        assert(views(names@) =~= views(before).push(v@[i - 1].alias@));
                        assert(aliases_of(v@.subrange(0, i as int)) =~= aliases_of(
                            v@.subrange(0, i - 1),
                        ).push(v@[i - 1].alias@));
                    }
                    assert(v@.subrange(0, i as int) =~= v@);
                    self.begin(names)
                },
                PullEvent::ManifestMissing => {
                    self.phase = PullPhase::Listing;
                    PullAction::ListCollection { url: self.collection.clone() }
                },
                PullEvent::ManifestCorrupt => self.fail(SyncError::ManifestCorrupt),
                PullEvent::ManifestUnreachable(status) => self.fail(
                    SyncError::TransportError {
                        operation: String::from_str("GET"),
                        status,
                        alias: String::from_str(MANIFEST_NAME),
                    },
                ),
                _ => PullAction::Idle,
            },
            PullPhase::Listing => match ev {
                PullEvent::Listed(body) => match parse_listing(body.as_str()) {
                    Ok(names) => self.begin(names),
                    Err(e) => self.fail(e),
                },
                PullEvent::ListingFailed(status) => self.fail(
                    SyncError::TransportError {
                        operation: String::from_str("PROPFIND"),
                        status,
                        alias: String::new(),
                    },
                ),
                _ => PullAction::Idle,
            },
            PullPhase::Downloading => {
                let ok = match ev {
                    PullEvent::Downloaded => true,
                    PullEvent::DownloadFailed => false,
                    _ => {
                        return PullAction::Idle;
                    },
                };
                let alias = self.names[self.next].clone();
                let ghost pulled0 = self.pulled@;
                let ghost failed0 = self.failed@;
                if ok {
                    self.pulled.push(alias);
                    assert(views(self.pulled@) =~= views(pulled0).push(self.names@[self.next as int]@));
                } else {
                    self.failed.push(alias);
                    assert(views(self.failed@) =~= views(failed0).push(self.names@[self.next as int]@));
                }
                assert(self.next < self.names.len());
                self.next = self.next + 1;
                if self.next >= self.names.len() {
                    self.phase = PullPhase::Done;
                    PullAction::Finished {
                        pulled: clone_strings(&self.pulled),
                        failed: clone_strings(&self.failed),
                    }
                } else {
                    let alias = self.names[self.next].clone();
                    let url = member_url(self.collection.as_str(), alias.as_str());
                    PullAction::Download { alias, url }
                }
            },
            _ => PullAction::Idle,
        }
    }
}

/// A pull about to fetch the manifest.
pub open spec fn pull_start() -> PullModel {
    PullModel { phase: PullPhase::FetchingManifest, names: seq![], next: 0, pulled: seq![], failed: seq![] }
}

/// The state a pull reaches from `m` through the events `evs`, and the step it asked
/// for after each of them.
pub open spec fn pull_run(m: PullModel, evs: Seq<PullEvent>) -> (PullModel, Seq<PullStep>)
    decreases evs.len(),
{
    if evs.len() == 0 {
        (m, Seq::empty())
    } else {
        let (m1, steps) = pull_run(m, evs.drop_last());
        let (m2, st) = pull_next(m1, evs.last());
        (m2, steps.push(st))
    }
}

proof fn lemma_pull_prefix(manifest: Seq<AccountInfo>, evs: Seq<PullEvent>, n: nat)
    requires
        manifest.len() > 0,
        evs.len() == manifest.len() + 1,
        evs[0] matches PullEvent::ManifestFetched(v) && v@ == manifest,
        forall|j: int| 1 <= j < evs.len() ==> #[trigger] evs[j] is Downloaded,
        1 <= n <= evs.len(),
    ensures
        ({
            let (m, st) = pull_run(pull_start(), evs.take(n as int));
            &&& st.len() == n
            &&& m.names == aliases_of(manifest)
            &&& m.next == n - 1
            &&& m.pulled == aliases_of(manifest).take(n - 1)
            &&& m.failed.len() == 0
            &&& m.phase == (if n < evs.len() { PullPhase::Downloading } else { PullPhase::Done })
            &&& forall|j: int| 0 <= j < n && j < manifest.len() ==> #[trigger] st[j] == PullStep::Download(manifest[j].alias@)
            &&& n == evs.len() ==> st[n - 1] == PullStep::Finish
        }),
    decreases n,
{
    assert(evs.take(n as int).drop_last() =~= evs.take(n - 1));
    assert(evs.take(n as int).last() == evs[n - 1]);
    if n == 1 {
        assert(evs.take(0) =~= Seq::<PullEvent>::empty());
        assert(aliases_of(manifest).take(0) =~= seq![]);
    } else {
        lemma_pull_prefix(manifest, evs, (n - 1) as nat);
        assert(aliases_of(manifest).take(n - 1) =~= aliases_of(manifest).take(n - 2).push(
            manifest[n - 2].alias@,
        ));
    }
}

/// A pull from a collection whose manifest lists the profiles that a fully
/// successful push uploaded asks to download exactly those aliases, in order, from
/// the URLs that the push uploaded them to, and when every download succeeds it ends
/// having pulled all of them and failed none.
pub proof fn law_pull_after_full_push(manifest: Seq<AccountInfo>, evs: Seq<PullEvent>)
    requires
        manifest.len() > 0,
        evs.len() == manifest.len() + 1,
        evs[0] matches PullEvent::ManifestFetched(v) && v@ == manifest,
        forall|j: int| 1 <= j < evs.len() ==> #[trigger] evs[j] is Downloaded,
    ensures
        ({
            let (m, st) = pull_run(pull_start(), evs);
            &&& m.phase == PullPhase::Done
            &&& m.pulled == aliases_of(manifest)
            &&& m.failed.len() == 0
            &&& forall|j: int| 0 <= j < manifest.len() ==> #[trigger] st[j] == PullStep::Download(manifest[j].alias@)
            &&& st[manifest.len() as int] == PullStep::Finish
        }),
{
    lemma_pull_prefix(manifest, evs, evs.len());
    assert(evs.take(evs.len() as int) =~= evs);
    assert(aliases_of(manifest).take(manifest.len() as int) =~= aliases_of(manifest));
}

} // verus!
