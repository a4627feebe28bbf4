use vstd::prelude::*;
use vstd::string::*;
use crate::account::AccountInfo;
use crate::config::{collection_url_spec, WebDavConfig};
use crate::error::SyncError;

verus! {

/// Percent-encoding of a text, as one URL path segment.
pub uninterp spec fn url_encoded_of(s: Seq<char>) -> Seq<char>;

/// Relies on urlencoding::encode: the result is a function of the text alone.
#[verifier::external_body]
pub(crate) fn url_encode(s: &str) -> (r: String)
    ensures
        r@ == url_encoded_of(s@),
{
    urlencoding::encode(s).into_owned()
}

/// URL of the member resource `name` of the collection at `collection`.
pub open spec fn member_url_spec(collection: Seq<char>, name: Seq<char>) -> Seq<char> {
    collection + url_encoded_of(name)
}

pub fn member_url(collection: &str, name: &str) -> (r: String)
    ensures
        r@ == member_url_spec(collection@, name@),
{
    let enc = url_encode(name);
    String::from_str(collection).concat(enc.as_str())
}

/// Whether an HTTP status is a success (2xx).
pub open spec fn is_success(status: u16) -> bool {
    200 <= status < 300
}

/// The outcome of the request that the last action asked for.
pub enum RemoteOutcome {
    /// The server answered with this HTTP status.
    Response(u16),
    /// No answer came (network failure, refused connection).
    Unreachable,
}

/// Whether a collection-creation request left the collection in place: created, or
/// already there (405 Method Not Allowed).
pub open spec fn collection_ready(ev: RemoteOutcome) -> bool {
    match ev {
        RemoteOutcome::Response(s) => is_success(s) || s == 405,
        RemoteOutcome::Unreachable => false,
    }
}

/// Whether an upload request succeeded.
pub open spec fn upload_ok(ev: RemoteOutcome) -> bool {
    match ev {
        RemoteOutcome::Response(s) => is_success(s),
        RemoteOutcome::Unreachable => false,
    }
}

pub open spec fn status_of(ev: RemoteOutcome) -> u16 {
    match ev {
        RemoteOutcome::Response(s) => s,
        RemoteOutcome::Unreachable => 0,
    }
}

/// Where a push stands.
#[derive(Clone, Copy, PartialEq, Eq, Structural)]
pub enum PushPhase {
    CreatingCollection,
    Uploading,
    PublishingManifest,
    Done,
    Failed,
}

/// A push as a state: its phase, how many profiles are uploaded, how many there are.
pub struct PushModel {
    pub phase: PushPhase,
    pub uploaded: nat,
    pub total: nat,
}

/// What a push asks for next, without its data.
pub enum PushStep {
    Create,
    /// Upload the profile at this position.
    Upload(nat),
    Publish,
    Finish(nat),
    /// Stop; this many uploads succeeded.
    Fail(nat),
    Idle,
}

/// The next upload, or the manifest once every profile is up.
pub open spec fn push_after_upload(m: PushModel, uploaded: nat) -> (PushModel, PushStep) {
    if uploaded >= m.total {
        (PushModel { phase: PushPhase::PublishingManifest, uploaded, total: m.total }, PushStep::Publish)
    } else {
        (PushModel { phase: PushPhase::Uploading, uploaded, total: m.total }, PushStep::Upload(uploaded))
    }
}

/// How a push moves on the outcome of its last request. Uploads stop at the first
/// failure, and the manifest is asked for only once every upload has succeeded.
pub open spec fn push_next(m: PushModel, ev: RemoteOutcome) -> (PushModel, PushStep) {
    match m.phase {
        PushPhase::CreatingCollection => if collection_ready(ev) {
            push_after_upload(m, 0)
        } else {
            (PushModel { phase: PushPhase::Failed, ..m }, PushStep::Fail(0))
        },
        PushPhase::Uploading => if upload_ok(ev) {
            push_after_upload(m, m.uploaded + 1)
        } else {
            (PushModel { phase: PushPhase::Failed, ..m }, PushStep::Fail(m.uploaded))
        },
        PushPhase::PublishingManifest => if upload_ok(ev) {
            (PushModel { phase: PushPhase::Done, ..m }, PushStep::Finish(m.uploaded))
        } else {
            (PushModel { phase: PushPhase::Failed, ..m }, PushStep::Fail(m.uploaded))
        },
        _ => (m, PushStep::Idle),
    }
}

/// What a push asks the transport to do next.
pub enum PushAction {
    /// Create the remote collection (MKCOL).
    CreateCollection { url: String },
    /// Upload the payload of profile `alias`, at position `index` of the push (PUT).
    Upload { index: usize, alias: String, url: String },
    /// Upload the manifest listing `entries` (PUT).
    PublishManifest { url: String, entries: Vec<AccountInfo> },
    /// The push is complete; this many profiles were uploaded.
    Finished { uploaded: usize },
    /// The push stopped; `succeeded` uploads were done before the failure.
    Failed { error: SyncError, succeeded: usize },
    /// Nothing is left to do.
    Idle,
}

impl PushAction {
    pub open spec fn step(&self) -> PushStep {
        match self {
            PushAction::CreateCollection { .. } => PushStep::Create,
            PushAction::Upload { index, .. } => PushStep::Upload(*index as nat),
            PushAction::PublishManifest { .. } => PushStep::Publish,
            PushAction::Finished { uploaded } => PushStep::Finish(*uploaded as nat),
            PushAction::Failed { succeeded, .. } => PushStep::Fail(*succeeded as nat),
            PushAction::Idle => PushStep::Idle,
        }
    }
}

/// The decisions of a push of local profiles to the remote collection.
pub struct PushSession {
    collection: String,
    profiles: Vec<AccountInfo>,
    uploaded: usize,
    phase: PushPhase,
}

pub fn clone_accounts(v: &Vec<AccountInfo>) -> (r: Vec<AccountInfo>)
    ensures
        r@ == v@,
{
    let mut r: Vec<AccountInfo> = Vec::new();
    let mut i: usize = 0;
    while i < v.len()
        invariant
            i <= v@.len(),
            r@ == v@.subrange(0, i as int),
        decreases v@.len() - i,
    {
        r.push(AccountInfo { alias: v[i].alias.clone(), updated_at: v[i].updated_at });
        i = i + 1;
        assert(r@ =~= v@.subrange(0, i as int));
    }
    assert(v@.subrange(0, i as int) =~= v@);
    r
}

impl PushSession {
    pub closed spec fn model(&self) -> PushModel {
        PushModel { phase: self.phase, uploaded: self.uploaded as nat, total: self.profiles@.len() }
    }

    pub closed spec fn collection(&self) -> Seq<char> {
        self.collection@
    }

    pub closed spec fn profiles(&self) -> Seq<AccountInfo> {
        self.profiles@
    }

    pub closed spec fn wf(&self) -> bool {
        &&& self.uploaded <= self.profiles@.len()
        &&& self.phase == PushPhase::Uploading ==> self.uploaded < self.profiles@.len()
        &&& self.phase == PushPhase::CreatingCollection ==> self.uploaded == 0
    }

    /// Starts a push of `profiles` (as listed by the local store) to the collection
    /// that `config` names; the first action creates that collection.
    pub fn new(config: &WebDavConfig, profiles: Vec<AccountInfo>) -> (r: (PushSession, PushAction))
        ensures
            r.0.wf(),
            r.0.model() == (PushModel {
                phase: PushPhase::CreatingCollection,
                uploaded: 0,
                total: profiles@.len(),
            }),
            r.0.collection() == collection_url_spec(*config),
            r.0.profiles() == profiles@,
            r.1 matches PushAction::CreateCollection { url } && url@ == collection_url_spec(*config),
    {
        let collection = config.collection_url();
        let url = collection.clone();
        (
            PushSession { collection, profiles, uploaded: 0, phase: PushPhase::CreatingCollection },
            PushAction::CreateCollection { url },
        )
    }

    fn next_after_upload(&mut self) -> (r: PushAction)
        requires
            old(self).uploaded <= old(self).profiles@.len(),
        ensures
            final(self).wf(),
            final(self).collection == old(self).collection,
            final(self).profiles == old(self).profiles,
            (final(self).model(), r.step()) == push_after_upload(
                old(self).model(),
                old(self).uploaded as nat,
            ),
            r matches PushAction::Upload { alias, url, .. } ==> alias@ == old(self).profiles@[old(
                self,
            ).uploaded as int].alias@ && url@ == member_url_spec(old(self).collection@, alias@),
            r matches PushAction::PublishManifest { url, entries } ==> entries@ == old(
                self,
            ).profiles@ && url@ == member_url_spec(
                old(self).collection@,
                crate::listing::MANIFEST_NAME@,
            ),
    {
        if self.uploaded < self.profiles.len() {
            self.phase = PushPhase::Uploading;
            let alias = self.profiles[self.uploaded].alias.clone();
            let url = member_url(self.collection.as_str(), alias.as_str());
            PushAction::Upload { index: self.uploaded, alias, url }
        } else {
            self.phase = PushPhase::PublishingManifest;
            let url = member_url(self.collection.as_str(), crate::listing::MANIFEST_NAME);
            PushAction::PublishManifest { url, entries: clone_accounts(&self.profiles) }
        }
    }

    fn fail(&mut self, operation: &str, ev: RemoteOutcome, alias: String) -> (r: PushAction)
        ensures
            final(self).collection == old(self).collection,
            final(self).profiles == old(self).profiles,
            final(self).uploaded == old(self).uploaded,
            final(self).phase == PushPhase::Failed,
            r matches PushAction::Failed { error, succeeded } && succeeded == old(self).uploaded
                && (error matches SyncError::TransportError { operation: o, status, alias: a }
                && o@ == operation@ && status == status_of(ev) && a@ == alias@),
    {
        self.phase = PushPhase::Failed;
        let status = match ev {
            RemoteOutcome::Response(s) => s,
            RemoteOutcome::Unreachable => 0,
        };
        PushAction::Failed {
            error: SyncError::TransportError { operation: String::from_str(operation), status, alias },
            succeeded: self.uploaded,
        }
    }

    /// Takes the outcome of the last requested action and gives the next one. A
    /// failed upload ends the push at once and reports the alias and how many uploads
    /// came before it; the manifest is published only after every upload succeeded.
    pub fn on_event(&mut self, ev: RemoteOutcome) -> (r: PushAction)
        requires
            old(self).wf(),
        ensures
            final(self).wf(),
            final(self).collection() == old(self).collection(),
            final(self).profiles() == old(self).profiles(),
            (final(self).model(), r.step()) == push_next(old(self).model(), ev),
            r matches PushAction::Upload { alias, url, index } ==> alias@ == old(
                self,
            ).profiles()[index as int].alias@ && url@ == member_url_spec(
                old(self).collection(),
                alias@,
            ),
            r matches PushAction::PublishManifest { url, entries } ==> entries@ == old(
                self,
            ).profiles() && url@ == member_url_spec(
                old(self).collection(),
                crate::listing::MANIFEST_NAME@,
            ),
            r matches PushAction::Failed { error, .. } ==> (error matches SyncError::TransportError {
                status,
                alias,
                ..
            } && status == status_of(ev) && (old(self).model().phase == PushPhase::Uploading
                ==> alias@ == old(self).profiles()[old(self).model().uploaded as int].alias@)),
    {
        let ok = match ev {
            RemoteOutcome::Response(s) => 200 <= s && s < 300,
            RemoteOutcome::Unreachable => false,
        };
        match self.phase {
            PushPhase::CreatingCollection => {
                let ready = ok || match ev {
                    RemoteOutcome::Response(s) => s == 405,
                    RemoteOutcome::Unreachable => false,
                };
                if ready {
                    self.next_after_upload()
                } else {
                    self.fail("MKCOL", ev, String::new())
                }
            },
            PushPhase::Uploading => {
                if ok {
                    assert(self.uploaded < self.profiles.len());
                    self.uploaded = self.uploaded + 1;
                    self.next_after_upload()
                } else {
                    let alias = self.profiles[self.uploaded].alias.clone();
                    self.fail("PUT", ev, alias)
                }
            },
            PushPhase::PublishingManifest => {
                if ok {
                    self.phase = PushPhase::Done;
                    PushAction::Finished { uploaded: self.uploaded }
                } else {
                    self.fail("PUT", ev, String::from_str(crate::listing::MANIFEST_NAME))
                }
            },
            _ => PushAction::Idle,
        }
    }
}

/// A push about to create its collection, with `total` profiles to upload.
pub open spec fn push_start(total: nat) -> PushModel {
    PushModel { phase: PushPhase::CreatingCollection, uploaded: 0, total }
}

/// The state a push reaches from `m` through the outcomes `evs`, and the step it
/// asked for after each of them.
pub open spec fn push_run(m: PushModel, evs: Seq<RemoteOutcome>) -> (PushModel, Seq<PushStep>)
    decreases evs.len(),
{
    if evs.len() == 0 {
        (m, Seq::empty())
    } else {
        let (m1, steps) = push_run(m, evs.drop_last());
        let (m2, st) = push_next(m1, evs.last());
        (m2, steps.push(st))
    }
}

proof fn lemma_push_prefix(total: nat, k: nat, evs: Seq<RemoteOutcome>, n: nat)
    requires
        1 <= k <= total,
        k < evs.len(),
        n <= evs.len(),
        collection_ready(evs[0]),
        forall|j: int| 1 <= j < k ==> upload_ok(#[trigger] evs[j]),
        !upload_ok(evs[k as int]),
    ensures
        ({
            let (m, st) = push_run(push_start(total), evs.take(n as int));
            &&& st.len() == n
            &&& m.total == total
            &&& forall|j: int| 0 <= j < n ==> !(#[trigger] st[j] is Publish)
            &&& n == 0 ==> m == push_start(total)
            &&& 1 <= n <= k ==> m.phase == PushPhase::Uploading && m.uploaded == n - 1
            &&& n > k ==> m.phase == PushPhase::Failed && m.uploaded == k - 1 && st[k as int]
                == PushStep::Fail((k - 1) as nat)
        }),
    decreases n,
{
    if n > 0 {
        lemma_push_prefix(total, k, evs, (n - 1) as nat);
        assert(evs.take(n as int).drop_last() =~= evs.take(n - 1));
        assert(evs.take(n as int).last() == evs[n - 1]);
    }
}

/// A push whose uploads succeed up to the `k`-th and fail there never publishes a
/// manifest, and reports exactly `k - 1` successful uploads.
pub proof fn law_failed_upload_publishes_nothing(total: nat, k: nat, evs: Seq<RemoteOutcome>)
    requires
        1 <= k <= total,
        k < evs.len(),
        collection_ready(evs[0]),
        forall|j: int| 1 <= j < k ==> upload_ok(#[trigger] evs[j]),
        !upload_ok(evs[k as int]),
    ensures
        forall|j: int|
            0 <= j < evs.len() ==> !(#[trigger] push_run(push_start(total), evs).1[j] is Publish),
        push_run(push_start(total), evs).1[k as int] == PushStep::Fail((k - 1) as nat),
{
    lemma_push_prefix(total, k, evs, evs.len());
    assert(evs.take(evs.len() as int) =~= evs);
}

} // verus!
