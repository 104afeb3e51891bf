//! The operations of storage on ZFS, but for eviction.

use super::ZfsBackend;
use crate::disk;
use crate::error::{self, Error, ErrorView, IoError, IoErrorView};
use crate::host::{FileStat, Reply, ReplyView, Request, RequestView};
use crate::path;
use crate::procedure::{self, Procedure};
use crate::store::get::Lookup;
use crate::store::install::no_image_error;
use crate::store::list::{self, Order};
use crate::store::{self, Entry, EntryView, InstallKind, Materialization};
use crate::text;
use crate::zfs::{self, ZfsView};
use vstd::prelude::*;
use vstd::string::*;

verus! {

// ---------------------------------------------------------------------------
// Arguments of `zfs`
// ---------------------------------------------------------------------------
/// Create a dataset and those above it.
pub open spec fn create_args(ds: Seq<char>) -> Seq<Seq<char>> {
    seq!["create"@, "-p"@, ds]
}

/// Take a snapshot.
pub open spec fn snapshot_args(snapshot: Seq<char>) -> Seq<Seq<char>> {
    seq!["snapshot"@, snapshot]
}

/// Make a dataset read-only.
pub open spec fn protect_args(ds: Seq<char>) -> Seq<Seq<char>> {
    seq!["set"@, "readonly=on"@, ds]
}

/// Destroy a dataset and what is below it.
pub open spec fn destroy_args(ds: Seq<char>) -> Seq<Seq<char>> {
    seq!["destroy"@, "-r"@, ds]
}

/// Clone a snapshot as a dataset that can be written: a clone takes over that
/// its origin is read-only.
pub open spec fn clone_args(snapshot: Seq<char>, ds: Seq<char>) -> Seq<Seq<char>> {
    seq!["clone"@, "-o"@, "readonly=off"@, snapshot, ds]
}

/// List the names and the origins below a dataset.
pub open spec fn graph_args(ds: Seq<char>) -> Seq<Seq<char>> {
    seq!["list"@, "-H"@, "-r"@, "-o"@, "name,origin"@, ds]
}

fn two(a: &str, b: String) -> (v: Vec<String>)
    ensures
        text::views(v@) == seq![a@, b@],
{
    let mut v: Vec<String> = Vec::new();
    v.push(a.to_owned());
    v.push(b);
    assert(text::views(v@) =~= seq![a@, b@]);
    v
}

fn three(a: &str, b: &str, c: String) -> (v: Vec<String>)
    ensures
        text::views(v@) == seq![a@, b@, c@],
{
    let mut v: Vec<String> = Vec::new();
    v.push(a.to_owned());
    v.push(b.to_owned());
    v.push(c);
    assert(text::views(v@) =~= seq![a@, b@, c@]);
    v
}

pub(crate) fn destroy(ds: String) -> (v: Vec<String>)
    ensures
        text::views(v@) == destroy_args(ds@),
{
    three("destroy", "-r", ds)
}

fn clone_of(snapshot: String, ds: String) -> (v: Vec<String>)
    ensures
        text::views(v@) == clone_args(snapshot@, ds@),
{
    let mut v: Vec<String> = Vec::new();
    v.push("clone".to_owned());
    v.push("-o".to_owned());
    v.push("readonly=off".to_owned());
    v.push(snapshot);
    v.push(ds);
    assert(text::views(v@) =~= clone_args(snapshot@, ds@));
    v
}

pub(crate) fn graph_of(ds: String) -> (v: Vec<String>)
    ensures
        text::views(v@) == graph_args(ds@),
{
    let mut v: Vec<String> = Vec::new();
    v.push("list".to_owned());
    v.push("-H".to_owned());
    v.push("-r".to_owned());
    v.push("-o".to_owned());
    v.push("name,origin".to_owned());
    v.push(ds);
    assert(text::views(v@) =~= graph_args(ds@));
    v
}

// ---------------------------------------------------------------------------
// put
// ---------------------------------------------------------------------------
/// How far a [`ZfsPut`] has come.
#[derive(Debug, Clone, Copy, PartialEq, Eq, Structural)]
pub enum ZfsPutPhase {
    /// Creating the dataset of the image.
    Creating,
    Renaming,
    /// Copying instead, for whatever reason the rename failed.
    Copying,
    DroppingSource,
    Flushing,
    /// Taking the snapshot, now that the image is complete.
    Snapshotting,
    Protecting,
    Measuring,
    Dating { stat: FileStat },
    /// Creating the directory of the record.
    Preparing { stat: FileStat, now: u64 },
    Recording { stat: FileStat, now: u64 },
    Finished,
    Failed,
}

/// Putting an image into a dataset of its own.
#[derive(Debug)]
pub struct ZfsPut {
    backend: ZfsBackend,
    key: String,
    source: Vec<u8>,
    diff_ids: Vec<String>,
    phase: ZfsPutPhase,
    failure: Option<Error>,
}

/// A [`ZfsPut`] as a mathematical value.
#[verifier::ext_equal]
pub struct ZfsPutView {
    pub backend: ZfsView,
    pub key: Seq<char>,
    pub source: Seq<u8>,
    pub diff_ids: Seq<Seq<char>>,
    pub phase: ZfsPutPhase,
    pub failure: Option<ErrorView>,
}

impl View for ZfsPut {
    type V = ZfsPutView;

    closed spec fn view(&self) -> ZfsPutView {
        ZfsPutView {
            backend: self.backend@,
            key: self.key@,
            source: self.source@,
            diff_ids: text::views(self.diff_ids@),
            phase: self.phase,
            failure: error::error_view(self.failure),
        }
    }
}

impl ZfsPutView {
    /// Before the first step.
    pub open spec fn start(
        backend: ZfsView,
        key: Seq<char>,
        source: Seq<u8>,
        diff_ids: Seq<Seq<char>>,
    ) -> ZfsPutView {
        ZfsPutView { backend, key, source, diff_ids, phase: ZfsPutPhase::Creating, failure: None }
    }

    pub open spec fn blob(self) -> Seq<u8> {
        zfs::blob_file(self.backend.mountpoint, self.key)
    }

    pub open spec fn meta(self) -> Seq<u8> {
        store::meta_path(self.backend.mountpoint, self.key)
    }

    /// The record of an image that looks like `stat` at the time `now`.
    pub open spec fn record(self, stat: FileStat, now: u64) -> EntryView {
        EntryView {
            key: self.key,
            size_bytes: stat.len,
            actual_bytes: stat.allocated,
            diff_ids: self.diff_ids,
            last_used: now,
            created: now,
        }
    }

    pub open spec fn to(self, phase: ZfsPutPhase) -> ZfsPutView {
        ZfsPutView { phase, ..self }
    }

    pub open spec fn fail(self, e: ErrorView) -> ZfsPutView {
        ZfsPutView { phase: ZfsPutPhase::Failed, failure: Some(e), ..self }
    }

    /// What came of it: the stored image, or the failure that ended it.
    pub open spec fn outcome(self) -> Option<Result<Seq<u8>, ErrorView>> {
        match (self.phase, self.failure) {
            (ZfsPutPhase::Finished, _) => Some(Ok(self.blob())),
            (ZfsPutPhase::Failed, Some(e)) => Some(Err(e)),
            _ => None,
        }
    }
}

impl Procedure for ZfsPut {
    type Request = Request;

    type Reply = Reply;

    open spec fn wants(state: ZfsPutView) -> Option<RequestView> {
        let ds = zfs::blob_dataset(state.backend.dataset, state.key);
        match state.phase {
            ZfsPutPhase::Creating => Some(RequestView::Zfs(create_args(ds))),
            ZfsPutPhase::Renaming => Some(
                RequestView::Rename { from: state.source, to: state.blob() },
            ),
            ZfsPutPhase::Copying => Some(
                RequestView::PlainCopy { from: state.source, to: state.blob() },
            ),
            ZfsPutPhase::DroppingSource => Some(RequestView::Remove(state.source)),
            ZfsPutPhase::Flushing => Some(RequestView::Sync(state.blob())),
            ZfsPutPhase::Snapshotting => Some(
                RequestView::Zfs(
                    snapshot_args(zfs::ready_snapshot(state.backend.dataset, state.key)),
                ),
            ),
            ZfsPutPhase::Protecting => Some(RequestView::Zfs(protect_args(ds))),
            ZfsPutPhase::Measuring => Some(RequestView::Stat(state.blob())),
            ZfsPutPhase::Dating { .. } => Some(RequestView::Now),
            ZfsPutPhase::Preparing { .. } => Some(RequestView::MakeParent(state.meta())),
            ZfsPutPhase::Recording { stat, now } => Some(
                RequestView::WriteEntry { path: state.meta(), entry: state.record(stat, now) },
            ),
            ZfsPutPhase::Finished | ZfsPutPhase::Failed => None,
        }
    }

    open spec fn after(state: ZfsPutView, reply: ReplyView) -> ZfsPutView {
        match (state.phase, reply) {
            (ZfsPutPhase::Creating, ReplyView::Zfs(Ok(_))) => state.to(ZfsPutPhase::Renaming),
            (ZfsPutPhase::Creating, ReplyView::Zfs(Err(e))) => state.fail(e),
            (ZfsPutPhase::Renaming, ReplyView::Done) => state.to(ZfsPutPhase::Flushing),
            (ZfsPutPhase::Renaming, ReplyView::Failed(_)) => state.to(ZfsPutPhase::Copying),
            (ZfsPutPhase::Copying, ReplyView::Count(_)) => state.to(ZfsPutPhase::DroppingSource),
            (ZfsPutPhase::Copying, ReplyView::Failed(e)) => state.fail(ErrorView::Io(e)),
            (ZfsPutPhase::DroppingSource, ReplyView::Done) => state.to(ZfsPutPhase::Flushing),
            (ZfsPutPhase::DroppingSource, ReplyView::Failed(_)) => state.to(ZfsPutPhase::Flushing),
            (ZfsPutPhase::Flushing, ReplyView::Done) => state.to(ZfsPutPhase::Snapshotting),
            (ZfsPutPhase::Flushing, ReplyView::Failed(_)) => state.to(ZfsPutPhase::Snapshotting),
            (ZfsPutPhase::Snapshotting, ReplyView::Zfs(Ok(_))) => state.to(ZfsPutPhase::Protecting),
            (ZfsPutPhase::Snapshotting, ReplyView::Zfs(Err(e))) => state.fail(e),
            (ZfsPutPhase::Protecting, ReplyView::Zfs(Ok(_))) => state.to(ZfsPutPhase::Measuring),
            (ZfsPutPhase::Protecting, ReplyView::Zfs(Err(e))) => state.fail(e),
            (ZfsPutPhase::Measuring, ReplyView::Stat(stat)) => state.to(
                ZfsPutPhase::Dating { stat },
            ),
            (ZfsPutPhase::Measuring, ReplyView::Failed(e)) => state.fail(ErrorView::Io(e)),
            (ZfsPutPhase::Dating { stat }, ReplyView::Time(now)) => state.to(
                ZfsPutPhase::Preparing { stat, now },
            ),
            (ZfsPutPhase::Preparing { stat, now }, ReplyView::Done) => state.to(
                ZfsPutPhase::Recording { stat, now },
            ),
            (ZfsPutPhase::Preparing { .. }, ReplyView::Failed(e)) => state.fail(ErrorView::Io(e)),
            (ZfsPutPhase::Recording { .. }, ReplyView::Done) => state.to(ZfsPutPhase::Finished),
            (ZfsPutPhase::Recording { .. }, ReplyView::Failed(e)) => state.fail(ErrorView::Io(e)),
            _ => state,
        }
    }

    fn request(&self) -> (request: Option<Request>) {
        let key = self.key.as_str();
        match self.phase {
            ZfsPutPhase::Creating => Some(
                Request::Zfs(three("create", "-p", self.backend.blob_ds(key))),
            ),
            ZfsPutPhase::Renaming => Some(
                Request::Rename {
                    from: path::copy_of(&self.source),
                    to: self.backend.blob_file(key),
                },
            ),
            ZfsPutPhase::Copying => Some(
                Request::PlainCopy {
                    from: path::copy_of(&self.source),
                    to: self.backend.blob_file(key),
                },
            ),
            ZfsPutPhase::DroppingSource => Some(Request::Remove(path::copy_of(&self.source))),
            ZfsPutPhase::Flushing => Some(Request::Sync(self.backend.blob_file(key))),
            ZfsPutPhase::Snapshotting => Some(
                Request::Zfs(two("snapshot", self.backend.snapshot(key))),
            ),
            ZfsPutPhase::Protecting => Some(
                Request::Zfs(three("set", "readonly=on", self.backend.blob_ds(key))),
            ),
            ZfsPutPhase::Measuring => Some(Request::Stat(self.backend.blob_file(key))),
            ZfsPutPhase::Dating { .. } => Some(Request::Now),
            ZfsPutPhase::Preparing { .. } => Some(Request::MakeParent(self.backend.meta_path(key))),
            ZfsPutPhase::Recording { stat, now } => {
                let entry = Entry {
                    key: self.key.clone(),
                    size_bytes: stat.len,
                    actual_bytes: stat.allocated,
                    diff_ids: text::copy_all(&self.diff_ids),
                    last_used: now,
                    created: now,
                };
                Some(Request::WriteEntry { path: self.backend.meta_path(key), entry })
            },
            ZfsPutPhase::Finished | ZfsPutPhase::Failed => None,
        }
    }

    fn resume(self, reply: Reply) -> (next: ZfsPut) {
        let mut next = self;
        match (next.phase, reply) {
            (ZfsPutPhase::Creating, Reply::Zfs(Ok(_))) => {
                next.phase = ZfsPutPhase::Renaming;
            },
            (ZfsPutPhase::Renaming, Reply::Done) => {
                next.phase = ZfsPutPhase::Flushing;
            },
            (ZfsPutPhase::Renaming, Reply::Failed(_)) => {
                next.phase = ZfsPutPhase::Copying;
            },
            (ZfsPutPhase::Copying, Reply::Count(_)) => {
                next.phase = ZfsPutPhase::DroppingSource;
            },
            (ZfsPutPhase::DroppingSource, Reply::Done | Reply::Failed(_)) => {
                next.phase = ZfsPutPhase::Flushing;
            },
            (ZfsPutPhase::Flushing, Reply::Done | Reply::Failed(_)) => {
                next.phase = ZfsPutPhase::Snapshotting;
            },
            (ZfsPutPhase::Snapshotting, Reply::Zfs(Ok(_))) => {
                next.phase = ZfsPutPhase::Protecting;
            },
            (ZfsPutPhase::Protecting, Reply::Zfs(Ok(_))) => {
                next.phase = ZfsPutPhase::Measuring;
            },
            (ZfsPutPhase::Measuring, Reply::Stat(stat)) => {
                next.phase = ZfsPutPhase::Dating { stat };
            },
            (ZfsPutPhase::Dating { stat }, Reply::Time(now)) => {
                next.phase = ZfsPutPhase::Preparing { stat, now };
            },
            (ZfsPutPhase::Preparing { stat, now }, Reply::Done) => {
                next.phase = ZfsPutPhase::Recording { stat, now };
            },
            (ZfsPutPhase::Recording { .. }, Reply::Done) => {
                next.phase = ZfsPutPhase::Finished;
            },
            (
                ZfsPutPhase::Creating | ZfsPutPhase::Snapshotting | ZfsPutPhase::Protecting,
                Reply::Zfs(Err(e)),
            ) => {
                next.failure = Some(e);
                next.phase = ZfsPutPhase::Failed;
            },
            (
                ZfsPutPhase::Copying
                | ZfsPutPhase::Measuring
                | ZfsPutPhase::Preparing { .. }
                | ZfsPutPhase::Recording { .. },
                Reply::Failed(e),
            ) => {
                next.failure = Some(Error::Io(e));
                next.phase = ZfsPutPhase::Failed;
            },
            _ => {},
        }
        next
    }
}

impl ZfsPut {
    /// The path of the stored image, or the failure that ended it; nothing
    /// while it is under way.
    pub fn outcome(self) -> (r: Option<Result<Vec<u8>, Error>>)
        ensures
            match r {
                Some(Ok(p)) => self@.outcome() == Some(Ok::<Seq<u8>, ErrorView>(p@)),
                Some(Err(e)) => self@.outcome() == Some(Err::<Seq<u8>, ErrorView>(e@)),
                None => self@.outcome() is None,
            },
    {
        match self.phase {
            ZfsPutPhase::Finished => Some(Ok(self.backend.blob_file(self.key.as_str()))),
            ZfsPutPhase::Failed => match self.failure {
                Some(e) => Some(Err(e)),
                None => None,
            },
            _ => None,
        }
    }
}

// ---------------------------------------------------------------------------
// get
// ---------------------------------------------------------------------------
/// How far a [`ZfsGet`] has come.
#[derive(Debug, Clone, Copy, PartialEq, Eq, Structural)]
pub enum ZfsGetPhase {
    /// Is there an image at all?
    Looking,
    /// Reading its record.
    Reading,
    Dating,
    /// Creating the directory in which records are prepared.
    Preparing { now: u64 },
    /// Writing the renewed record.
    Recording { now: u64 },
    Publishing,
    Found,
    Absent,
}

/// Looking up the image of a key. A hit renews the date of last use; that this
/// fails, or that the record is not readable, does not make it a miss.
#[derive(Debug)]
pub struct ZfsGet {
    backend: ZfsBackend,
    key: String,
    phase: ZfsGetPhase,
    /// The record as it was read.
    record: Option<Entry>,
}

/// A [`ZfsGet`] as a mathematical value.
#[verifier::ext_equal]
pub struct ZfsGetView {
    pub backend: ZfsView,
    pub key: Seq<char>,
    pub phase: ZfsGetPhase,
    pub record: Option<EntryView>,
}

impl View for ZfsGet {
    type V = ZfsGetView;

    closed spec fn view(&self) -> ZfsGetView {
        ZfsGetView {
            backend: self.backend@,
            key: self.key@,
            phase: self.phase,
            record: match self.record {
                Some(e) => Some(e@),
                None => None,
            },
        }
    }
}

impl ZfsGetView {
    /// Before the first step.
    pub open spec fn start(backend: ZfsView, key: Seq<char>) -> ZfsGetView {
        ZfsGetView { backend, key, phase: ZfsGetPhase::Looking, record: None }
    }

    pub open spec fn to(self, phase: ZfsGetPhase) -> ZfsGetView {
        ZfsGetView { phase, ..self }
    }

    /// What came of it: the stored image, or nothing where there is none.
    pub open spec fn outcome(self) -> Option<Option<Seq<u8>>> {
        match self.phase {
            ZfsGetPhase::Found => Some(Some(zfs::blob_file(self.backend.mountpoint, self.key))),
            ZfsGetPhase::Absent => Some(None),
            _ => None,
        }
    }
}

impl Procedure for ZfsGet {
    type Request = Request;

    type Reply = Reply;

    open spec fn wants(state: ZfsGetView) -> Option<RequestView> {
        let mountpoint = state.backend.mountpoint;
        match (state.phase, state.record) {
            (ZfsGetPhase::Looking, _) => Some(
                RequestView::Exists(zfs::blob_file(mountpoint, state.key)),
            ),
            (ZfsGetPhase::Reading, _) => Some(
                RequestView::ReadEntry(store::meta_path(mountpoint, state.key)),
            ),
            (ZfsGetPhase::Dating, _) => Some(RequestView::Now),
            (ZfsGetPhase::Preparing { .. }, Some(e)) => Some(
                RequestView::MakeParent(store::meta_staging_path(mountpoint, e.key)),
            ),
            (ZfsGetPhase::Recording { now }, Some(e)) => Some(
                RequestView::WriteEntry {
                    path: store::meta_staging_path(mountpoint, e.key),
                    entry: EntryView { last_used: now, ..e },
                },
            ),
            (ZfsGetPhase::Publishing, Some(e)) => Some(
                RequestView::Rename {
                    from: store::meta_staging_path(mountpoint, e.key),
                    to: store::meta_path(mountpoint, e.key),
                },
            ),
            _ => None,
        }
    }

    open spec fn after(state: ZfsGetView, reply: ReplyView) -> ZfsGetView {
        match (state.phase, reply) {
            (ZfsGetPhase::Looking, ReplyView::Flag(true)) => state.to(ZfsGetPhase::Reading),
            (ZfsGetPhase::Looking, ReplyView::Flag(false)) => state.to(ZfsGetPhase::Absent),
            (ZfsGetPhase::Reading, ReplyView::Entry(e)) => ZfsGetView {
                record: Some(e),
                phase: ZfsGetPhase::Dating,
                ..state
            },
            (ZfsGetPhase::Reading, ReplyView::Failed(_)) => state.to(ZfsGetPhase::Found),
            (ZfsGetPhase::Dating, ReplyView::Time(now)) => state.to(
                ZfsGetPhase::Preparing { now },
            ),
            (ZfsGetPhase::Preparing { now }, ReplyView::Done) => state.to(
                ZfsGetPhase::Recording { now },
            ),
            (ZfsGetPhase::Preparing { .. }, ReplyView::Failed(_)) => state.to(ZfsGetPhase::Found),
            (ZfsGetPhase::Recording { .. }, ReplyView::Done) => state.to(ZfsGetPhase::Publishing),
            (ZfsGetPhase::Recording { .. }, ReplyView::Failed(_)) => state.to(ZfsGetPhase::Found),
            (ZfsGetPhase::Publishing, ReplyView::Done) => state.to(ZfsGetPhase::Found),
            (ZfsGetPhase::Publishing, ReplyView::Failed(_)) => state.to(ZfsGetPhase::Found),
            _ => state,
        }
    }

    fn request(&self) -> (request: Option<Request>) {
        match (self.phase, &self.record) {
            (ZfsGetPhase::Looking, _) => Some(
                Request::Exists(self.backend.blob_file(self.key.as_str())),
            ),
            (ZfsGetPhase::Reading, _) => Some(
                Request::ReadEntry(self.backend.meta_path(self.key.as_str())),
            ),
            (ZfsGetPhase::Dating, _) => Some(Request::Now),
            (ZfsGetPhase::Preparing { .. }, Some(e)) => Some(
                Request::MakeParent(self.backend.meta_staging(e.key.as_str())),
            ),
            (ZfsGetPhase::Recording { now }, Some(e)) => {
                let mut renewed = e.duplicate();
                renewed.last_used = now;
                Some(
                    Request::WriteEntry {
                        path: self.backend.meta_staging(e.key.as_str()),
                        entry: renewed,
                    },
                )
            },
            (ZfsGetPhase::Publishing, Some(e)) => Some(
                Request::Rename {
                    from: self.backend.meta_staging(e.key.as_str()),
                    to: self.backend.meta_path(e.key.as_str()),
                },
            ),
            _ => None,
        }
    }

    fn resume(self, reply: Reply) -> (next: ZfsGet) {
        let mut next = self;
        match (next.phase, reply) {
            (ZfsGetPhase::Looking, Reply::Flag(there)) => if there {
                next.phase = ZfsGetPhase::Reading;
            } else {
                next.phase = ZfsGetPhase::Absent;
            },
            (ZfsGetPhase::Reading, Reply::Entry(e)) => {
                next.record = Some(e);
                next.phase = ZfsGetPhase::Dating;
            },
            (ZfsGetPhase::Dating, Reply::Time(now)) => {
                next.phase = ZfsGetPhase::Preparing { now };
            },
            (ZfsGetPhase::Preparing { now }, Reply::Done) => {
                next.phase = ZfsGetPhase::Recording { now };
            },
            (ZfsGetPhase::Recording { .. }, Reply::Done) => {
                next.phase = ZfsGetPhase::Publishing;
            },
            (ZfsGetPhase::Publishing, Reply::Done) => {
                next.phase = ZfsGetPhase::Found;
            },
            (
                ZfsGetPhase::Reading
                | ZfsGetPhase::Preparing { .. }
                | ZfsGetPhase::Recording { .. }
                | ZfsGetPhase::Publishing,
                Reply::Failed(_),
            ) => {
                next.phase = ZfsGetPhase::Found;
            },
            _ => {},
        }
        next
    }
}

impl ZfsGet {
    /// The path of the stored image, or nothing where there is none; nothing
    /// at all while it is under way.
    pub fn outcome(self) -> (r: Option<Option<Vec<u8>>>)
        ensures
            match r {
                Some(Some(p)) => self@.outcome() == Some(Some(p@)),
                Some(None) => self@.outcome() == Some(None::<Seq<u8>>),
                None => self@.outcome() is None,
            },
    {
        match self.phase {
            ZfsGetPhase::Found => Some(Some(self.backend.blob_file(self.key.as_str()))),
            ZfsGetPhase::Absent => Some(None),
            _ => None,
        }
    }
}

// ---------------------------------------------------------------------------
// install
// ---------------------------------------------------------------------------
/// How far a [`ZfsInstall`] has come.
#[derive(Debug, Clone, Copy, PartialEq, Eq, Structural)]
pub enum ZfsInstallPhase {
    Looking,
    Preparing,
    /// Removing what the destination held.
    Clearing,
    Linking,
    Copying,
    Finished { kind: InstallKind },
    Missing,
    Failed,
}

/// Publishing an image under a name: a link where one can be made, else a
/// copy.
#[derive(Debug)]
pub struct ZfsInstall {
    backend: ZfsBackend,
    key: String,
    dest: Vec<u8>,
    phase: ZfsInstallPhase,
    failure: Option<IoError>,
}

/// A [`ZfsInstall`] as a mathematical value.
#[verifier::ext_equal]
pub struct ZfsInstallView {
    pub backend: ZfsView,
    pub key: Seq<char>,
    pub dest: Seq<u8>,
    pub phase: ZfsInstallPhase,
    pub failure: Option<IoErrorView>,
}

impl View for ZfsInstall {
    type V = ZfsInstallView;

    closed spec fn view(&self) -> ZfsInstallView {
        ZfsInstallView {
            backend: self.backend@,
            key: self.key@,
            dest: self.dest@,
            phase: self.phase,
            failure: error::failure_view(self.failure),
        }
    }
}

impl ZfsInstallView {
    /// Before the first step.
    pub open spec fn start(backend: ZfsView, key: Seq<char>, dest: Seq<u8>) -> ZfsInstallView {
        ZfsInstallView { backend, key, dest, phase: ZfsInstallPhase::Looking, failure: None }
    }

    pub open spec fn blob(self) -> Seq<u8> {
        zfs::blob_file(self.backend.mountpoint, self.key)
    }

    pub open spec fn to(self, phase: ZfsInstallPhase) -> ZfsInstallView {
        ZfsInstallView { phase, ..self }
    }

    pub open spec fn fail(self, e: IoErrorView) -> ZfsInstallView {
        ZfsInstallView { phase: ZfsInstallPhase::Failed, failure: Some(e), ..self }
    }

    /// What came of it: how the image was published, or why it was not.
    pub open spec fn outcome(self) -> Option<Result<InstallKind, ErrorView>> {
        match (self.phase, self.failure) {
            (ZfsInstallPhase::Finished { kind }, _) => Some(Ok(kind)),
            (ZfsInstallPhase::Missing, _) => Some(Err(store::install::no_image(self.key))),
            (ZfsInstallPhase::Failed, Some(e)) => Some(Err(ErrorView::Io(e))),
            _ => None,
        }
    }
}

impl Procedure for ZfsInstall {
    type Request = Request;

    type Reply = Reply;

    open spec fn wants(state: ZfsInstallView) -> Option<RequestView> {
        match state.phase {
            ZfsInstallPhase::Looking => Some(RequestView::Exists(state.blob())),
            ZfsInstallPhase::Preparing => Some(RequestView::MakeParent(state.dest)),
            ZfsInstallPhase::Clearing => Some(RequestView::Remove(state.dest)),
            ZfsInstallPhase::Linking => Some(
                RequestView::HardLink { from: state.blob(), to: state.dest },
            ),
            ZfsInstallPhase::Copying => Some(
                RequestView::PlainCopy { from: state.blob(), to: state.dest },
            ),
            ZfsInstallPhase::Finished { .. }
            | ZfsInstallPhase::Missing
            | ZfsInstallPhase::Failed => None,
        }
    }

    open spec fn after(state: ZfsInstallView, reply: ReplyView) -> ZfsInstallView {
        match (state.phase, reply) {
            (ZfsInstallPhase::Looking, ReplyView::Flag(true)) => state.to(
                ZfsInstallPhase::Preparing,
            ),
            (ZfsInstallPhase::Looking, ReplyView::Flag(false)) => state.to(
                ZfsInstallPhase::Missing,
            ),
            (ZfsInstallPhase::Preparing, ReplyView::Done) => state.to(ZfsInstallPhase::Clearing),
            (ZfsInstallPhase::Preparing, ReplyView::Failed(e)) => state.fail(e),
            (ZfsInstallPhase::Clearing, ReplyView::Done) => state.to(ZfsInstallPhase::Linking),
            (ZfsInstallPhase::Clearing, ReplyView::Failed(_)) => state.to(
                ZfsInstallPhase::Linking,
            ),
            (ZfsInstallPhase::Linking, ReplyView::Done) => state.to(
                ZfsInstallPhase::Finished { kind: InstallKind::Link },
            ),
            (ZfsInstallPhase::Linking, ReplyView::Failed(_)) => state.to(ZfsInstallPhase::Copying),
            (ZfsInstallPhase::Copying, ReplyView::Count(_)) => state.to(
                ZfsInstallPhase::Finished { kind: InstallKind::Copy },
            ),
            (ZfsInstallPhase::Copying, ReplyView::Failed(e)) => state.fail(e),
            _ => state,
        }
    }

    fn request(&self) -> (request: Option<Request>) {
        let key = self.key.as_str();
        match self.phase {
            ZfsInstallPhase::Looking => Some(Request::Exists(self.backend.blob_file(key))),
            ZfsInstallPhase::Preparing => Some(Request::MakeParent(path::copy_of(&self.dest))),
            ZfsInstallPhase::Clearing => Some(Request::Remove(path::copy_of(&self.dest))),
            ZfsInstallPhase::Linking => Some(
                Request::HardLink {
                    from: self.backend.blob_file(key),
                    to: path::copy_of(&self.dest),
                },
            ),
            ZfsInstallPhase::Copying => Some(
                Request::PlainCopy {
                    from: self.backend.blob_file(key),
                    to: path::copy_of(&self.dest),
                },
            ),
            ZfsInstallPhase::Finished { .. }
            | ZfsInstallPhase::Missing
            | ZfsInstallPhase::Failed => None,
        }
    }

    fn resume(self, reply: Reply) -> (next: ZfsInstall) {
        let mut next = self;
        match (next.phase, reply) {
            (ZfsInstallPhase::Looking, Reply::Flag(there)) => if there {
                next.phase = ZfsInstallPhase::Preparing;
            } else {
                next.phase = ZfsInstallPhase::Missing;
            },
            (ZfsInstallPhase::Preparing, Reply::Done) => {
                next.phase = ZfsInstallPhase::Clearing;
            },
            (ZfsInstallPhase::Clearing, Reply::Done | Reply::Failed(_)) => {
                next.phase = ZfsInstallPhase::Linking;
            },
            (ZfsInstallPhase::Linking, Reply::Done) => {
                next.phase = ZfsInstallPhase::Finished { kind: InstallKind::Link };
            },
            (ZfsInstallPhase::Linking, Reply::Failed(_)) => {
                next.phase = ZfsInstallPhase::Copying;
            },
            (ZfsInstallPhase::Copying, Reply::Count(_)) => {
                next.phase = ZfsInstallPhase::Finished { kind: InstallKind::Copy };
            },
            (ZfsInstallPhase::Preparing | ZfsInstallPhase::Copying, Reply::Failed(e)) => {
                next.failure = Some(e);
                next.phase = ZfsInstallPhase::Failed;
            },
            _ => {},
        }
        next
    }
}

impl ZfsInstall {
    /// How the image was published, or why it was not; nothing while it is
    /// under way.
    pub fn outcome(self) -> (r: Option<Result<InstallKind, Error>>)
        ensures
            match r {
                Some(Ok(k)) => self@.outcome() == Some(Ok::<InstallKind, ErrorView>(k)),
                Some(Err(e)) => self@.outcome() == Some(Err::<InstallKind, ErrorView>(e@)),
                None => self@.outcome() is None,
            },
    {
        match self.phase {
            ZfsInstallPhase::Finished { kind } => Some(Ok(kind)),
            ZfsInstallPhase::Missing => Some(Err(no_image_error(self.key.as_str()))),
            ZfsInstallPhase::Failed => match self.failure {
                Some(e) => Some(Err(Error::Io(e))),
                None => None,
            },
            _ => None,
        }
    }
}

// ---------------------------------------------------------------------------
// materialize
// ---------------------------------------------------------------------------
/// How far a [`ZfsMaterialize`] has come.
#[derive(Debug, Clone, Copy, PartialEq, Eq, Structural)]
pub enum ZfsMaterializePhase {
    Looking,
    /// Destroying the clone of an earlier copy for the same destination.
    Destroying,
    Cloning,
    /// Is there a file in the clone?
    LookingAtClone,
    /// Making the file in the clone writable.
    Unprotecting,
    Clearing,
    Preparing,
    Linking,
    Finished,
    Missing,
    Failed,
}

/// Making a private, writable copy: a clone of the snapshot of the image.
#[derive(Debug)]
pub struct ZfsMaterialize {
    backend: ZfsBackend,
    key: String,
    dest: Vec<u8>,
    phase: ZfsMaterializePhase,
    failure: Option<Error>,
}

/// A [`ZfsMaterialize`] as a mathematical value.
#[verifier::ext_equal]
pub struct ZfsMaterializeView {
    pub backend: ZfsView,
    pub key: Seq<char>,
    pub dest: Seq<u8>,
    pub phase: ZfsMaterializePhase,
    pub failure: Option<ErrorView>,
}

impl View for ZfsMaterialize {
    type V = ZfsMaterializeView;

    closed spec fn view(&self) -> ZfsMaterializeView {
        ZfsMaterializeView {
            backend: self.backend@,
            key: self.key@,
            dest: self.dest@,
            phase: self.phase,
            failure: error::error_view(self.failure),
        }
    }
}

impl ZfsMaterializeView {
    /// Before the first step.
    pub open spec fn start(backend: ZfsView, key: Seq<char>, dest: Seq<u8>) -> ZfsMaterializeView {
        ZfsMaterializeView {
            backend,
            key,
            dest,
            phase: ZfsMaterializePhase::Looking,
            failure: None,
        }
    }

    /// The dataset of the copy.
    pub open spec fn clone_ds(self) -> Seq<char> {
        zfs::clone_dataset(self.backend.dataset, zfs::token_of(self.dest))
    }

    /// The file in the dataset of the copy.
    pub open spec fn clone_file(self) -> Seq<u8> {
        zfs::clone_file(self.backend.mountpoint, zfs::token_of(self.dest))
    }

    pub open spec fn to(self, phase: ZfsMaterializePhase) -> ZfsMaterializeView {
        ZfsMaterializeView { phase, ..self }
    }

    pub open spec fn fail(self, e: ErrorView) -> ZfsMaterializeView {
        ZfsMaterializeView { phase: ZfsMaterializePhase::Failed, failure: Some(e), ..self }
    }

    /// What came of it. A clone shares every block with its origin, so it
    /// costs nothing.
    pub open spec fn outcome(self) -> Option<Result<Materialization, ErrorView>> {
        match (self.phase, self.failure) {
            (ZfsMaterializePhase::Finished, _) => Some(
                Ok(Materialization::Cloned { bytes_written: 0 }),
            ),
            (ZfsMaterializePhase::Missing, _) => Some(Err(store::install::no_image(self.key))),
            (ZfsMaterializePhase::Failed, Some(e)) => Some(Err(e)),
            _ => None,
        }
    }
}

impl Procedure for ZfsMaterialize {
    type Request = Request;

    type Reply = Reply;

    open spec fn wants(state: ZfsMaterializeView) -> Option<RequestView> {
        match state.phase {
            ZfsMaterializePhase::Looking => Some(
                RequestView::Exists(zfs::blob_file(state.backend.mountpoint, state.key)),
            ),
            ZfsMaterializePhase::Destroying => Some(
                RequestView::Zfs(destroy_args(state.clone_ds())),
            ),
            ZfsMaterializePhase::Cloning => Some(
                RequestView::Zfs(
                    clone_args(
                        zfs::ready_snapshot(state.backend.dataset, state.key),
                        state.clone_ds(),
                    ),
                ),
            ),
            ZfsMaterializePhase::LookingAtClone => Some(RequestView::Exists(state.clone_file())),
            ZfsMaterializePhase::Unprotecting => Some(
                RequestView::SetMode { path: state.clone_file(), mode: disk::PRIVATE_MODE },
            ),
            ZfsMaterializePhase::Clearing => Some(RequestView::Remove(state.dest)),
            ZfsMaterializePhase::Preparing => Some(RequestView::MakeParent(state.dest)),
            ZfsMaterializePhase::Linking => Some(
                RequestView::HardLink { from: state.clone_file(), to: state.dest },
            ),
            ZfsMaterializePhase::Finished
            | ZfsMaterializePhase::Missing
            | ZfsMaterializePhase::Failed => None,
        }
    }

    open spec fn after(state: ZfsMaterializeView, reply: ReplyView) -> ZfsMaterializeView {
        match (state.phase, reply) {
            (ZfsMaterializePhase::Looking, ReplyView::Flag(true)) => state.to(
                ZfsMaterializePhase::Destroying,
            ),
            (ZfsMaterializePhase::Looking, ReplyView::Flag(false)) => state.to(
                ZfsMaterializePhase::Missing,
            ),
            // Mostly there is none.
            (ZfsMaterializePhase::Destroying, ReplyView::Zfs(_)) => state.to(
                ZfsMaterializePhase::Cloning,
            ),
            (ZfsMaterializePhase::Cloning, ReplyView::Zfs(Ok(_))) => state.to(
                ZfsMaterializePhase::LookingAtClone,
            ),
            (ZfsMaterializePhase::Cloning, ReplyView::Zfs(Err(e))) => state.fail(e),
            (ZfsMaterializePhase::LookingAtClone, ReplyView::Flag(true)) => state.to(
                ZfsMaterializePhase::Unprotecting,
            ),
            (ZfsMaterializePhase::LookingAtClone, ReplyView::Flag(false)) => state.to(
                ZfsMaterializePhase::Finished,
            ),
            (ZfsMaterializePhase::Unprotecting, ReplyView::Done) => state.to(
                ZfsMaterializePhase::Clearing,
            ),
            (ZfsMaterializePhase::Unprotecting, ReplyView::Failed(e)) => state.fail(
                ErrorView::Io(e),
            ),
            (ZfsMaterializePhase::Clearing, ReplyView::Done) => state.to(
                ZfsMaterializePhase::Preparing,
            ),
            (ZfsMaterializePhase::Clearing, ReplyView::Failed(_)) => state.to(
                ZfsMaterializePhase::Preparing,
            ),
            (ZfsMaterializePhase::Preparing, ReplyView::Done) => state.to(
                ZfsMaterializePhase::Linking,
            ),
            (ZfsMaterializePhase::Preparing, ReplyView::Failed(e)) => state.fail(ErrorView::Io(e)),
            (ZfsMaterializePhase::Linking, ReplyView::Done) => state.to(
                ZfsMaterializePhase::Finished,
            ),
            (ZfsMaterializePhase::Linking, ReplyView::Failed(e)) => state.fail(ErrorView::Io(e)),
            _ => state,
        }
    }

    fn request(&self) -> (request: Option<Request>) {
        let key = self.key.as_str();
        match self.phase {
            ZfsMaterializePhase::Looking => Some(Request::Exists(self.backend.blob_file(key))),
            ZfsMaterializePhase::Destroying => Some(Request::Zfs(destroy(self.clone_ds()))),
            ZfsMaterializePhase::Cloning => Some(
                Request::Zfs(clone_of(self.backend.snapshot(key), self.clone_ds())),
            ),
            ZfsMaterializePhase::LookingAtClone => Some(Request::Exists(self.clone_file())),
            ZfsMaterializePhase::Unprotecting => Some(
                Request::SetMode { path: self.clone_file(), mode: disk::PRIVATE_MODE },
            ),
            ZfsMaterializePhase::Clearing => Some(Request::Remove(path::copy_of(&self.dest))),
            ZfsMaterializePhase::Preparing => Some(Request::MakeParent(path::copy_of(&self.dest))),
            ZfsMaterializePhase::Linking => Some(
                Request::HardLink { from: self.clone_file(), to: path::copy_of(&self.dest) },
            ),
            ZfsMaterializePhase::Finished
            | ZfsMaterializePhase::Missing
            | ZfsMaterializePhase::Failed => None,
        }
    }

    fn resume(self, reply: Reply) -> (next: ZfsMaterialize) {
        let mut next = self;
        match (next.phase, reply) {
            (ZfsMaterializePhase::Looking, Reply::Flag(there)) => if there {
                next.phase = ZfsMaterializePhase::Destroying;
            } else {
                next.phase = ZfsMaterializePhase::Missing;
            },
            (ZfsMaterializePhase::Destroying, Reply::Zfs(_)) => {
                next.phase = ZfsMaterializePhase::Cloning;
            },
            (ZfsMaterializePhase::Cloning, Reply::Zfs(Ok(_))) => {
                next.phase = ZfsMaterializePhase::LookingAtClone;
            },
            (ZfsMaterializePhase::Cloning, Reply::Zfs(Err(e))) => {
                next.failure = Some(e);
                next.phase = ZfsMaterializePhase::Failed;
            },
            (ZfsMaterializePhase::LookingAtClone, Reply::Flag(there)) => if there {
                next.phase = ZfsMaterializePhase::Unprotecting;
            } else {
                next.phase = ZfsMaterializePhase::Finished;
            },
            (ZfsMaterializePhase::Unprotecting, Reply::Done) => {
                next.phase = ZfsMaterializePhase::Clearing;
            },
            (ZfsMaterializePhase::Clearing, Reply::Done | Reply::Failed(_)) => {
                next.phase = ZfsMaterializePhase::Preparing;
            },
            (ZfsMaterializePhase::Preparing, Reply::Done) => {
                next.phase = ZfsMaterializePhase::Linking;
            },
            (ZfsMaterializePhase::Linking, Reply::Done) => {
                next.phase = ZfsMaterializePhase::Finished;
            },
            (
                ZfsMaterializePhase::Unprotecting
                | ZfsMaterializePhase::Preparing
                | ZfsMaterializePhase::Linking,
                Reply::Failed(e),
            ) => {
                next.failure = Some(Error::Io(e));
                next.phase = ZfsMaterializePhase::Failed;
            },
            _ => {},
        }
        next
    }
}

impl ZfsMaterialize {
    fn clone_ds(&self) -> (s: String)
        ensures
            s@ == self@.clone_ds(),
    {
        let token = ZfsBackend::clone_token(&self.dest);
        self.backend.clone_ds(token.as_str())
    }

    fn clone_file(&self) -> (p: Vec<u8>)
        ensures
            p@ == self@.clone_file(),
    {
        let token = ZfsBackend::clone_token(&self.dest);
        self.backend.clone_file(token.as_str())
    }

    /// How the copy was made, or why there is none; nothing while it is under
    /// way.
    pub fn outcome(self) -> (r: Option<Result<Materialization, Error>>)
        ensures
            match r {
                Some(Ok(m)) => self@.outcome() == Some(Ok::<Materialization, ErrorView>(m)),
                Some(Err(e)) => self@.outcome() == Some(Err::<Materialization, ErrorView>(e@)),
                None => self@.outcome() is None,
            },
    {
        match self.phase {
            ZfsMaterializePhase::Finished => Some(Ok(Materialization::Cloned { bytes_written: 0 })),
            ZfsMaterializePhase::Missing => Some(Err(no_image_error(self.key.as_str()))),
            ZfsMaterializePhase::Failed => match self.failure {
                Some(e) => Some(Err(e)),
                None => None,
            },
            _ => None,
        }
    }
}

// ---------------------------------------------------------------------------
// release
// ---------------------------------------------------------------------------
/// How far a [`ZfsRelease`] has come.
#[derive(Debug, Clone, Copy, PartialEq, Eq, Structural)]
pub enum ZfsReleasePhase {
    Removing,
    Destroying,
    Finished,
    Failed,
}

/// Destroying the clone behind a destination. That it is gone already is no
/// failure.
#[derive(Debug)]
pub struct ZfsRelease {
    backend: ZfsBackend,
    dest: Vec<u8>,
    phase: ZfsReleasePhase,
    failure: Option<Error>,
}

/// A [`ZfsRelease`] as a mathematical value.
#[verifier::ext_equal]
pub struct ZfsReleaseView {
    pub backend: ZfsView,
    pub dest: Seq<u8>,
    pub phase: ZfsReleasePhase,
    pub failure: Option<ErrorView>,
}

impl View for ZfsRelease {
    type V = ZfsReleaseView;

    closed spec fn view(&self) -> ZfsReleaseView {
        ZfsReleaseView {
            backend: self.backend@,
            dest: self.dest@,
            phase: self.phase,
            failure: error::error_view(self.failure),
        }
    }
}

impl ZfsReleaseView {
    /// Before the first step.
    pub open spec fn start(backend: ZfsView, dest: Seq<u8>) -> ZfsReleaseView {
        ZfsReleaseView { backend, dest, phase: ZfsReleasePhase::Removing, failure: None }
    }

    pub open spec fn to(self, phase: ZfsReleasePhase) -> ZfsReleaseView {
        ZfsReleaseView { phase, ..self }
    }

    /// What came of it.
    pub open spec fn outcome(self) -> Option<Result<(), ErrorView>> {
        match (self.phase, self.failure) {
            (ZfsReleasePhase::Finished, _) => Some(Ok(())),
            (ZfsReleasePhase::Failed, Some(e)) => Some(Err(e)),
            _ => None,
        }
    }
}

impl Procedure for ZfsRelease {
    type Request = Request;

    type Reply = Reply;

    open spec fn wants(state: ZfsReleaseView) -> Option<RequestView> {
        match state.phase {
            ZfsReleasePhase::Removing => Some(RequestView::Remove(state.dest)),
            ZfsReleasePhase::Destroying => Some(
                RequestView::Zfs(
                    destroy_args(
                        zfs::clone_dataset(state.backend.dataset, zfs::token_of(state.dest)),
                    ),
                ),
            ),
            ZfsReleasePhase::Finished | ZfsReleasePhase::Failed => None,
        }
    }

    open spec fn after(state: ZfsReleaseView, reply: ReplyView) -> ZfsReleaseView {
        match (state.phase, reply) {
            (ZfsReleasePhase::Removing, ReplyView::Done) => state.to(ZfsReleasePhase::Destroying),
            (ZfsReleasePhase::Removing, ReplyView::Failed(_)) => state.to(
                ZfsReleasePhase::Destroying,
            ),
            (ZfsReleasePhase::Destroying, ReplyView::Zfs(Ok(_))) => state.to(
                ZfsReleasePhase::Finished,
            ),
            (ZfsReleasePhase::Destroying, ReplyView::Zfs(Err(e))) => if zfs::means_gone(e) {
                state.to(ZfsReleasePhase::Finished)
            } else {
                ZfsReleaseView { phase: ZfsReleasePhase::Failed, failure: Some(e), ..state }
            },
            _ => state,
        }
    }

    fn request(&self) -> (request: Option<Request>) {
        match self.phase {
            ZfsReleasePhase::Removing => Some(Request::Remove(path::copy_of(&self.dest))),
            ZfsReleasePhase::Destroying => {
                let token = ZfsBackend::clone_token(&self.dest);
                Some(Request::Zfs(destroy(self.backend.clone_ds(token.as_str()))))
            },
            ZfsReleasePhase::Finished | ZfsReleasePhase::Failed => None,
        }
    }

    fn resume(self, reply: Reply) -> (next: ZfsRelease) {
        let mut next = self;
        match (next.phase, reply) {
            (ZfsReleasePhase::Removing, Reply::Done | Reply::Failed(_)) => {
                next.phase = ZfsReleasePhase::Destroying;
            },
            (ZfsReleasePhase::Destroying, Reply::Zfs(Ok(_))) => {
                next.phase = ZfsReleasePhase::Finished;
            },
            (ZfsReleasePhase::Destroying, Reply::Zfs(Err(e))) => if zfs::is_gone(&e) {
                next.phase = ZfsReleasePhase::Finished;
            } else {
                next.failure = Some(e);
                next.phase = ZfsReleasePhase::Failed;
            },
            _ => {},
        }
        next
    }
}

impl ZfsRelease {
    /// What came of it; nothing while it is under way.
    pub fn outcome(self) -> (r: Option<Result<(), Error>>)
        ensures
            match r {
                Some(Ok(_)) => self@.outcome() == Some(Ok::<(), ErrorView>(())),
                Some(Err(e)) => self@.outcome() == Some(Err::<(), ErrorView>(e@)),
                None => self@.outcome() is None,
            },
    {
        match self.phase {
            ZfsReleasePhase::Finished => Some(Ok(())),
            ZfsReleasePhase::Failed => match self.failure {
                Some(e) => Some(Err(e)),
                None => None,
            },
            _ => None,
        }
    }
}

// ---------------------------------------------------------------------------
// list
// ---------------------------------------------------------------------------
/// Listing the records, the most recently used first. Without a directory of
/// records there are none.
#[derive(Debug)]
pub struct ZfsList {
    backend: ZfsBackend,
    found: Option<Vec<Entry>>,
}

/// A [`ZfsList`] as a mathematical value.
#[verifier::ext_equal]
pub struct ZfsListView {
    pub backend: ZfsView,
    pub found: Option<Seq<EntryView>>,
}

impl View for ZfsList {
    type V = ZfsListView;

    closed spec fn view(&self) -> ZfsListView {
        ZfsListView {
            backend: self.backend@,
            found: match self.found {
                Some(v) => Some(list::entry_views(v@)),
                None => None,
            },
        }
    }
}

impl Procedure for ZfsList {
    type Request = Request;

    type Reply = Reply;

    open spec fn wants(state: ZfsListView) -> Option<RequestView> {
        match state.found {
            None => Some(RequestView::ListEntries(list::records_path(state.backend.mountpoint))),
            Some(_) => None,
        }
    }

    open spec fn after(state: ZfsListView, reply: ReplyView) -> ZfsListView {
        match (state.found, reply) {
            (None, ReplyView::Entries(found)) => ZfsListView {
                found: Some(list::sorted(Order::NewestFirst, list::readable(found))),
                ..state
            },
            (None, ReplyView::Failed(_)) => ZfsListView { found: Some(Seq::empty()), ..state },
            _ => state,
        }
    }

    fn request(&self) -> (request: Option<Request>) {
        match self.found {
            None => Some(Request::ListEntries(self.backend.records())),
            Some(_) => None,
        }
    }

    fn resume(self, reply: Reply) -> (next: ZfsList) {
        let mut next = self;
        if next.found.is_none() {
            match reply {
                Reply::Entries(found) => {
                    next.found = Some(list::sort(Order::NewestFirst, list::keep_readable(found)));
                },
                Reply::Failed(_) => {
                    let none: Vec<Entry> = Vec::new();
                    assert(list::entry_views(none@) =~= Seq::empty());
                    next.found = Some(none);
                },
                _ => {},
            }
        }
        next
    }
}

impl ZfsList {
    /// The records; nothing while it is under way.
    pub fn outcome(self) -> (r: Option<Vec<Entry>>)
        ensures
            match r {
                Some(v) => self@.found == Some(list::entry_views(v@)),
                None => self@.found is None,
            },
    {
        self.found
    }
}

impl ZfsBackend {
    /// Moves a freshly built image at `source` into the storage under `key`.
    pub fn put(&self, key: &str, source: &[u8], diff_ids: &[String]) -> (p: ZfsPut)
        ensures
            p@ == ZfsPutView::start(self@, key@, source@, text::views(diff_ids@)),
    {
        ZfsPut {
            backend: self.duplicate(),
            key: key.to_owned(),
            source: path::copy_of(source),
            diff_ids: text::copy_all(diff_ids),
            phase: ZfsPutPhase::Creating,
            failure: None,
        }
    }

    /// Looks up the stored image for `key`, and renews its date of last use.
    pub fn get(&self, key: &str) -> (p: ZfsGet)
        ensures
            p@ == ZfsGetView::start(self@, key@),
    {
        ZfsGet {
            backend: self.duplicate(),
            key: key.to_owned(),
            phase: ZfsGetPhase::Looking,
            record: None,
        }
    }

    /// Reads the record of `key`.
    pub fn entry(&self, key: &str) -> (p: Lookup)
        ensures
            p@ == (store::get::LookupView {
                path: store::meta_path(self@.mountpoint, key@),
                found: None,
            }),
    {
        Lookup::at(self.meta_path(key))
    }

    /// Publishes the stored image for `key` as `dest`.
    pub fn install(&self, key: &str, dest: &[u8]) -> (p: ZfsInstall)
        ensures
            p@ == ZfsInstallView::start(self@, key@, dest@),
    {
        ZfsInstall {
            backend: self.duplicate(),
            key: key.to_owned(),
            dest: path::copy_of(dest),
            phase: ZfsInstallPhase::Looking,
            failure: None,
        }
    }

    /// Makes a private, writable copy of the stored image for `key` at `dest`.
    pub fn materialize(&self, key: &str, dest: &[u8]) -> (p: ZfsMaterialize)
        ensures
            p@ == ZfsMaterializeView::start(self@, key@, dest@),
    {
        ZfsMaterialize {
            backend: self.duplicate(),
            key: key.to_owned(),
            dest: path::copy_of(dest),
            phase: ZfsMaterializePhase::Looking,
            failure: None,
        }
    }

    /// Gives back a copy that [`ZfsBackend::materialize`] made.
    pub fn release(&self, dest: &[u8]) -> (p: ZfsRelease)
        ensures
            p@ == ZfsReleaseView::start(self@, dest@),
    {
        ZfsRelease {
            backend: self.duplicate(),
            dest: path::copy_of(dest),
            phase: ZfsReleasePhase::Removing,
            failure: None,
        }
    }

    /// Lists the records, the most recently used first.
    pub fn list(&self) -> (p: ZfsList)
        ensures
            p@ == (ZfsListView { backend: self@, found: None }),
    {
        ZfsList { backend: self.duplicate(), found: None }
    }
}

/// A release destroys the very clone that materializing for the same
/// destination has made, and a copy for another destination has another one
/// unless the halves of two hashes agree.
pub proof fn lemma_release_finds_the_clone(m: ZfsMaterializeView, r: ZfsReleaseView)
    requires
        m.backend == r.backend,
        m.phase == ZfsMaterializePhase::Cloning,
        r.phase == ZfsReleasePhase::Destroying,
    ensures
        m.dest == r.dest ==> exists|ds: Seq<char>|
            ZfsMaterialize::wants(m) == Some(
                RequestView::Zfs(
                    #[trigger] clone_args(zfs::ready_snapshot(m.backend.dataset, m.key), ds),
                ),
            ) && ZfsRelease::wants(r) == Some(RequestView::Zfs(destroy_args(ds))),
        zfs::token_of(m.dest) != zfs::token_of(r.dest) ==> ZfsRelease::wants(r) != Some(
            RequestView::Zfs(destroy_args(m.clone_ds())),
        ),
{
    if m.dest == r.dest {
        assert(ZfsMaterialize::wants(m) == Some(
            RequestView::Zfs(
                clone_args(zfs::ready_snapshot(m.backend.dataset, m.key), m.clone_ds()),
            ),
        ));
    }
    if zfs::token_of(m.dest) != zfs::token_of(r.dest) {
        let a = zfs::clone_dataset(m.backend.dataset, zfs::token_of(m.dest));
        let b = zfs::clone_dataset(m.backend.dataset, zfs::token_of(r.dest));
        let head = m.backend.dataset + "/clones/"@;
        assert(a.skip(head.len() as int) =~= zfs::token_of(m.dest));
        assert(b.skip(head.len() as int) =~= zfs::token_of(r.dest));
        assert(destroy_args(a)[2] == a && destroy_args(b)[2] == b);
    }
}

/// Whether a reply says that the image is in place.
pub open spec fn in_place(s: ZfsPutView, reply: ReplyView) -> bool {
    match (s.phase, reply) {
        (ZfsPutPhase::Renaming, ReplyView::Done) => true,
        (ZfsPutPhase::Copying, ReplyView::Count(_)) => true,
        _ => false,
    }
}

/// Whether the image has been put in place.
pub open spec fn past_placing(s: ZfsPutView) -> bool {
    match s.phase {
        ZfsPutPhase::Creating
        | ZfsPutPhase::Renaming
        | ZfsPutPhase::Copying
        | ZfsPutPhase::Failed => false,
        _ => true,
    }
}

/// A snapshot is taken only of a complete image: some earlier reply said that
/// the image had been renamed or copied into place.
pub proof fn lemma_snapshots_are_complete(
    backend: ZfsView,
    key: Seq<char>,
    source: Seq<u8>,
    diff_ids: Seq<Seq<char>>,
    replies: Seq<ReplyView>,
)
    requires
        past_placing(
            procedure::state_given::<ZfsPut>(
                ZfsPutView::start(backend, key, source, diff_ids),
                replies,
            ),
        ),
    ensures
        exists|i: int|
            0 <= i < replies.len() && #[trigger] in_place(
                procedure::state_given::<ZfsPut>(
                    ZfsPutView::start(backend, key, source, diff_ids),
                    replies.take(i),
                ),
                replies[i],
            ),
    decreases replies.len(),
{
    let start = ZfsPutView::start(backend, key, source, diff_ids);
    if replies.len() > 0 {
        let before = replies.drop_last();
        let s = procedure::state_given::<ZfsPut>(start, before);
        if past_placing(s) {
            lemma_snapshots_are_complete(backend, key, source, diff_ids, before);
            let i = choose|i: int|
                0 <= i < before.len() && #[trigger] in_place(
                    procedure::state_given::<ZfsPut>(start, before.take(i)),
                    before[i],
                );
            assert(before.take(i) =~= replies.take(i));
            assert(in_place(
                procedure::state_given::<ZfsPut>(start, replies.take(i)),
                replies[i],
            ));
        } else {
            let i = replies.len() - 1;
            assert(replies.take(i) =~= before);
            assert(in_place(
                procedure::state_given::<ZfsPut>(start, replies.take(i)),
                replies[i],
            ));
        }
    }
}

} // verus!
