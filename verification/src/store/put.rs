//! Moving a freshly built image into the store.

use super::{Entry, EntryView, Store};
use crate::disk;
use crate::error::{self, Error, ErrorView, IoError, IoErrorView};
use crate::host::{FileStat, Reply, ReplyView, Request, RequestView};
use crate::path;
use crate::procedure::Procedure;
use crate::store;
use crate::text;
use vstd::prelude::*;

verus! {

/// How far a [`Put`] has come.
#[derive(Debug, Clone, Copy, PartialEq, Eq, Structural)]
pub enum PutPhase {
    /// Renaming the image into place.
    Renaming,
    /// Removing what an interrupted copy may have left.
    Clearing,
    /// Copying it instead, since the source is on another filesystem.
    Copying,
    /// Renaming the copy into place.
    Placing,
    /// Removing the source of the copy.
    DroppingSource,
    /// Making the stored image read-only.
    Protecting,
    /// Flushing it, so that its size on disk is known.
    Flushing,
    Measuring,
    Dating { stat: FileStat },
    Recording { stat: FileStat, now: u64 },
    /// Renaming the record into place.
    Publishing,
    Finished,
    Failed,
}

/// Putting an image into the store under a key.
///
/// The source is best on the store's filesystem, see [`Store::staging_path`],
/// so that it is moved by one rename; otherwise it is copied to a name beside
/// its place and renamed from there. Either way an image that is stored already
/// is replaced as a whole. The stored image is read-only, since every name that
/// links to it shares it.
#[derive(Debug)]
pub struct Put {
    store: Store,
    key: String,
    source: Vec<u8>,
    diff_ids: Vec<String>,
    phase: PutPhase,
    failure: Option<IoError>,
}

/// A [`Put`] as a mathematical value.
#[verifier::ext_equal]
pub struct PutView {
    pub root: Seq<u8>,
    pub key: Seq<char>,
    pub source: Seq<u8>,
    pub diff_ids: Seq<Seq<char>>,
    pub phase: PutPhase,
    pub failure: Option<IoErrorView>,
}

impl View for Put {
    type V = PutView;

    closed spec fn view(&self) -> PutView {
        PutView {
            root: self.store@,
            key: self.key@,
            source: self.source@,
            diff_ids: text::views(self.diff_ids@),
            phase: self.phase,
            failure: error::failure_view(self.failure),
        }
    }
}

impl PutView {
    /// Before the first step.
    pub open spec fn start(
        root: Seq<u8>,
        key: Seq<char>,
        source: Seq<u8>,
        diff_ids: Seq<Seq<char>>,
    ) -> PutView {
        PutView { root, key, source, diff_ids, phase: PutPhase::Renaming, failure: None }
    }

    pub open spec fn blob(self) -> Seq<u8> {
        store::blob_path(self.root, self.key)
    }

    /// Where the source is copied if it cannot be renamed.
    pub open spec fn copy(self) -> Seq<u8> {
        store::copy_path(self.root, self.key)
    }

    /// Whether the source can be copied and then removed: it is neither the
    /// stored image nor the place of the copy.
    pub open spec fn can_copy(self) -> bool {
        self.source != self.blob() && self.source != self.copy()
    }

    /// The record of an image that looks like `stat` at the time `now`.
    pub open spec fn record(self, stat: FileStat, now: u64) -> EntryView {
        EntryView {
            key: self.key,
            size_bytes: stat.len,
            actual_bytes: stat.allocated,
            diff_ids: self.diff_ids,
            last_used: now,
            created: now,
        }
    }

    pub open spec fn to(self, phase: PutPhase) -> PutView {
        PutView { phase, ..self }
    }

    pub open spec fn fail(self, e: IoErrorView) -> PutView {
        PutView { phase: PutPhase::Failed, failure: Some(e), ..self }
    }

    /// What came of it: the stored image, or the failure that ended it.
    pub open spec fn outcome(self) -> Option<Result<Seq<u8>, ErrorView>> {
        match (self.phase, self.failure) {
            (PutPhase::Finished, _) => Some(Ok(self.blob())),
            (PutPhase::Failed, Some(e)) => Some(Err(ErrorView::Io(e))),
            _ => None,
        }
    }
}

impl Procedure for Put {
    type Request = Request;

    type Reply = Reply;

    open spec fn wants(state: PutView) -> Option<RequestView> {
        match state.phase {
            PutPhase::Renaming => Some(
                RequestView::Rename { from: state.source, to: state.blob() },
            ),
            PutPhase::Clearing => Some(RequestView::Remove(state.copy())),
            PutPhase::Copying => Some(
                RequestView::SparseCopy { from: state.source, to: state.copy() },
            ),
            PutPhase::Placing => Some(
                RequestView::Rename { from: state.copy(), to: state.blob() },
            ),
            PutPhase::DroppingSource => Some(RequestView::Remove(state.source)),
            PutPhase::Protecting => Some(
                RequestView::SetMode { path: state.blob(), mode: disk::SHARED_MODE },
            ),
            PutPhase::Flushing => Some(RequestView::Sync(state.blob())),
            PutPhase::Measuring => Some(RequestView::Stat(state.blob())),
            PutPhase::Dating { .. } => Some(RequestView::Now),
            PutPhase::Recording { stat, now } => Some(
                RequestView::WriteEntry {
                    path: store::meta_staging_path(state.root, state.key),
                    entry: state.record(stat, now),
                },
            ),
            PutPhase::Publishing => Some(
                RequestView::Rename {
                    from: store::meta_staging_path(state.root, state.key),
                    to: store::meta_path(state.root, state.key),
                },
            ),
            PutPhase::Finished | PutPhase::Failed => None,
        }
    }

    open spec fn after(state: PutView, reply: ReplyView) -> PutView {
        match (state.phase, reply) {
            (PutPhase::Renaming, ReplyView::Done) => state.to(PutPhase::Protecting),
            (PutPhase::Renaming, ReplyView::Failed(e)) => if e.is_cross_device()
                && state.can_copy() {
                state.to(PutPhase::Clearing)
            } else {
                state.fail(e)
            },
            (PutPhase::Clearing, ReplyView::Done) => state.to(PutPhase::Copying),
            (PutPhase::Clearing, ReplyView::Failed(_)) => state.to(PutPhase::Copying),
            (PutPhase::Copying, ReplyView::Count(_)) => state.to(PutPhase::Placing),
            (PutPhase::Copying, ReplyView::Failed(e)) => state.fail(e),
            (PutPhase::Placing, ReplyView::Done) => state.to(PutPhase::DroppingSource),
            (PutPhase::Placing, ReplyView::Failed(e)) => state.fail(e),
            // The copy is what counts; a source that stays behind does no harm.
            (PutPhase::DroppingSource, ReplyView::Done) => state.to(PutPhase::Protecting),
            (PutPhase::DroppingSource, ReplyView::Failed(_)) => state.to(PutPhase::Protecting),
            (PutPhase::Protecting, ReplyView::Done) => state.to(PutPhase::Flushing),
            (PutPhase::Protecting, ReplyView::Failed(e)) => state.fail(e),
            (PutPhase::Flushing, ReplyView::Done) => state.to(PutPhase::Measuring),
            (PutPhase::Flushing, ReplyView::Failed(_)) => state.to(PutPhase::Measuring),
            (PutPhase::Measuring, ReplyView::Stat(stat)) => state.to(PutPhase::Dating { stat }),
            (PutPhase::Measuring, ReplyView::Failed(e)) => state.fail(e),
            (PutPhase::Dating { stat }, ReplyView::Time(now)) => state.to(
                PutPhase::Recording { stat, now },
            ),
            (PutPhase::Recording { .. }, ReplyView::Done) => state.to(PutPhase::Publishing),
            (PutPhase::Recording { .. }, ReplyView::Failed(e)) => state.fail(e),
            (PutPhase::Publishing, ReplyView::Done) => state.to(PutPhase::Finished),
            (PutPhase::Publishing, ReplyView::Failed(e)) => state.fail(e),
            _ => state,
        }
    }

    fn request(&self) -> (request: Option<Request>) {
        let key = self.key.as_str();
        match self.phase {
            PutPhase::Renaming => Some(
                Request::Rename { from: path::copy_of(&self.source), to: self.store.blob(key) },
            ),
            PutPhase::Clearing => Some(Request::Remove(self.store.copy_staging(key))),
            PutPhase::Copying => Some(
                Request::SparseCopy {
                    from: path::copy_of(&self.source),
                    to: self.store.copy_staging(key),
                },
            ),
            PutPhase::Placing => Some(
                Request::Rename { from: self.store.copy_staging(key), to: self.store.blob(key) },
            ),
            PutPhase::DroppingSource => Some(Request::Remove(path::copy_of(&self.source))),
            PutPhase::Protecting => Some(
                Request::SetMode { path: self.store.blob(key), mode: disk::SHARED_MODE },
            ),
            PutPhase::Flushing => Some(Request::Sync(self.store.blob(key))),
            PutPhase::Measuring => Some(Request::Stat(self.store.blob(key))),
            PutPhase::Dating { .. } => Some(Request::Now),
            PutPhase::Recording { stat, now } => {
                let entry = Entry {
                    key: self.key.clone(),
                    size_bytes: stat.len,
                    actual_bytes: stat.allocated,
                    diff_ids: text::copy_all(&self.diff_ids),
                    last_used: now,
                    created: now,
                };
                Some(Request::WriteEntry { path: self.store.meta_staging(key), entry })
            },
            PutPhase::Publishing => Some(
                Request::Rename { from: self.store.meta_staging(key), to: self.store.meta(key) },
            ),
            PutPhase::Finished | PutPhase::Failed => None,
        }
    }

    fn resume(self, reply: Reply) -> (next: Put) {
        let mut next = self;
        match (next.phase, reply) {
            (PutPhase::Renaming, Reply::Done) => {
                next.phase = PutPhase::Protecting;
            },
            (PutPhase::Renaming, Reply::Failed(e)) => if e.is_cross_device() && next.can_copy() {
                next.phase = PutPhase::Clearing;
            } else {
                next.failure = Some(e);
                next.phase = PutPhase::Failed;
            },
            (PutPhase::Clearing, Reply::Done) => {
                next.phase = PutPhase::Copying;
            },
            (PutPhase::Clearing, Reply::Failed(_)) => {
                next.phase = PutPhase::Copying;
            },
            (PutPhase::Copying, Reply::Count(_)) => {
                next.phase = PutPhase::Placing;
            },
            (PutPhase::Placing, Reply::Done) => {
                next.phase = PutPhase::DroppingSource;
            },
            (PutPhase::DroppingSource, Reply::Done) => {
                next.phase = PutPhase::Protecting;
            },
            (PutPhase::DroppingSource, Reply::Failed(_)) => {
                next.phase = PutPhase::Protecting;
            },
            (PutPhase::Protecting, Reply::Done) => {
                next.phase = PutPhase::Flushing;
            },
            (PutPhase::Flushing, Reply::Done) => {
                next.phase = PutPhase::Measuring;
            },
            (PutPhase::Flushing, Reply::Failed(_)) => {
                next.phase = PutPhase::Measuring;
            },
            (PutPhase::Measuring, Reply::Stat(stat)) => {
                next.phase = PutPhase::Dating { stat };
            },
            (PutPhase::Dating { stat }, Reply::Time(now)) => {
                next.phase = PutPhase::Recording { stat, now };
            },
            (PutPhase::Recording { .. }, Reply::Done) => {
                next.phase = PutPhase::Publishing;
            },
            (PutPhase::Publishing, Reply::Done) => {
                next.phase = PutPhase::Finished;
            },
            (
                PutPhase::Copying
                | PutPhase::Placing
                | PutPhase::Protecting
                | PutPhase::Measuring
                | PutPhase::Recording { .. }
                | PutPhase::Publishing,
                Reply::Failed(e),
            ) => {
                next.failure = Some(e);
                next.phase = PutPhase::Failed;
            },
            _ => {},
        }
        next
    }
}

impl Put {
    fn can_copy(&self) -> (r: bool)
        ensures
            r == self@.can_copy(),
    {
        let blob = self.store.blob(self.key.as_str());
        let copy = self.store.copy_staging(self.key.as_str());
        !path::same(&self.source, &blob) && !path::same(&self.source, &copy)
    }

    /// What came of it: the path of the stored image, or the failure that
    /// ended it; nothing while it is under way.
    pub fn outcome(self) -> (r: Option<Result<Vec<u8>, Error>>)
        ensures
            match r {
                Some(Ok(p)) => self@.outcome() == Some(Ok::<Seq<u8>, ErrorView>(p@)),
                Some(Err(e)) => self@.outcome() == Some(Err::<Seq<u8>, ErrorView>(e@)),
                None => self@.outcome() is None,
            },
    {
        match self.phase {
            PutPhase::Finished => Some(Ok(self.store.blob(self.key.as_str()))),
            PutPhase::Failed => match self.failure {
                Some(e) => Some(Err(Error::Io(e))),
                None => None,
            },
            _ => None,
        }
    }
}

impl Store {
    /// Moves a freshly built image at `source` into the store under `key`.
    pub fn put(&self, key: &str, source: &[u8], diff_ids: &[String]) -> (p: Put)
        ensures
            p@ == PutView::start(self@, key@, source@, text::views(diff_ids@)),
    {
        Put {
            store: self.duplicate(),
            key: key.to_owned(),
            source: path::copy_of(source),
            diff_ids: text::copy_all(diff_ids),
            phase: PutPhase::Renaming,
            failure: None,
        }
    }
}

} // verus!
