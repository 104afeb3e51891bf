//! Publishing a stored image under a name of its own.

use super::{InstallKind, Store};
use crate::error::{self, Error, ErrorView, IoError, IoErrorView, IoKind};
use crate::host::{FileStat, Reply, ReplyView, Request, RequestView};
use crate::path;
use crate::procedure::Procedure;
use crate::store;
use crate::text;
use vstd::prelude::*;
use vstd::utf8::*;

verus! {

/// The failure of an operation on a key without an image.
pub open spec fn no_image(key: Seq<char>) -> ErrorView {
    ErrorView::Io(IoErrorView::own(IoKind::NotFound, "no stored image for key "@ + key))
}

/// The failure of an operation on a key without an image.
pub fn no_image_error(key: &str) -> (e: Error)
    ensures
        e@ == no_image(key@),
{
    Error::Io(IoError::own(IoKind::NotFound, text::concat("no stored image for key ", key)))
}

/// Where a name is prepared before it is renamed into place.
pub open spec fn part_path(dest: Seq<u8>) -> Seq<u8> {
    dest + encode_utf8(".part"@)
}

/// How far an [`Install`] has come.
#[derive(Debug, Clone, Copy, PartialEq, Eq, Structural)]
pub enum InstallPhase {
    /// Is there an image at all?
    Looking,
    /// Creating the directory of the destination.
    Preparing,
    /// Is the destination the image already?
    LookingAtDest,
    LookingAtBlob { dest: FileStat },
    /// Removing what an interrupted attempt may have left.
    Clearing,
    Linking,
    /// Copying instead, since no link can be made.
    Copying,
    Renaming { kind: InstallKind },
    /// Removing the prepared name, should the rename have left it.
    Tidying { kind: InstallKind },
    Finished { kind: InstallKind },
    Missing,
    Failed,
}

/// Publishing the image of a key under a name.
///
/// A hard link where one can be made, a copy otherwise. Either is prepared
/// under another name and renamed into place, so the destination never holds
/// half an image. A destination that is a link to the image already is left
/// alone: renaming one link over another does nothing and would leave the
/// prepared name behind, which would count as a use of the image for ever.
#[derive(Debug)]
pub struct Install {
    store: Store,
    key: String,
    dest: Vec<u8>,
    phase: InstallPhase,
    failure: Option<IoError>,
}

/// An [`Install`] as a mathematical value.
#[verifier::ext_equal]
pub struct InstallView {
    pub root: Seq<u8>,
    pub key: Seq<char>,
    pub dest: Seq<u8>,
    pub phase: InstallPhase,
    pub failure: Option<IoErrorView>,
}

impl View for Install {
    type V = InstallView;

    closed spec fn view(&self) -> InstallView {
        InstallView {
            root: self.store@,
            key: self.key@,
            dest: self.dest@,
            phase: self.phase,
            failure: error::failure_view(self.failure),
        }
    }
}

impl InstallView {
    /// Before the first step.
    pub open spec fn start(root: Seq<u8>, key: Seq<char>, dest: Seq<u8>) -> InstallView {
        InstallView { root, key, dest, phase: InstallPhase::Looking, failure: None }
    }

    pub open spec fn blob(self) -> Seq<u8> {
        store::blob_path(self.root, self.key)
    }

    pub open spec fn part(self) -> Seq<u8> {
        part_path(self.dest)
    }

    pub open spec fn to(self, phase: InstallPhase) -> InstallView {
        InstallView { phase, ..self }
    }

    pub open spec fn fail(self, e: IoErrorView) -> InstallView {
        InstallView { phase: InstallPhase::Failed, failure: Some(e), ..self }
    }

    /// What came of it: how the image was published, or why it was not.
    pub open spec fn outcome(self) -> Option<Result<InstallKind, ErrorView>> {
        match (self.phase, self.failure) {
            (InstallPhase::Finished { kind }, _) => Some(Ok(kind)),
            (InstallPhase::Missing, _) => Some(Err(no_image(self.key))),
            (InstallPhase::Failed, Some(e)) => Some(Err(ErrorView::Io(e))),
            _ => None,
        }
    }
}

impl Procedure for Install {
    type Request = Request;

    type Reply = Reply;

    open spec fn wants(state: InstallView) -> Option<RequestView> {
        match state.phase {
            InstallPhase::Looking => Some(RequestView::Exists(state.blob())),
            InstallPhase::Preparing => Some(RequestView::MakeParent(state.dest)),
            InstallPhase::LookingAtDest => Some(RequestView::Stat(state.dest)),
            InstallPhase::LookingAtBlob { .. } => Some(RequestView::Stat(state.blob())),
            InstallPhase::Clearing => Some(RequestView::Remove(state.part())),
            InstallPhase::Linking => Some(
                RequestView::HardLink { from: state.blob(), to: state.part() },
            ),
            InstallPhase::Copying => Some(
                RequestView::SparseCopy { from: state.blob(), to: state.part() },
            ),
            InstallPhase::Renaming { .. } => Some(
                RequestView::Rename { from: state.part(), to: state.dest },
            ),
            InstallPhase::Tidying { .. } => Some(RequestView::Remove(state.part())),
            InstallPhase::Finished { .. } | InstallPhase::Missing | InstallPhase::Failed => None,
        }
    }

    open spec fn after(state: InstallView, reply: ReplyView) -> InstallView {
        match (state.phase, reply) {
            (InstallPhase::Looking, ReplyView::Flag(true)) => state.to(InstallPhase::Preparing),
            (InstallPhase::Looking, ReplyView::Flag(false)) => state.to(InstallPhase::Missing),
            (InstallPhase::Preparing, ReplyView::Done) => state.to(InstallPhase::LookingAtDest),
            (InstallPhase::Preparing, ReplyView::Failed(e)) => state.fail(e),
            (InstallPhase::LookingAtDest, ReplyView::Stat(dest)) => state.to(
                InstallPhase::LookingAtBlob { dest },
            ),
            (InstallPhase::LookingAtDest, ReplyView::Failed(_)) => state.to(InstallPhase::Clearing),
            (InstallPhase::LookingAtBlob { dest }, ReplyView::Stat(blob)) => if dest.same_file(
                blob,
            ) {
                state.to(InstallPhase::Finished { kind: InstallKind::Link })
            } else {
                state.to(InstallPhase::Clearing)
            },
            (InstallPhase::LookingAtBlob { .. }, ReplyView::Failed(_)) => state.to(
                InstallPhase::Clearing,
            ),
            (InstallPhase::Clearing, ReplyView::Done) => state.to(InstallPhase::Linking),
            (InstallPhase::Clearing, ReplyView::Failed(_)) => state.to(InstallPhase::Linking),
            (InstallPhase::Linking, ReplyView::Done) => state.to(
                InstallPhase::Renaming { kind: InstallKind::Link },
            ),
            (InstallPhase::Linking, ReplyView::Failed(e)) => if e.is_cross_device() || e.kind
                == IoKind::PermissionDenied {
                state.to(InstallPhase::Copying)
            } else {
                state.fail(e)
            },
            (InstallPhase::Copying, ReplyView::Count(_)) => state.to(
                InstallPhase::Renaming { kind: InstallKind::Copy },
            ),
            (InstallPhase::Copying, ReplyView::Failed(e)) => state.fail(e),
            (InstallPhase::Renaming { kind }, ReplyView::Done) => state.to(
                InstallPhase::Tidying { kind },
            ),
            (InstallPhase::Renaming { .. }, ReplyView::Failed(e)) => state.fail(e),
            (InstallPhase::Tidying { kind }, ReplyView::Done) => state.to(
                InstallPhase::Finished { kind },
            ),
            (InstallPhase::Tidying { kind }, ReplyView::Failed(_)) => state.to(
                InstallPhase::Finished { kind },
            ),
            _ => state,
        }
    }

    fn request(&self) -> (request: Option<Request>) {
        match self.phase {
            InstallPhase::Looking => Some(Request::Exists(self.store.blob(self.key.as_str()))),
            InstallPhase::Preparing => Some(Request::MakeParent(path::copy_of(&self.dest))),
            InstallPhase::LookingAtDest => Some(Request::Stat(path::copy_of(&self.dest))),
            InstallPhase::LookingAtBlob { .. } => Some(
                Request::Stat(self.store.blob(self.key.as_str())),
            ),
            InstallPhase::Clearing => Some(Request::Remove(self.part())),
            InstallPhase::Linking => Some(
                Request::HardLink { from: self.store.blob(self.key.as_str()), to: self.part() },
            ),
            InstallPhase::Copying => Some(
                Request::SparseCopy { from: self.store.blob(self.key.as_str()), to: self.part() },
            ),
            InstallPhase::Renaming { .. } => Some(
                Request::Rename { from: self.part(), to: path::copy_of(&self.dest) },
            ),
            InstallPhase::Tidying { .. } => Some(Request::Remove(self.part())),
            InstallPhase::Finished { .. } | InstallPhase::Missing | InstallPhase::Failed => None,
        }
    }

    fn resume(self, reply: Reply) -> (next: Install) {
        let mut next = self;
        match (next.phase, reply) {
            (InstallPhase::Looking, Reply::Flag(there)) => if there {
                next.phase = InstallPhase::Preparing;
            } else {
                next.phase = InstallPhase::Missing;
            },
            (InstallPhase::Preparing, Reply::Done) => {
                next.phase = InstallPhase::LookingAtDest;
            },
            (InstallPhase::LookingAtDest, Reply::Stat(dest)) => {
                next.phase = InstallPhase::LookingAtBlob { dest };
            },
            (InstallPhase::LookingAtBlob { dest }, Reply::Stat(blob)) => if dest.is_same_file(
                blob,
            ) {
                next.phase = InstallPhase::Finished { kind: InstallKind::Link };
            } else {
                next.phase = InstallPhase::Clearing;
            },
            (
                InstallPhase::LookingAtDest | InstallPhase::LookingAtBlob { .. },
                Reply::Failed(_),
            ) => {
                next.phase = InstallPhase::Clearing;
            },
            (InstallPhase::Clearing, Reply::Done) => {
                next.phase = InstallPhase::Linking;
            },
            (InstallPhase::Clearing, Reply::Failed(_)) => {
                next.phase = InstallPhase::Linking;
            },
            (InstallPhase::Linking, Reply::Done) => {
                next.phase = InstallPhase::Renaming { kind: InstallKind::Link };
            },
            (InstallPhase::Linking, Reply::Failed(e)) => if e.is_cross_device() || e.kind
                == IoKind::PermissionDenied {
                next.phase = InstallPhase::Copying;
            } else {
                next.failure = Some(e);
                next.phase = InstallPhase::Failed;
            },
            (InstallPhase::Copying, Reply::Count(_)) => {
                next.phase = InstallPhase::Renaming { kind: InstallKind::Copy };
            },
            (InstallPhase::Renaming { kind }, Reply::Done) => {
                next.phase = InstallPhase::Tidying { kind };
            },
            (InstallPhase::Tidying { kind }, Reply::Done) => {
                next.phase = InstallPhase::Finished { kind };
            },
            (InstallPhase::Tidying { kind }, Reply::Failed(_)) => {
                next.phase = InstallPhase::Finished { kind };
            },
            (
                InstallPhase::Preparing | InstallPhase::Copying | InstallPhase::Renaming { .. },
                Reply::Failed(e),
            ) => {
                next.failure = Some(e);
                next.phase = InstallPhase::Failed;
            },
            _ => {},
        }
        next
    }
}

impl Install {
    fn part(&self) -> (p: Vec<u8>)
        ensures
            p@ == self@.part(),
    {
        path::concat(&self.dest, ".part".as_bytes())
    }

    /// What came of it: how the image was published, or why it was not;
    /// nothing while it is under way.
    pub fn outcome(self) -> (r: Option<Result<InstallKind, Error>>)
        ensures
            match r {
                Some(Ok(k)) => self@.outcome() == Some(Ok::<InstallKind, ErrorView>(k)),
                Some(Err(e)) => self@.outcome() == Some(Err::<InstallKind, ErrorView>(e@)),
                None => self@.outcome() is None,
            },
    {
        match self.phase {
            InstallPhase::Finished { kind } => Some(Ok(kind)),
            InstallPhase::Missing => Some(Err(no_image_error(self.key.as_str()))),
            InstallPhase::Failed => match self.failure {
                Some(e) => Some(Err(Error::Io(e))),
                None => None,
            },
            _ => None,
        }
    }
}

impl Store {
    /// Publishes the stored image for `key` as `dest`.
    pub fn install(&self, key: &str, dest: &[u8]) -> (p: Install)
        ensures
            p@ == InstallView::start(self@, key@, dest@),
    {
        Install {
            store: self.duplicate(),
            key: key.to_owned(),
            dest: path::copy_of(dest),
            phase: InstallPhase::Looking,
            failure: None,
        }
    }
}

} // verus!
