//! Private, writable copies of a stored image.

use super::install::no_image_error;
use super::{Materialization, Store};
use crate::error::{self, Error, ErrorView, IoError, IoErrorView, IoKind};
use crate::host::{Reply, ReplyView, Request, RequestView};
use crate::path;
use crate::procedure::Procedure;
use crate::store;
use vstd::prelude::*;

verus! {

/// How far a [`Materialize`] has come.
#[derive(Debug, Clone, Copy, PartialEq, Eq, Structural)]
pub enum MaterializePhase {
    Looking,
    Preparing,
    /// Removing what the destination held.
    Clearing,
    /// Trying to share blocks.
    Cloning,
    Copying,
    Finished { made: Materialization },
    Missing,
    Failed,
}

/// Making an independent, writable copy of the image of a key.
///
/// Unlike [`super::install::Install`] it never makes a link: that would hand
/// out another name of the shared image. It shares blocks where the
/// filesystem can, and copies what is not a hole otherwise.
#[derive(Debug)]
pub struct Materialize {
    store: Store,
    key: String,
    dest: Vec<u8>,
    phase: MaterializePhase,
    failure: Option<IoError>,
}

/// A [`Materialize`] as a mathematical value.
#[verifier::ext_equal]
pub struct MaterializeView {
    pub root: Seq<u8>,
    pub key: Seq<char>,
    pub dest: Seq<u8>,
    pub phase: MaterializePhase,
    pub failure: Option<IoErrorView>,
}

impl View for Materialize {
    type V = MaterializeView;

    closed spec fn view(&self) -> MaterializeView {
        MaterializeView {
            root: self.store@,
            key: self.key@,
            dest: self.dest@,
            phase: self.phase,
            failure: error::failure_view(self.failure),
        }
    }
}

impl MaterializeView {
    /// Before the first step.
    pub open spec fn start(root: Seq<u8>, key: Seq<char>, dest: Seq<u8>) -> MaterializeView {
        MaterializeView { root, key, dest, phase: MaterializePhase::Looking, failure: None }
    }

    pub open spec fn blob(self) -> Seq<u8> {
        store::blob_path(self.root, self.key)
    }

    pub open spec fn to(self, phase: MaterializePhase) -> MaterializeView {
        MaterializeView { phase, ..self }
    }

    pub open spec fn fail(self, e: IoErrorView) -> MaterializeView {
        MaterializeView { phase: MaterializePhase::Failed, failure: Some(e), ..self }
    }

    /// What came of it: how the copy was made, or why there is none.
    pub open spec fn outcome(self) -> Option<Result<Materialization, ErrorView>> {
        match (self.phase, self.failure) {
            (MaterializePhase::Finished { made }, _) => Some(Ok(made)),
            (MaterializePhase::Missing, _) => Some(Err(store::install::no_image(self.key))),
            (MaterializePhase::Failed, Some(e)) => Some(Err(ErrorView::Io(e))),
            _ => None,
        }
    }
}

impl Procedure for Materialize {
    type Request = Request;

    type Reply = Reply;

    open spec fn wants(state: MaterializeView) -> Option<RequestView> {
        match state.phase {
            MaterializePhase::Looking => Some(RequestView::Exists(state.blob())),
            MaterializePhase::Preparing => Some(RequestView::MakeParent(state.dest)),
            MaterializePhase::Clearing => Some(RequestView::Remove(state.dest)),
            MaterializePhase::Cloning => Some(
                RequestView::Clone { from: state.blob(), to: state.dest },
            ),
            MaterializePhase::Copying => Some(
                RequestView::SparseCopy { from: state.blob(), to: state.dest },
            ),
            MaterializePhase::Finished { .. }
            | MaterializePhase::Missing
            | MaterializePhase::Failed => None,
        }
    }

    open spec fn after(state: MaterializeView, reply: ReplyView) -> MaterializeView {
        match (state.phase, reply) {
            (MaterializePhase::Looking, ReplyView::Flag(true)) => state.to(
                MaterializePhase::Preparing,
            ),
            (MaterializePhase::Looking, ReplyView::Flag(false)) => state.to(
                MaterializePhase::Missing,
            ),
            (MaterializePhase::Preparing, ReplyView::Done) => state.to(MaterializePhase::Clearing),
            (MaterializePhase::Preparing, ReplyView::Failed(e)) => state.fail(e),
            (MaterializePhase::Clearing, ReplyView::Done) => state.to(MaterializePhase::Cloning),
            (MaterializePhase::Clearing, ReplyView::Failed(_)) => state.to(
                MaterializePhase::Cloning,
            ),
            (MaterializePhase::Cloning, ReplyView::Cloned(Some(n))) => state.to(
                MaterializePhase::Finished { made: Materialization::Cloned { bytes_written: n } },
            ),
            (MaterializePhase::Cloning, ReplyView::Cloned(None)) => state.to(
                MaterializePhase::Copying,
            ),
            (MaterializePhase::Cloning, ReplyView::Failed(e)) => state.fail(e),
            (MaterializePhase::Copying, ReplyView::Count(n)) => state.to(
                MaterializePhase::Finished {
                    made: Materialization::SparseCopy { bytes_written: n },
                },
            ),
            (MaterializePhase::Copying, ReplyView::Failed(e)) => state.fail(e),
            _ => state,
        }
    }

    fn request(&self) -> (request: Option<Request>) {
        match self.phase {
            MaterializePhase::Looking => Some(Request::Exists(self.store.blob(self.key.as_str()))),
            MaterializePhase::Preparing => Some(Request::MakeParent(path::copy_of(&self.dest))),
            MaterializePhase::Clearing => Some(Request::Remove(path::copy_of(&self.dest))),
            MaterializePhase::Cloning => Some(
                Request::Clone {
                    from: self.store.blob(self.key.as_str()),
                    to: path::copy_of(&self.dest),
                },
            ),
            MaterializePhase::Copying => Some(
                Request::SparseCopy {
                    from: self.store.blob(self.key.as_str()),
                    to: path::copy_of(&self.dest),
                },
            ),
            MaterializePhase::Finished { .. }
            | MaterializePhase::Missing
            | MaterializePhase::Failed => None,
        }
    }

    fn resume(self, reply: Reply) -> (next: Materialize) {
        let mut next = self;
        match (next.phase, reply) {
            (MaterializePhase::Looking, Reply::Flag(there)) => if there {
                next.phase = MaterializePhase::Preparing;
            } else {
                next.phase = MaterializePhase::Missing;
            },
            (MaterializePhase::Preparing, Reply::Done) => {
                next.phase = MaterializePhase::Clearing;
            },
            (MaterializePhase::Clearing, Reply::Done) => {
                next.phase = MaterializePhase::Cloning;
            },
            (MaterializePhase::Clearing, Reply::Failed(_)) => {
                next.phase = MaterializePhase::Cloning;
            },
            (MaterializePhase::Cloning, Reply::Cloned(Some(n))) => {
                next.phase = MaterializePhase::Finished {
                    made: Materialization::Cloned { bytes_written: n },
                };
            },
            (MaterializePhase::Cloning, Reply::Cloned(None)) => {
                next.phase = MaterializePhase::Copying;
            },
            (MaterializePhase::Copying, Reply::Count(n)) => {
                next.phase = MaterializePhase::Finished {
                    made: Materialization::SparseCopy { bytes_written: n },
                };
            },
            (
                MaterializePhase::Preparing
                | MaterializePhase::Cloning
                | MaterializePhase::Copying,
                Reply::Failed(e),
            ) => {
                next.failure = Some(e);
                next.phase = MaterializePhase::Failed;
            },
            _ => {},
        }
        next
    }
}

impl Materialize {
    /// What came of it: how the copy was made, or why there is none; nothing
    /// while it is under way.
    pub fn outcome(self) -> (r: Option<Result<Materialization, Error>>)
        ensures
            match r {
                Some(Ok(m)) => self@.outcome() == Some(Ok::<Materialization, ErrorView>(m)),
                Some(Err(e)) => self@.outcome() == Some(Err::<Materialization, ErrorView>(e@)),
                None => self@.outcome() is None,
            },
    {
        match self.phase {
            MaterializePhase::Finished { made } => Some(Ok(made)),
            MaterializePhase::Missing => Some(Err(no_image_error(self.key.as_str()))),
            MaterializePhase::Failed => match self.failure {
                Some(e) => Some(Err(Error::Io(e))),
                None => None,
            },
            _ => None,
        }
    }
}

/// Giving a private copy back. Doing so twice is no failure.
#[derive(Debug)]
pub struct Release {
    dest: Vec<u8>,
    done: Option<Result<(), IoError>>,
}

/// A [`Release`] as a mathematical value.
#[verifier::ext_equal]
pub struct ReleaseView {
    pub dest: Seq<u8>,
    pub done: Option<Result<(), IoErrorView>>,
}

impl View for Release {
    type V = ReleaseView;

    closed spec fn view(&self) -> ReleaseView {
        ReleaseView {
            dest: self.dest@,
            done: match self.done {
                Some(Ok(_)) => Some(Ok(())),
                Some(Err(e)) => Some(Err(e@)),
                None => None,
            },
        }
    }
}

impl Procedure for Release {
    type Request = Request;

    type Reply = Reply;

    open spec fn wants(state: ReleaseView) -> Option<RequestView> {
        match state.done {
            None => Some(RequestView::Remove(state.dest)),
            Some(_) => None,
        }
    }

    open spec fn after(state: ReleaseView, reply: ReplyView) -> ReleaseView {
        match (state.done, reply) {
            (None, ReplyView::Done) => ReleaseView { done: Some(Ok(())), ..state },
            (None, ReplyView::Failed(e)) => if e.kind == IoKind::NotFound {
                ReleaseView { done: Some(Ok(())), ..state }
            } else {
                ReleaseView { done: Some(Err(e)), ..state }
            },
            _ => state,
        }
    }

    fn request(&self) -> (request: Option<Request>) {
        match self.done {
            None => Some(Request::Remove(path::copy_of(&self.dest))),
            Some(_) => None,
        }
    }

    fn resume(self, reply: Reply) -> (next: Release) {
        let mut next = self;
        if next.done.is_none() {
            match reply {
                Reply::Done => {
                    next.done = Some(Ok(()));
                },
                Reply::Failed(e) => if e.kind == IoKind::NotFound {
                    next.done = Some(Ok(()));
                } else {
                    next.done = Some(Err(e));
                },
                _ => {},
            }
        }
        next
    }
}

impl Release {
    /// Whether the copy is gone; nothing while it is under way.
    pub fn outcome(self) -> (r: Option<Result<(), Error>>)
        ensures
            match r {
                Some(Ok(_)) => self@.done == Some(Ok::<(), IoErrorView>(())),
                Some(Err(e)) => {
                    &&& e@ is Io
                    &&& self@.done == Some(Err::<(), IoErrorView>(e@->Io_0))
                },
                None => self@.done is None,
            },
    {
        match self.done {
            Some(Ok(_)) => Some(Ok(())),
            Some(Err(e)) => Some(Err(Error::Io(e))),
            None => None,
        }
    }
}

impl Store {
    /// Makes a private, writable copy of the stored image for `key` at `dest`.
    pub fn materialize(&self, key: &str, dest: &[u8]) -> (p: Materialize)
        ensures
            p@ == MaterializeView::start(self@, key@, dest@),
    {
        Materialize {
            store: self.duplicate(),
            key: key.to_owned(),
            dest: path::copy_of(dest),
            phase: MaterializePhase::Looking,
            failure: None,
        }
    }

    /// Gives back a copy that [`Store::materialize`] made.
    pub fn release(&self, dest: &[u8]) -> (p: Release)
        ensures
            p@ == (ReleaseView { dest: dest@, done: None }),
    {
        Release { dest: path::copy_of(dest), done: None }
    }
}

} // verus!
