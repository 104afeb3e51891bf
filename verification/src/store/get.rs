//! Finding a stored image, and renewing its date of use.

use super::{Entry, EntryView, Store};
use crate::error::{Error, IoError, IoErrorView};
use crate::host::{Reply, ReplyView, Request, RequestView};
use crate::path;
use crate::procedure::Procedure;
use crate::store;
use vstd::prelude::*;

verus! {

/// How far a [`Get`] has come.
#[derive(Debug, Clone, Copy, PartialEq, Eq, Structural)]
pub enum GetPhase {
    /// Is there an image at all?
    Looking,
    /// Reading its record.
    Reading,
    Dating,
    /// Writing the renewed record.
    Recording { now: u64 },
    Publishing,
    Found,
    Absent,
}

/// Looking up the image of a key. A hit renews the date of last use; that this
/// fails, or that the record is not readable, does not make it a miss.
#[derive(Debug)]
pub struct Get {
    store: Store,
    key: String,
    phase: GetPhase,
    /// The record as it was read.
    record: Option<Entry>,
}

/// A [`Get`] as a mathematical value.
#[verifier::ext_equal]
pub struct GetView {
    pub root: Seq<u8>,
    pub key: Seq<char>,
    pub phase: GetPhase,
    pub record: Option<EntryView>,
}

impl View for Get {
    type V = GetView;

    closed spec fn view(&self) -> GetView {
        GetView {
            root: self.store@,
            key: self.key@,
            phase: self.phase,
            record: match self.record {
                Some(e) => Some(e@),
                None => None,
            },
        }
    }
}

impl GetView {
    /// Before the first step.
    pub open spec fn start(root: Seq<u8>, key: Seq<char>) -> GetView {
        GetView { root, key, phase: GetPhase::Looking, record: None }
    }

    pub open spec fn blob(self) -> Seq<u8> {
        store::blob_path(self.root, self.key)
    }

    pub open spec fn to(self, phase: GetPhase) -> GetView {
        GetView { phase, ..self }
    }

    /// What came of it: the stored image, or nothing where there is none.
    pub open spec fn outcome(self) -> Option<Option<Seq<u8>>> {
        match self.phase {
            GetPhase::Found => Some(Some(self.blob())),
            GetPhase::Absent => Some(None),
            _ => None,
        }
    }
}

impl Procedure for Get {
    type Request = Request;

    type Reply = Reply;

    open spec fn wants(state: GetView) -> Option<RequestView> {
        match (state.phase, state.record) {
            (GetPhase::Looking, _) => Some(RequestView::Exists(state.blob())),
            (GetPhase::Reading, _) => Some(
                RequestView::ReadEntry(store::meta_path(state.root, state.key)),
            ),
            (GetPhase::Dating, _) => Some(RequestView::Now),
            (GetPhase::Recording { now }, Some(e)) => Some(
                RequestView::WriteEntry {
                    path: store::meta_staging_path(state.root, e.key),
                    entry: EntryView { last_used: now, ..e },
                },
            ),
            (GetPhase::Publishing, Some(e)) => Some(
                RequestView::Rename {
                    from: store::meta_staging_path(state.root, e.key),
                    to: store::meta_path(state.root, e.key),
                },
            ),
            _ => None,
        }
    }

    open spec fn after(state: GetView, reply: ReplyView) -> GetView {
        match (state.phase, reply) {
            (GetPhase::Looking, ReplyView::Flag(true)) => state.to(GetPhase::Reading),
            (GetPhase::Looking, ReplyView::Flag(false)) => state.to(GetPhase::Absent),
            (GetPhase::Reading, ReplyView::Entry(e)) => GetView {
                record: Some(e),
                phase: GetPhase::Dating,
                ..state
            },
            (GetPhase::Reading, ReplyView::Failed(_)) => state.to(GetPhase::Found),
            (GetPhase::Dating, ReplyView::Time(now)) => state.to(GetPhase::Recording { now }),
            (GetPhase::Recording { .. }, ReplyView::Done) => state.to(GetPhase::Publishing),
            (GetPhase::Recording { .. }, ReplyView::Failed(_)) => state.to(GetPhase::Found),
            (GetPhase::Publishing, ReplyView::Done) => state.to(GetPhase::Found),
            (GetPhase::Publishing, ReplyView::Failed(_)) => state.to(GetPhase::Found),
            _ => state,
        }
    }

    fn request(&self) -> (request: Option<Request>) {
        match (self.phase, &self.record) {
            (GetPhase::Looking, _) => Some(Request::Exists(self.store.blob(self.key.as_str()))),
            (GetPhase::Reading, _) => Some(Request::ReadEntry(self.store.meta(self.key.as_str()))),
            (GetPhase::Dating, _) => Some(Request::Now),
            (GetPhase::Recording { now }, Some(e)) => {
                let mut renewed = e.duplicate();
                renewed.last_used = now;
                Some(
                    Request::WriteEntry {
                        path: self.store.meta_staging(e.key.as_str()),
                        entry: renewed,
                    },
                )
            },
            (GetPhase::Publishing, Some(e)) => Some(
                Request::Rename {
                    from: self.store.meta_staging(e.key.as_str()),
                    to: self.store.meta(e.key.as_str()),
                },
            ),
            _ => None,
        }
    }

    fn resume(self, reply: Reply) -> (next: Get) {
        let mut next = self;
        match (next.phase, reply) {
            (GetPhase::Looking, Reply::Flag(there)) => if there {
                next.phase = GetPhase::Reading;
            } else {
                next.phase = GetPhase::Absent;
            },
            (GetPhase::Reading, Reply::Entry(e)) => {
                next.record = Some(e);
                next.phase = GetPhase::Dating;
            },
            (GetPhase::Dating, Reply::Time(now)) => {
                next.phase = GetPhase::Recording { now };
            },
            (GetPhase::Recording { .. }, Reply::Done) => {
                next.phase = GetPhase::Publishing;
            },
            (GetPhase::Publishing, Reply::Done) => {
                next.phase = GetPhase::Found;
            },
            (
                GetPhase::Reading | GetPhase::Recording { .. } | GetPhase::Publishing,
                Reply::Failed(_),
            ) => {
                next.phase = GetPhase::Found;
            },
            _ => {},
        }
        next
    }
}

impl Get {
    /// What came of it: the path of the stored image, or nothing where there
    /// is none; nothing at all while it is under way.
    pub fn outcome(self) -> (r: Option<Option<Vec<u8>>>)
        ensures
            match r {
                Some(Some(p)) => self@.outcome() == Some(Some(p@)),
                Some(None) => self@.outcome() == Some(None::<Seq<u8>>),
                None => self@.outcome() is None,
            },
    {
        match self.phase {
            GetPhase::Found => Some(Some(self.store.blob(self.key.as_str()))),
            GetPhase::Absent => Some(None),
            _ => None,
        }
    }
}

/// Reading the record under a name.
#[derive(Debug)]
pub struct Lookup {
    path: Vec<u8>,
    found: Option<Result<Entry, IoError>>,
}

/// A [`Lookup`] as a mathematical value.
#[verifier::ext_equal]
pub struct LookupView {
    pub path: Seq<u8>,
    pub found: Option<Result<EntryView, IoErrorView>>,
}

impl View for Lookup {
    type V = LookupView;

    closed spec fn view(&self) -> LookupView {
        LookupView {
            path: self.path@,
            found: match self.found {
                Some(Ok(e)) => Some(Ok(e@)),
                Some(Err(e)) => Some(Err(e@)),
                None => None,
            },
        }
    }
}

impl Procedure for Lookup {
    type Request = Request;

    type Reply = Reply;

    open spec fn wants(state: LookupView) -> Option<RequestView> {
        match state.found {
            None => Some(RequestView::ReadEntry(state.path)),
            Some(_) => None,
        }
    }

    open spec fn after(state: LookupView, reply: ReplyView) -> LookupView {
        match (state.found, reply) {
            (None, ReplyView::Entry(e)) => LookupView { found: Some(Ok(e)), ..state },
            (None, ReplyView::Failed(e)) => LookupView { found: Some(Err(e)), ..state },
            _ => state,
        }
    }

    fn request(&self) -> (request: Option<Request>) {
        match self.found {
            None => Some(Request::ReadEntry(path::copy_of(&self.path))),
            Some(_) => None,
        }
    }

    fn resume(self, reply: Reply) -> (next: Lookup) {
        let mut next = self;
        if next.found.is_none() {
            match reply {
                Reply::Entry(e) => {
                    next.found = Some(Ok(e));
                },
                Reply::Failed(e) => {
                    next.found = Some(Err(e));
                },
                _ => {},
            }
        }
        next
    }
}

impl Lookup {
    /// Reads the record under a name.
    pub fn at(path: Vec<u8>) -> (p: Lookup)
        ensures
            p@ == (LookupView { path: path@, found: None }),
    {
        Lookup { path, found: None }
    }

    /// The record, or why it could not be read; nothing while it is under way.
    pub fn outcome(self) -> (r: Option<Result<Entry, Error>>)
        ensures
            match r {
                Some(Ok(e)) => self@.found == Some(Ok::<EntryView, IoErrorView>(e@)),
                Some(Err(e)) => {
                    &&& e@ is Io
                    &&& self@.found == Some(Err::<EntryView, IoErrorView>(e@->Io_0))
                },
                None => self@.found is None,
            },
    {
        match self.found {
            Some(Ok(e)) => Some(Ok(e)),
            Some(Err(e)) => Some(Err(Error::Io(e))),
            None => None,
        }
    }
}

impl Store {
    /// Looks up the stored image for `key`, and renews its date of last use.
    pub fn get(&self, key: &str) -> (p: Get)
        ensures
            p@ == GetView::start(self@, key@),
    {
        Get { store: self.duplicate(), key: key.to_owned(), phase: GetPhase::Looking, record: None }
    }

    /// Reads the record of `key`.
    pub fn entry(&self, key: &str) -> (p: Lookup)
        ensures
            p@ == (LookupView { path: store::meta_path(self@, key@), found: None }),
    {
        Lookup::at(self.meta(key))
    }
}

} // verus!
