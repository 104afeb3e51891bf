//! A model of the names and files that the requests of [`crate::host`] touch.
//!
//! The model says what each reply means for the files: what an operation that
//! succeeded has changed, and what one that failed may have left behind. The
//! laws of the store are stated over it. Directories are not part of it, and
//! two names are the same only if they are the same bytes.

use crate::error::IoKind;
use crate::host::{FileStat, Reply, ReplyView, Request, RequestView};
use crate::procedure::World;
use crate::store::EntryView;
use vstd::prelude::*;

verus! {

/// A file, whatever its names are.
pub struct FileId {
    pub device: u64,
    pub inode: u64,
}

/// What a file holds: plain bytes, or the record of a stored image.
pub enum Content {
    Bytes(Seq<u8>),
    Record(EntryView),
}

/// A file's contents and permission bits.
pub struct FileState {
    pub content: Content,
    pub mode: u32,
}

/// The names and the files behind them.
#[verifier::ext_equal]
pub struct Disk {
    pub names: Map<Seq<u8>, FileId>,
    pub files: Map<FileId, FileState>,
}

/// The permission bits of a private copy.
pub const PRIVATE_MODE: u32 = 0o644;

/// The permission bits of a stored image.
pub const SHARED_MODE: u32 = 0o444;

impl Disk {
    /// Every name leads to a file.
    pub open spec fn wf(self) -> bool {
        forall|p: Seq<u8>| #[trigger]
            self.names.contains_key(p) ==> self.files.contains_key(self.names[p])
    }

    /// Whether there is a file of this name.
    pub open spec fn holds(self, p: Seq<u8>) -> bool {
        self.names.contains_key(p)
    }

    /// The file of this name.
    pub open spec fn at(self, p: Seq<u8>) -> FileState {
        self.files[self.names[p]]
    }

    /// Whether every name is one of `other`, with the same file.
    pub open spec fn within(self, other: Disk) -> bool {
        forall|p: Seq<u8>| #[trigger]
            self.holds(p) ==> other.holds(p) && self.names[p] == other.names[p]
    }

    /// Whether the file of this name has another name as well.
    pub open spec fn shared(self, p: Seq<u8>) -> bool {
        exists|q: Seq<u8>| #[trigger] self.is_alias(p, q)
    }

    /// Whether `q` is another name of the file of `p`.
    pub open spec fn is_alias(self, p: Seq<u8>, q: Seq<u8>) -> bool {
        q != p && self.holds(p) && self.holds(q) && self.names[q] == self.names[p]
    }

    /// Without a name.
    pub open spec fn without(self, p: Seq<u8>) -> Disk {
        Disk { names: self.names.remove(p), ..self }
    }

    /// With one more name of the file of `from`.
    pub open spec fn linked(self, from: Seq<u8>, to: Seq<u8>) -> Disk {
        Disk { names: self.names.insert(to, self.names[from]), ..self }
    }

    /// After a successful rename. Between two names of one file it does
    /// nothing.
    pub open spec fn renamed(self, from: Seq<u8>, to: Seq<u8>) -> Disk {
        if self.holds(to) && self.names[to] == self.names[from] {
            self
        } else {
            Disk { names: self.names.remove(from).insert(to, self.names[from]), ..self }
        }
    }

    /// With another state of the file of `p`.
    pub open spec fn changed(self, p: Seq<u8>, state: FileState) -> Disk {
        Disk { files: self.files.insert(self.names[p], state), ..self }
    }

    /// With a new file under a name that was free.
    pub open spec fn created(self, p: Seq<u8>, state: FileState, after: Disk) -> bool {
        &&& !self.holds(p)
        &&& exists|id: FileId| #[trigger] self.creates(p, id, state, after)
    }

    pub open spec fn creates(self, p: Seq<u8>, id: FileId, state: FileState, after: Disk) -> bool {
        &&& !self.files.contains_key(id)
        &&& after.names == self.names.insert(p, id)
        &&& after.files == self.files.insert(id, state)
    }

    /// After an operation that may have left anything under `p` in a file of
    /// its own, and touched nothing else.
    pub open spec fn disturbed(self, p: Seq<u8>, after: Disk) -> bool {
        ||| after == self
        ||| exists|state: FileState| #[trigger] self.created(p, state, after)
    }

    /// What a look at a file may report.
    pub open spec fn reports(self, p: Seq<u8>, stat: FileStat) -> bool {
        &&& self.holds(p)
        &&& self.names[p] == FileId { device: stat.device, inode: stat.inode }
        &&& self.at(p).content matches Content::Bytes(b) ==> stat.len == b.len()
        &&& stat.links > 1 <==> self.shared(p)
    }
}

/// Whether `zfs` with these arguments leaves every file as it is: it creates a
/// dataset, takes a snapshot, sets a property or lists what there is.
pub open spec fn keeps_files(args: Seq<Seq<char>>) -> bool {
    args.len() > 0 && (args[0] == "create"@ || args[0] == "snapshot"@ || args[0] == "set"@
        || args[0] == "list"@)
}

impl World for Disk {
    type Request = Request;

    type Reply = Reply;

    open spec fn allows(self, request: RequestView, reply: ReplyView, after: Disk) -> bool {
        match (request, reply) {
            (RequestView::Exists(p), ReplyView::Flag(b)) => after == self && b == self.holds(p),
            (RequestView::Rename { from, to }, ReplyView::Done) => {
                &&& self.holds(from)
                &&& after == self.renamed(from, to)
            },
            (RequestView::HardLink { from, to }, ReplyView::Done) => {
                &&& self.holds(from)
                &&& !self.holds(to)
                &&& after == self.linked(from, to)
            },
            (RequestView::Remove(p), ReplyView::Done) => {
                &&& self.holds(p)
                &&& after == self.without(p)
            },
            (RequestView::Remove(p), ReplyView::Failed(e)) => {
                &&& after == self
                &&& e.kind == IoKind::NotFound ==> !self.holds(p)
            },
            (RequestView::SetMode { path, mode }, ReplyView::Done) => {
                &&& self.holds(path)
                &&& after == self.changed(path, FileState { mode, ..self.at(path) })
            },
            (RequestView::Stat(p), ReplyView::Stat(s)) => after == self && self.reports(p, s),
            (RequestView::SparseCopy { from, to }, ReplyView::Count(_)) => {
                &&& self.holds(from)
                &&& self.created(
                    to,
                    FileState { content: self.at(from).content, mode: PRIVATE_MODE },
                    after,
                )
            },
            (RequestView::Clone { from, to }, ReplyView::Cloned(Some(_))) => {
                &&& self.holds(from)
                &&& self.created(
                    to,
                    FileState { content: self.at(from).content, mode: PRIVATE_MODE },
                    after,
                )
            },
            (RequestView::SparseCopy { from, to }, ReplyView::Failed(_)) => self.disturbed(to, after),
            (RequestView::Clone { from, to }, ReplyView::Failed(_)) => self.disturbed(to, after),
            (RequestView::ReadEntry(p), ReplyView::Entry(e)) => {
                &&& after == self
                &&& self.holds(p)
                &&& self.at(p).content == Content::Record(e)
            },
            (RequestView::WriteEntry { path, entry }, ReplyView::Done) => {
                ||| self.holds(path) && after == self.changed(
                    path,
                    FileState { content: Content::Record(entry), ..self.at(path) },
                )
                ||| exists|mode: u32| #[trigger]
                    self.created(path, FileState { content: Content::Record(entry), mode }, after)
            },
            (RequestView::WriteEntry { path, entry }, ReplyView::Failed(_)) => {
                ||| self.disturbed(path, after)
                ||| self.holds(path) && exists|state: FileState|
                    after == #[trigger] self.changed(path, state)
            },
            // An answer is a vector, so its length is bounded.
            (RequestView::ListEntries(_), ReplyView::Entries(found)) => {
                &&& after == self
                &&& found.len() <= usize::MAX
            },
            // A copy onto another name of the source may leave anything.
            (RequestView::PlainCopy { from, to }, ReplyView::Count(_)) => {
                &&& self.holds(from)
                &&& {
                    ||| exists|mode: u32| #[trigger]
                        self.created(
                            to,
                            FileState { content: self.at(from).content, mode },
                            after,
                        )
                    ||| self.holds(to) && exists|state: FileState|
                        after == #[trigger] self.changed(to, state) && (self.names[to]
                            != self.names[from] ==> state.content == self.at(from).content)
                }
            },
            (RequestView::PlainCopy { from, to }, ReplyView::Failed(_)) => {
                ||| self.disturbed(to, after)
                ||| self.holds(to) && exists|state: FileState|
                    after == #[trigger] self.changed(to, state)
            },
            // A dataset that is created holds nothing yet and hides nothing.
            (RequestView::Zfs(args), _) => after == self && keeps_files(args),
            // No operation on images asks for these.
            (RequestView::WriteFile { .. }, _) => false,
            (RequestView::Patch { .. }, _) => false,
            (RequestView::Tool(_), _) => false,
            // Everything else leaves the files alone.
            _ => after == self,
        }
    }
}

/// Files that can be looked at: a look at a name that is there succeeds.
pub struct Visible(pub Disk);

impl World for Visible {
    type Request = Request;

    type Reply = Reply;

    open spec fn allows(self, request: RequestView, reply: ReplyView, after: Visible) -> bool {
        &&& self.0.allows(request, reply, after.0)
        &&& (request, reply) matches (RequestView::Stat(p), ReplyView::Failed(_))
            ==> !self.0.holds(p)
    }
}

} // verus!
