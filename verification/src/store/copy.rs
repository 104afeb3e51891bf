//! Copying an image: without its holes, or by sharing its blocks.

use crate::disk;
use crate::error::{self, Error, ErrorView, IoError, IoErrorView, OsCode};
use crate::path;
use crate::procedure::{self, Procedure, Step, World};
use vstd::prelude::*;

verus! {

/// One thing to do with the two files of a copy.
#[derive(Debug)]
pub enum CopyRequest {
    /// Open the source for reading.
    OpenSource(Vec<u8>),
    /// Flush the source, so that its holes are known.
    SyncSource,
    /// Answer: `Number`, the length of the source.
    SourceLength,
    /// Create the destination, which must not exist, with these permissions
    /// whatever the process would give a new file.
    CreateDest { path: Vec<u8>, mode: u32 },
    /// Set the length of the destination.
    SetLength(u64),
    /// Where is the first data of the source at or behind an offset? Answer:
    /// `Number`.
    SeekData(u64),
    /// Where is the first hole behind an offset? Answer: `Number`.
    SeekHole(u64),
    /// Go to an offset in both files.
    Position(u64),
    /// Read up to so many bytes and write them all. Answer: `Number`, the
    /// bytes moved.
    Move(u64),
    /// Flush the destination.
    SyncDest,
    /// Make the destination share the blocks of the source.
    ShareBlocks,
    /// Answer: `Number`, the bytes that the destination occupies.
    DestAllocated,
    RemoveDest(Vec<u8>),
}

/// A [`CopyRequest`] as a mathematical value.
pub enum CopyRequestView {
    OpenSource(Seq<u8>),
    SyncSource,
    SourceLength,
    CreateDest { path: Seq<u8>, mode: u32 },
    SetLength(u64),
    SeekData(u64),
    SeekHole(u64),
    Position(u64),
    Move(u64),
    SyncDest,
    ShareBlocks,
    DestAllocated,
    RemoveDest(Seq<u8>),
}

impl View for CopyRequest {
    type V = CopyRequestView;

    open spec fn view(&self) -> CopyRequestView {
        match self {
            CopyRequest::OpenSource(p) => CopyRequestView::OpenSource(p@),
            CopyRequest::SyncSource => CopyRequestView::SyncSource,
            CopyRequest::SourceLength => CopyRequestView::SourceLength,
            CopyRequest::CreateDest { path, mode } => CopyRequestView::CreateDest {
                path: path@,
                mode: *mode,
            },
            CopyRequest::SetLength(n) => CopyRequestView::SetLength(*n),
            CopyRequest::SeekData(n) => CopyRequestView::SeekData(*n),
            CopyRequest::SeekHole(n) => CopyRequestView::SeekHole(*n),
            CopyRequest::Position(n) => CopyRequestView::Position(*n),
            CopyRequest::Move(n) => CopyRequestView::Move(*n),
            CopyRequest::SyncDest => CopyRequestView::SyncDest,
            CopyRequest::ShareBlocks => CopyRequestView::ShareBlocks,
            CopyRequest::DestAllocated => CopyRequestView::DestAllocated,
            CopyRequest::RemoveDest(p) => CopyRequestView::RemoveDest(p@),
        }
    }
}

/// What came of a [`CopyRequest`].
#[derive(Debug)]
pub enum CopyReply {
    Done,
    Number(u64),
    Failed(IoError),
}

/// A [`CopyReply`] as a mathematical value.
pub enum CopyReplyView {
    Done,
    Number(u64),
    Failed(IoErrorView),
}

impl View for CopyReply {
    type V = CopyReplyView;

    open spec fn view(&self) -> CopyReplyView {
        match self {
            CopyReply::Done => CopyReplyView::Done,
            CopyReply::Number(n) => CopyReplyView::Number(*n),
            CopyReply::Failed(e) => CopyReplyView::Failed(e@),
        }
    }
}

/// The most bytes that are moved at once.
pub const CHUNK: u64 = 0x10_0000;

/// How far a [`SparseCopy`] has come. `written` counts the bytes moved.
#[derive(Debug, Clone, Copy, PartialEq, Eq, Structural)]
pub enum SparseCopyPhase {
    Opening,
    Syncing,
    Measuring,
    Creating { len: u64 },
    /// Giving the destination its full length, so that a hole at the end
    /// survives.
    Sizing { len: u64 },
    FindingData { len: u64, off: u64, written: u64 },
    FindingEnd { len: u64, start: u64, written: u64 },
    Positioning { len: u64, start: u64, end: u64, written: u64 },
    Moving { len: u64, end: u64, remaining: u64, written: u64 },
    Flushing { written: u64 },
    Finished { written: u64 },
    Failed,
}

/// Copying a file extent by extent, so that its holes stay holes.
#[derive(Debug)]
pub struct SparseCopy {
    source: Vec<u8>,
    dest: Vec<u8>,
    phase: SparseCopyPhase,
    failure: Option<IoError>,
}

/// A [`SparseCopy`] as a mathematical value.
#[verifier::ext_equal]
pub struct SparseCopyView {
    pub source: Seq<u8>,
    pub dest: Seq<u8>,
    pub phase: SparseCopyPhase,
    pub failure: Option<IoErrorView>,
}

impl View for SparseCopy {
    type V = SparseCopyView;

    closed spec fn view(&self) -> SparseCopyView {
        SparseCopyView {
            source: self.source@,
            dest: self.dest@,
            phase: self.phase,
            failure: error::failure_view(self.failure),
        }
    }
}

/// On to the next extent from an offset on, or to the end.
pub open spec fn phase_at(len: u64, off: u64, written: u64) -> SparseCopyPhase {
    if off < len {
        SparseCopyPhase::FindingData { len, off, written }
    } else {
        SparseCopyPhase::Flushing { written }
    }
}

/// On to the next chunk of an extent, or behind it.
pub open spec fn phase_in(len: u64, end: u64, remaining: u64, written: u64) -> SparseCopyPhase {
    if remaining > 0 {
        SparseCopyPhase::Moving { len, end, remaining, written }
    } else {
        phase_at(len, end, written)
    }
}

fn next_at(len: u64, off: u64, written: u64) -> (phase: SparseCopyPhase)
    ensures
        phase == phase_at(len, off, written),
{
    if off < len {
        SparseCopyPhase::FindingData { len, off, written }
    } else {
        SparseCopyPhase::Flushing { written }
    }
}

fn next_in(len: u64, end: u64, remaining: u64, written: u64) -> (phase: SparseCopyPhase)
    ensures
        phase == phase_in(len, end, remaining, written),
{
    if remaining > 0 {
        SparseCopyPhase::Moving { len, end, remaining, written }
    } else {
        next_at(len, end, written)
    }
}

impl SparseCopyView {
    /// Before the first step.
    pub open spec fn start(source: Seq<u8>, dest: Seq<u8>) -> SparseCopyView {
        SparseCopyView { source, dest, phase: SparseCopyPhase::Opening, failure: None }
    }

    pub open spec fn to(self, phase: SparseCopyPhase) -> SparseCopyView {
        SparseCopyView { phase, ..self }
    }

    pub open spec fn fail(self, e: IoErrorView) -> SparseCopyView {
        SparseCopyView { phase: SparseCopyPhase::Failed, failure: Some(e), ..self }
    }

    /// What came of it: the bytes written, or why there is no copy.
    pub open spec fn outcome(self) -> Option<Result<u64, ErrorView>> {
        match (self.phase, self.failure) {
            (SparseCopyPhase::Finished { written }, _) => Some(Ok(written)),
            (SparseCopyPhase::Failed, Some(e)) => Some(Err(ErrorView::Io(e))),
            _ => None,
        }
    }
}

impl Procedure for SparseCopy {
    type Request = CopyRequest;

    type Reply = CopyReply;

    open spec fn wants(state: SparseCopyView) -> Option<CopyRequestView> {
        match state.phase {
            SparseCopyPhase::Opening => Some(CopyRequestView::OpenSource(state.source)),
            SparseCopyPhase::Syncing => Some(CopyRequestView::SyncSource),
            SparseCopyPhase::Measuring => Some(CopyRequestView::SourceLength),
            SparseCopyPhase::Creating { .. } => Some(
                CopyRequestView::CreateDest { path: state.dest, mode: disk::PRIVATE_MODE },
            ),
            SparseCopyPhase::Sizing { len } => Some(CopyRequestView::SetLength(len)),
            SparseCopyPhase::FindingData { off, .. } => Some(CopyRequestView::SeekData(off)),
            SparseCopyPhase::FindingEnd { start, .. } => Some(CopyRequestView::SeekHole(start)),
            SparseCopyPhase::Positioning { start, .. } => Some(CopyRequestView::Position(start)),
            SparseCopyPhase::Moving { remaining, .. } => Some(
                CopyRequestView::Move(
                    if remaining < CHUNK {
                        remaining
                    } else {
                        CHUNK
                    },
                ),
            ),
            SparseCopyPhase::Flushing { .. } => Some(CopyRequestView::SyncDest),
            SparseCopyPhase::Finished { .. } | SparseCopyPhase::Failed => None,
        }
    }

    open spec fn after(state: SparseCopyView, reply: CopyReplyView) -> SparseCopyView {
        match (state.phase, reply) {
            (SparseCopyPhase::Opening, CopyReplyView::Done) => state.to(SparseCopyPhase::Syncing),
            (SparseCopyPhase::Opening, CopyReplyView::Failed(e)) => state.fail(e),
            // Not worth failing the copy over.
            (SparseCopyPhase::Syncing, CopyReplyView::Done) => state.to(SparseCopyPhase::Measuring),
            (SparseCopyPhase::Syncing, CopyReplyView::Failed(_)) => state.to(
                SparseCopyPhase::Measuring,
            ),
            (SparseCopyPhase::Measuring, CopyReplyView::Number(len)) => state.to(
                SparseCopyPhase::Creating { len },
            ),
            (SparseCopyPhase::Measuring, CopyReplyView::Failed(e)) => state.fail(e),
            (SparseCopyPhase::Creating { len }, CopyReplyView::Done) => state.to(
                SparseCopyPhase::Sizing { len },
            ),
            (SparseCopyPhase::Creating { .. }, CopyReplyView::Failed(e)) => state.fail(e),
            (SparseCopyPhase::Sizing { len }, CopyReplyView::Done) => state.to(phase_at(len, 0, 0)),
            (SparseCopyPhase::Sizing { .. }, CopyReplyView::Failed(e)) => state.fail(e),
            (
                SparseCopyPhase::FindingData { len, off, written },
                CopyReplyView::Number(start),
            ) => state.to(SparseCopyPhase::FindingEnd { len, start, written }),
            // Only holes are left.
            (
                SparseCopyPhase::FindingData { len, off, written },
                CopyReplyView::Failed(e),
            ) => if e.code == Some(OsCode::NoSuchAddress) {
                state.to(SparseCopyPhase::Flushing { written })
            } else {
                state.fail(e)
            },
            (
                SparseCopyPhase::FindingEnd { len, start, written },
                CopyReplyView::Number(end),
            ) => state.to(SparseCopyPhase::Positioning { len, start, end, written }),
            (SparseCopyPhase::FindingEnd { .. }, CopyReplyView::Failed(e)) => state.fail(e),
            (
                SparseCopyPhase::Positioning { len, start, end, written },
                CopyReplyView::Done,
            ) => state.to(phase_in(len, end, end.wrapping_sub(start), written)),
            (SparseCopyPhase::Positioning { .. }, CopyReplyView::Failed(e)) => state.fail(e),
            (
                SparseCopyPhase::Moving { len, end, remaining, written },
                CopyReplyView::Number(n),
            ) => if n == 0 {
                state.to(phase_at(len, end, written))
            } else {
                state.to(
                    phase_in(len, end, remaining.wrapping_sub(n), written.wrapping_add(n)),
                )
            },
            (SparseCopyPhase::Moving { .. }, CopyReplyView::Failed(e)) => state.fail(e),
            (SparseCopyPhase::Flushing { written }, CopyReplyView::Done) => state.to(
                SparseCopyPhase::Finished { written },
            ),
            (SparseCopyPhase::Flushing { .. }, CopyReplyView::Failed(e)) => state.fail(e),
            _ => state,
        }
    }

    fn request(&self) -> (request: Option<CopyRequest>) {
        match self.phase {
            SparseCopyPhase::Opening => Some(CopyRequest::OpenSource(path::copy_of(&self.source))),
            SparseCopyPhase::Syncing => Some(CopyRequest::SyncSource),
            SparseCopyPhase::Measuring => Some(CopyRequest::SourceLength),
            SparseCopyPhase::Creating { .. } => Some(
                CopyRequest::CreateDest {
                    path: path::copy_of(&self.dest),
                    mode: disk::PRIVATE_MODE,
                },
            ),
            SparseCopyPhase::Sizing { len } => Some(CopyRequest::SetLength(len)),
            SparseCopyPhase::FindingData { off, .. } => Some(CopyRequest::SeekData(off)),
            SparseCopyPhase::FindingEnd { start, .. } => Some(CopyRequest::SeekHole(start)),
            SparseCopyPhase::Positioning { start, .. } => Some(CopyRequest::Position(start)),
            SparseCopyPhase::Moving { remaining, .. } => Some(
                CopyRequest::Move(
                    if remaining < CHUNK {
                        remaining
                    } else {
                        CHUNK
                    },
                ),
            ),
            SparseCopyPhase::Flushing { .. } => Some(CopyRequest::SyncDest),
            SparseCopyPhase::Finished { .. } | SparseCopyPhase::Failed => None,
        }
    }

    fn resume(self, reply: CopyReply) -> (next: SparseCopy) {
        let mut next = self;
        match (next.phase, reply) {
            (SparseCopyPhase::Opening, CopyReply::Done) => {
                next.phase = SparseCopyPhase::Syncing;
            },
            (SparseCopyPhase::Syncing, CopyReply::Done) => {
                next.phase = SparseCopyPhase::Measuring;
            },
            (SparseCopyPhase::Syncing, CopyReply::Failed(_)) => {
                next.phase = SparseCopyPhase::Measuring;
            },
            (SparseCopyPhase::Measuring, CopyReply::Number(len)) => {
                next.phase = SparseCopyPhase::Creating { len };
            },
            (SparseCopyPhase::Creating { len }, CopyReply::Done) => {
                next.phase = SparseCopyPhase::Sizing { len };
            },
            (SparseCopyPhase::Sizing { len }, CopyReply::Done) => {
                next.phase = next_at(len, 0, 0);
            },
            (SparseCopyPhase::FindingData { len, written, .. }, CopyReply::Number(start)) => {
                next.phase = SparseCopyPhase::FindingEnd { len, start, written };
            },
            (SparseCopyPhase::FindingData { written, .. }, CopyReply::Failed(e)) => {
                let only_holes = match e.code {
                    Some(OsCode::NoSuchAddress) => true,
                    _ => false,
                };
                if only_holes {
                    next.phase = SparseCopyPhase::Flushing { written };
                } else {
                    next.failure = Some(e);
                    next.phase = SparseCopyPhase::Failed;
                }
            },
            (SparseCopyPhase::FindingEnd { len, start, written }, CopyReply::Number(end)) => {
                next.phase = SparseCopyPhase::Positioning { len, start, end, written };
            },
            (SparseCopyPhase::Positioning { len, start, end, written }, CopyReply::Done) => {
                next.phase = next_in(len, end, end.wrapping_sub(start), written);
            },
            (
                SparseCopyPhase::Moving { len, end, remaining, written },
                CopyReply::Number(n),
            ) => if n == 0 {
                next.phase = next_at(len, end, written);
            } else {
                next.phase = next_in(
                    len,
                    end,
                    remaining.wrapping_sub(n),
                    written.wrapping_add(n),
                );
            },
            (SparseCopyPhase::Flushing { written }, CopyReply::Done) => {
                next.phase = SparseCopyPhase::Finished { written };
            },
            (
                SparseCopyPhase::Opening
                | SparseCopyPhase::Measuring
                | SparseCopyPhase::Creating { .. }
                | SparseCopyPhase::Sizing { .. }
                | SparseCopyPhase::FindingEnd { .. }
                | SparseCopyPhase::Positioning { .. }
                | SparseCopyPhase::Moving { .. }
                | SparseCopyPhase::Flushing { .. },
                CopyReply::Failed(e),
            ) => {
                next.failure = Some(e);
                next.phase = SparseCopyPhase::Failed;
            },
            _ => {},
        }
        next
    }
}

impl SparseCopy {
    /// The bytes written, or why there is no copy; nothing while it is under
    /// way.
    pub fn outcome(self) -> (r: Option<Result<u64, Error>>)
        ensures
            match r {
                Some(Ok(n)) => self@.outcome() == Some(Ok::<u64, ErrorView>(n)),
                Some(Err(e)) => self@.outcome() == Some(Err::<u64, ErrorView>(e@)),
                None => self@.outcome() is None,
            },
    {
        match self.phase {
            SparseCopyPhase::Finished { written } => Some(Ok(written)),
            SparseCopyPhase::Failed => match self.failure {
                Some(e) => Some(Err(Error::Io(e))),
                None => None,
            },
            _ => None,
        }
    }
}

/// Copies `source` to the new file `dest`, skipping holes.
pub fn sparse_copy(source: &[u8], dest: &[u8]) -> (p: SparseCopy)
    ensures
        p@ == SparseCopyView::start(source@, dest@),
{
    SparseCopy {
        source: path::copy_of(source),
        dest: path::copy_of(dest),
        phase: SparseCopyPhase::Opening,
        failure: None,
    }
}

// ---------------------------------------------------------------------------
// Sharing blocks
// ---------------------------------------------------------------------------
/// Whether a failure only says that these two files cannot share blocks.
pub open spec fn declines(code: Option<OsCode>) -> bool {
    code == Some(OsCode::NotSupported) || code == Some(OsCode::NotTty) || code == Some(
        OsCode::CrossDevice,
    ) || code == Some(OsCode::InvalidArgument) || code == Some(OsCode::NotPermitted) || code
        == Some(OsCode::AccessDenied)
}

fn is_declined(code: Option<OsCode>) -> (r: bool)
    ensures
        r == declines(code),
{
    match code {
        Some(
            OsCode::NotSupported
            | OsCode::NotTty
            | OsCode::CrossDevice
            | OsCode::InvalidArgument
            | OsCode::NotPermitted
            | OsCode::AccessDenied,
        ) => true,
        _ => false,
    }
}

/// How far a [`TryClone`] has come.
#[derive(Debug, Clone, Copy, PartialEq, Eq, Structural)]
pub enum TryClonePhase {
    Opening,
    Creating,
    Sharing,
    Measuring,
    /// Removing the empty destination of an attempt that failed.
    Removing,
    Finished { bytes: u64 },
    Declined,
    Failed,
}

/// Trying to make a new file that shares the blocks of another.
///
/// It is always tried, never predicted: whether it works depends on the two
/// files. A filesystem that declines is no failure; the caller copies.
#[derive(Debug)]
pub struct TryClone {
    source: Vec<u8>,
    dest: Vec<u8>,
    phase: TryClonePhase,
    failure: Option<IoError>,
}

/// A [`TryClone`] as a mathematical value.
#[verifier::ext_equal]
pub struct TryCloneView {
    pub source: Seq<u8>,
    pub dest: Seq<u8>,
    pub phase: TryClonePhase,
    pub failure: Option<IoErrorView>,
}

impl View for TryClone {
    type V = TryCloneView;

    closed spec fn view(&self) -> TryCloneView {
        TryCloneView {
            source: self.source@,
            dest: self.dest@,
            phase: self.phase,
            failure: error::failure_view(self.failure),
        }
    }
}

impl TryCloneView {
    /// Before the first step.
    pub open spec fn start(source: Seq<u8>, dest: Seq<u8>) -> TryCloneView {
        TryCloneView { source, dest, phase: TryClonePhase::Opening, failure: None }
    }

    pub open spec fn to(self, phase: TryClonePhase) -> TryCloneView {
        TryCloneView { phase, ..self }
    }

    pub open spec fn fail(self, e: IoErrorView) -> TryCloneView {
        TryCloneView { phase: TryClonePhase::Failed, failure: Some(e), ..self }
    }

    /// The empty destination is gone, or could not be removed.
    pub open spec fn removed(self) -> TryCloneView {
        match self.failure {
            Some(e) if declines(e.code) => self.to(TryClonePhase::Declined),
            _ => self.to(TryClonePhase::Failed),
        }
    }

    /// What came of it: the bytes that the clone occupies, nothing where the
    /// filesystem declined, or a failure.
    pub open spec fn outcome(self) -> Option<Result<Option<u64>, ErrorView>> {
        match (self.phase, self.failure) {
            (TryClonePhase::Finished { bytes }, _) => Some(Ok(Some(bytes))),
            (TryClonePhase::Declined, _) => Some(Ok(None)),
            (TryClonePhase::Failed, Some(e)) => Some(Err(ErrorView::Io(e))),
            _ => None,
        }
    }
}

impl Procedure for TryClone {
    type Request = CopyRequest;

    type Reply = CopyReply;

    open spec fn wants(state: TryCloneView) -> Option<CopyRequestView> {
        match state.phase {
            TryClonePhase::Opening => Some(CopyRequestView::OpenSource(state.source)),
            TryClonePhase::Creating => Some(
                CopyRequestView::CreateDest { path: state.dest, mode: disk::PRIVATE_MODE },
            ),
            TryClonePhase::Sharing => Some(CopyRequestView::ShareBlocks),
            TryClonePhase::Measuring => Some(CopyRequestView::DestAllocated),
            TryClonePhase::Removing => Some(CopyRequestView::RemoveDest(state.dest)),
            _ => None,
        }
    }

    open spec fn after(state: TryCloneView, reply: CopyReplyView) -> TryCloneView {
        match (state.phase, reply) {
            (TryClonePhase::Opening, CopyReplyView::Done) => state.to(TryClonePhase::Creating),
            (TryClonePhase::Opening, CopyReplyView::Failed(e)) => state.fail(e),
            (TryClonePhase::Creating, CopyReplyView::Done) => state.to(TryClonePhase::Sharing),
            (TryClonePhase::Creating, CopyReplyView::Failed(e)) => state.fail(e),
            (TryClonePhase::Sharing, CopyReplyView::Done) => state.to(TryClonePhase::Measuring),
            (TryClonePhase::Sharing, CopyReplyView::Failed(e)) => TryCloneView {
                phase: TryClonePhase::Removing,
                failure: Some(e),
                ..state
            },
            (TryClonePhase::Measuring, CopyReplyView::Number(bytes)) => state.to(
                TryClonePhase::Finished { bytes },
            ),
            (TryClonePhase::Measuring, CopyReplyView::Failed(e)) => state.fail(e),
            (TryClonePhase::Removing, CopyReplyView::Done) => state.removed(),
            (TryClonePhase::Removing, CopyReplyView::Failed(_)) => state.removed(),
            _ => state,
        }
    }

    fn request(&self) -> (request: Option<CopyRequest>) {
        match self.phase {
            TryClonePhase::Opening => Some(CopyRequest::OpenSource(path::copy_of(&self.source))),
            TryClonePhase::Creating => Some(
                CopyRequest::CreateDest {
                    path: path::copy_of(&self.dest),
                    mode: disk::PRIVATE_MODE,
                },
            ),
            TryClonePhase::Sharing => Some(CopyRequest::ShareBlocks),
            TryClonePhase::Measuring => Some(CopyRequest::DestAllocated),
            TryClonePhase::Removing => Some(CopyRequest::RemoveDest(path::copy_of(&self.dest))),
            _ => None,
        }
    }

    fn resume(self, reply: CopyReply) -> (next: TryClone) {
        let mut next = self;
        match (next.phase, reply) {
            (TryClonePhase::Opening, CopyReply::Done) => {
                next.phase = TryClonePhase::Creating;
            },
            (TryClonePhase::Creating, CopyReply::Done) => {
                next.phase = TryClonePhase::Sharing;
            },
            (TryClonePhase::Sharing, CopyReply::Done) => {
                next.phase = TryClonePhase::Measuring;
            },
            (TryClonePhase::Sharing, CopyReply::Failed(e)) => {
                next.failure = Some(e);
                next.phase = TryClonePhase::Removing;
            },
            (TryClonePhase::Measuring, CopyReply::Number(bytes)) => {
                next.phase = TryClonePhase::Finished { bytes };
            },
            (TryClonePhase::Removing, CopyReply::Done | CopyReply::Failed(_)) => {
                next.phase = match &next.failure {
                    Some(e) => if is_declined(e.code) {
                        TryClonePhase::Declined
                    } else {
                        TryClonePhase::Failed
                    },
                    None => TryClonePhase::Failed,
                };
            },
            (
                TryClonePhase::Opening | TryClonePhase::Creating | TryClonePhase::Measuring,
                CopyReply::Failed(e),
            ) => {
                next.failure = Some(e);
                next.phase = TryClonePhase::Failed;
            },
            _ => {},
        }
        next
    }
}

impl TryClone {
    /// The bytes that the clone occupies, nothing where the filesystem
    /// declined, or a failure; nothing at all while it is under way.
    pub fn outcome(self) -> (r: Option<Result<Option<u64>, Error>>)
        ensures
            match r {
                Some(Ok(n)) => self@.outcome() == Some(Ok::<Option<u64>, ErrorView>(n)),
                Some(Err(e)) => self@.outcome() == Some(Err::<Option<u64>, ErrorView>(e@)),
                None => self@.outcome() is None,
            },
    {
        match self.phase {
            TryClonePhase::Finished { bytes } => Some(Ok(Some(bytes))),
            TryClonePhase::Declined => Some(Ok(None)),
            TryClonePhase::Failed => match self.failure {
                Some(e) => Some(Err(Error::Io(e))),
                None => None,
            },
            _ => None,
        }
    }
}

/// Tries to make the new file `dest` share the blocks of `source`.
pub fn try_ficlone(source: &[u8], dest: &[u8]) -> (p: TryClone)
    ensures
        p@ == TryCloneView::start(source@, dest@),
{
    TryClone {
        source: path::copy_of(source),
        dest: path::copy_of(dest),
        phase: TryClonePhase::Opening,
        failure: None,
    }
}

// ---------------------------------------------------------------------------
// What a copy holds
// ---------------------------------------------------------------------------
/// The two files of a copy: what the source holds, what the destination holds
/// once it is there, and the offset at which both are.
#[verifier::ext_equal]
pub struct TwoFiles {
    pub source: Seq<u8>,
    /// The offsets at which the source has data; everything else is a hole.
    pub data: Set<int>,
    pub dest: Option<Seq<u8>>,
    /// The offsets of the destination that have been written to.
    pub touched: Set<int>,
    pub at: int,
}

impl TwoFiles {
    /// A hole reads as zeros.
    pub open spec fn wf(self) -> bool {
        forall|i: int|
            0 <= i < self.source.len() && !self.data.contains(i) ==> #[trigger] self.source[i] == 0
    }
}

/// How many of the offsets below `n` are in a set.
pub open spec fn data_below(data: Set<int>, n: int) -> nat
    decreases n,
{
    if n <= 0 {
        0
    } else {
        data_below(data, n - 1) + if data.contains(n - 1) {
            1nat
        } else {
            0nat
        }
    }
}

proof fn lemma_data_below(data: Set<int>, a: int, b: int)
    requires
        0 <= a <= b,
    ensures
        data_below(data, a) <= data_below(data, b) <= data_below(data, a) + (b - a),
        data_below(data, b) <= b,
        (forall|i: int| a <= i < b ==> !data.contains(i)) ==> data_below(data, b) == data_below(
            data,
            a,
        ),
        (forall|i: int| a <= i < b ==> data.contains(i)) ==> data_below(data, b) == data_below(
            data,
            a,
        ) + (b - a),
    decreases b,
{
    if a < b {
        lemma_data_below(data, a, b - 1);
    } else if b > 0 {
        lemma_data_below(data, a - 1, b - 1);
    }
}

/// `d` with the `n` bytes of `s` from `at` on.
pub open spec fn overwritten(d: Seq<u8>, s: Seq<u8>, at: int, n: int) -> Seq<u8> {
    Seq::new(
        if at + n > d.len() {
            (at + n) as nat
        } else {
            d.len()
        },
        |i: int|
            if at <= i < at + n {
                s[i]
            } else if i < d.len() {
                d[i]
            } else {
                0
            },
    )
}

/// `d` cut or extended by zeros to a length.
pub open spec fn resized(d: Seq<u8>, len: nat) -> Seq<u8> {
    Seq::new(
        len,
        |i: int|
            if i < d.len() {
                d[i]
            } else {
                0
            },
    )
}

/// Whether there are only zeros between two offsets.
pub open spec fn blank(s: Seq<u8>, from: int, to: int) -> bool {
    forall|i: int| from <= i < to ==> #[trigger] s[i] == 0
}

impl World for TwoFiles {
    type Request = CopyRequest;

    type Reply = CopyReply;

    /// A read that moves nothing is at the end.
    open spec fn allows(
        self,
        request: CopyRequestView,
        reply: CopyReplyView,
        after: TwoFiles,
    ) -> bool {
        match (request, reply) {
            (CopyRequestView::SourceLength, CopyReplyView::Number(n)) => {
                &&& after == self
                &&& n == self.source.len()
            },
            (CopyRequestView::CreateDest { .. }, CopyReplyView::Done) => {
                &&& self.dest is None
                &&& after == (TwoFiles { dest: Some(Seq::empty()), ..self })
            },
            (CopyRequestView::SetLength(n), CopyReplyView::Done) => {
                &&& self.dest is Some
                &&& after == (TwoFiles { dest: Some(resized(self.dest->0, n as nat)), ..self })
            },
            (CopyRequestView::SeekData(off), CopyReplyView::Number(start)) => {
                &&& after == self
                &&& off <= start < self.source.len()
                &&& self.data.contains(start as int)
                &&& forall|i: int| off <= i < start ==> !self.data.contains(i)
            },
            (CopyRequestView::SeekData(off), CopyReplyView::Failed(e)) => {
                &&& after == self
                &&& e.code == Some(OsCode::NoSuchAddress) ==> forall|i: int|
                    off <= i < self.source.len() ==> !self.data.contains(i)
            },
            (CopyRequestView::SeekHole(start), CopyReplyView::Number(end)) => {
                &&& after == self
                &&& start < end <= self.source.len()
                &&& forall|i: int| start <= i < end ==> self.data.contains(i)
                &&& end < self.source.len() ==> !self.data.contains(end as int)
            },
            (CopyRequestView::Position(p), CopyReplyView::Done) => after == (TwoFiles {
                at: p as int,
                ..self
            }),
            (CopyRequestView::Move(want), CopyReplyView::Number(n)) => {
                &&& self.dest is Some
                &&& n <= want
                &&& self.at + n <= self.source.len()
                &&& n == 0 ==> want == 0 || self.at >= self.source.len()
                &&& after == (TwoFiles {
                    dest: Some(overwritten(self.dest->0, self.source, self.at, n as int)),
                    touched: self.touched.union(Set::new(|i: int| self.at <= i < self.at + n)),
                    at: self.at + n,
                    ..self
                })
            },
            (CopyRequestView::Move(want), CopyReplyView::Failed(_)) => {
                after.source == self.source && after.data == self.data
            },
            _ => after == self,
        }
    }
}

/// Whether `d` is a copy of `s` up to an offset and blank behind it.
spec fn copied_to(d: Option<Seq<u8>>, s: Seq<u8>, off: int) -> bool {
    &&& d is Some
    &&& d->0.len() == s.len()
    &&& 0 <= off <= s.len()
    &&& forall|i: int| 0 <= i < off ==> #[trigger] d->0[i] == s[i]
    &&& blank(d->0, off, s.len() as int)
}

/// Whether just the data below an offset has been written.
spec fn wrote(w: TwoFiles, off: int) -> bool {
    forall|i: int| #[trigger] w.touched.contains(i) <==> w.data.contains(i) && 0 <= i < off
}

spec fn copy_keeps(first: TwoFiles, s: SparseCopyView, w: TwoFiles) -> bool {
    let source = first.source;
    let done = |off: int, written: u64|
        {
            &&& written == data_below(w.data, off)
            &&& wrote(w, off)
            &&& copied_to(w.dest, source, off)
            &&& first.dest is None
        };
    &&& w.source == source
    &&& w.data == first.data
    &&& first.dest is Some ==> w.dest == first.dest
    &&& match s.phase {
        SparseCopyPhase::Opening | SparseCopyPhase::Syncing | SparseCopyPhase::Measuring => {
            w.dest == first.dest && w.touched == first.touched
        },
        SparseCopyPhase::Creating { len } => {
            len == source.len() && w.dest == first.dest && w.touched == first.touched
        },
        SparseCopyPhase::Sizing { len } => {
            &&& len == source.len()
            &&& w.dest == Some(Seq::<u8>::empty())
            &&& w.touched == first.touched
            &&& first.dest is None
        },
        SparseCopyPhase::FindingData { len, off, written } => {
            len == source.len() && done(off as int, written)
        },
        SparseCopyPhase::FindingEnd { len, start, written } => {
            &&& len == source.len()
            &&& start < len
            &&& w.data.contains(start as int)
            &&& done(start as int, written)
        },
        SparseCopyPhase::Positioning { len, start, end, written } => {
            &&& len == source.len()
            &&& start < end <= len
            &&& forall|i: int| start <= i < end ==> w.data.contains(i)
            &&& done(start as int, written)
        },
        SparseCopyPhase::Moving { len, end, remaining, written } => {
            &&& len == source.len()
            &&& 0 < remaining <= end <= len
            &&& w.at == end - remaining
            &&& forall|i: int| w.at <= i < end ==> w.data.contains(i)
            &&& done(w.at, written)
        },
        SparseCopyPhase::Flushing { written } | SparseCopyPhase::Finished { written } => done(
            source.len() as int,
            written,
        ),
        SparseCopyPhase::Failed => true,
    }
}

#[verifier::spinoff_prover]
#[verifier::rlimit(60)]
proof fn lemma_copy_step(first: TwoFiles, s: SparseCopyView, w: TwoFiles, step: Step<TwoFiles>)
    requires
        first.wf(),
        first.touched == Set::<int>::empty(),
        first.source.len() <= u64::MAX,
        copy_keeps(first, s, w),
        procedure::can_step::<TwoFiles, SparseCopy>(s, w, step),
    ensures
        copy_keeps(first, SparseCopy::after(s, step.reply), step.world),
{
    let next = SparseCopy::after(s, step.reply);
    let after = step.world;
    let len = first.source.len() as int;
    match s.phase {
        SparseCopyPhase::Sizing { .. } => {
            assert(copy_keeps(first, next, after));
        },
        SparseCopyPhase::FindingData { off, written, .. } => {
            match step.reply {
                CopyReplyView::Number(start) => {
                    lemma_data_below(w.data, off as int, start as int);
                    assert(copied_to(after.dest, first.source, start as int));
                },
                CopyReplyView::Failed(e) => {
                    if e.code == Some(OsCode::NoSuchAddress) {
                        lemma_data_below(w.data, off as int, len);
                        assert(copied_to(after.dest, first.source, len));
                    }
                },
                _ => {},
            }
            assert(copy_keeps(first, next, after));
        },
        SparseCopyPhase::FindingEnd { .. } => assert(copy_keeps(first, next, after)),
        SparseCopyPhase::Positioning { .. } => assert(copy_keeps(first, next, after)),
        SparseCopyPhase::Moving { end, .. } => {
            if let CopyReplyView::Number(n) = step.reply {
                lemma_data_below(w.data, w.at, w.at + n);
                lemma_data_below(w.data, 0, w.at + n);
                if n > 0 {
                    assert(wrote(after, after.at));
                    assert(copied_to(after.dest, first.source, after.at));
                }
            }
            assert(copy_keeps(first, next, after));
        },
        _ => assert(copy_keeps(first, next, after)),
    }
}

proof fn lemma_copy_run(
    source: Seq<u8>,
    dest: Seq<u8>,
    files: TwoFiles,
    steps: Seq<Step<TwoFiles>>,
)
    requires
        files.wf(),
        files.touched == Set::<int>::empty(),
        files.source.len() <= u64::MAX,
        procedure::runs::<TwoFiles, SparseCopy>(SparseCopyView::start(source, dest), files, steps),
    ensures
        copy_keeps(
            files,
            procedure::state_after::<TwoFiles, SparseCopy>(
                SparseCopyView::start(source, dest),
                steps,
            ),
            procedure::world_after(files, steps),
        ),
{
    let start = SparseCopyView::start(source, dest);
    let inv = |s: SparseCopyView, w: TwoFiles| copy_keeps(files, s, w);
    assert forall|s: SparseCopyView, w: TwoFiles, step: Step<TwoFiles>| #[trigger]
        procedure::can_step::<TwoFiles, SparseCopy>(s, w, step) && inv(s, w) implies inv(
        SparseCopy::after(s, step.reply),
        step.world,
    ) by {
        lemma_copy_step(files, s, w, step);
    }
    procedure::lemma_invariant::<TwoFiles, SparseCopy>(inv, start, files, steps);
}

/// A copy that succeeds holds what the source holds, its length included. Just
/// the data of the source has been written, no hole, and the number that is
/// given is that of the bytes written.
pub proof fn lemma_sparse_copy_is_exact(
    source: Seq<u8>,
    dest: Seq<u8>,
    files: TwoFiles,
    steps: Seq<Step<TwoFiles>>,
)
    requires
        files.wf(),
        files.touched == Set::<int>::empty(),
        files.source.len() <= u64::MAX,
        procedure::runs::<TwoFiles, SparseCopy>(SparseCopyView::start(source, dest), files, steps),
    ensures
        procedure::state_after::<TwoFiles, SparseCopy>(
            SparseCopyView::start(source, dest),
            steps,
        ).outcome() matches Some(Ok(written)) ==> {
            let end = procedure::world_after(files, steps);
            &&& end.dest == Some(files.source)
            &&& written == data_below(files.data, files.source.len() as int)
            &&& forall|i: int| #[trigger]
                end.touched.contains(i) <==> files.data.contains(i) && 0 <= i < files.source.len()
        },
{
    lemma_copy_run(source, dest, files, steps);
    let end = procedure::world_after(files, steps);
    if copied_to(end.dest, files.source, files.source.len() as int) {
        assert(end.dest->0 =~= files.source);
    }
}

/// A copy never touches a destination that is there already, and does not
/// succeed then.
pub proof fn lemma_sparse_copy_overwrites_nothing(
    source: Seq<u8>,
    dest: Seq<u8>,
    files: TwoFiles,
    steps: Seq<Step<TwoFiles>>,
)
    requires
        files.wf(),
        files.touched == Set::<int>::empty(),
        files.source.len() <= u64::MAX,
        files.dest is Some,
        procedure::runs::<TwoFiles, SparseCopy>(SparseCopyView::start(source, dest), files, steps),
    ensures
        procedure::world_after(files, steps).dest == files.dest,
        !(procedure::state_after::<TwoFiles, SparseCopy>(
            SparseCopyView::start(source, dest),
            steps,
        ).outcome() matches Some(Ok(_))),
{
    lemma_copy_run(source, dest, files, steps);
}

/// A clone that the filesystem declines, or that fails, asks for the removal
/// of what it created: whichever way the attempt to share blocks fails, the
/// next request removes the destination.
pub proof fn lemma_failed_clone_is_removed(s: TryCloneView, e: IoErrorView)
    requires
        s.phase == TryClonePhase::Sharing,
    ensures
        TryClone::wants(TryClone::after(s, CopyReplyView::Failed(e))) == Some(
            CopyRequestView::RemoveDest(s.dest),
        ),
{
}

/// A copy opens and flushes its source, measures it, creates its destination as a
/// file that only its owner can write, and gives it the length of the source. Then
/// each piece of data is found, from its beginning to its end, and moved in chunks
/// of at most 1048576 bytes, until no data is left or the length is reached; and
/// the destination is flushed. That the source could not be flushed does not
/// matter, and that there is no data left is no failure; every other failure ends
/// the copy with it.
pub proof fn lemma_a_copy_goes_on(s: SparseCopyView, reply: CopyReplyView)
    requires
        SparseCopy::wants(s) is Some,
    ensures
        ({
            let next = SparseCopy::after(s, reply);
            let asked = SparseCopy::wants(next);
            match (s.phase, reply) {
                (SparseCopyPhase::Opening, CopyReplyView::Done) => asked == Some(
                    CopyRequestView::SyncSource,
                ),
                (SparseCopyPhase::Syncing, CopyReplyView::Done | CopyReplyView::Failed(_)) => asked
                    == Some(CopyRequestView::SourceLength),
                (SparseCopyPhase::Measuring, CopyReplyView::Number(len)) => asked == Some(
                    CopyRequestView::CreateDest { path: s.dest, mode: 0o644 },
                ) && next.phase == (SparseCopyPhase::Creating { len }),
                (SparseCopyPhase::Creating { len }, CopyReplyView::Done) => asked == Some(
                    CopyRequestView::SetLength(len),
                ),
                (SparseCopyPhase::Sizing { len }, CopyReplyView::Done) => asked == Some(
                    if len > 0 {
                        CopyRequestView::SeekData(0)
                    } else {
                        CopyRequestView::SyncDest
                    },
                ),
                (SparseCopyPhase::FindingData { .. }, CopyReplyView::Number(start)) => asked
                    == Some(CopyRequestView::SeekHole(start)),
                (SparseCopyPhase::FindingData { .. }, CopyReplyView::Failed(e)) => if e.code
                    == Some(OsCode::NoSuchAddress) {
                    asked == Some(CopyRequestView::SyncDest)
                } else {
                    next.outcome() == Some(Err::<u64, ErrorView>(ErrorView::Io(e)))
                },
                (SparseCopyPhase::FindingEnd { start, .. }, CopyReplyView::Number(_)) => asked
                    == Some(CopyRequestView::Position(start)),
                (
                    SparseCopyPhase::Positioning { start, end, .. },
                    CopyReplyView::Done,
                ) => start < end ==> asked == Some(
                    CopyRequestView::Move(
                        if end - start < 1_048_576 {
                            (end - start) as u64
                        } else {
                            1_048_576
                        },
                    ),
                ),
                (
                    SparseCopyPhase::Moving { len, end, remaining, written },
                    CopyReplyView::Number(n),
                ) => if n == 0 || n == remaining {
                    asked == Some(
                        if end < len {
                            CopyRequestView::SeekData(end)
                        } else {
                            CopyRequestView::SyncDest
                        },
                    )
                } else {
                    n < remaining ==> asked == Some(
                        CopyRequestView::Move(
                            if remaining - n < 1_048_576 {
                                (remaining - n) as u64
                            } else {
                                1_048_576
                            },
                        ),
                    )
                },
                (SparseCopyPhase::Flushing { written }, CopyReplyView::Done) => next.outcome()
                    == Some(Ok::<u64, ErrorView>(written)),
                (_, CopyReplyView::Failed(e)) => {
                    &&& next.outcome() == Some(Err::<u64, ErrorView>(ErrorView::Io(e)))
                    &&& asked is None
                },
                _ => next == s,
            }
        }),
        SparseCopy::wants(SparseCopyView::start(s.source, s.dest)) == Some(
            CopyRequestView::OpenSource(s.source),
        ),
{
}

/// A clone opens its source, creates its destination as a file that only its
/// owner can write, and lets it share the blocks; what it occupies is what it
/// cost. Where that is refused, the destination is removed; a refusal that only
/// says that these files cannot share blocks, in one of six ways, is no failure,
/// and every other one is told.
pub proof fn lemma_a_clone_is_made_or_declined(
    source: Seq<u8>,
    dest: Seq<u8>,
    bytes: u64,
    e: IoErrorView,
    removed: CopyReplyView,
)
    requires
        removed is Done || removed is Failed,
    ensures
        ({
            let failed = |s: TryCloneView|
                s.outcome() == Some(Err::<Option<u64>, ErrorView>(ErrorView::Io(e)))
                    && TryClone::wants(s) is None;
            let s0 = TryCloneView::start(source, dest);
            let s1 = TryClone::after(s0, CopyReplyView::Done);
            let s2 = TryClone::after(s1, CopyReplyView::Done);
            let s3 = TryClone::after(s2, CopyReplyView::Done);
            let s4 = TryClone::after(s3, CopyReplyView::Number(bytes));
            let refused = TryClone::after(s2, CopyReplyView::Failed(e));
            let end = TryClone::after(refused, removed);
            let declined = match e.code {
                Some(OsCode::NotSupported) => true,
                Some(OsCode::NotTty) => true,
                Some(OsCode::CrossDevice) => true,
                Some(OsCode::InvalidArgument) => true,
                Some(OsCode::NotPermitted) => true,
                Some(OsCode::AccessDenied) => true,
                _ => false,
            };
            &&& TryClone::wants(s0) == Some(CopyRequestView::OpenSource(source))
            &&& failed(TryClone::after(s0, CopyReplyView::Failed(e)))
            &&& TryClone::wants(s1) == Some(
                CopyRequestView::CreateDest { path: dest, mode: 0o644 },
            )
            &&& failed(TryClone::after(s1, CopyReplyView::Failed(e)))
            &&& TryClone::wants(s2) == Some(CopyRequestView::ShareBlocks)
            &&& TryClone::wants(s3) == Some(CopyRequestView::DestAllocated)
            &&& failed(TryClone::after(s3, CopyReplyView::Failed(e)))
            &&& s4.outcome() == Some(Ok::<Option<u64>, ErrorView>(Some(bytes)))
            &&& TryClone::wants(refused) == Some(CopyRequestView::RemoveDest(dest))
            &&& declined ==> end.outcome() == Some(Ok::<Option<u64>, ErrorView>(None))
            &&& !declined ==> failed(end)
        }),
{
}

} // verus!
