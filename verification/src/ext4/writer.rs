//! Writing an image entry by entry.

use super::entry::{self, Action, ActionView, NewInode, NewInodeView, NodeKind, TarEntry, TarEntryView};
use super::finish::{self, NormalizeTimestamps, NormalizeView};
use super::{Ext4Options, Ext4OptionsView, Ext4Stats, Ext4StatsView};
use crate::error::{Error, ErrorView, IoError, IoErrorView};
use crate::ext4;
use crate::host::{self, Reply, ReplyView, Request, RequestView, ToolOutput};
use crate::path;
use crate::procedure::Procedure;
use vstd::prelude::*;
use vstd::string::*;

verus! {

/// One thing to do while an image is written.
#[derive(Debug)]
pub enum WriterRequest {
    /// Create an empty image. With `short_last_group` it is as long as `size`
    /// says, and else rounded up to whole groups of blocks.
    Open {
        path: Vec<u8>,
        size: u64,
        label: Option<String>,
        uuid: Option<[u8; 16]>,
        epoch: u32,
        short_last_group: bool,
    },
    /// Go to the next entry of the archive. Answer: `Entry` or `End`.
    NextEntry,
    /// Create an inode; a file gets the contents of the current entry.
    Create(NewInode),
    /// Give an inode another name.
    Link { link: String, target: String },
    /// Write out the image.
    Close,
    /// Something outside of the image and the archive. Answer: `Host`.
    Host(Request),
}

/// A [`WriterRequest`] as a mathematical value.
pub enum WriterRequestView {
    Open {
        path: Seq<u8>,
        size: u64,
        label: Option<Seq<char>>,
        uuid: Option<Seq<u8>>,
        epoch: u32,
        short_last_group: bool,
    },
    NextEntry,
    Create(NewInodeView),
    Link { link: Seq<char>, target: Seq<char> },
    Close,
    Host(RequestView),
}

impl View for WriterRequest {
    type V = WriterRequestView;

    open spec fn view(&self) -> WriterRequestView {
        match self {
            WriterRequest::Open { path, size, label, uuid, epoch, short_last_group } => {
                WriterRequestView::Open {
                    path: path@,
                    size: *size,
                    label: ext4::label_view(*label),
                    uuid: ext4::uuid_view(*uuid),
                    epoch: *epoch,
                    short_last_group: *short_last_group,
                }
            },
            WriterRequest::NextEntry => WriterRequestView::NextEntry,
            WriterRequest::Create(n) => WriterRequestView::Create(n@),
            WriterRequest::Link { link, target } => WriterRequestView::Link {
                link: link@,
                target: target@,
            },
            WriterRequest::Close => WriterRequestView::Close,
            WriterRequest::Host(r) => WriterRequestView::Host(r@),
        }
    }
}

/// What came of a [`WriterRequest`].
#[derive(Debug)]
pub enum WriterReply {
    Done,
    /// The image writer refused, in its own words.
    Refused(String),
    Entry(TarEntry),
    End,
    /// The archive could not be read.
    Failed(IoError),
    Host(Reply),
}

/// A [`WriterReply`] as a mathematical value.
pub enum WriterReplyView {
    Done,
    Refused(Seq<char>),
    Entry(TarEntryView),
    End,
    Failed(IoErrorView),
    Host(ReplyView),
}

impl View for WriterReply {
    type V = WriterReplyView;

    open spec fn view(&self) -> WriterReplyView {
        match self {
            WriterReply::Done => WriterReplyView::Done,
            WriterReply::Refused(s) => WriterReplyView::Refused(s@),
            WriterReply::Entry(e) => WriterReplyView::Entry(e@),
            WriterReply::End => WriterReplyView::End,
            WriterReply::Failed(e) => WriterReplyView::Failed(e@),
            WriterReply::Host(r) => WriterReplyView::Host(r@),
        }
    }
}

/// A hard link, put off until its target is there.
#[derive(Debug)]
pub struct PendingLink {
    pub link: String,
    pub target: String,
}

/// A [`PendingLink`] as a mathematical value.
#[verifier::ext_equal]
pub struct PendingLinkView {
    pub link: Seq<char>,
    pub target: Seq<char>,
}

impl View for PendingLink {
    type V = PendingLinkView;

    open spec fn view(&self) -> PendingLinkView {
        PendingLinkView { link: self.link@, target: self.target@ }
    }
}

/// Links as mathematical values.
pub open spec fn link_views(v: Seq<PendingLink>) -> Seq<PendingLinkView> {
    v.map_values(|l: PendingLink| l@)
}

/// How far a [`WriteExt4`] has come.
#[derive(Debug, Clone, Copy, PartialEq, Eq, Structural)]
pub enum WritePhase {
    Opening,
    Reading,
    Creating,
    Linking { at: usize },
    Closing,
    Journaling,
    Normalizing,
    Measuring,
    Finished,
    Failed,
}

/// Writing an archive as an image.
///
/// Each entry becomes an inode with the owner, the permissions and the time
/// that its header gives. Hard links come last, when every target is there.
/// Entries that cannot be in an image are counted.
#[derive(Debug)]
pub struct WriteExt4 {
    out: Vec<u8>,
    options: Ext4Options,
    stats: Ext4Stats,
    pending: Vec<PendingLink>,
    /// The inode that is being created.
    current: Option<NewInode>,
    times: Option<NormalizeTimestamps>,
    phase: WritePhase,
    failure: Option<Error>,
}

/// A [`WriteExt4`] as a mathematical value.
#[verifier::ext_equal]
pub struct WriteView {
    pub out: Seq<u8>,
    pub options: Ext4OptionsView,
    pub stats: Ext4StatsView,
    pub pending: Seq<PendingLinkView>,
    pub current: Option<NewInodeView>,
    pub times: Option<NormalizeView>,
    pub phase: WritePhase,
    pub failure: Option<ErrorView>,
}

impl View for WriteExt4 {
    type V = WriteView;

    closed spec fn view(&self) -> WriteView {
        WriteView {
            out: self.out@,
            options: self.options@,
            stats: self.stats@,
            pending: link_views(self.pending@),
            current: match self.current {
                Some(n) => Some(n@),
                None => None,
            },
            times: match self.times {
                Some(p) => Some(p@),
                None => None,
            },
            phase: self.phase,
            failure: match self.failure {
                Some(e) => Some(e@),
                None => None,
            },
        }
    }
}

/// The most names of entries that a failure tells.
pub const SAMPLE: usize = 5;

impl WriteView {
    /// Before the first step.
    pub open spec fn start(out: Seq<u8>, options: Ext4OptionsView) -> WriteView {
        WriteView {
            out,
            options,
            stats: Ext4StatsView::empty(),
            pending: seq![],
            current: None,
            times: None,
            phase: WritePhase::Opening,
            failure: None,
        }
    }

    pub open spec fn to(self, phase: WritePhase) -> WriteView {
        WriteView { phase, ..self }
    }

    pub open spec fn fail(self, e: ErrorView) -> WriteView {
        WriteView { phase: WritePhase::Failed, failure: Some(e), ..self }
    }

    /// An entry was read: what is decided about it is done, or begun.
    pub open spec fn read(
        self,
        entry: TarEntryView,
        decided: Result<ActionView, ErrorView>,
    ) -> WriteView {
        match decided {
            Err(e) => self.fail(e),
            Ok(ActionView::Skip) => self,
            Ok(ActionView::Create(n)) => WriteView {
                current: Some(n),
                phase: WritePhase::Creating,
                ..self
            },
            Ok(ActionView::Link { link, target }) => WriteView {
                pending: self.pending.push(PendingLinkView { link, target }),
                ..self
            },
            Ok(ActionView::Special) => WriteView {
                stats: Ext4StatsView {
                    skipped_special: self.stats.skipped_special.push(entry.path),
                    ..self.stats
                },
                ..self
            },
        }
    }

    /// An inode was created.
    pub open spec fn created(self, n: NewInodeView) -> WriteView {
        let stats = match n.kind {
            NodeKind::Directory => Ext4StatsView {
                dirs: self.stats.dirs.wrapping_add(1),
                ..self.stats
            },
            NodeKind::Symlink => Ext4StatsView {
                symlinks: self.stats.symlinks.wrapping_add(1),
                ..self.stats
            },
            NodeKind::File => Ext4StatsView {
                files: self.stats.files.wrapping_add(1),
                bytes_from_tar: self.stats.bytes_from_tar.wrapping_add(n.size),
                ..self.stats
            },
        };
        WriteView { stats, current: None, phase: WritePhase::Reading, ..self }
    }

    /// On to the link at a position, or behind the last.
    pub open spec fn link_from(self, at: int) -> WriteView {
        if at < self.pending.len() {
            self.to(WritePhase::Linking { at: at as usize })
        } else {
            self.to(WritePhase::Closing)
        }
    }

    /// The image is written out.
    pub open spec fn closed(self) -> WriteView {
        let skipped = self.stats.skipped_special;
        if skipped.len() > 0 && self.options.strict_special_files {
            self.fail(
                ErrorView::SpecialFiles {
                    count: skipped.len(),
                    sample: if skipped.len() > SAMPLE {
                        skipped.take(SAMPLE as int)
                    } else {
                        skipped
                    },
                },
            )
        } else if self.options.journal {
            self.to(WritePhase::Journaling)
        } else {
            self.to(WritePhase::Measuring)
        }
    }

    /// The journal was added, or not.
    pub open spec fn journaled(self, done: Result<Seq<char>, ErrorView>) -> WriteView {
        match done {
            Ok(_) => WriteView {
                times: Some(NormalizeView::start(self.out, self.options.epoch_secs)),
                phase: WritePhase::Normalizing,
                ..self
            },
            Err(e) => self.fail(e),
        }
    }

    /// The times came one step further.
    pub open spec fn normalized(self, times: NormalizeView) -> WriteView {
        match times.outcome() {
            None => WriteView { times: Some(times), ..self },
            Some(Ok(_)) => WriteView { times: None, phase: WritePhase::Measuring, ..self },
            Some(Err(e)) => WriteView { times: None, ..self }.fail(e),
        }
    }

    /// What came of it: what went into the image, or why there is none.
    pub open spec fn outcome(self) -> Option<Result<Ext4StatsView, ErrorView>> {
        match (self.phase, self.failure) {
            (WritePhase::Finished, _) => Some(Ok(self.stats)),
            (WritePhase::Failed, Some(e)) => Some(Err(e)),
            _ => None,
        }
    }
}

impl Procedure for WriteExt4 {
    type Request = WriterRequest;

    type Reply = WriterReply;

    open spec fn wants(state: WriteView) -> Option<WriterRequestView> {
        match (state.phase, state.current, state.times) {
            (WritePhase::Opening, _, _) => Some(
                WriterRequestView::Open {
                    path: state.out,
                    size: state.options.size.bytes(),
                    label: state.options.label,
                    uuid: state.options.uuid,
                    epoch: state.options.epoch_secs,
                    short_last_group: true,
                },
            ),
            (WritePhase::Reading, _, _) => Some(WriterRequestView::NextEntry),
            (WritePhase::Creating, Some(n), _) => Some(WriterRequestView::Create(n)),
            (WritePhase::Linking { at }, _, _) if at < state.pending.len() => Some(
                WriterRequestView::Link {
                    link: state.pending[at as int].link,
                    target: state.pending[at as int].target,
                },
            ),
            (WritePhase::Closing, _, _) => Some(WriterRequestView::Close),
            (WritePhase::Journaling, _, _) => Some(
                WriterRequestView::Host(
                    RequestView::Tool(finish::tool_on("tune2fs"@, "-j"@, state.out)),
                ),
            ),
            (WritePhase::Normalizing, _, Some(times)) => match NormalizeTimestamps::wants(times) {
                Some(r) => Some(WriterRequestView::Host(r)),
                None => None,
            },
            (WritePhase::Measuring, _, _) => Some(
                WriterRequestView::Host(RequestView::Stat(state.out)),
            ),
            _ => None,
        }
    }

    open spec fn after(state: WriteView, reply: WriterReplyView) -> WriteView {
        match (state.phase, reply) {
            (WritePhase::Opening, WriterReplyView::Done) => state.to(WritePhase::Reading),
            (WritePhase::Opening, WriterReplyView::Refused(s)) => state.fail(ErrorView::Ext4(s)),
            (WritePhase::Reading, WriterReplyView::Entry(e)) => if e.header.len()
                == entry::HEADER_LEN {
                state.read(e, entry::decision(e, entry::header_attributes(e.header)))
            } else {
                state
            },
            (WritePhase::Reading, WriterReplyView::End) => state.link_from(0),
            (WritePhase::Reading, WriterReplyView::Failed(e)) => state.fail(ErrorView::Io(e)),
            (WritePhase::Creating, WriterReplyView::Done) => match state.current {
                Some(n) => state.created(n),
                None => state,
            },
            (WritePhase::Creating, WriterReplyView::Refused(s)) => state.fail(ErrorView::Ext4(s)),
            (WritePhase::Linking { at }, WriterReplyView::Done) => if at < state.pending.len() {
                WriteView {
                    stats: Ext4StatsView {
                        hardlinks: state.stats.hardlinks.wrapping_add(1),
                        ..state.stats
                    },
                    ..state
                }.link_from(at + 1)
            } else {
                state
            },
            (WritePhase::Linking { .. }, WriterReplyView::Refused(s)) => state.fail(
                ErrorView::Ext4(s),
            ),
            (WritePhase::Closing, WriterReplyView::Done) => state.closed(),
            (WritePhase::Closing, WriterReplyView::Refused(s)) => state.fail(ErrorView::Ext4(s)),
            (WritePhase::Journaling, WriterReplyView::Host(r)) => match host::run_of(r) {
                Some(run) => state.journaled(host::tool_result("tune2fs"@, "tune2fs"@, run)),
                None => state,
            },
            (WritePhase::Normalizing, WriterReplyView::Host(r)) => match state.times {
                Some(times) => state.normalized(NormalizeTimestamps::after(times, r)),
                None => state,
            },
            (WritePhase::Measuring, WriterReplyView::Host(ReplyView::Stat(s))) => WriteView {
                stats: Ext4StatsView {
                    apparent_size: s.len,
                    actual_size: s.allocated,
                    ..state.stats
                },
                phase: WritePhase::Finished,
                ..state
            },
            (WritePhase::Measuring, WriterReplyView::Host(ReplyView::Failed(e))) => state.fail(
                ErrorView::Io(e),
            ),
            _ => state,
        }
    }

    fn request(&self) -> (request: Option<WriterRequest>) {
        let asked = match self.phase {
            WritePhase::Opening => Some(
                WriterRequest::Open {
                    path: path::copy_of(&self.out),
                    size: self.options.size.resolve(),
                    label: ext4::copy_label(&self.options.label),
                    uuid: self.options.uuid,
                    epoch: self.options.epoch_secs,
                    short_last_group: true,
                },
            ),
            WritePhase::Reading => Some(WriterRequest::NextEntry),
            WritePhase::Creating => match &self.current {
                Some(n) => Some(WriterRequest::Create(n.duplicate())),
                None => None,
            },
            WritePhase::Linking { at } => if at < self.pending.len() {
                Some(
                    WriterRequest::Link {
                        link: self.pending[at].link.clone(),
                        target: self.pending[at].target.clone(),
                    },
                )
            } else {
                None
            },
            WritePhase::Closing => Some(WriterRequest::Close),
            WritePhase::Journaling => {
                let step = finish::add_journal(&self.out);
                match step.request() {
                    Some(r) => Some(WriterRequest::Host(r)),
                    None => None,
                }
            },
            WritePhase::Normalizing => match &self.times {
                Some(times) => match times.request() {
                    Some(r) => Some(WriterRequest::Host(r)),
                    None => None,
                },
                None => None,
            },
            WritePhase::Measuring => Some(
                WriterRequest::Host(Request::Stat(path::copy_of(&self.out))),
            ),
            WritePhase::Finished | WritePhase::Failed => None,
        };
        // What is asked for, as it is stated.
        let ghost stated = asked->0@;
        asked
    }

    fn resume(self, reply: WriterReply) -> (next: WriteExt4) {
        // What was replied, as it is stated.
        let ghost said = reply@;
        let mut next = self;
        match (next.phase, reply) {
            (WritePhase::Opening, WriterReply::Done) => {
                next.phase = WritePhase::Reading;
            },
            (WritePhase::Reading, WriterReply::Entry(e)) => {
                if e.header.len() == entry::HEADER_LEN {
                    let decided = entry::decide(&e);
                    next.read(e, decided);
                }
            },
            (WritePhase::Reading, WriterReply::End) => {
                next.link_from(0);
            },
            (WritePhase::Creating, WriterReply::Done) => {
                next.created();
            },
            (WritePhase::Linking { at }, WriterReply::Done) => {
                if at < next.pending.len() {
                    next.stats.hardlinks = next.stats.hardlinks.wrapping_add(1);
                    next.link_from(at + 1);
                }
            },
            (WritePhase::Closing, WriterReply::Done) => {
                next.closed();
            },
            (WritePhase::Journaling, WriterReply::Host(Reply::Output(o))) => {
                next.journaled(Ok(o));
            },
            (WritePhase::Journaling, WriterReply::Host(Reply::Failed(e))) => {
                next.journaled(Err(e));
            },
            (WritePhase::Normalizing, WriterReply::Host(r)) => {
                return next.normalized(r);
            },
            (WritePhase::Measuring, WriterReply::Host(Reply::Stat(s))) => {
                next.stats.apparent_size = s.len;
                next.stats.actual_size = s.allocated;
                next.phase = WritePhase::Finished;
            },
            (WritePhase::Reading, WriterReply::Failed(e)) => {
                next.failure = Some(Error::Io(e));
                next.phase = WritePhase::Failed;
            },
            (WritePhase::Measuring, WriterReply::Host(Reply::Failed(e))) => {
                next.failure = Some(Error::Io(e));
                next.phase = WritePhase::Failed;
            },
            (
                WritePhase::Opening
                | WritePhase::Creating
                | WritePhase::Linking { .. }
                | WritePhase::Closing,
                WriterReply::Refused(s),
            ) => {
                next.failure = Some(Error::Ext4(s));
                next.phase = WritePhase::Failed;
            },
            _ => {},
        }
        next
    }
}

impl WriteExt4 {
    fn read(&mut self, e: TarEntry, decided: Result<Action, Error>)
        ensures
            final(self)@ == old(self)@.read(e@, entry::action_view(decided)),
    {
        let ghost before = self@;
        match decided {
            Err(err) => {
                self.failure = Some(err);
                self.phase = WritePhase::Failed;
            },
            Ok(Action::Skip) => {},
            Ok(Action::Create(n)) => {
                self.current = Some(n);
                self.phase = WritePhase::Creating;
            },
            Ok(Action::Link { link, target }) => {
                self.pending.push(PendingLink { link, target });
                assert(self@.pending =~= before.pending.push(
                    PendingLinkView { link: link@, target: target@ },
                ));
            },
            Ok(Action::Special) => {
                self.stats.skipped_special.push(e.path);
                assert(self@.stats.skipped_special =~= before.stats.skipped_special.push(e@.path));
            },
        }
    }

    fn created(&mut self)
        ensures
            final(self)@ == (match old(self)@.current {
                Some(n) => old(self)@.created(n),
                None => old(self)@,
            }),
    {
        match &self.current {
            Some(n) => {
                let size: u64 = n.size;
                match n.kind {
                    NodeKind::Directory => {
                        self.stats.dirs = self.stats.dirs.wrapping_add(1);
                    },
                    NodeKind::Symlink => {
                        self.stats.symlinks = self.stats.symlinks.wrapping_add(1);
                    },
                    NodeKind::File => {
                        self.stats.files = self.stats.files.wrapping_add(1);
                        self.stats.bytes_from_tar = self.stats.bytes_from_tar.wrapping_add(size);
                    },
                }
                self.current = None;
                self.phase = WritePhase::Reading;
            },
            None => {},
        }
    }

    fn link_from(&mut self, at: usize)
        ensures
            final(self)@ == old(self)@.link_from(at as int),
    {
        self.phase = if at < self.pending.len() {
            WritePhase::Linking { at }
        } else {
            WritePhase::Closing
        };
    }

    fn closed(&mut self)
        ensures
            final(self)@ == old(self)@.closed(),
    {
        let ghost skipped = self@.stats.skipped_special;
        let count: usize = self.stats.skipped_special.len();
        if count > 0 && self.options.strict_special_files {
            let limit: usize = if count > SAMPLE {
                SAMPLE
            } else {
                count
            };
            let mut sample: Vec<Vec<u8>> = Vec::new();
            let mut i: usize = 0;
            while i < limit
                invariant
                    i <= limit <= self.stats.skipped_special@.len(),
                    skipped == path::views(self.stats.skipped_special@),
                    path::views(sample@) =~= skipped.take(i as int),
                    *self == *old(self),
                decreases limit - i,
            {
                let ghost taken = path::views(sample@);
                sample.push(path::copy_of(&self.stats.skipped_special[i]));
                assert(path::views(sample@) =~= taken.push(skipped[i as int]));
                assert(skipped.take(i + 1) =~= skipped.take(i as int).push(skipped[i as int]));
                i = i + 1;
            }
            assert(skipped.take(skipped.len() as int) =~= skipped);
            self.failure = Some(Error::SpecialFiles { count, sample });
            self.phase = WritePhase::Failed;
        } else if self.options.journal {
            self.phase = WritePhase::Journaling;
        } else {
            self.phase = WritePhase::Measuring;
        }
    }

    fn journaled(&mut self, run: Result<ToolOutput, IoError>)
        ensures
            final(self)@ == old(self)@.journaled(
                host::tool_result("tune2fs"@, "tune2fs"@, host::run_view(run)),
            ),
    {
        match host::judge_tool("tune2fs", "tune2fs", run) {
            Ok(_) => {
                self.times = Some(
                    finish::normalize_timestamps(&self.out, self.options.epoch_secs),
                );
                self.phase = WritePhase::Normalizing;
            },
            Err(e) => {
                self.failure = Some(e);
                self.phase = WritePhase::Failed;
            },
        }
    }

    fn normalized(self, r: Reply) -> (next: WriteExt4)
        ensures
            next@ == (match self@.times {
                Some(times) => self@.normalized(NormalizeTimestamps::after(times, r@)),
                None => self@,
            }),
    {
        let WriteExt4 { out, options, stats, pending, current, times, phase, failure } = self;
        match times {
            None => WriteExt4 {
                out,
                options,
                stats,
                pending,
                current,
                times: None,
                phase,
                failure,
            },
            Some(times) => {
                let moved = times.resume(r);
                if moved.is_over() {
                    match moved.outcome() {
                        Some(Err(e)) => WriteExt4 {
                            out,
                            options,
                            stats,
                            pending,
                            current,
                            times: None,
                            phase: WritePhase::Failed,
                            failure: Some(e),
                        },
                        _ => WriteExt4 {
                            out,
                            options,
                            stats,
                            pending,
                            current,
                            times: None,
                            phase: WritePhase::Measuring,
                            failure,
                        },
                    }
                } else {
                    WriteExt4 {
                        out,
                        options,
                        stats,
                        pending,
                        current,
                        times: Some(moved),
                        phase,
                        failure,
                    }
                }
            },
        }
    }

    /// What went into the image, or why there is none; nothing while it is
    /// under way.
    pub fn outcome(self) -> (r: Option<Result<Ext4Stats, Error>>)
        ensures
            match r {
                Some(Ok(s)) => self@.outcome() == Some(Ok::<Ext4StatsView, ErrorView>(s@)),
                Some(Err(e)) => self@.outcome() == Some(Err::<Ext4StatsView, ErrorView>(e@)),
                None => self@.outcome() is None,
            },
    {
        match self.phase {
            WritePhase::Finished => Some(Ok(self.stats)),
            WritePhase::Failed => match self.failure {
                Some(e) => Some(Err(e)),
                None => None,
            },
            _ => None,
        }
    }
}

/// Writes an archive as the image `out`.
pub fn write_ext4_from_tar(out: &[u8], options: &Ext4Options) -> (p: WriteExt4)
    ensures
        p@ == WriteView::start(out@, options@),
{
    let p = WriteExt4 {
        out: path::copy_of(out),
        options: options.duplicate(),
        stats: Ext4Stats::default(),
        pending: Vec::new(),
        current: None,
        times: None,
        phase: WritePhase::Opening,
        failure: None,
    };
    assert(p@ =~= WriteView::start(out@, options@));
    p
}

// ---------------------------------------------------------------------------
// What every writing keeps to
// ---------------------------------------------------------------------------
/// Whether all entries have been read.
pub open spec fn past_entries(s: WriteView) -> bool {
    match s.phase {
        WritePhase::Opening | WritePhase::Reading | WritePhase::Creating => false,
        _ => true,
    }
}

/// Once the entries are read, no inode is created any more: hard links come
/// when everything that they can lead to is there.
pub proof fn lemma_links_come_last(s: WriteView, reply: WriterReplyView)
    requires
        past_entries(s),
    ensures
        past_entries(WriteExt4::after(s, reply)),
        !(WriteExt4::wants(WriteExt4::after(s, reply)) matches Some(WriterRequestView::Create(_))),
        !(WriteExt4::wants(WriteExt4::after(s, reply)) matches Some(WriterRequestView::NextEntry)),
{
}

/// The time of day has no part in an image: it is never asked for.
pub proof fn lemma_the_clock_is_never_asked(s: WriteView)
    ensures
        WriteExt4::wants(s) != Some(WriterRequestView::Host(RequestView::Now)),
{
}

} // verus!
