//! What is done to a finished image with the tools of e2fsprogs.
//!
//! The writer makes no journal, but a guest needs one: its root filesystem
//! outlives an unclean stop. So a journal is added, and the times that doing
//! so leaves behind are set back.

use crate::error::{Error, ErrorView, IoErrorView, IoKind};
use crate::host::{
    self, Reply, ReplyView, Request, RequestView, ToolCall, ToolCallView, ToolOutput,
    ToolOutputView,
};
use crate::key;
use crate::number;
use crate::path;
use crate::procedure::Procedure;
use crate::text;
use vstd::prelude::*;
use vstd::string::*;
use vstd::utf8::*;

verus! {

/// The name of a file as the argument of a tool.
pub open spec fn file_argument(image: Seq<u8>) -> Seq<u8> {
    encode_utf8(path::utf8_lossy(image))
}

/// The run of a tool with one option on a file.
pub open spec fn tool_on(program: Seq<char>, option: Seq<char>, image: Seq<u8>) -> ToolCallView {
    ToolCallView {
        program,
        args: seq![encode_utf8(option), file_argument(image)],
        input: None,
    }
}

fn run_on(program: &'static str, option: &str, image: &[u8]) -> (call: ToolCall)
    ensures
        call@ == tool_on(program@, option@, image@),
{
    let name = path::lossy(image);
    let mut args: Vec<Vec<u8>> = Vec::new();
    args.push(path::bytes_of(option));
    args.push(path::bytes_of(name.as_str()));
    assert(path::views(args@) =~= seq![encode_utf8(option@), file_argument(image@)]);
    ToolCall { program, args, input: None }
}

/// One run of a tool whose output is wanted.
#[derive(Debug)]
pub struct ToolRun {
    program: &'static str,
    option: &'static str,
    image: Vec<u8>,
    done: Option<Result<String, Error>>,
}

/// A [`ToolRun`] as a mathematical value.
#[verifier::ext_equal]
pub struct ToolRunView {
    pub program: Seq<char>,
    pub option: Seq<char>,
    pub image: Seq<u8>,
    pub done: Option<Result<Seq<char>, ErrorView>>,
}

impl View for ToolRun {
    type V = ToolRunView;

    closed spec fn view(&self) -> ToolRunView {
        ToolRunView {
            program: self.program@,
            option: self.option@,
            image: self.image@,
            done: match self.done {
                Some(r) => Some(host::output_view(r)),
                None => None,
            },
        }
    }
}

impl Procedure for ToolRun {
    type Request = Request;

    type Reply = Reply;

    open spec fn wants(state: ToolRunView) -> Option<RequestView> {
        match state.done {
            None => Some(RequestView::Tool(tool_on(state.program, state.option, state.image))),
            Some(_) => None,
        }
    }

    open spec fn after(state: ToolRunView, reply: ReplyView) -> ToolRunView {
        match (state.done, host::run_of(reply)) {
            (None, Some(run)) => ToolRunView {
                done: Some(host::tool_result(state.program, state.program, run)),
                ..state
            },
            _ => state,
        }
    }

    fn request(&self) -> (request: Option<Request>) {
        match self.done {
            None => {
                let r = Request::Tool(run_on(self.program, self.option, &self.image));
                // What is asked for, as it is stated.
                let ghost asked = r@;
                Some(r)
            },
            Some(_) => None,
        }
    }

    fn resume(self, reply: Reply) -> (next: ToolRun) {
        // What was replied, as it is stated.
        let ghost said = reply@;
        let mut next = self;
        if next.done.is_none() {
            match reply {
                Reply::Output(o) => {
                    next.done = Some(host::judge_tool(next.program, next.program, Ok(o)));
                },
                Reply::Failed(e) => {
                    next.done = Some(host::judge_tool(next.program, next.program, Err(e)));
                },
                _ => {},
            }
        }
        next
    }
}

impl ToolRun {
    /// What the tool printed, or why it failed; nothing while it is under way.
    pub fn outcome(self) -> (r: Option<Result<String, Error>>)
        ensures
            match r {
                Some(r) => self@.done == Some(host::output_view(r)),
                None => self@.done is None,
            },
    {
        self.done
    }
}

/// Adds a journal to an image in place, which also shows that the tools accept
/// it.
pub fn add_journal(image: &[u8]) -> (p: ToolRun)
    ensures
        p@ == (ToolRunView { program: "tune2fs"@, option: "-j"@, image: image@, done: None }),
{
    ToolRun { program: "tune2fs", option: "-j", image: path::copy_of(image), done: None }
}

/// Describes an image.
pub fn dump_superblock(image: &[u8]) -> (p: ToolRun)
    ensures
        p@ == (ToolRunView { program: "dumpe2fs"@, option: "-h"@, image: image@, done: None }),
{
    ToolRun { program: "dumpe2fs", option: "-h", image: path::copy_of(image), done: None }
}

/// The position of the line that lists the features, or the number of lines.
pub open spec fn feature_line(lines: Seq<Seq<char>>) -> int
    decreases lines.len(),
{
    if lines.len() == 0 || "Filesystem features:"@.is_prefix_of(lines[0]) {
        0
    } else {
        1 + feature_line(lines.drop_first())
    }
}

/// The features that the description of an image lists: the words behind the
/// name of the first such line, none if there is no such line.
pub open spec fn listed_features(description: Seq<char>) -> Seq<Seq<char>> {
    let lines = text::lines(description);
    let at = feature_line(lines);
    if at < lines.len() {
        text::words(lines[at].skip("Filesystem features:"@.len() as int))
    } else {
        seq![]
    }
}

/// The features that the description of an image lists.
pub fn features(description: &str) -> (out: Vec<String>)
    ensures
        text::views(out@) == listed_features(description@),
{
    let lines = text::lines_of(description);
    let ghost all = text::views(lines@);
    let mut i: usize = 0;
    assert(all.skip(0) =~= all);
    while i < lines.len()
        invariant
            i <= lines@.len(),
            all == text::views(lines@),
            all == text::lines(description@),
            feature_line(all) == i + feature_line(all.skip(i as int)),
        decreases lines@.len() - i,
    {
        let ghost rest = all.skip(i as int);
        assert(rest[0] == lines@[i as int]@);
        let line = lines[i].as_str();
        if text::starts_with(line, "Filesystem features:") {
            assert(feature_line(rest) == 0);
            let chars = text::chars_of(line);
            let name = text::chars_of("Filesystem features:");
            let rest_text = text::string_of(&chars, name.len(), chars.len());
            assert(rest_text@ =~= line@.skip("Filesystem features:"@.len() as int));
            assert(all[i as int] == line@);
            return text::words_of(rest_text.as_str());
        }
        assert(rest.drop_first() =~= all.skip(i + 1));
        i = i + 1;
    }
    let out: Vec<String> = Vec::new();
    assert(text::views(out@) =~= seq![]);
    out
}

/// What a check of an image comes to. Only the exit code zero is a success:
/// one that says that errors were corrected is not.
pub open spec fn fsck_result(run: Result<ToolOutputView, IoErrorView>) -> Result<
    Seq<char>,
    ErrorView,
> {
    match run {
        Err(e) => if e.kind == IoKind::NotFound {
            Err(ErrorView::ToolMissing { tool: "e2fsck"@ })
        } else {
            Err(ErrorView::Io(e))
        },
        Ok(o) => if o.code == Some(0i32) {
            Ok(path::utf8_lossy(o.stdout))
        } else {
            Err(
                ErrorView::ToolFailed {
                    tool: "e2fsck"@,
                    status: o.status,
                    stderr: text::trim(
                        text::trim(path::utf8_lossy(o.stdout)) + "\n"@ + text::trim(
                            path::utf8_lossy(o.stderr),
                        ),
                    ),
                },
            )
        },
    }
}

/// The check of an image that changes nothing.
pub fn fsck_call(image: &[u8]) -> (call: ToolCall)
    ensures
        call@ == tool_on("e2fsck"@, "-fn"@, image@),
{
    run_on("e2fsck", "-fn", image)
}

/// What the check of an image comes to, see [`fsck_result`].
pub fn judge_fsck(run: Result<ToolOutput, crate::error::IoError>) -> (r: Result<String, Error>)
    ensures
        host::output_view(r) == fsck_result(host::run_view(run)),
{
    match run {
        Err(e) => match e.kind {
            IoKind::NotFound => Err(Error::ToolMissing { tool: "e2fsck" }),
            _ => Err(Error::Io(e)),
        },
        Ok(o) => {
            let stdout = path::lossy(&o.stdout);
            let clean = match o.code {
                Some(c) => c == 0,
                None => false,
            };
            if clean {
                Ok(stdout)
            } else {
                let stderr = path::lossy(&o.stderr);
                let said = text::trimmed(stdout.as_str());
                let warned = text::trimmed(stderr.as_str());
                let head = text::concat(said.as_str(), "\n");
                let both = text::concat(head.as_str(), warned.as_str());
                Err(
                    Error::ToolFailed {
                        tool: "e2fsck",
                        status: o.status,
                        stderr: text::trimmed(both.as_str()),
                    },
                )
            }
        },
    }
}

/// Checking an image.
#[derive(Debug)]
pub struct Fsck {
    image: Vec<u8>,
    done: Option<Result<String, Error>>,
}

/// An [`Fsck`] as a mathematical value.
#[verifier::ext_equal]
pub struct FsckView {
    pub image: Seq<u8>,
    pub done: Option<Result<Seq<char>, ErrorView>>,
}

impl View for Fsck {
    type V = FsckView;

    closed spec fn view(&self) -> FsckView {
        FsckView {
            image: self.image@,
            done: match self.done {
                Some(r) => Some(host::output_view(r)),
                None => None,
            },
        }
    }
}

impl Procedure for Fsck {
    type Request = Request;

    type Reply = Reply;

    open spec fn wants(state: FsckView) -> Option<RequestView> {
        match state.done {
            None => Some(RequestView::Tool(tool_on("e2fsck"@, "-fn"@, state.image))),
            Some(_) => None,
        }
    }

    open spec fn after(state: FsckView, reply: ReplyView) -> FsckView {
        match (state.done, host::run_of(reply)) {
            (None, Some(run)) => FsckView { done: Some(fsck_result(run)), ..state },
            _ => state,
        }
    }

    fn request(&self) -> (request: Option<Request>) {
        match self.done {
            None => Some(Request::Tool(fsck_call(&self.image))),
            Some(_) => None,
        }
    }

    fn resume(self, reply: Reply) -> (next: Fsck) {
        let mut next = self;
        if next.done.is_none() {
            match reply {
                Reply::Output(o) => {
                    next.done = Some(judge_fsck(Ok(o)));
                },
                Reply::Failed(e) => {
                    next.done = Some(judge_fsck(Err(e)));
                },
                _ => {},
            }
        }
        next
    }
}

impl Fsck {
    /// What the check printed, or what is wrong; nothing while it is under way.
    pub fn outcome(self) -> (r: Option<Result<String, Error>>)
        ensures
            match r {
                Some(r) => self@.done == Some(host::output_view(r)),
                None => self@.done is None,
            },
    {
        self.done
    }
}

/// Checks an image without changing it.
pub fn fsck(image: &[u8]) -> (p: Fsck)
    ensures
        p@ == (FsckView { image: image@, done: None }),
{
    Fsck { image: path::copy_of(image), done: None }
}

// ---------------------------------------------------------------------------
// Times
// ---------------------------------------------------------------------------
/// Where the superblock starts.
pub const SB_BASE: u64 = 1024;

/// The offset of the time of the last mount in the superblock.
pub const SB_MTIME: u64 = 0x2C;

/// The offset of the time of the last write.
pub const SB_WTIME: u64 = 0x30;

/// The offset of the time of the last check.
pub const SB_LASTCHECK: u64 = 0x40;

/// The line that sets one time of the inode of the journal.
pub open spec fn time_line(field: Seq<char>, epoch: u32) -> Seq<char> {
    "sif <8> "@ + field + " @"@ + number::decimal(epoch as nat) + "\n"@
}

/// What `debugfs` is told to do.
pub open spec fn time_script(epoch: u32) -> Seq<char> {
    time_line("atime"@, epoch) + time_line("ctime"@, epoch) + time_line("mtime"@, epoch)
        + time_line("crtime"@, epoch) + "quit\n"@
}

fn time_line_of(field: &str, epoch: u32) -> (s: String)
    ensures
        s@ == time_line(field@, epoch),
{
    let mut s = text::concat("sif <8> ", field);
    s.append(" @");
    let n = number::decimal_of(epoch as u64);
    s.append(n.as_str());
    s.append("\n");
    s
}

fn time_script_of(epoch: u32) -> (s: String)
    ensures
        s@ == time_script(epoch),
{
    let mut s = time_line_of("atime", epoch);
    let ctime = time_line_of("ctime", epoch);
    s.append(ctime.as_str());
    let mtime = time_line_of("mtime", epoch);
    s.append(mtime.as_str());
    let crtime = time_line_of("crtime", epoch);
    s.append(crtime.as_str());
    s.append("quit\n");
    s
}

/// The run of `debugfs` that sets the times of the inode of the journal.
pub open spec fn debugfs_call(image: Seq<u8>, epoch: u32) -> ToolCallView {
    ToolCallView {
        program: "debugfs"@,
        args: seq![encode_utf8("-w"@), image],
        input: Some(encode_utf8(time_script(epoch))),
    }
}

/// How far a [`NormalizeTimestamps`] has come.
#[derive(Debug, Clone, Copy, PartialEq, Eq, Structural)]
pub enum NormalizePhase {
    /// Setting the times of the inode of the journal.
    Scripting,
    /// Does the superblock have a checksum?
    Describing,
    /// Setting the times of the superblock.
    Patching,
    Finished,
    Failed,
}

/// Setting the times that adding a journal has left in an image to a fixed
/// one, so that the same input gives the same image.
///
/// The times of the superblock are written directly, since `debugfs` sets them
/// again whenever it closes an image. A superblock with a checksum is left
/// alone: writing to it would break it.
#[derive(Debug)]
pub struct NormalizeTimestamps {
    image: Vec<u8>,
    epoch: u32,
    phase: NormalizePhase,
    failure: Option<Error>,
}

/// A [`NormalizeTimestamps`] as a mathematical value.
#[verifier::ext_equal]
pub struct NormalizeView {
    pub image: Seq<u8>,
    pub epoch: u32,
    pub phase: NormalizePhase,
    pub failure: Option<ErrorView>,
}

impl View for NormalizeTimestamps {
    type V = NormalizeView;

    closed spec fn view(&self) -> NormalizeView {
        NormalizeView {
            image: self.image@,
            epoch: self.epoch,
            phase: self.phase,
            failure: match self.failure {
                Some(e) => Some(e@),
                None => None,
            },
        }
    }
}

/// Whether some words hold the name of the checksum feature.
pub open spec fn has_checksum(features: Seq<Seq<char>>) -> bool {
    features.contains("metadata_csum"@)
}

fn holds_checksum(features: &[String]) -> (r: bool)
    ensures
        r == has_checksum(text::views(features@)),
{
    let ghost all = text::views(features@);
    let mut i: usize = 0;
    while i < features.len()
        invariant
            i <= features@.len(),
            all == text::views(features@),
            forall|j: int| 0 <= j < i ==> #[trigger] all[j] != "metadata_csum"@,
        decreases features@.len() - i,
    {
        assert(all[i as int] == features@[i as int]@);
        if text::same(features[i].as_str(), "metadata_csum") {
            return true;
        }
        i = i + 1;
    }
    false
}

impl NormalizeView {
    /// Before the first step.
    pub open spec fn start(image: Seq<u8>, epoch: u32) -> NormalizeView {
        NormalizeView { image, epoch, phase: NormalizePhase::Scripting, failure: None }
    }

    pub open spec fn to(self, phase: NormalizePhase) -> NormalizeView {
        NormalizeView { phase, ..self }
    }

    pub open spec fn fail(self, e: ErrorView) -> NormalizeView {
        NormalizeView { phase: NormalizePhase::Failed, failure: Some(e), ..self }
    }

    /// What came of it.
    pub open spec fn outcome(self) -> Option<Result<(), ErrorView>> {
        match (self.failure, self.phase) {
            (Some(e), _) => Some(Err(e)),
            (None, NormalizePhase::Finished) => Some(Ok(())),
            _ => None,
        }
    }
}

impl Procedure for NormalizeTimestamps {
    type Request = Request;

    type Reply = Reply;

    open spec fn wants(state: NormalizeView) -> Option<RequestView> {
        match state.phase {
            NormalizePhase::Scripting => Some(
                RequestView::Tool(debugfs_call(state.image, state.epoch)),
            ),
            NormalizePhase::Describing => Some(
                RequestView::Tool(tool_on("dumpe2fs"@, "-h"@, state.image)),
            ),
            NormalizePhase::Patching => Some(
                RequestView::Patch {
                    path: state.image,
                    offsets: seq![
                        (SB_BASE + SB_MTIME) as u64,
                        (SB_BASE + SB_WTIME) as u64,
                        (SB_BASE + SB_LASTCHECK) as u64,
                    ],
                    bytes: key::le32(state.epoch),
                },
            ),
            NormalizePhase::Finished | NormalizePhase::Failed => None,
        }
    }

    open spec fn after(state: NormalizeView, reply: ReplyView) -> NormalizeView {
        match (state.phase, reply) {
            // Whether the script worked does not matter.
            (NormalizePhase::Scripting, ReplyView::Output(_)) => state.to(
                NormalizePhase::Describing,
            ),
            (NormalizePhase::Scripting, ReplyView::Failed(e)) => if e.kind == IoKind::NotFound {
                state.fail(ErrorView::ToolMissing { tool: "debugfs"@ })
            } else {
                state.fail(ErrorView::Io(e))
            },
            (NormalizePhase::Describing, _) => match host::run_of(reply) {
                Some(run) => match host::tool_result("dumpe2fs"@, "dumpe2fs"@, run) {
                    Ok(description) => if has_checksum(listed_features(description)) {
                        state.to(NormalizePhase::Finished)
                    } else {
                        state.to(NormalizePhase::Patching)
                    },
                    Err(e) => state.fail(e),
                },
                None => state,
            },
            (NormalizePhase::Patching, ReplyView::Done) => state.to(NormalizePhase::Finished),
            (NormalizePhase::Patching, ReplyView::Failed(e)) => state.fail(ErrorView::Io(e)),
            _ => state,
        }
    }

    fn request(&self) -> (request: Option<Request>) {
        match self.phase {
            NormalizePhase::Scripting => {
                let script = time_script_of(self.epoch);
                let mut args: Vec<Vec<u8>> = Vec::new();
                args.push(path::bytes_of("-w"));
                args.push(path::copy_of(&self.image));
                assert(path::views(args@) =~= seq![encode_utf8("-w"@), self.image@]);
                let r = Request::Tool(
                    ToolCall {
                        program: "debugfs",
                        args,
                        input: Some(path::bytes_of(script.as_str())),
                    },
                );
                // What is asked for, as it is stated.
                let ghost asked = r@;
                Some(r)
            },
            NormalizePhase::Describing => Some(
                Request::Tool(run_on("dumpe2fs", "-h", &self.image)),
            ),
            NormalizePhase::Patching => {
                let mut bytes: Vec<u8> = Vec::new();
                key::push_le32(&mut bytes, self.epoch);
                assert(bytes@ =~= key::le32(self.epoch));
                let mut offsets: Vec<u64> = Vec::new();
                offsets.push(SB_BASE + SB_MTIME);
                offsets.push(SB_BASE + SB_WTIME);
                offsets.push(SB_BASE + SB_LASTCHECK);
                assert(offsets@ =~= seq![
                    (SB_BASE + SB_MTIME) as u64,
                    (SB_BASE + SB_WTIME) as u64,
                    (SB_BASE + SB_LASTCHECK) as u64,
                ]);
                Some(Request::Patch { path: path::copy_of(&self.image), offsets, bytes })
            },
            NormalizePhase::Finished | NormalizePhase::Failed => None,
        }
    }

    fn resume(self, reply: Reply) -> (next: NormalizeTimestamps) {
        // What was replied, as it is stated.
        let ghost said = reply@;
        let mut next = self;
        match (next.phase, reply) {
            (NormalizePhase::Scripting, Reply::Output(_)) => {
                next.phase = NormalizePhase::Describing;
            },
            (NormalizePhase::Scripting, Reply::Failed(e)) => {
                next.failure = Some(
                    match e.kind {
                        IoKind::NotFound => Error::ToolMissing { tool: "debugfs" },
                        _ => Error::Io(e),
                    },
                );
                next.phase = NormalizePhase::Failed;
            },
            (NormalizePhase::Describing, Reply::Output(o)) => {
                next.described(Ok(o));
            },
            (NormalizePhase::Describing, Reply::Failed(e)) => {
                next.described(Err(e));
            },
            (NormalizePhase::Patching, Reply::Done) => {
                next.phase = NormalizePhase::Finished;
            },
            (NormalizePhase::Patching, Reply::Failed(e)) => {
                next.failure = Some(Error::Io(e));
                next.phase = NormalizePhase::Failed;
            },
            _ => {},
        }
        next
    }
}

impl NormalizeTimestamps {
    fn described(&mut self, run: Result<ToolOutput, crate::error::IoError>)
        ensures
            final(self)@ == (match host::tool_result(
                "dumpe2fs"@,
                "dumpe2fs"@,
                host::run_view(run),
            ) {
                Ok(description) => if has_checksum(listed_features(description)) {
                    old(self)@.to(NormalizePhase::Finished)
                } else {
                    old(self)@.to(NormalizePhase::Patching)
                },
                Err(e) => old(self)@.fail(e),
            }),
    {
        match host::judge_tool("dumpe2fs", "dumpe2fs", run) {
            Ok(description) => {
                let found = features(description.as_str());
                self.phase = if holds_checksum(&found) {
                    NormalizePhase::Finished
                } else {
                    NormalizePhase::Patching
                };
            },
            Err(e) => {
                self.failure = Some(e);
                self.phase = NormalizePhase::Failed;
            },
        }
    }

    /// What came of it; nothing while it is under way.
    pub fn outcome(self) -> (r: Option<Result<(), Error>>)
        ensures
            match r {
                Some(Ok(_)) => self@.outcome() == Some(Ok::<(), ErrorView>(())),
                Some(Err(e)) => self@.outcome() == Some(Err::<(), ErrorView>(e@)),
                None => self@.outcome() is None,
            },
    {
        match self.failure {
            Some(e) => Some(Err(e)),
            None => match self.phase {
                NormalizePhase::Finished => Some(Ok(())),
                _ => None,
            },
        }
    }

    /// Whether it has come to an end.
    pub fn is_over(&self) -> (r: bool)
        ensures
            r == (self@.outcome() is Some),
    {
        let finished = match self.phase {
            NormalizePhase::Finished => true,
            _ => false,
        };
        finished || self.failure.is_some()
    }
}

/// Sets the times in an image to which a journal was added.
pub fn normalize_timestamps(image: &[u8], epoch: u32) -> (p: NormalizeTimestamps)
    ensures
        p@ == NormalizeView::start(image@, epoch),
{
    NormalizeTimestamps {
        image: path::copy_of(image),
        epoch,
        phase: NormalizePhase::Scripting,
        failure: None,
    }
}

/// A superblock with a checksum is never written to.
pub proof fn lemma_checksummed_superblock_is_kept(state: NormalizeView, reply: ReplyView)
    requires
        state.phase == NormalizePhase::Describing,
        state.failure is None,
        host::run_of(reply) matches Some(run) && host::tool_result(
            "dumpe2fs"@,
            "dumpe2fs"@,
            run,
        ) matches Ok(description) && has_checksum(listed_features(description)),
    ensures
        NormalizeTimestamps::wants(NormalizeTimestamps::after(state, reply)) is None,
        NormalizeTimestamps::after(state, reply).outcome() == Some(Ok::<(), ErrorView>(())),
{
}

/// The features are the words behind the name of the line that lists them, the
/// first such line; without one there are none.
pub proof fn lemma_features_are_the_words_of_their_line(description: Seq<char>, at: int)
    ensures
        ({
            let lines = text::lines(description);
            let name = "Filesystem features:"@;
            &&& 0 <= at < lines.len() && name.is_prefix_of(lines[at]) && (forall|i: int|
                0 <= i < at ==> !name.is_prefix_of(#[trigger] lines[i])) ==> listed_features(
                description,
            ) == text::words(lines[at].skip(20))
            &&& (forall|i: int| 0 <= i < lines.len() ==> !name.is_prefix_of(#[trigger] lines[i]))
                ==> listed_features(description) == Seq::<Seq<char>>::empty()
        }),
{
    reveal_strlit("Filesystem features:");
    let lines = text::lines(description);
    if at <= lines.len() {
        lemma_feature_line(lines, at);
    }
    lemma_feature_line(lines, lines.len() as int);
}

proof fn lemma_feature_line(lines: Seq<Seq<char>>, at: int)
    requires
        at <= lines.len(),
    ensures
        0 <= at && (at < lines.len() ==> "Filesystem features:"@.is_prefix_of(lines[at])) && (
        forall|i: int|
            0 <= i < at ==> !"Filesystem features:"@.is_prefix_of(#[trigger] lines[i]))
            ==> feature_line(lines) == at,
    decreases lines.len(),
{
    let name = "Filesystem features:"@;
    if 0 <= at && (at < lines.len() ==> name.is_prefix_of(lines[at])) && (forall|i: int|
        0 <= i < at ==> !name.is_prefix_of(#[trigger] lines[i])) {
        if at > 0 {
            let rest = lines.drop_first();
            assert(!name.is_prefix_of(lines[0]));
            assert forall|i: int| 0 <= i < at - 1 implies !name.is_prefix_of(
                #[trigger] rest[i],
            ) by {
                assert(rest[i] == lines[i + 1]);
            }
            if at < lines.len() {
                assert(rest[at - 1] == lines[at]);
            }
            lemma_feature_line(rest, at - 1);
        }
    }
}

} // verus!
