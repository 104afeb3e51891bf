//! The vocabulary in which the library asks for files, tools and the time.

use crate::error::{Error, ErrorView, IoError, IoErrorView, IoKind};
use crate::path;
use crate::store::{Entry, EntryView};
use crate::text;
use vstd::prelude::*;

verus! {

/// What is known of a file.
#[derive(Debug, Clone, Copy, PartialEq, Eq, Structural)]
pub struct FileStat {
    /// Apparent size in bytes.
    pub len: u64,
    /// Bytes that the file occupies, see [`allocated_bytes`].
    pub allocated: u64,
    /// Number of names of the file.
    pub links: u64,
    /// The file, on its device.
    pub inode: u64,
    pub device: u64,
}

impl FileStat {
    /// Whether two results of a look at a file are about the same file.
    pub open spec fn same_file(self, other: FileStat) -> bool {
        self.inode == other.inode && self.device == other.device
    }

    /// Whether two results of a look at a file are about the same file.
    pub fn is_same_file(self, other: FileStat) -> (r: bool)
        ensures
            r == self.same_file(other),
    {
        self.inode == other.inode && self.device == other.device
    }
}

/// The bytes that a number of 512-byte blocks holds.
pub fn allocated_bytes(blocks: u64) -> (bytes: u64)
    ensures
        bytes == blocks.wrapping_mul(512),
        blocks * 512 <= u64::MAX ==> bytes == blocks * 512,
{
    blocks.wrapping_mul(512)
}

/// The free bytes of a filesystem with so many free blocks of a size.
pub fn free_bytes(blocks: u64, block_size: u64) -> (bytes: u64)
    ensures
        bytes == blocks.wrapping_mul(block_size),
        blocks * block_size <= u64::MAX ==> bytes == blocks * block_size,
{
    blocks.wrapping_mul(block_size)
}

/// A run of an outside program.
#[derive(Debug)]
pub struct ToolCall {
    pub program: &'static str,
    pub args: Vec<Vec<u8>>,
    /// What the program reads from its standard input.
    pub input: Option<Vec<u8>>,
}

/// A [`ToolCall`] as a mathematical value.
pub struct ToolCallView {
    pub program: Seq<char>,
    pub args: Seq<Seq<u8>>,
    pub input: Option<Seq<u8>>,
}

impl View for ToolCall {
    type V = ToolCallView;

    open spec fn view(&self) -> ToolCallView {
        ToolCallView {
            program: self.program@,
            args: path::views(self.args@),
            input: match self.input {
                Some(b) => Some(b@),
                None => None,
            },
        }
    }
}

/// What a program left behind.
#[derive(Debug)]
pub struct ToolOutput {
    /// Whether the exit status says success.
    pub success: bool,
    /// The exit code, unless a signal ended the program.
    pub code: Option<i32>,
    /// The exit status in words.
    pub status: String,
    pub stdout: Vec<u8>,
    pub stderr: Vec<u8>,
}

/// A [`ToolOutput`] as a mathematical value.
pub struct ToolOutputView {
    pub success: bool,
    pub code: Option<i32>,
    pub status: Seq<char>,
    pub stdout: Seq<u8>,
    pub stderr: Seq<u8>,
}

impl View for ToolOutput {
    type V = ToolOutputView;

    open spec fn view(&self) -> ToolOutputView {
        ToolOutputView {
            success: self.success,
            code: self.code,
            status: self.status@,
            stdout: self.stdout@,
            stderr: self.stderr@,
        }
    }
}

/// One thing to do outside.
#[derive(Debug)]
pub enum Request {
    /// Is there something of this name? Answer: `Flag`.
    Exists(Vec<u8>),
    /// Is this the name of a regular file? Answer: `Flag`.
    IsFile(Vec<u8>),
    /// Create a directory and those above it.
    MakeDir(Vec<u8>),
    /// Create the directory that is to hold this name, and those above it.
    MakeParent(Vec<u8>),
    Rename { from: Vec<u8>, to: Vec<u8> },
    HardLink { from: Vec<u8>, to: Vec<u8> },
    Remove(Vec<u8>),
    SetMode { path: Vec<u8>, mode: u32 },
    /// Flush a file to its device.
    Sync(Vec<u8>),
    /// Look at a file. Answer: `Stat`.
    Stat(Vec<u8>),
    /// Copy to a new file, skipping holes. Answer: `Count`, the bytes written.
    SparseCopy { from: Vec<u8>, to: Vec<u8> },
    /// Copy the whole contents. Answer: `Count`.
    PlainCopy { from: Vec<u8>, to: Vec<u8> },
    /// Try to share blocks with a new file. Answer: `Cloned`.
    Clone { from: Vec<u8>, to: Vec<u8> },
    /// Read a stored record. Answer: `Entry`.
    ReadEntry(Vec<u8>),
    WriteEntry { path: Vec<u8>, entry: Entry },
    /// Read every record of a directory. Answer: `Entries`.
    ListEntries(Vec<u8>),
    WriteFile { path: Vec<u8>, bytes: Vec<u8> },
    /// Write the same bytes over a file at each of some offsets, and flush it.
    Patch { path: Vec<u8>, offsets: Vec<u64>, bytes: Vec<u8> },
    /// A fresh directory. Answer: `Place`.
    MakeTempDir,
    /// Seconds since the epoch. Answer: `Time`.
    Now,
    /// Free bytes on the filesystem of this name. Answer: `Space`.
    FreeSpace(Vec<u8>),
    /// Run a program. Answer: `Output`.
    Tool(ToolCall),
    /// Run `zfs` with these arguments. Answer: `Zfs`.
    Zfs(Vec<String>),
}

/// A [`Request`] as a mathematical value.
pub enum RequestView {
    Exists(Seq<u8>),
    IsFile(Seq<u8>),
    MakeDir(Seq<u8>),
    MakeParent(Seq<u8>),
    Rename { from: Seq<u8>, to: Seq<u8> },
    HardLink { from: Seq<u8>, to: Seq<u8> },
    Remove(Seq<u8>),
    SetMode { path: Seq<u8>, mode: u32 },
    Sync(Seq<u8>),
    Stat(Seq<u8>),
    SparseCopy { from: Seq<u8>, to: Seq<u8> },
    PlainCopy { from: Seq<u8>, to: Seq<u8> },
    Clone { from: Seq<u8>, to: Seq<u8> },
    ReadEntry(Seq<u8>),
    WriteEntry { path: Seq<u8>, entry: EntryView },
    ListEntries(Seq<u8>),
    WriteFile { path: Seq<u8>, bytes: Seq<u8> },
    Patch { path: Seq<u8>, offsets: Seq<u64>, bytes: Seq<u8> },
    MakeTempDir,
    Now,
    FreeSpace(Seq<u8>),
    Tool(ToolCallView),
    Zfs(Seq<Seq<char>>),
}

impl View for Request {
    type V = RequestView;

    open spec fn view(&self) -> RequestView {
        match self {
            Request::Exists(p) => RequestView::Exists(p@),
            Request::IsFile(p) => RequestView::IsFile(p@),
            Request::MakeDir(p) => RequestView::MakeDir(p@),
            Request::MakeParent(p) => RequestView::MakeParent(p@),
            Request::Rename { from, to } => RequestView::Rename { from: from@, to: to@ },
            Request::HardLink { from, to } => RequestView::HardLink { from: from@, to: to@ },
            Request::Remove(p) => RequestView::Remove(p@),
            Request::SetMode { path, mode } => RequestView::SetMode { path: path@, mode: *mode },
            Request::Sync(p) => RequestView::Sync(p@),
            Request::Stat(p) => RequestView::Stat(p@),
            Request::SparseCopy { from, to } => RequestView::SparseCopy { from: from@, to: to@ },
            Request::PlainCopy { from, to } => RequestView::PlainCopy { from: from@, to: to@ },
            Request::Clone { from, to } => RequestView::Clone { from: from@, to: to@ },
            Request::ReadEntry(p) => RequestView::ReadEntry(p@),
            Request::WriteEntry { path, entry } => RequestView::WriteEntry {
                path: path@,
                entry: entry@,
            },
            Request::ListEntries(p) => RequestView::ListEntries(p@),
            Request::WriteFile { path, bytes } => RequestView::WriteFile {
                path: path@,
                bytes: bytes@,
            },
            Request::Patch { path, offsets, bytes } => RequestView::Patch {
                path: path@,
                offsets: offsets@,
                bytes: bytes@,
            },
            Request::MakeTempDir => RequestView::MakeTempDir,
            Request::Now => RequestView::Now,
            Request::FreeSpace(p) => RequestView::FreeSpace(p@),
            Request::Tool(call) => RequestView::Tool(call@),
            Request::Zfs(args) => RequestView::Zfs(text::views(args@)),
        }
    }
}

/// What came of a request.
#[derive(Debug)]
pub enum Reply {
    Done,
    Failed(IoError),
    Flag(bool),
    Stat(FileStat),
    Count(u64),
    /// The bytes of the clone, or nothing where the filesystem declined.
    Cloned(Option<u64>),
    Entry(Entry),
    /// One item for each name in the directory; nothing where it does not hold
    /// a readable record.
    Entries(Vec<Option<Entry>>),
    Place(Vec<u8>),
    Time(u64),
    Space(Option<u64>),
    Output(ToolOutput),
    Zfs(Result<String, Error>),
}

/// A [`Reply`] as a mathematical value.
pub enum ReplyView {
    Done,
    Failed(IoErrorView),
    Flag(bool),
    Stat(FileStat),
    Count(u64),
    Cloned(Option<u64>),
    Entry(EntryView),
    Entries(Seq<Option<EntryView>>),
    Place(Seq<u8>),
    Time(u64),
    Space(Option<u64>),
    Output(ToolOutputView),
    Zfs(Result<Seq<char>, ErrorView>),
}

/// An optional record as a mathematical value.
pub open spec fn entry_option_view(e: Option<Entry>) -> Option<EntryView> {
    match e {
        Some(e) => Some(e@),
        None => None,
    }
}

impl View for Reply {
    type V = ReplyView;

    open spec fn view(&self) -> ReplyView {
        match self {
            Reply::Done => ReplyView::Done,
            Reply::Failed(e) => ReplyView::Failed(e@),
            Reply::Flag(b) => ReplyView::Flag(*b),
            Reply::Stat(s) => ReplyView::Stat(*s),
            Reply::Count(n) => ReplyView::Count(*n),
            Reply::Cloned(n) => ReplyView::Cloned(*n),
            Reply::Entry(e) => ReplyView::Entry(e@),
            Reply::Entries(v) => ReplyView::Entries(
                v@.map_values(|e: Option<Entry>| entry_option_view(e)),
            ),
            Reply::Place(p) => ReplyView::Place(p@),
            Reply::Time(t) => ReplyView::Time(*t),
            Reply::Space(n) => ReplyView::Space(*n),
            Reply::Output(o) => ReplyView::Output(o@),
            Reply::Zfs(r) => ReplyView::Zfs(output_view(*r)),
        }
    }
}

/// What a program printed or why it failed, as a mathematical value.
pub open spec fn output_view(r: Result<String, Error>) -> Result<Seq<char>, ErrorView> {
    match r {
        Ok(s) => Ok(s@),
        Err(e) => Err(e@),
    }
}

/// What the run of a program comes to: its output, or why there is none. A
/// program that could not be found is reported under `name`, one that failed
/// under `what` with what it wrote to its standard error.
pub open spec fn tool_result(
    name: Seq<char>,
    what: Seq<char>,
    run: Result<ToolOutputView, IoErrorView>,
) -> Result<Seq<char>, ErrorView> {
    match run {
        Err(e) => if e.kind == IoKind::NotFound {
            Err(ErrorView::ToolMissing { tool: name })
        } else {
            Err(ErrorView::Io(e))
        },
        Ok(o) => if o.success {
            Ok(path::utf8_lossy(o.stdout))
        } else {
            Err(
                ErrorView::ToolFailed {
                    tool: what,
                    status: o.status,
                    stderr: text::trim(path::utf8_lossy(o.stderr)),
                },
            )
        },
    }
}

/// The run of a program that a reply tells of.
pub open spec fn run_of(reply: ReplyView) -> Option<Result<ToolOutputView, IoErrorView>> {
    match reply {
        ReplyView::Output(o) => Some(Ok(o)),
        ReplyView::Failed(e) => Some(Err(e)),
        _ => None,
    }
}

/// The run behind a reply, as a mathematical value.
pub open spec fn run_view(run: Result<ToolOutput, IoError>) -> Result<ToolOutputView, IoErrorView> {
    match run {
        Ok(o) => Ok(o@),
        Err(e) => Err(e@),
    }
}

/// What the run of a program comes to, see [`tool_result`].
pub fn judge_tool(
    name: &'static str,
    what: &'static str,
    run: Result<ToolOutput, IoError>,
) -> (r: Result<String, Error>)
    ensures
        output_view(r) == tool_result(name@, what@, run_view(run)),
{
    match run {
        Err(e) => match e.kind {
            IoKind::NotFound => Err(Error::ToolMissing { tool: name }),
            _ => Err(Error::Io(e)),
        },
        Ok(o) => if o.success {
            Ok(path::lossy(&o.stdout))
        } else {
            let stderr = path::lossy(&o.stderr);
            Err(
                Error::ToolFailed {
                    tool: what,
                    status: o.status,
                    stderr: text::trimmed(stderr.as_str()),
                },
            )
        },
    }
}

/// A program that ran and succeeded comes to what it printed; one that ran and
/// failed, to its status and to what it complained about, without the white space
/// around it; one that is not there is told as missing; and any other failure to
/// run it is told as it is.
pub proof fn lemma_what_a_run_comes_to(name: Seq<char>, what: Seq<char>, reply: ReplyView)
    ensures
        run_of(reply) is Some <==> reply is Output || reply is Failed,
        run_of(reply) is Some ==> match reply {
            ReplyView::Output(o) => tool_result(name, what, run_of(reply)->0) == (if o.success {
                Ok(path::utf8_lossy(o.stdout))
            } else {
                Err(
                    ErrorView::ToolFailed {
                        tool: what,
                        status: o.status,
                        stderr: text::trim(path::utf8_lossy(o.stderr)),
                    },
                )
            }),
            ReplyView::Failed(e) => tool_result(name, what, run_of(reply)->0) == (if e.kind
                == IoKind::NotFound {
                Err::<Seq<char>, ErrorView>(ErrorView::ToolMissing { tool: name })
            } else {
                Err::<Seq<char>, ErrorView>(ErrorView::Io(e))
            }),
            _ => true,
        },
{
}

} // verus!
