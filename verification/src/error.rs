//! What can go wrong.

use vstd::prelude::*;

verus! {

/// The kinds of input/output failure that the library tells apart.
#[derive(Debug, Clone, Copy, PartialEq, Eq, Structural)]
pub enum IoKind {
    NotFound,
    PermissionDenied,
    InvalidInput,
    InvalidData,
    Unsupported,
    Other,
}

/// The operating system's error numbers that the library tells apart.
#[derive(Debug, Clone, Copy, PartialEq, Eq, Structural)]
pub enum OsCode {
    /// `EXDEV`: the two names are on different filesystems.
    CrossDevice,
    /// `EOPNOTSUPP`
    NotSupported,
    /// `ENOTTY`
    NotTty,
    /// `EINVAL`
    InvalidArgument,
    /// `EPERM`
    NotPermitted,
    /// `EACCES`
    AccessDenied,
    /// `ENXIO`: there is no data at or after the offset asked for.
    NoSuchAddress,
    /// Any other number.
    Number(i32),
}

/// A failed input/output operation.
#[derive(Debug)]
pub struct IoError {
    pub kind: IoKind,
    pub code: Option<OsCode>,
    pub message: String,
}

/// An [`IoError`] as a mathematical value.
pub struct IoErrorView {
    pub kind: IoKind,
    pub code: Option<OsCode>,
    pub message: Seq<char>,
}

impl View for IoError {
    type V = IoErrorView;

    open spec fn view(&self) -> IoErrorView {
        IoErrorView { kind: self.kind, code: self.code, message: self.message@ }
    }
}

impl IoErrorView {
    /// A failure that the library itself reports.
    pub open spec fn own(kind: IoKind, message: Seq<char>) -> IoErrorView {
        IoErrorView { kind, code: None, message }
    }

    /// The failure of an operation that would have to cross filesystems.
    pub open spec fn is_cross_device(self) -> bool {
        self.code == Some(OsCode::CrossDevice)
    }
}

impl IoError {
    /// A failure that the library itself reports.
    pub fn own(kind: IoKind, message: String) -> (e: IoError)
        ensures
            e@ == IoErrorView::own(kind, message@),
    {
        IoError { kind, code: None, message }
    }

    /// Whether the operation failed because it would have to cross filesystems.
    pub fn is_cross_device(&self) -> (r: bool)
        ensures
            r == self@.is_cross_device(),
    {
        match self.code {
            Some(OsCode::CrossDevice) => true,
            _ => false,
        }
    }
}

/// Everything the library can fail with. Paths are byte strings.
#[derive(Debug)]
pub enum Error {
    Io(IoError),
    /// The ext4 writer refused; its own words.
    Ext4(String),
    /// A tar entry would land outside the image root.
    PathEscape { path: Vec<u8> },
    /// A tar entry whose path cannot be represented.
    BadPath { path: Vec<u8> },
    /// Device nodes, FIFOs and sockets in the source tar.
    SpecialFiles { count: usize, sample: Vec<Vec<u8>> },
    ToolMissing { tool: &'static str },
    ToolFailed { tool: &'static str, status: String, stderr: String },
}

/// An [`Error`] as a mathematical value.
pub enum ErrorView {
    Io(IoErrorView),
    Ext4(Seq<char>),
    PathEscape { path: Seq<u8> },
    BadPath { path: Seq<u8> },
    SpecialFiles { count: nat, sample: Seq<Seq<u8>> },
    ToolMissing { tool: Seq<char> },
    ToolFailed { tool: Seq<char>, status: Seq<char>, stderr: Seq<char> },
}

impl View for Error {
    type V = ErrorView;

    open spec fn view(&self) -> ErrorView {
        match self {
            Error::Io(e) => ErrorView::Io(e@),
            Error::Ext4(s) => ErrorView::Ext4(s@),
            Error::PathEscape { path } => ErrorView::PathEscape { path: path@ },
            Error::BadPath { path } => ErrorView::BadPath { path: path@ },
            Error::SpecialFiles { count, sample } => ErrorView::SpecialFiles {
                count: *count as nat,
                sample: crate::path::views(sample@),
            },
            Error::ToolMissing { tool } => ErrorView::ToolMissing { tool: tool@ },
            Error::ToolFailed { tool, status, stderr } => ErrorView::ToolFailed {
                tool: tool@,
                status: status@,
                stderr: stderr@,
            },
        }
    }
}

/// An optional failure as a mathematical value.
pub open spec fn failure_view(e: Option<IoError>) -> Option<IoErrorView> {
    match e {
        Some(e) => Some(e@),
        None => None,
    }
}

/// An optional error as a mathematical value.
pub open spec fn error_view(e: Option<Error>) -> Option<ErrorView> {
    match e {
        Some(e) => Some(e@),
        None => None,
    }
}

} // verus!
