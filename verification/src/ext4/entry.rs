//! What the entries of an archive become in an image.

use crate::error::{Error, ErrorView, IoError, IoErrorView, IoKind};
use crate::path;
use vstd::prelude::*;
use vstd::utf8::*;

verus! {

// ---------------------------------------------------------------------------
// Names
// ---------------------------------------------------------------------------
/// The components in front of which a slash is put, one after the other, or
/// what is wrong with the first that cannot be in an image.
pub open spec fn placed(raw: Seq<u8>, parts: Seq<Seq<u8>>) -> Result<Seq<char>, ErrorView>
    decreases parts.len(),
{
    if parts.len() == 0 {
        Ok(seq![])
    } else if parts[0] == path::parent_name() {
        Err(ErrorView::PathEscape { path: raw })
    } else if !valid_utf8(parts[0]) {
        Err(ErrorView::BadPath { path: raw })
    } else {
        match placed(raw, parts.drop_first()) {
            Ok(rest) => Ok(seq!['/'] + decode_utf8(parts[0]) + rest),
            Err(e) => Err(e),
        }
    }
}

/// The absolute name in the image of an entry of this name. Nothing for the
/// root, which is there already.
pub open spec fn normalized(raw: Seq<u8>) -> Result<Option<Seq<char>>, ErrorView> {
    match placed(raw, path::components(raw)) {
        Ok(name) => if name.len() == 0 {
            Ok(None)
        } else {
            Ok(Some(name))
        },
        Err(e) => Err(e),
    }
}

/// A name or a failure, as a mathematical value.
pub open spec fn name_view(r: Result<Option<String>, Error>) -> Result<
    Option<Seq<char>>,
    ErrorView,
> {
    match r {
        Ok(Some(s)) => Ok(Some(s@)),
        Ok(None) => Ok(None),
        Err(e) => Err(e@),
    }
}

/// The absolute name in the image of an entry of this name. A name that leaves
/// the root is refused, and so is one that is not UTF-8.
pub fn normalize(raw: &[u8]) -> (r: Result<Option<String>, Error>)
    ensures
        name_view(r) == normalized(raw@),
{
    let parts = path::components_of(raw);
    let ghost all = path::components(raw@);
    let mut out = String::new();
    let mut i: usize = 0;
    assert(all.skip(0) =~= all);
    assert(forall|s: Seq<char>| #[trigger] (Seq::<char>::empty() + s) =~= s);
    while i < parts.len()
        invariant
            i <= parts@.len(),
            all == path::components(raw@),
            all == path::views(parts@),
            placed(raw@, all) == (match placed(raw@, all.skip(i as int)) {
                Ok(rest) => Ok(out@ + rest),
                Err(e) => Err(e),
            }),
        decreases parts@.len() - i,
    {
        let ghost rest = all.skip(i as int);
        let ghost before = out@;
        assert(rest[0] == parts@[i as int]@);
        assert(rest.drop_first() =~= all.skip(i + 1));
        if path::is_parent(&parts[i]) {
            return Err(Error::PathEscape { path: path::copy_of(raw) });
        }
        match path::utf8(&parts[i]) {
            None => {
                return Err(Error::BadPath { path: path::copy_of(raw) });
            },
            Some(s) => {
                out.push('/');
                out.append(s.as_str());
                proof {
                    assert(out@ =~= before + (seq!['/'] + s@));
                    if let Ok(more) = placed(raw@, rest.drop_first()) {
                        assert(before + (seq!['/'] + s@ + more) =~= out@ + more);
                    }
                }
            },
        }
        i = i + 1;
    }
    assert(all.skip(i as int) =~= seq![]);
    assert(out@ + Seq::<char>::empty() =~= out@);
    if crate::text::same(out.as_str(), "") {
        proof {
            reveal_strlit("");
        }
        Ok(None)
    } else {
        proof {
            reveal_strlit("");
            if out@.len() == 0 {
                assert(out@ =~= ""@);
            }
        }
        Ok(Some(out))
    }
}

proof fn lemma_placed(raw: Seq<u8>, parts: Seq<Seq<u8>>, other: Seq<u8>)
    requires
        placed(raw, parts) is Ok,
    ensures
        encode_utf8(placed(raw, parts)->Ok_0) == path::slashed(parts),
        placed(other, parts) == placed(raw, parts),
        !parts.contains(path::parent_name()),
        parts.len() > 0 ==> placed(raw, parts)->Ok_0.len() > 0 && placed(raw, parts)->Ok_0[0]
            == '/',
    decreases parts.len(),
{
    let name = placed(raw, parts)->Ok_0;
    if parts.len() > 0 {
        let more = parts.drop_first();
        lemma_placed(raw, more, other);
        let rest = placed(raw, more)->Ok_0;
        let part = decode_utf8(parts[0]);
        decode_utf8_encode_utf8(parts[0]);
        path::lemma_encode_concat(seq!['/'], part);
        path::lemma_encode_concat(seq!['/'] + part, rest);
        is_ascii_chars_encode_utf8(seq!['/']);
        assert(encode_utf8(seq!['/']) =~= seq![path::SLASH]);
        if parts.contains(path::parent_name()) {
            let i = choose|i: int| 0 <= i < parts.len() && parts[i] == path::parent_name();
            assert(more[i - 1] == parts[i]);
        }
    }
}

/// A normalized name is absolute, never names a parent directory, and is its
/// own normalized name.
pub proof fn lemma_normalized_names_stay_inside(raw: Seq<u8>)
    ensures
        normalized(raw) matches Ok(Some(name)) ==> {
            &&& name.len() > 0 && name[0] == '/'
            &&& !path::components(encode_utf8(name)).contains(path::parent_name())
            &&& normalized(encode_utf8(name)) == Ok::<Option<Seq<char>>, ErrorView>(Some(name))
        },
{
    let parts = path::components(raw);
    if let Ok(name) = placed(raw, parts) {
        lemma_placed(raw, parts, encode_utf8(name));
        path::lemma_components_plain(raw);
        path::lemma_components_of_slashed(parts);
    }
}

/// A name with a component that names a parent directory is always refused; as
/// one that leaves the root, if it is UTF-8.
pub proof fn lemma_escapes_are_refused(raw: Seq<u8>)
    requires
        path::components(raw).contains(path::parent_name()),
    ensures
        normalized(raw) is Err,
        valid_utf8(raw) ==> normalized(raw) == Err::<Option<Seq<char>>, ErrorView>(
            ErrorView::PathEscape { path: raw },
        ),
{
    lemma_escape_found(raw, path::components(raw));
    if valid_utf8(raw) {
        path::lemma_components_utf8(raw);
    }
}

/// A name in UTF-8 is refused only for leaving the root, and otherwise is that
/// of an entry in the image.
pub proof fn lemma_utf8_names_are_taken(raw: Seq<u8>)
    requires
        valid_utf8(raw),
    ensures
        match normalized(raw) {
            Ok(_) => !path::components(raw).contains(path::parent_name()),
            Err(e) => {
                &&& path::components(raw).contains(path::parent_name())
                &&& e == (ErrorView::PathEscape { path: raw })
            },
        },
{
    path::lemma_components_utf8(raw);
    if path::components(raw).contains(path::parent_name()) {
        lemma_escape_found(raw, path::components(raw));
    } else {
        lemma_nothing_found(raw, path::components(raw));
    }
}

proof fn lemma_nothing_found(raw: Seq<u8>, parts: Seq<Seq<u8>>)
    requires
        !parts.contains(path::parent_name()),
        forall|i: int| 0 <= i < parts.len() ==> valid_utf8(#[trigger] parts[i]),
    ensures
        placed(raw, parts) is Ok,
    decreases parts.len(),
{
    if parts.len() > 0 {
        let more = parts.drop_first();
        assert(parts.contains(parts[0]));
        assert forall|j: int| 0 <= j < more.len() implies valid_utf8(#[trigger] more[j]) by {
            assert(more[j] == parts[j + 1]);
        }
        if more.contains(path::parent_name()) {
            let i = choose|i: int| 0 <= i < more.len() && more[i] == path::parent_name();
            assert(parts[i + 1] == path::parent_name());
        }
        lemma_nothing_found(raw, more);
    }
}

proof fn lemma_escape_found(raw: Seq<u8>, parts: Seq<Seq<u8>>)
    requires
        parts.contains(path::parent_name()),
    ensures
        placed(raw, parts) is Err,
        (forall|i: int| 0 <= i < parts.len() ==> valid_utf8(#[trigger] parts[i])) ==> placed(
            raw,
            parts,
        ) == Err::<Seq<char>, ErrorView>(ErrorView::PathEscape { path: raw }),
    decreases parts.len(),
{
    if parts[0] != path::parent_name() {
        let i = choose|i: int| 0 <= i < parts.len() && parts[i] == path::parent_name();
        let more = parts.drop_first();
        assert(more[i - 1] == parts[i]);
        lemma_escape_found(raw, more);
        assert forall|j: int|
            (forall|i: int| 0 <= i < parts.len() ==> valid_utf8(#[trigger] parts[i])) && 0 <= j
                < more.len() implies valid_utf8(#[trigger] more[j]) by {
            assert(more[j] == parts[j + 1]);
        }
    }
}

// ---------------------------------------------------------------------------
// Headers
// ---------------------------------------------------------------------------
/// The length of a header.
pub const HEADER_LEN: usize = 512;

/// The kind of an entry: one byte of its header, of which zero stands for a
/// regular file.
pub open spec fn kind_of(header: Seq<u8>) -> u8 {
    if header[156] == 0 {
        48
    } else {
        header[156]
    }
}

/// `tar::Header::entry_type` and `tar::EntryType::as_byte`: the byte at offset
/// 156, with `0` for zero.
#[verifier::external_body]
fn header_kind(header: &[u8]) -> (kind: u8)
    requires
        header@.len() == HEADER_LEN,
    ensures
        kind == kind_of(header@),
{
    tar::Header::from_byte_slice(header).entry_type().as_byte()
}

/// The permission bits that `tar::Header::mode` reads, or its complaint.
pub uninterp spec fn tar_mode(header: Seq<u8>) -> Result<u32, Seq<char>>;

/// The owner that `tar::Header::uid` reads, or its complaint.
pub uninterp spec fn tar_uid(header: Seq<u8>) -> Result<u64, Seq<char>>;

/// The group that `tar::Header::gid` reads, or its complaint.
pub uninterp spec fn tar_gid(header: Seq<u8>) -> Result<u64, Seq<char>>;

/// The size that `tar::Header::size` reads, or its complaint.
pub uninterp spec fn tar_size(header: Seq<u8>) -> Result<u64, Seq<char>>;

/// The time of change that `tar::Header::mtime` reads, or its complaint.
pub uninterp spec fn tar_mtime(header: Seq<u8>) -> Result<u64, Seq<char>>;

/// A number or a complaint, as a mathematical value.
pub open spec fn number_view(r: Result<u64, String>) -> Result<u64, Seq<char>> {
    match r {
        Ok(n) => Ok(n),
        Err(s) => Err(s@),
    }
}

/// `tar::Header::mode`: a function of the header alone.
#[verifier::external_body]
fn header_mode(header: &[u8]) -> (r: Result<u32, String>)
    requires
        header@.len() == HEADER_LEN,
    ensures
        match r {
            Ok(n) => tar_mode(header@) == Ok::<u32, Seq<char>>(n),
            Err(s) => tar_mode(header@) == Err::<u32, Seq<char>>(s@),
        },
{
    tar::Header::from_byte_slice(header).mode().map_err(|e| e.to_string())
}

/// `tar::Header::uid`: a function of the header alone.
#[verifier::external_body]
fn header_uid(header: &[u8]) -> (r: Result<u64, String>)
    requires
        header@.len() == HEADER_LEN,
    ensures
        number_view(r) == tar_uid(header@),
{
    tar::Header::from_byte_slice(header).uid().map_err(|e| e.to_string())
}

/// `tar::Header::gid`: a function of the header alone.
#[verifier::external_body]
fn header_gid(header: &[u8]) -> (r: Result<u64, String>)
    requires
        header@.len() == HEADER_LEN,
    ensures
        number_view(r) == tar_gid(header@),
{
    tar::Header::from_byte_slice(header).gid().map_err(|e| e.to_string())
}

/// `tar::Header::size`: a function of the header alone.
#[verifier::external_body]
fn header_size(header: &[u8]) -> (r: Result<u64, String>)
    requires
        header@.len() == HEADER_LEN,
    ensures
        number_view(r) == tar_size(header@),
{
    tar::Header::from_byte_slice(header).size().map_err(|e| e.to_string())
}

/// `tar::Header::mtime`: a function of the header alone.
#[verifier::external_body]
fn header_mtime(header: &[u8]) -> (r: Result<u64, String>)
    requires
        header@.len() == HEADER_LEN,
    ensures
        number_view(r) == tar_mtime(header@),
{
    tar::Header::from_byte_slice(header).mtime().map_err(|e| e.to_string())
}

/// What a header says of an entry, or the first complaint about it.
#[derive(Debug, Clone, Copy, PartialEq, Eq, Structural)]
pub struct Attributes {
    pub mode: u32,
    pub uid: u64,
    pub gid: u64,
    pub size: u64,
    pub mtime: u64,
}

/// What was read, or the first complaint.
pub open spec fn attributes(
    mode: Result<u32, Seq<char>>,
    uid: Result<u64, Seq<char>>,
    gid: Result<u64, Seq<char>>,
    size: Result<u64, Seq<char>>,
    mtime: Result<u64, Seq<char>>,
) -> Result<Attributes, Seq<char>> {
    match (mode, uid, gid, size, mtime) {
        (Err(s), _, _, _, _) => Err(s),
        (_, Err(s), _, _, _) => Err(s),
        (_, _, Err(s), _, _) => Err(s),
        (_, _, _, Err(s), _) => Err(s),
        (_, _, _, _, Err(s)) => Err(s),
        (Ok(mode), Ok(uid), Ok(gid), Ok(size), Ok(mtime)) => Ok(
            Attributes { mode, uid, gid, size, mtime },
        ),
    }
}

/// What a header says of an entry, or the first complaint about it.
pub open spec fn header_attributes(header: Seq<u8>) -> Result<Attributes, Seq<char>> {
    attributes(
        tar_mode(header),
        tar_uid(header),
        tar_gid(header),
        tar_size(header),
        tar_mtime(header),
    )
}

fn read_attributes(header: &[u8]) -> (r: Result<Attributes, String>)
    requires
        header@.len() == HEADER_LEN,
    ensures
        match r {
            Ok(a) => header_attributes(header@) == Ok::<Attributes, Seq<char>>(a),
            Err(s) => header_attributes(header@) == Err::<Attributes, Seq<char>>(s@),
        },
{
    let mode = match header_mode(header) {
        Ok(n) => n,
        Err(s) => {
            return Err(s);
        },
    };
    let uid = match header_uid(header) {
        Ok(n) => n,
        Err(s) => {
            return Err(s);
        },
    };
    let gid = match header_gid(header) {
        Ok(n) => n,
        Err(s) => {
            return Err(s);
        },
    };
    let size = match header_size(header) {
        Ok(n) => n,
        Err(s) => {
            return Err(s);
        },
    };
    let mtime = match header_mtime(header) {
        Ok(n) => n,
        Err(s) => {
            return Err(s);
        },
    };
    Ok(Attributes { mode, uid, gid, size, mtime })
}

// ---------------------------------------------------------------------------
// Decisions
// ---------------------------------------------------------------------------
/// An entry of an archive: its header, its name and its link name as the
/// archive gives them, extensions for long names included.
#[derive(Debug)]
pub struct TarEntry {
    pub header: Vec<u8>,
    pub path: Vec<u8>,
    pub link: Option<Vec<u8>>,
}

/// A [`TarEntry`] as a mathematical value.
#[verifier::ext_equal]
pub struct TarEntryView {
    pub header: Seq<u8>,
    pub path: Seq<u8>,
    pub link: Option<Seq<u8>>,
}

impl View for TarEntry {
    type V = TarEntryView;

    open spec fn view(&self) -> TarEntryView {
        TarEntryView {
            header: self.header@,
            path: self.path@,
            link: match self.link {
                Some(l) => Some(l@),
                None => None,
            },
        }
    }
}

/// The times of an inode, in seconds; the high parts hold what does not fit
/// into 32 bits.
#[derive(Debug, Clone, Copy, PartialEq, Eq, Structural)]
pub struct FileTimestamps {
    pub access_lo: u32,
    pub access_hi: u32,
    pub modification_lo: u32,
    pub modification_hi: u32,
    pub creation_lo: u32,
    pub creation_hi: u32,
    pub now_lo: u32,
    pub now_hi: u32,
}

/// All four times set to the same second.
pub open spec fn all_at(secs: u32) -> FileTimestamps {
    FileTimestamps {
        access_lo: secs,
        access_hi: 0,
        modification_lo: secs,
        modification_hi: 0,
        creation_lo: secs,
        creation_hi: 0,
        now_lo: secs,
        now_hi: 0,
    }
}

/// All four times set to the same second.
pub fn fixed_ts(secs: u32) -> (ts: FileTimestamps)
    ensures
        ts == all_at(secs),
{
    FileTimestamps {
        access_lo: secs,
        access_hi: 0,
        modification_lo: secs,
        modification_hi: 0,
        creation_lo: secs,
        creation_hi: 0,
        now_lo: secs,
        now_hi: 0,
    }
}

/// The bits of a mode that say what an inode is.
#[derive(Debug, Clone, Copy, PartialEq, Eq, Structural)]
pub enum NodeKind {
    File,
    Directory,
    Symlink,
}

impl NodeKind {
    pub open spec fn bits(self) -> u16 {
        match self {
            NodeKind::File => 0x8000,
            NodeKind::Directory => 0x4000,
            NodeKind::Symlink => 0xA000,
        }
    }
}

/// An inode to create.
#[derive(Debug)]
pub struct NewInode {
    pub path: String,
    /// What it is, and its twelve permission bits.
    pub mode: u16,
    /// Where a symbolic link leads.
    pub target: Option<String>,
    pub times: FileTimestamps,
    pub uid: u32,
    pub gid: u32,
    pub kind: NodeKind,
    /// The size that the header gives.
    pub size: u64,
}

/// A [`NewInode`] as a mathematical value.
#[verifier::ext_equal]
pub struct NewInodeView {
    pub path: Seq<char>,
    pub mode: u16,
    pub target: Option<Seq<char>>,
    pub times: FileTimestamps,
    pub uid: u32,
    pub gid: u32,
    pub kind: NodeKind,
    pub size: u64,
}

impl View for NewInode {
    type V = NewInodeView;

    open spec fn view(&self) -> NewInodeView {
        NewInodeView {
            path: self.path@,
            mode: self.mode,
            target: match self.target {
                Some(t) => Some(t@),
                None => None,
            },
            times: self.times,
            uid: self.uid,
            gid: self.gid,
            kind: self.kind,
            size: self.size,
        }
    }
}

impl NewInode {
    /// The same inode again.
    pub fn duplicate(&self) -> (n: NewInode)
        ensures
            n@ == self@,
    {
        NewInode {
            path: self.path.clone(),
            mode: self.mode,
            target: match &self.target {
                Some(t) => Some(t.clone()),
                None => None,
            },
            times: self.times,
            uid: self.uid,
            gid: self.gid,
            kind: self.kind,
            size: self.size,
        }
    }
}

/// What is to be done about an entry.
#[derive(Debug)]
pub enum Action {
    /// Nothing: a record about other entries, or the root.
    Skip,
    Create(NewInode),
    /// Link once everything else is there.
    Link { link: String, target: String },
    /// Note that it cannot be in an image: a device, a FIFO, a socket, or a hard
    /// link to the root.
    Special,
}

/// An [`Action`] as a mathematical value.
pub enum ActionView {
    Skip,
    Create(NewInodeView),
    Link { link: Seq<char>, target: Seq<char> },
    Special,
}

impl View for Action {
    type V = ActionView;

    open spec fn view(&self) -> ActionView {
        match self {
            Action::Skip => ActionView::Skip,
            Action::Create(n) => ActionView::Create(n@),
            Action::Link { link, target } => ActionView::Link { link: link@, target: target@ },
            Action::Special => ActionView::Special,
        }
    }
}

/// Whether an entry is a record about other entries: extended headers, and
/// long names and link names.
pub open spec fn is_metadata(kind: u8) -> bool {
    kind == 103 || kind == 120 || kind == 76 || kind == 75
}

/// The inode for an entry.
pub open spec fn inode(
    path: Seq<char>,
    kind: NodeKind,
    target: Option<Seq<char>>,
    a: Attributes,
) -> NewInodeView {
    NewInodeView {
        path,
        mode: (kind.bits() + a.mode % 0x1000) as u16,
        target,
        times: all_at((a.mtime % 0x1_0000_0000) as u32),
        uid: (a.uid % 0x1_0000_0000) as u32,
        gid: (a.gid % 0x1_0000_0000) as u32,
        kind,
        size: a.size,
    }
}

/// What is to be done about an entry of a kind with a name in the image, whose
/// header says this.
pub open spec fn placing(
    entry: TarEntryView,
    kind: u8,
    path: Seq<char>,
    a: Attributes,
) -> Result<ActionView, ErrorView> {
    if kind == 53 {
        Ok(ActionView::Create(inode(path, NodeKind::Directory, None, a)))
    } else if kind == 50 {
        match entry.link {
            None => Err(ErrorView::BadPath { path: entry.path }),
            Some(l) => Ok(
                ActionView::Create(
                    inode(path, NodeKind::Symlink, Some(path::utf8_lossy(l)), a),
                ),
            ),
        }
    } else if kind == 49 {
        match entry.link {
            None => Err(ErrorView::BadPath { path: entry.path }),
            Some(l) => match normalized(l) {
                Err(e) => Err(e),
                Ok(None) => Ok(ActionView::Special),
                Ok(Some(target)) => Ok(ActionView::Link { link: path, target }),
            },
        }
    } else if kind == 48 {
        Ok(ActionView::Create(inode(path, NodeKind::File, None, a)))
    } else {
        Ok(ActionView::Special)
    }
}

/// What is to be done about an entry whose header says this.
pub open spec fn decision(
    entry: TarEntryView,
    says: Result<Attributes, Seq<char>>,
) -> Result<ActionView, ErrorView> {
    let kind = kind_of(entry.header);
    if is_metadata(kind) {
        Ok(ActionView::Skip)
    } else {
        match normalized(entry.path) {
            Err(e) => Err(e),
            Ok(None) => Ok(ActionView::Skip),
            Ok(Some(path)) => match says {
                Err(s) => Err(ErrorView::Io(IoErrorView::own(IoKind::Other, s))),
                Ok(a) => placing(entry, kind, path, a),
            },
        }
    }
}

/// An action or a failure, as a mathematical value.
pub open spec fn action_view(r: Result<Action, Error>) -> Result<ActionView, ErrorView> {
    match r {
        Ok(a) => Ok(a@),
        Err(e) => Err(e@),
    }
}

/// The low 32 bits of a number.
fn low32(n: u64) -> (m: u32)
    ensures
        m == n % 0x1_0000_0000,
{
    (n % 0x1_0000_0000) as u32
}

fn inode_of(path: String, kind: NodeKind, target: Option<String>, a: &Attributes) -> (n: NewInode)
    ensures
        n@ == inode(
            path@,
            kind,
            match target {
                Some(t) => Some(t@),
                None => None,
            },
            *a,
        ),
{
    let perm: u16 = (a.mode % 0x1000) as u16;
    let bits: u16 = match kind {
        NodeKind::File => 0x8000,
        NodeKind::Directory => 0x4000,
        NodeKind::Symlink => 0xA000,
    };
    NewInode {
        path,
        mode: bits + perm,
        target,
        times: fixed_ts(low32(a.mtime)),
        uid: low32(a.uid),
        gid: low32(a.gid),
        kind,
        size: a.size,
    }
}

/// What is to be done about an entry whose header says this, see [`decision`].
pub fn decide_with(entry: &TarEntry, says: Result<Attributes, String>) -> (r: Result<Action, Error>)
    requires
        entry@.header.len() == HEADER_LEN,
    ensures
        action_view(r) == decision(
            entry@,
            match says {
                Ok(a) => Ok(a),
                Err(s) => Err(s@),
            },
        ),
        r matches Ok(Action::Create(n)) ==> {
            &&& n.kind == NodeKind::Symlink <==> n.target is Some
            &&& n.target matches Some(target) ==> entry@.link is Some && (valid_utf8(
                entry@.link->0,
            ) ==> target@ == decode_utf8(entry@.link->0))
        },
{
    let kind: u8 = header_kind(&entry.header);
    if kind == 103 || kind == 120 || kind == 76 || kind == 75 {
        return Ok(Action::Skip);
    }
    let name = match normalize(&entry.path) {
        Err(e) => {
            return Err(e);
        },
        Ok(None) => {
            return Ok(Action::Skip);
        },
        Ok(Some(name)) => name,
    };
    let a = match says {
        Ok(a) => a,
        Err(s) => {
            return Err(Error::Io(IoError::own(IoKind::Other, s)));
        },
    };
    if kind == 53 {
        Ok(Action::Create(inode_of(name, NodeKind::Directory, None, &a)))
    } else if kind == 50 {
        match &entry.link {
            None => Err(Error::BadPath { path: path::copy_of(&entry.path) }),
            Some(l) => {
                let target = path::lossy(l);
                Ok(Action::Create(inode_of(name, NodeKind::Symlink, Some(target), &a)))
            },
        }
    } else if kind == 49 {
        match &entry.link {
            None => Err(Error::BadPath { path: path::copy_of(&entry.path) }),
            Some(l) => match normalize(l) {
                Err(e) => Err(e),
                Ok(None) => Ok(Action::Special),
                Ok(Some(target)) => Ok(Action::Link { link: name, target }),
            },
        }
    } else if kind == 48 {
        Ok(Action::Create(inode_of(name, NodeKind::File, None, &a)))
    } else {
        Ok(Action::Special)
    }
}

/// What is to be done about an entry.
pub fn decide(entry: &TarEntry) -> (r: Result<Action, Error>)
    requires
        entry@.header.len() == HEADER_LEN,
    ensures
        action_view(r) == decision(entry@, header_attributes(entry@.header)),
{
    let says = read_attributes(&entry.header);
    decide_with(entry, says)
}

/// An inode has the permissions, the set-user and set-group bits included, the
/// owner, the group and the time that its header gives, as far as they fit.
pub proof fn lemma_inodes_follow_their_header(entry: TarEntryView, a: Attributes)
    ensures
        decision(entry, Ok(a)) matches Ok(ActionView::Create(n)) ==> {
            &&& n.mode as int % 0x1000 == a.mode as int % 0x1000
            &&& n.mode as int / 0x1000 * 0x1000 == n.kind.bits()
            &&& n.times == all_at((a.mtime % 0x1_0000_0000) as u32)
            &&& a.uid <= u32::MAX ==> n.uid == a.uid
            &&& a.gid <= u32::MAX ==> n.gid == a.gid
            &&& n.size == a.size
            &&& normalized(entry.path) == Ok::<Option<Seq<char>>, ErrorView>(Some(n.path))
        },
{
}

/// Whether a component can be in an image: it is UTF-8 and not two dots.
pub open spec fn can_be_placed(part: Seq<u8>) -> bool {
    valid_utf8(part) && part != seq![46u8, 46u8]
}

/// The name of an entry in the image is made of the components of its name in
/// the archive, all of them and in their order, each behind a slash. Only the
/// root has none. A name is refused exactly for its first component that is two
/// dots or is not UTF-8, and the refusal names it.
pub proof fn lemma_names_keep_their_components(raw: Seq<u8>)
    ensures
        ({
            let parts = path::components(raw);
            match normalized(raw) {
                Ok(Some(name)) => {
                    &&& parts.len() > 0
                    &&& encode_utf8(name) == path::slashed(parts)
                    &&& forall|i: int| 0 <= i < parts.len() ==> can_be_placed(#[trigger] parts[i])
                },
                Ok(None) => parts.len() == 0,
                Err(e) => exists|i: int|
                    {
                        &&& 0 <= i < parts.len()
                        &&& !can_be_placed(#[trigger] parts[i])
                        &&& forall|j: int| 0 <= j < i ==> can_be_placed(#[trigger] parts[j])
                        &&& e == (if parts[i] == seq![46u8, 46u8] {
                            ErrorView::PathEscape { path: raw }
                        } else {
                            ErrorView::BadPath { path: raw }
                        })
                    },
            }
        }),
{
    let parts = path::components(raw);
    lemma_placing_names(raw, parts);
    if placed(raw, parts) is Ok {
        lemma_placed(raw, parts, raw);
        if parts.len() > 0 {
            assert(placed(raw, parts)->Ok_0.len() > 0);
        }
    }
}

proof fn lemma_placing_names(raw: Seq<u8>, parts: Seq<Seq<u8>>)
    ensures
        match placed(raw, parts) {
            Ok(_) => forall|i: int| 0 <= i < parts.len() ==> can_be_placed(#[trigger] parts[i]),
            Err(e) => exists|i: int|
                {
                    &&& 0 <= i < parts.len()
                    &&& !can_be_placed(#[trigger] parts[i])
                    &&& forall|j: int| 0 <= j < i ==> can_be_placed(#[trigger] parts[j])
                    &&& e == (if parts[i] == seq![46u8, 46u8] {
                        ErrorView::PathEscape { path: raw }
                    } else {
                        ErrorView::BadPath { path: raw }
                    })
                },
        },
    decreases parts.len(),
{
    if parts.len() > 0 {
        if can_be_placed(parts[0]) {
            let more = parts.drop_first();
            lemma_placing_names(raw, more);
            if placed(raw, more) is Ok {
                assert forall|i: int| 0 <= i < parts.len() implies can_be_placed(
                    #[trigger] parts[i],
                ) by {
                    if i > 0 {
                        assert(more[i - 1] == parts[i]);
                    }
                }
            } else {
                let e = placed(raw, more)->Err_0;
                let i = choose|i: int|
                    {
                        &&& 0 <= i < more.len()
                        &&& !can_be_placed(#[trigger] more[i])
                        &&& forall|j: int| 0 <= j < i ==> can_be_placed(#[trigger] more[j])
                        &&& e == (if more[i] == seq![46u8, 46u8] {
                            ErrorView::PathEscape { path: raw }
                        } else {
                            ErrorView::BadPath { path: raw }
                        })
                    };
                assert(parts[i + 1] == more[i]);
                assert forall|j: int| 0 <= j < i + 1 implies can_be_placed(#[trigger] parts[j]) by {
                    if j > 0 {
                        assert(more[j - 1] == parts[j]);
                    }
                }
            }
        } else {
            assert(!can_be_placed(parts[0]));
        }
    }
}

/// Every entry becomes what its type says. Records about other entries and the
/// root become nothing. A directory, a symbolic link and a file become an inode
/// of their kind under the name of the entry, with the twelve permission bits,
/// the owner, the group and the size of the header, and all four times at its
/// time; a symbolic link leads exactly where its entry says, and nothing else
/// leads anywhere. A hard link becomes a link between two names. Everything else
/// is noted as special. A link without a target is refused, and so is a name that
/// cannot be in an image.
pub proof fn lemma_entries_become_what_they_are(entry: TarEntryView, a: Attributes)
    ensures
        ({
            let t = entry.header[156];
            let metadata = t == 'g' as u8 || t == 'x' as u8 || t == 'L' as u8 || t == 'K' as u8;
            let d = decision(entry, Ok(a));
            let made = |n: NewInodeView, path: Seq<char>, kind: NodeKind, bits: int|
                {
                    &&& n.path == path
                    &&& n.kind == kind
                    &&& n.mode == bits + a.mode as int % 4096
                    &&& n.uid == a.uid as int % 4294967296
                    &&& n.gid == a.gid as int % 4294967296
                    &&& n.size == a.size
                    &&& n.times.access_lo == a.mtime as int % 4294967296
                    &&& n.times.modification_lo == a.mtime as int % 4294967296
                    &&& n.times.creation_lo == a.mtime as int % 4294967296
                    &&& n.times.now_lo == a.mtime as int % 4294967296
                    &&& n.times.access_hi == 0 && n.times.modification_hi == 0
                    &&& n.times.creation_hi == 0 && n.times.now_hi == 0
                };
            if metadata {
                d == Ok::<ActionView, ErrorView>(ActionView::Skip)
            } else {
                match normalized(entry.path) {
                    Err(e) => d == Err::<ActionView, ErrorView>(e),
                    Ok(None) => d == Ok::<ActionView, ErrorView>(ActionView::Skip),
                    Ok(Some(path)) => {
                        &&& t == '5' as u8 ==> (d matches Ok(ActionView::Create(n)) && made(
                            n,
                            path,
                            NodeKind::Directory,
                            0o040000,
                        ) && n.target is None)
                        &&& t == '0' as u8 || t == 0 ==> (d matches Ok(ActionView::Create(n))
                            && made(n, path, NodeKind::File, 0o100000) && n.target is None)
                        &&& t == '2' as u8 && entry.link is Some ==> (d matches Ok(
                            ActionView::Create(n),
                        ) && made(n, path, NodeKind::Symlink, 0o120000) && n.target == Some(
                            path::utf8_lossy(entry.link->0),
                        ))
                        &&& (t == '1' as u8 || t == '2' as u8) && entry.link is None ==> d == Err::<
                            ActionView,
                            ErrorView,
                        >(ErrorView::BadPath { path: entry.path })
                        &&& t == '1' as u8 && entry.link is Some ==> match normalized(
                            entry.link->0,
                        ) {
                            Err(e) => d == Err::<ActionView, ErrorView>(e),
                            Ok(None) => d == Ok::<ActionView, ErrorView>(ActionView::Special),
                            Ok(Some(target)) => d == Ok::<ActionView, ErrorView>(
                                ActionView::Link { link: path, target },
                            ),
                        }
                        &&& t != '5' as u8 && t != '0' as u8 && t != 0 && t != '2' as u8 && t
                            != '1' as u8 ==> d == Ok::<ActionView, ErrorView>(ActionView::Special)
                    },
                }
            }
        }),
{
}

/// A header that is no number is told as soon as an entry has a name in the
/// image, with its complaint, and only then.
pub proof fn lemma_complaints_are_told(entry: TarEntryView, complaint: Seq<char>)
    ensures
        ({
            let t = entry.header[156];
            let metadata = t == 'g' as u8 || t == 'x' as u8 || t == 'L' as u8 || t == 'K' as u8;
            let d = decision(entry, Err(complaint));
            match normalized(entry.path) {
                Ok(Some(_)) if !metadata => d matches Err(ErrorView::Io(e)) && e.kind
                    == IoKind::Other && e.code is None && e.message == complaint,
                Err(e) if !metadata => d == Err::<ActionView, ErrorView>(e),
                _ => d == Ok::<ActionView, ErrorView>(ActionView::Skip),
            }
        }),
{
}

/// What a header says is what each of its fields says, or the complaint about the
/// first that is no number, in the order of mode, owner, group, size and time.
pub proof fn lemma_each_field_is_its_own(header: Seq<u8>)
    ensures
        match header_attributes(header) {
            Ok(a) => {
                &&& tar_mode(header) == Ok::<u32, Seq<char>>(a.mode)
                &&& tar_uid(header) == Ok::<u64, Seq<char>>(a.uid)
                &&& tar_gid(header) == Ok::<u64, Seq<char>>(a.gid)
                &&& tar_size(header) == Ok::<u64, Seq<char>>(a.size)
                &&& tar_mtime(header) == Ok::<u64, Seq<char>>(a.mtime)
            },
            Err(s) => {
                ||| tar_mode(header) == Err::<u32, Seq<char>>(s)
                ||| tar_mode(header) is Ok && tar_uid(header) == Err::<u64, Seq<char>>(s)
                ||| tar_mode(header) is Ok && tar_uid(header) is Ok && tar_gid(header) == Err::<
                    u64,
                    Seq<char>,
                >(s)
                ||| tar_mode(header) is Ok && tar_uid(header) is Ok && tar_gid(header) is Ok
                    && tar_size(header) == Err::<u64, Seq<char>>(s)
                ||| tar_mode(header) is Ok && tar_uid(header) is Ok && tar_gid(header) is Ok
                    && tar_size(header) is Ok && tar_mtime(header) == Err::<u64, Seq<char>>(s)
            },
        },
{
}

} // verus!
