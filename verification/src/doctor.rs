//! What this machine will do with a copy.
//!
//! Whether blocks can be shared cannot be told from the name of a filesystem:
//! it depends on the two places. So it is tried, and what is reported names
//! the places that were tried. Nothing else in the library asks for it.

use crate::error::{IoError, IoErrorView};
use crate::number;
use crate::path;
use crate::procedure::{self, Procedure};
use crate::text;
use vstd::prelude::*;
use vstd::string::*;

verus! {

/// What was found out about two directories.
#[derive(Debug)]
pub struct Report {
    pub source_dir: Vec<u8>,
    pub dest_dir: Vec<u8>,
    pub source_fs: String,
    pub dest_fs: String,
    /// Whether blocks were shared, and read back as they should. Nothing means
    /// that it could not be tried.
    pub reflink: Option<bool>,
    pub reflink_detail: String,
    /// There only if the ZFS module is loaded.
    pub zfs: Option<Zfs>,
    pub verdict: String,
}

/// What is known of ZFS.
#[derive(Debug)]
pub struct Zfs {
    pub version: String,
    /// Whether blocks are cloned; nothing where that cannot be read.
    pub bclone_enabled: Option<bool>,
    pub note: String,
}

/// A [`Report`] as a mathematical value.
#[verifier::ext_equal]
pub struct ReportView {
    pub source_dir: Seq<u8>,
    pub dest_dir: Seq<u8>,
    pub source_fs: Seq<char>,
    pub dest_fs: Seq<char>,
    pub reflink: Option<bool>,
    pub reflink_detail: Seq<char>,
    pub zfs: Option<ZfsInfoView>,
    pub verdict: Seq<char>,
}

/// A [`Zfs`] as a mathematical value.
#[verifier::ext_equal]
pub struct ZfsInfoView {
    pub version: Seq<char>,
    pub bclone_enabled: Option<bool>,
    pub note: Seq<char>,
}

impl View for Zfs {
    type V = ZfsInfoView;

    open spec fn view(&self) -> ZfsInfoView {
        ZfsInfoView {
            version: self.version@,
            bclone_enabled: self.bclone_enabled,
            note: self.note@,
        }
    }
}

impl View for Report {
    type V = ReportView;

    open spec fn view(&self) -> ReportView {
        ReportView {
            source_dir: self.source_dir@,
            dest_dir: self.dest_dir@,
            source_fs: self.source_fs@,
            dest_fs: self.dest_fs@,
            reflink: self.reflink,
            reflink_detail: self.reflink_detail@,
            zfs: info_view(self.zfs),
            verdict: self.verdict@,
        }
    }
}

/// What is known of ZFS, if anything, as a mathematical value.
pub open spec fn info_view(z: Option<Zfs>) -> Option<ZfsInfoView> {
    match z {
        Some(z) => Some(z@),
        None => None,
    }
}

// ---------------------------------------------------------------------------
// Names of filesystems
// ---------------------------------------------------------------------------
/// The bits of a number as an unsigned one.
pub open spec fn bits_of(n: i64) -> nat {
    if n < 0 {
        (n + 0x1_0000_0000_0000_0000) as nat
    } else {
        n as nat
    }
}

/// The name of the filesystem with a magic number; nothing where it could not
/// be asked for.
pub open spec fn name_for(magic: Option<i64>) -> Seq<char> {
    match magic {
        None => "unknown"@,
        Some(n) => if n == 0xEF53 {
            "ext2/3/4"@
        } else if n == 0x9123_683E {
            "btrfs"@
        } else if n == 0x5846_5342 {
            "xfs"@
        } else if n == 0x2FC1_2FC1 {
            "zfs"@
        } else if n == 0x0102_1994 {
            "tmpfs"@
        } else if n == 0x794C_7630 {
            "overlayfs"@
        } else if n == 0x6969 {
            "nfs"@
        } else if n == 0x6573_5546 {
            "fuse"@
        } else {
            "unknown (0x"@ + number::hex_number(bits_of(n)) + ")"@
        },
    }
}

/// The name of the filesystem with a magic number.
pub fn fs_name(magic: Option<i64>) -> (s: String)
    ensures
        s@ == name_for(magic),
{
    match magic {
        None => "unknown".to_owned(),
        Some(n) => if n == 0xEF53 {
            "ext2/3/4".to_owned()
        } else if n == 0x9123_683E {
            "btrfs".to_owned()
        } else if n == 0x5846_5342 {
            "xfs".to_owned()
        } else if n == 0x2FC1_2FC1 {
            "zfs".to_owned()
        } else if n == 0x0102_1994 {
            "tmpfs".to_owned()
        } else if n == 0x794C_7630 {
            "overlayfs".to_owned()
        } else if n == 0x6969 {
            "nfs".to_owned()
        } else if n == 0x6573_5546 {
            "fuse".to_owned()
        } else {
            let bits: u64 = if n < 0 {
                (n as i128 + 0x1_0000_0000_0000_0000) as u64
            } else {
                n as u64
            };
            let digits = number::hex_number_of(bits);
            let head = text::concat("unknown (0x", digits.as_str());
            text::concat(head.as_str(), ")")
        },
    }
}

// ---------------------------------------------------------------------------
// ZFS
// ---------------------------------------------------------------------------
/// What the setting for block cloning says, if it is a number.
pub open spec fn cloning(setting: Option<Seq<char>>) -> Option<bool> {
    match setting {
        Some(s) => match number::signed_number(text::trim(s)) {
            Some(n) => Some(n != 0),
            None => None,
        },
        None => None,
    }
}

/// What to say about the setting for block cloning.
pub open spec fn cloning_note(enabled: Option<bool>) -> Seq<char> {
    match enabled {
        Some(true) => "block cloning enabled; the pool also needs feature@block_cloning"@,
        Some(
            false,
        ) => "block cloning disabled (zfs_bclone_enabled=0) -- the default on OpenZFS 2.2.1 through 2.2.10; copies will not be shared"@,
        None => "zfs_bclone_enabled unreadable; treating as unknown"@,
    }
}

/// What is known of ZFS, from its version and its setting for block cloning;
/// nothing where it has no version.
pub open spec fn zfs_known(version: Option<Seq<char>>, setting: Option<Seq<char>>) -> Option<
    ZfsInfoView,
> {
    match version {
        None => None,
        Some(v) => Some(
            ZfsInfoView {
                version: text::trim(v),
                bclone_enabled: cloning(setting),
                note: cloning_note(cloning(setting)),
            },
        ),
    }
}

/// What is known of ZFS, from its version and its setting for block cloning.
pub fn zfs_info(version: Option<&str>, setting: Option<&str>) -> (z: Option<Zfs>)
    ensures
        info_view(z) == zfs_known(
            text::option_view(version),
            text::option_view(setting),
        ),
{
    let version = match version {
        None => {
            return None;
        },
        Some(v) => text::trimmed(v),
    };
    let bclone_enabled = match setting {
        Some(s) => {
            let t = text::trimmed(s);
            match number::parse_i32(t.as_str()) {
                Some(n) => Some(n != 0),
                None => None,
            }
        },
        None => None,
    };
    let note = match bclone_enabled {
        Some(true) => "block cloning enabled; the pool also needs feature@block_cloning".to_owned(),
        Some(
            false,
        ) => "block cloning disabled (zfs_bclone_enabled=0) -- the default on OpenZFS 2.2.1 through 2.2.10; copies will not be shared".to_owned(),
        None => "zfs_bclone_enabled unreadable; treating as unknown".to_owned(),
    };
    Some(Zfs { version, bclone_enabled, note })
}

// ---------------------------------------------------------------------------
// Trying it
// ---------------------------------------------------------------------------
/// The byte that the file to be cloned is filled with.
pub const PAYLOAD_BYTE: u8 = 0xA5;

/// How many of them. Cloning an empty file can succeed without sharing
/// anything.
pub const PAYLOAD_LEN: usize = 1_048_576;

/// Whether some bytes are what the file to be cloned was filled with.
pub open spec fn is_payload(bytes: Seq<u8>) -> bool {
    bytes.len() == PAYLOAD_LEN && forall|i: int|
        0 <= i < bytes.len() ==> #[trigger] bytes[i] == PAYLOAD_BYTE
}

fn holds_payload(bytes: &[u8]) -> (r: bool)
    ensures
        r == is_payload(bytes@),
{
    if bytes.len() != PAYLOAD_LEN {
        return false;
    }
    let mut i: usize = 0;
    while i < bytes.len()
        invariant
            i <= bytes@.len(),
            forall|j: int| 0 <= j < i ==> #[trigger] bytes@[j] == PAYLOAD_BYTE,
        decreases bytes@.len() - i,
    {
        if bytes[i] != PAYLOAD_BYTE {
            return false;
        }
        i = i + 1;
    }
    true
}

/// One thing to do with two unnamed files.
#[derive(Debug)]
pub enum ProbeRequest {
    /// Create the file to be cloned in a directory.
    CreateSource(Vec<u8>),
    /// Fill it with so many of a byte and flush it.
    Fill { byte: u8, len: usize },
    /// Create the clone in a directory.
    CreateDest(Vec<u8>),
    /// Make the clone share the blocks.
    ShareBlocks,
    /// Read the whole clone. Answer: `Bytes`.
    ReadBack,
}

/// A [`ProbeRequest`] as a mathematical value.
pub enum ProbeRequestView {
    CreateSource(Seq<u8>),
    Fill { byte: u8, len: usize },
    CreateDest(Seq<u8>),
    ShareBlocks,
    ReadBack,
}

impl View for ProbeRequest {
    type V = ProbeRequestView;

    open spec fn view(&self) -> ProbeRequestView {
        match self {
            ProbeRequest::CreateSource(p) => ProbeRequestView::CreateSource(p@),
            ProbeRequest::Fill { byte, len } => ProbeRequestView::Fill { byte: *byte, len: *len },
            ProbeRequest::CreateDest(p) => ProbeRequestView::CreateDest(p@),
            ProbeRequest::ShareBlocks => ProbeRequestView::ShareBlocks,
            ProbeRequest::ReadBack => ProbeRequestView::ReadBack,
        }
    }
}

/// What came of a [`ProbeRequest`].
#[derive(Debug)]
pub enum ProbeReply {
    Done,
    Bytes(Vec<u8>),
    Failed(IoError),
}

/// A [`ProbeReply`] as a mathematical value.
pub enum ProbeReplyView {
    Done,
    Bytes(Seq<u8>),
    Failed(IoErrorView),
}

impl View for ProbeReply {
    type V = ProbeReplyView;

    open spec fn view(&self) -> ProbeReplyView {
        match self {
            ProbeReply::Done => ProbeReplyView::Done,
            ProbeReply::Bytes(b) => ProbeReplyView::Bytes(b@),
            ProbeReply::Failed(e) => ProbeReplyView::Failed(e@),
        }
    }
}

/// How far a [`ProbeReflink`] has come.
#[derive(Debug, Clone, Copy, PartialEq, Eq, Structural)]
pub enum ProbePhase {
    CreatingSource,
    Filling,
    CreatingDest,
    Sharing,
    Reading,
    Finished { shares: Option<bool> },
}

/// Trying whether a file in one directory can share blocks with one in
/// another, and whether it then reads back as it should.
#[derive(Debug)]
pub struct ProbeReflink {
    source_dir: Vec<u8>,
    dest_dir: Vec<u8>,
    phase: ProbePhase,
    detail: String,
}

/// A [`ProbeReflink`] as a mathematical value.
#[verifier::ext_equal]
pub struct ProbeView {
    pub source_dir: Seq<u8>,
    pub dest_dir: Seq<u8>,
    pub phase: ProbePhase,
    pub detail: Seq<char>,
}

impl View for ProbeReflink {
    type V = ProbeView;

    closed spec fn view(&self) -> ProbeView {
        ProbeView {
            source_dir: self.source_dir@,
            dest_dir: self.dest_dir@,
            phase: self.phase,
            detail: self.detail@,
        }
    }
}

impl ProbeView {
    /// Before the first step.
    pub open spec fn start(source_dir: Seq<u8>, dest_dir: Seq<u8>) -> ProbeView {
        ProbeView { source_dir, dest_dir, phase: ProbePhase::CreatingSource, detail: ""@ }
    }

    pub open spec fn to(self, phase: ProbePhase) -> ProbeView {
        ProbeView { phase, ..self }
    }

    pub open spec fn end(self, shares: Option<bool>, detail: Seq<char>) -> ProbeView {
        ProbeView { phase: ProbePhase::Finished { shares }, detail, ..self }
    }

    /// What came of it, and in words.
    pub open spec fn outcome(self) -> Option<(Option<bool>, Seq<char>)> {
        match self.phase {
            ProbePhase::Finished { shares } => Some((shares, self.detail)),
            _ => None,
        }
    }
}

impl Procedure for ProbeReflink {
    type Request = ProbeRequest;

    type Reply = ProbeReply;

    open spec fn wants(state: ProbeView) -> Option<ProbeRequestView> {
        match state.phase {
            ProbePhase::CreatingSource => Some(ProbeRequestView::CreateSource(state.source_dir)),
            ProbePhase::Filling => Some(
                ProbeRequestView::Fill { byte: PAYLOAD_BYTE, len: PAYLOAD_LEN },
            ),
            ProbePhase::CreatingDest => Some(ProbeRequestView::CreateDest(state.dest_dir)),
            ProbePhase::Sharing => Some(ProbeRequestView::ShareBlocks),
            ProbePhase::Reading => Some(ProbeRequestView::ReadBack),
            ProbePhase::Finished { .. } => None,
        }
    }

    open spec fn after(state: ProbeView, reply: ProbeReplyView) -> ProbeView {
        match (state.phase, reply) {
            (ProbePhase::CreatingSource, ProbeReplyView::Done) => state.to(ProbePhase::Filling),
            (ProbePhase::CreatingSource, ProbeReplyView::Failed(e)) => state.end(
                None,
                "cannot create a temp file in source dir: "@ + e.message,
            ),
            (ProbePhase::Filling, ProbeReplyView::Done) => state.to(ProbePhase::CreatingDest),
            (ProbePhase::Filling, ProbeReplyView::Failed(e)) => state.end(
                None,
                "cannot write the probe payload: "@ + e.message,
            ),
            (ProbePhase::CreatingDest, ProbeReplyView::Done) => state.to(ProbePhase::Sharing),
            (ProbePhase::CreatingDest, ProbeReplyView::Failed(e)) => state.end(
                None,
                "cannot create a temp file in dest dir: "@ + e.message,
            ),
            (ProbePhase::Sharing, ProbeReplyView::Done) => state.to(ProbePhase::Reading),
            (ProbePhase::Sharing, ProbeReplyView::Failed(e)) => state.end(
                Some(false),
                "FICLONE refused: "@ + e.message,
            ),
            (ProbePhase::Reading, ProbeReplyView::Failed(_)) => state.end(
                Some(false),
                "clone succeeded but could not be read back"@,
            ),
            (ProbePhase::Reading, ProbeReplyView::Bytes(b)) => if is_payload(b) {
                state.end(Some(true), "FICLONE verified by read-back"@)
            } else {
                state.end(
                    Some(false),
                    "clone succeeded but the data read back differs -- do not trust it"@,
                )
            },
            _ => state,
        }
    }

    fn request(&self) -> (request: Option<ProbeRequest>) {
        match self.phase {
            ProbePhase::CreatingSource => Some(
                ProbeRequest::CreateSource(path::copy_of(&self.source_dir)),
            ),
            ProbePhase::Filling => Some(
                ProbeRequest::Fill { byte: PAYLOAD_BYTE, len: PAYLOAD_LEN },
            ),
            ProbePhase::CreatingDest => Some(
                ProbeRequest::CreateDest(path::copy_of(&self.dest_dir)),
            ),
            ProbePhase::Sharing => Some(ProbeRequest::ShareBlocks),
            ProbePhase::Reading => Some(ProbeRequest::ReadBack),
            ProbePhase::Finished { .. } => None,
        }
    }

    fn resume(self, reply: ProbeReply) -> (next: ProbeReflink) {
        let mut next = self;
        match (next.phase, reply) {
            (ProbePhase::CreatingSource, ProbeReply::Done) => {
                next.phase = ProbePhase::Filling;
            },
            (ProbePhase::CreatingSource, ProbeReply::Failed(e)) => {
                next.detail = text::concat(
                    "cannot create a temp file in source dir: ",
                    e.message.as_str(),
                );
                next.phase = ProbePhase::Finished { shares: None };
            },
            (ProbePhase::Filling, ProbeReply::Done) => {
                next.phase = ProbePhase::CreatingDest;
            },
            (ProbePhase::Filling, ProbeReply::Failed(e)) => {
                next.detail = text::concat("cannot write the probe payload: ", e.message.as_str());
                next.phase = ProbePhase::Finished { shares: None };
            },
            (ProbePhase::CreatingDest, ProbeReply::Done) => {
                next.phase = ProbePhase::Sharing;
            },
            (ProbePhase::CreatingDest, ProbeReply::Failed(e)) => {
                next.detail = text::concat(
                    "cannot create a temp file in dest dir: ",
                    e.message.as_str(),
                );
                next.phase = ProbePhase::Finished { shares: None };
            },
            (ProbePhase::Sharing, ProbeReply::Done) => {
                next.phase = ProbePhase::Reading;
            },
            (ProbePhase::Sharing, ProbeReply::Failed(e)) => {
                next.detail = text::concat("FICLONE refused: ", e.message.as_str());
                next.phase = ProbePhase::Finished { shares: Some(false) };
            },
            (ProbePhase::Reading, ProbeReply::Failed(_)) => {
                next.detail = "clone succeeded but could not be read back".to_owned();
                next.phase = ProbePhase::Finished { shares: Some(false) };
            },
            (ProbePhase::Reading, ProbeReply::Bytes(b)) => if holds_payload(&b) {
                next.detail = "FICLONE verified by read-back".to_owned();
                next.phase = ProbePhase::Finished { shares: Some(true) };
            } else {
                next.detail =
                "clone succeeded but the data read back differs -- do not trust it".to_owned();
                next.phase = ProbePhase::Finished { shares: Some(false) };
            },
            _ => {},
        }
        next
    }
}

impl ProbeReflink {
    /// What came of it, and in words; nothing while it is under way.
    pub fn outcome(self) -> (r: Option<(Option<bool>, String)>)
        ensures
            match r {
                Some(p) => self@.outcome() == Some((p.0, p.1@)),
                None => self@.outcome() is None,
            },
    {
        match self.phase {
            ProbePhase::Finished { shares } => Some((shares, self.detail)),
            _ => None,
        }
    }
}

/// Tries whether files in two directories can share blocks.
pub fn probe_reflink(source_dir: &[u8], dest_dir: &[u8]) -> (p: ProbeReflink)
    ensures
        p@ == ProbeView::start(source_dir@, dest_dir@),
{
    ProbeReflink {
        source_dir: path::copy_of(source_dir),
        dest_dir: path::copy_of(dest_dir),
        phase: ProbePhase::CreatingSource,
        detail: "".to_owned(),
    }
}

/// Sharing is reported only where a clone was made and read back as what was
/// written: the last reply held it.
pub proof fn lemma_sharing_is_verified(
    source_dir: Seq<u8>,
    dest_dir: Seq<u8>,
    replies: Seq<ProbeReplyView>,
)
    requires
        procedure::state_given::<ProbeReflink>(
            ProbeView::start(source_dir, dest_dir),
            replies,
        ).phase == (ProbePhase::Finished { shares: Some(true) }),
    ensures
        exists|i: int|
            0 <= i < replies.len() && (#[trigger] replies[i] matches ProbeReplyView::Bytes(b)
                && is_payload(b)),
    decreases replies.len(),
{
    if replies.len() > 0 {
        let before = replies.drop_last();
        let s = procedure::state_given::<ProbeReflink>(
            ProbeView::start(source_dir, dest_dir),
            before,
        );
        if s.phase == (ProbePhase::Finished { shares: Some(true) }) {
            lemma_sharing_is_verified(source_dir, dest_dir, before);
            let i = choose|i: int|
                0 <= i < before.len() && (#[trigger] before[i] matches ProbeReplyView::Bytes(b)
                    && is_payload(b));
            assert(replies[i] == before[i]);
        } else {
            assert(replies[replies.len() - 1] == replies.last());
        }
    }
}

// ---------------------------------------------------------------------------
// The report
// ---------------------------------------------------------------------------
/// What a trial means for copies.
pub open spec fn verdict_for(reflink: Option<bool>) -> Seq<char> {
    match reflink {
        Some(
            true,
        ) => "copies between these directories share blocks; a per-VM rootfs costs almost nothing"@,
        Some(
            false,
        ) => "no block sharing between these directories; vmbuild will fall back to a hole-preserving copy, which still writes only the image's real data rather than its apparent size"@,
        None => "could not determine block sharing; vmbuild will attempt it anyway and fall back to a hole-preserving copy"@,
    }
}

/// What was found on this machine.
#[derive(Debug)]
pub struct Findings {
    /// The magic numbers of the two filesystems.
    pub source_magic: Option<i64>,
    pub dest_magic: Option<i64>,
    /// What came of the trial.
    pub reflink: Option<bool>,
    pub reflink_detail: String,
    pub zfs: Option<Zfs>,
}

/// The report on two directories, from what was found on this machine.
pub fn run(source_dir: &[u8], dest_dir: &[u8], found: Findings) -> (r: Report)
    ensures
        r@ == (ReportView {
            source_dir: source_dir@,
            dest_dir: dest_dir@,
            source_fs: name_for(found.source_magic),
            dest_fs: name_for(found.dest_magic),
            reflink: found.reflink,
            reflink_detail: found.reflink_detail@,
            zfs: info_view(found.zfs),
            verdict: verdict_for(found.reflink),
        }),
{
    let verdict = match found.reflink {
        Some(
            true,
        ) => "copies between these directories share blocks; a per-VM rootfs costs almost nothing",
        Some(
            false,
        ) => "no block sharing between these directories; vmbuild will fall back to a hole-preserving copy, which still writes only the image's real data rather than its apparent size",
        None => "could not determine block sharing; vmbuild will attempt it anyway and fall back to a hole-preserving copy",
    };
    Report {
        source_dir: path::copy_of(source_dir),
        dest_dir: path::copy_of(dest_dir),
        source_fs: fs_name(found.source_magic),
        dest_fs: fs_name(found.dest_magic),
        reflink: found.reflink,
        reflink_detail: found.reflink_detail,
        zfs: found.zfs,
        verdict: verdict.to_owned(),
    }
}

// ---------------------------------------------------------------------------
// What is reported
// ---------------------------------------------------------------------------
/// The filesystems that are known by their numbers, and the number of any other;
/// one that could not be asked for is unknown.
pub proof fn lemma_filesystems_have_their_names(n: i64)
    ensures
        name_for(None) == "unknown"@,
        name_for(Some(0xEF53)) == "ext2/3/4"@,
        name_for(Some(0x9123_683E)) == "btrfs"@,
        name_for(Some(0x5846_5342)) == "xfs"@,
        name_for(Some(0x2FC1_2FC1)) == "zfs"@,
        name_for(Some(0x0102_1994)) == "tmpfs"@,
        name_for(Some(0x794C_7630)) == "overlayfs"@,
        name_for(Some(0x6969)) == "nfs"@,
        name_for(Some(0x6573_5546)) == "fuse"@,
        n != 0xEF53 && n != 0x9123_683E && n != 0x5846_5342 && n != 0x2FC1_2FC1 && n != 0x0102_1994
            && n != 0x794C_7630 && n != 0x6969 && n != 0x6573_5546 ==> name_for(Some(n))
            == "unknown (0x"@ + number::hex_number((n as int % 0x1_0000_0000_0000_0000) as nat)
            + ")"@,
{
    if n >= 0 {
        assert(n as int % 0x1_0000_0000_0000_0000 == n);
    } else {
        assert(n as int % 0x1_0000_0000_0000_0000 == n + 0x1_0000_0000_0000_0000);
    }
}

/// Blocks are cloned exactly where the setting is a number other than zero,
/// whatever white space is around it. Where it is not there or is no number, that
/// is not known. What is said follows from it, and nothing is said of a ZFS that
/// has no version.
pub proof fn lemma_the_setting_says_whether_blocks_are_cloned(
    n: nat,
    before: Seq<char>,
    behind: Seq<char>,
    version: Seq<char>,
    setting: Option<Seq<char>>,
)
    requires
        forall|i: int| 0 <= i < before.len() ==> text::is_white(#[trigger] before[i]),
        forall|i: int| 0 <= i < behind.len() ==> text::is_white(#[trigger] behind[i]),
    ensures
        cloning(None) is None,
        cloning(Some(before + number::decimal(n) + behind)) == (if n <= i32::MAX {
            Some(n != 0)
        } else {
            None
        }),
        setting is Some && cloning(setting) is Some ==> text::trim(setting->0).len() > 0
            && forall|i: int|
            0 < i < text::trim(setting->0).len() ==> number::is_digit(
                #[trigger] text::trim(setting->0)[i],
            ),
        zfs_known(None, setting) is None,
        zfs_known(Some(version), setting) matches Some(z) && {
            &&& z.version == text::trim(version)
            &&& z.bclone_enabled == cloning(setting)
            &&& z.note == (if cloning(setting) == Some(true) {
                "block cloning enabled; the pool also needs feature@block_cloning"@
            } else if cloning(setting) == Some(false) {
                "block cloning disabled (zfs_bclone_enabled=0) -- the default on OpenZFS 2.2.1 through 2.2.10; copies will not be shared"@
            } else {
                "zfs_bclone_enabled unreadable; treating as unknown"@
            })
        },
{
    let d = number::decimal(n);
    number::lemma_decimal_is_read_back(n, 0x7fff_ffff);
    number::lemma_decimal_len(n);
    assert(!text::is_white(d[0]) && !text::is_white(d.last()));
    text::lemma_trim_takes_what_is_around(before, d, behind);
    if let Some(s) = setting {
        number::lemma_only_digits_are_read(text::trim(s), 0x7fff_ffff);
    }
}

/// A trial makes a file in the one directory, fills it with 1048576 bytes, makes
/// another in the other directory, lets it share the blocks, and reads it back.
/// Blocks are shared exactly if all of that goes well and just these bytes are
/// read; they are not shared if sharing or reading fails, or if anything else is
/// read; and where the files cannot be made or filled, it is not known. What is
/// said names the failure.
pub proof fn lemma_a_trial_says_what_it_found(
    source_dir: Seq<u8>,
    dest_dir: Seq<u8>,
    e: IoErrorView,
    back: Seq<u8>,
)
    ensures
        ({
            let failed = ProbeReplyView::Failed(e);
            let s0 = ProbeView::start(source_dir, dest_dir);
            let s1 = ProbeReflink::after(s0, ProbeReplyView::Done);
            let s2 = ProbeReflink::after(s1, ProbeReplyView::Done);
            let s3 = ProbeReflink::after(s2, ProbeReplyView::Done);
            let s4 = ProbeReflink::after(s3, ProbeReplyView::Done);
            let s5 = ProbeReflink::after(s4, ProbeReplyView::Bytes(back));
            let right = back.len() == 1_048_576 && forall|i: int|
                0 <= i < back.len() ==> #[trigger] back[i] == 0xA5;
            &&& ProbeReflink::wants(s0) == Some(ProbeRequestView::CreateSource(source_dir))
            &&& ProbeReflink::after(s0, failed).outcome() == Some(
                (None::<bool>, "cannot create a temp file in source dir: "@ + e.message),
            )
            &&& ProbeReflink::wants(s1) == Some(
                ProbeRequestView::Fill { byte: 0xA5, len: 1_048_576 },
            )
            &&& ProbeReflink::after(s1, failed).outcome() == Some(
                (None::<bool>, "cannot write the probe payload: "@ + e.message),
            )
            &&& ProbeReflink::wants(s2) == Some(ProbeRequestView::CreateDest(dest_dir))
            &&& ProbeReflink::after(s2, failed).outcome() == Some(
                (None::<bool>, "cannot create a temp file in dest dir: "@ + e.message),
            )
            &&& ProbeReflink::wants(s3) == Some(ProbeRequestView::ShareBlocks)
            &&& ProbeReflink::after(s3, failed).outcome() == Some(
                (Some(false), "FICLONE refused: "@ + e.message),
            )
            &&& ProbeReflink::wants(s4) == Some(ProbeRequestView::ReadBack)
            &&& ProbeReflink::after(s4, failed).outcome() == Some(
                (Some(false), "clone succeeded but could not be read back"@),
            )
            &&& right ==> s5.outcome() == Some((Some(true), "FICLONE verified by read-back"@))
            &&& !right ==> s5.outcome() == Some(
                (
                    Some(false),
                    "clone succeeded but the data read back differs -- do not trust it"@,
                ),
            )
            &&& ProbeReflink::wants(s5) is None
        }),
{
}

/// What is said in the end follows from the trial, and says what a copy will cost.
pub proof fn lemma_the_verdict_follows_from_the_trial()
    ensures
        verdict_for(Some(true))
            == "copies between these directories share blocks; a per-VM rootfs costs almost nothing"@,
        verdict_for(Some(false))
            == "no block sharing between these directories; vmbuild will fall back to a hole-preserving copy, which still writes only the image's real data rather than its apparent size"@,
        verdict_for(None)
            == "could not determine block sharing; vmbuild will attempt it anyway and fall back to a hole-preserving copy"@,
{
}

} // verus!
