//! Writing the archive of a root filesystem as an ext4 image.
//!
//! The archive is read once and the image is written once. Owners and
//! permissions come from the headers of the archive, so no privileges are
//! needed. The archive is expected to be a flattened root filesystem, with its
//! entries in order of dependency.

pub mod entry;
pub mod finish;
pub mod journal_laws;
pub mod laws;
pub mod sizing;
pub mod writer;

pub use entry::TarEntry;
pub use sizing::SizePolicy;
pub use writer::write_ext4_from_tar;

use crate::number;
use crate::path;
use crate::text;
use vstd::prelude::*;
use vstd::string::*;

verus! {

/// The second that stands in for times that the archive does not give, where
/// nothing else is asked for: the start of 2020.
pub const FALLBACK_EPOCH: u32 = 1_577_836_800;

/// The epoch that a setting asks for, see [`default_epoch`].
pub open spec fn epoch_for(setting: Option<Seq<char>>) -> u32 {
    match setting {
        Some(s) => match number::unsigned_number(text::trim(s), 0xffff_ffff) {
            Some(n) => n as u32,
            None => FALLBACK_EPOCH,
        },
        None => FALLBACK_EPOCH,
    }
}

/// The setting, `SOURCE_DATE_EPOCH`, if it is there and is a number, else
/// [`FALLBACK_EPOCH`]. The clock is not asked: the same input should give the
/// same image.
pub fn default_epoch(setting: Option<&str>) -> (secs: u32)
    ensures
        secs == epoch_for(text::option_view(setting)),
{
    match setting {
        Some(s) => {
            let t = text::trimmed(s);
            match number::parse_u32(t.as_str()) {
                Some(n) => n,
                None => FALLBACK_EPOCH,
            }
        },
        None => FALLBACK_EPOCH,
    }
}

/// What an image should be like.
#[derive(Debug)]
pub struct Ext4Options {
    pub size: SizePolicy,
    pub label: Option<String>,
    /// Fixing it makes the image reproducible; without it the writer picks one
    /// at random.
    pub uuid: Option<[u8; 16]>,
    /// Whether to add a journal.
    pub journal: bool,
    /// Whether to fail on entries that cannot be in an image: devices, FIFOs
    /// and sockets.
    pub strict_special_files: bool,
    /// The second for the inodes that the archive does not describe.
    pub epoch_secs: u32,
}

/// An [`Ext4Options`] as a mathematical value.
#[verifier::ext_equal]
pub struct Ext4OptionsView {
    pub size: SizePolicy,
    pub label: Option<Seq<char>>,
    pub uuid: Option<Seq<u8>>,
    pub journal: bool,
    pub strict_special_files: bool,
    pub epoch_secs: u32,
}

/// An optional string as a mathematical value.
pub open spec fn label_view(label: Option<String>) -> Option<Seq<char>> {
    match label {
        Some(l) => Some(l@),
        None => None,
    }
}

/// Optional bytes as a mathematical value.
pub open spec fn uuid_view(uuid: Option<[u8; 16]>) -> Option<Seq<u8>> {
    match uuid {
        Some(b) => Some(b@),
        None => None,
    }
}

impl View for Ext4Options {
    type V = Ext4OptionsView;

    open spec fn view(&self) -> Ext4OptionsView {
        Ext4OptionsView {
            size: self.size,
            label: label_view(self.label),
            uuid: uuid_view(self.uuid),
            journal: self.journal,
            strict_special_files: self.strict_special_files,
            epoch_secs: self.epoch_secs,
        }
    }
}

/// A copy of an optional label.
pub fn copy_label(label: &Option<String>) -> (out: Option<String>)
    ensures
        label_view(out) == label_view(*label),
{
    match label {
        Some(l) => Some(l.clone()),
        None => None,
    }
}

impl Ext4Options {
    /// The usual options: a size from an empty archive, the label `rootfs`, a
    /// journal, and an epoch.
    pub fn with_epoch(epoch_secs: u32) -> (o: Ext4Options)
        ensures
            o@ == (Ext4OptionsView {
                size: SizePolicy::FromTar { tar_bytes: 0 },
                label: Some("rootfs"@),
                uuid: None,
                journal: true,
                strict_special_files: false,
                epoch_secs,
            }),
    {
        Ext4Options {
            size: SizePolicy::FromTar { tar_bytes: 0 },
            label: Some("rootfs".to_owned()),
            uuid: None,
            journal: true,
            strict_special_files: false,
            epoch_secs,
        }
    }

    /// The same options again.
    pub fn duplicate(&self) -> (o: Ext4Options)
        ensures
            o@ == self@,
    {
        Ext4Options {
            size: self.size,
            label: copy_label(&self.label),
            uuid: self.uuid,
            journal: self.journal,
            strict_special_files: self.strict_special_files,
            epoch_secs: self.epoch_secs,
        }
    }
}

/// What went into an image.
#[derive(Debug)]
pub struct Ext4Stats {
    pub files: u64,
    pub dirs: u64,
    pub symlinks: u64,
    pub hardlinks: u64,
    pub bytes_from_tar: u64,
    /// The entries that cannot be in an image. They are told, not dropped in
    /// silence.
    pub skipped_special: Vec<Vec<u8>>,
    pub apparent_size: u64,
    pub actual_size: u64,
}

/// An [`Ext4Stats`] as a mathematical value.
#[verifier::ext_equal]
pub struct Ext4StatsView {
    pub files: u64,
    pub dirs: u64,
    pub symlinks: u64,
    pub hardlinks: u64,
    pub bytes_from_tar: u64,
    pub skipped_special: Seq<Seq<u8>>,
    pub apparent_size: u64,
    pub actual_size: u64,
}

impl View for Ext4Stats {
    type V = Ext4StatsView;

    open spec fn view(&self) -> Ext4StatsView {
        Ext4StatsView {
            files: self.files,
            dirs: self.dirs,
            symlinks: self.symlinks,
            hardlinks: self.hardlinks,
            bytes_from_tar: self.bytes_from_tar,
            skipped_special: path::views(self.skipped_special@),
            apparent_size: self.apparent_size,
            actual_size: self.actual_size,
        }
    }
}

impl Ext4StatsView {
    /// Nothing yet.
    pub open spec fn empty() -> Ext4StatsView {
        Ext4StatsView {
            files: 0,
            dirs: 0,
            symlinks: 0,
            hardlinks: 0,
            bytes_from_tar: 0,
            skipped_special: seq![],
            apparent_size: 0,
            actual_size: 0,
        }
    }
}

impl Default for Ext4Stats {
    fn default() -> (s: Ext4Stats)
        ensures
            s@ == Ext4StatsView::empty(),
    {
        let s = Ext4Stats {
            files: 0,
            dirs: 0,
            symlinks: 0,
            hardlinks: 0,
            bytes_from_tar: 0,
            skipped_special: Vec::new(),
            apparent_size: 0,
            actual_size: 0,
        };
        assert(s@ =~= Ext4StatsView::empty());
        s
    }
}

/// The epoch is the number that the setting gives, whatever white space is around
/// it; without a setting, and where it is no number or one of more than 32 bits,
/// it is the start of 2020.
pub proof fn lemma_the_epoch_is_the_setting(
    n: nat,
    before: Seq<char>,
    behind: Seq<char>,
    s: Seq<char>,
)
    requires
        forall|i: int| 0 <= i < before.len() ==> text::is_white(#[trigger] before[i]),
        forall|i: int| 0 <= i < behind.len() ==> text::is_white(#[trigger] behind[i]),
    ensures
        epoch_for(None) == 1_577_836_800,
        epoch_for(Some(before + number::decimal(n) + behind)) == (if n <= u32::MAX {
            n as int
        } else {
            1_577_836_800
        }),
        epoch_for(Some(s)) != 1_577_836_800 ==> text::trim(s).len() > 0 && forall|i: int|
            0 < i < text::trim(s).len() ==> number::is_digit(#[trigger] text::trim(s)[i]),
{
    let d = number::decimal(n);
    number::lemma_decimal_is_read_back(n, 0xffff_ffff);
    number::lemma_decimal_len(n);
    number::lemma_only_digits_are_read(text::trim(s), 0xffff_ffff);
    assert(!text::is_white(d[0]) && !text::is_white(d.last()));
    text::lemma_trim_takes_what_is_around(before, d, behind);
}

} // verus!
