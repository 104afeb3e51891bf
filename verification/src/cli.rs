//! What the options of the command line mean.

use crate::error::{Error, ErrorView, IoError, IoErrorView, IoKind};
use crate::ext4::sizing::SizePolicy;
use crate::path;
use crate::store::gc::GcPolicy;
use crate::text;
use vstd::prelude::*;
use vstd::string::*;
use vstd::utf8::*;

verus! {

/// What `format!` makes of a string with `{:?}`.
pub uninterp spec fn quoted(s: Seq<char>) -> Seq<char>;

/// `std::fmt::Debug` for a string, through `format!`: a function of the string
/// alone.
#[verifier::external_body]
fn quote(s: &str) -> (q: String)
    ensures
        q@ == quoted(s@),
{
    format!("{:?}", s)
}

// ---------------------------------------------------------------------------
// Named values
// ---------------------------------------------------------------------------
/// A name and a value: what stands in front of the first equals sign and what
/// stands behind it.
pub open spec fn key_value(s: Seq<char>) -> Result<(Seq<char>, Seq<char>), Seq<char>> {
    let at = text::find(s, '=');
    if at < s.len() {
        Ok((s.take(at), s.skip(at + 1)))
    } else {
        Err("expected KEY=VALUE, got "@ + quoted(s))
    }
}

/// Reads a name and a value.
pub fn parse_kv(s: &str) -> (r: Result<(String, String), String>)
    ensures
        match r {
            Ok(p) => key_value(s@) == Ok::<(Seq<char>, Seq<char>), Seq<char>>((p.0@, p.1@)),
            Err(m) => key_value(s@) == Err::<(Seq<char>, Seq<char>), Seq<char>>(m@),
        },
{
    let chars = text::chars_of(s);
    proof {
        assert(chars@.skip(0) =~= s@);
        text::lemma_find(s@, '=');
    }
    let at: usize = text::find_from(&chars, 0, '=');
    if at < chars.len() {
        let k = text::string_of(&chars, 0, at);
        let v = text::string_of(&chars, at + 1, chars.len());
        assert(k@ =~= s@.take(at as int));
        assert(v@ =~= s@.skip(at + 1));
        Ok((k, v))
    } else {
        let q = quote(s);
        Err(text::concat("expected KEY=VALUE, got ", q.as_str()))
    }
}

/// Putting a name without an equals sign and any value together with one and
/// reading them again gives them back.
pub proof fn lemma_key_value_round_trip(k: Seq<char>, v: Seq<char>)
    requires
        !k.contains('='),
    ensures
        key_value(k + seq!['='] + v) == Ok::<(Seq<char>, Seq<char>), Seq<char>>((k, v)),
{
    let s = k + seq!['='] + v;
    assert forall|j: int| 0 <= j < k.len() implies s[j] != '=' by {
        assert(s[j] == k[j]);
        assert(k.contains(k[j]));
    }
    assert(s[k.len() as int] == '=');
    text::lemma_find_is(s, '=', k.len() as int);
    assert(s.take(k.len() as int) =~= k);
    assert(s.skip(k.len() as int + 1) =~= v);
}

/// A text is read exactly if it has an equals sign. What is read is the text on
/// either side of the first one, all of it; the complaint names the text.
pub proof fn lemma_key_value_splits(s: Seq<char>)
    ensures
        key_value(s) is Ok <==> s.contains('='),
        key_value(s) matches Ok((k, v)) ==> !k.contains('=') && s == k.push('=') + v,
        key_value(s) matches Err(m) ==> m == "expected KEY=VALUE, got "@ + quoted(s),
{
    text::lemma_find(s, '=');
    let at = text::find(s, '=');
    if at < s.len() {
        assert(s[at] == '=');
        assert(s =~= s.take(at).push('=') + s.skip(at + 1));
        assert forall|j: int| 0 <= j < at implies s.take(at)[j] != '=' by {
            assert(s.take(at)[j] == s[j]);
        }
    }
}

// ---------------------------------------------------------------------------
// Storage
// ---------------------------------------------------------------------------
/// The storage that was asked for.
#[derive(Debug)]
pub enum Backend {
    Posix,
    /// Below this dataset.
    Zfs(String),
}

/// A [`Backend`] as a mathematical value.
pub enum BackendView {
    Posix,
    Zfs(Seq<char>),
}

impl View for Backend {
    type V = BackendView;

    open spec fn view(&self) -> BackendView {
        match self {
            Backend::Posix => BackendView::Posix,
            Backend::Zfs(d) => BackendView::Zfs(d@),
        }
    }
}

/// A failure that is due to what was asked for.
pub open spec fn refused(kind: IoKind, message: Seq<char>) -> ErrorView {
    ErrorView::Io(IoErrorView::own(kind, message))
}

/// The storage that an option asks for. It is never another one: what cannot
/// be had is refused.
pub open spec fn backend_for(
    kind: Seq<char>,
    dataset: Option<Seq<char>>,
    has_zfs: bool,
) -> Result<BackendView, ErrorView> {
    if kind == "posix"@ {
        Ok(BackendView::Posix)
    } else if kind == "zfs"@ {
        if !has_zfs {
            Err(
                refused(
                    IoKind::Unsupported,
                    "this build has no ZFS support; rebuild with --features zfs (experimental, and root-only on Linux)"@,
                ),
            )
        } else {
            match dataset {
                Some(d) => Ok(BackendView::Zfs(d)),
                None => Err(
                    refused(
                        IoKind::InvalidInput,
                        "--backend zfs requires --zfs-dataset (e.g. tank/vmbuild)"@,
                    ),
                ),
            }
        }
    } else {
        Err(
            refused(
                IoKind::InvalidInput,
                "unknown backend "@ + quoted(kind) + "; expected \"posix\" or \"zfs\""@,
            ),
        )
    }
}

/// The storage that an option asks for, see [`backend_for`].
pub fn open_backend(kind: &str, dataset: Option<&str>, has_zfs: bool) -> (r: Result<Backend, Error>)
    ensures
        match r {
            Ok(b) => backend_for(kind@, text::option_view(dataset), has_zfs) == Ok::<
                BackendView,
                ErrorView,
            >(b@),
            Err(e) => backend_for(kind@, text::option_view(dataset), has_zfs) == Err::<
                BackendView,
                ErrorView,
            >(e@),
        },
{
    if text::same(kind, "posix") {
        return Ok(Backend::Posix);
    }
    if text::same(kind, "zfs") {
        if !has_zfs {
            return Err(
                Error::Io(
                    IoError::own(
                        IoKind::Unsupported,
                        "this build has no ZFS support; rebuild with --features zfs (experimental, and root-only on Linux)".to_owned(),
                    ),
                ),
            );
        }
        return match dataset {
            Some(d) => Ok(Backend::Zfs(d.to_owned())),
            None => Err(
                Error::Io(
                    IoError::own(
                        IoKind::InvalidInput,
                        "--backend zfs requires --zfs-dataset (e.g. tank/vmbuild)".to_owned(),
                    ),
                ),
            ),
        };
    }
    let q = quote(kind);
    let head = text::concat("unknown backend ", q.as_str());
    Err(
        Error::Io(
            IoError::own(
                IoKind::InvalidInput,
                text::concat(head.as_str(), "; expected \"posix\" or \"zfs\""),
            ),
        ),
    )
}

/// The POSIX storage is had by its name alone, whatever else is given; ZFS by its
/// name, in a program that has it, below just the dataset that was given. No
/// other name is taken, and no storage is put in place of another: a refusal says
/// whether it is due to the program or to what was asked for.
pub proof fn lemma_backends_are_what_was_asked_for(
    kind: Seq<char>,
    dataset: Option<Seq<char>>,
    has_zfs: bool,
)
    ensures
        backend_for("posix"@, dataset, has_zfs) == Ok::<BackendView, ErrorView>(BackendView::Posix),
        backend_for(kind, dataset, has_zfs) matches Ok(BackendView::Posix) ==> kind == "posix"@,
        backend_for("zfs"@, dataset, has_zfs) is Ok <==> has_zfs && dataset is Some,
        backend_for("zfs"@, dataset, has_zfs) matches Ok(b) ==> b == BackendView::Zfs(dataset->0),
        backend_for(kind, dataset, has_zfs) matches Ok(BackendView::Zfs(_)) ==> kind == "zfs"@,
        backend_for(kind, dataset, has_zfs) matches Err(e) ==> {
            &&& kind != "posix"@
            &&& e matches ErrorView::Io(io) && {
                &&& io.code is None
                &&& io.kind == IoKind::Unsupported <==> kind == "zfs"@ && !has_zfs
                &&& io.kind == IoKind::InvalidInput <==> kind != "zfs"@ || has_zfs
                &&& kind != "zfs"@ ==> io.message == "unknown backend "@ + quoted(kind)
                    + "; expected \"posix\" or \"zfs\""@
            }
        },
{
    reveal_strlit("posix");
    reveal_strlit("zfs");
    assert("posix"@.len() != "zfs"@.len());
}

// ---------------------------------------------------------------------------
// Sizes and limits
// ---------------------------------------------------------------------------
/// The bytes of a number of MiB.
pub open spec fn mib_bytes(mb: u64) -> u64 {
    mb.wrapping_mul(1_048_576)
}

/// The rule for the size of an image, from a size in MiB and the size of the
/// archive; nothing where neither is known.
pub open spec fn size_for(size_mb: Option<u64>, tar_bytes: Option<u64>) -> Option<SizePolicy> {
    match (size_mb, tar_bytes) {
        (Some(mb), _) => Some(SizePolicy::Fixed(mib_bytes(mb))),
        (None, Some(n)) => Some(SizePolicy::FromTar { tar_bytes: n }),
        (None, None) => None,
    }
}

/// The rule for the size of an image, see [`size_for`].
pub fn size_policy(size_mb: Option<u64>, tar_bytes: Option<u64>) -> (r: Option<SizePolicy>)
    ensures
        r == size_for(size_mb, tar_bytes),
        size_mb matches Some(mb) && mb * 1_048_576 <= u64::MAX ==> r == Some(
            SizePolicy::Fixed((size_mb->0 * 1_048_576) as u64),
        ),
        size_mb is None ==> (r matches Some(SizePolicy::FromTar { tar_bytes: n }) && Some(n)
            == tar_bytes) || r is None && tar_bytes is None,
{
    match (size_mb, tar_bytes) {
        (Some(mb), _) => Some(SizePolicy::Fixed(mb.wrapping_mul(1_048_576))),
        (None, Some(n)) => Some(SizePolicy::FromTar { tar_bytes: n }),
        (None, None) => None,
    }
}

/// The policy for an eviction; nothing where no limit is given.
pub open spec fn policy_for(max_mb: Option<u64>, keep_days: Option<u64>, dry_run: bool) -> Option<
    GcPolicy,
> {
    if max_mb is None && keep_days is None {
        None
    } else {
        Some(
            GcPolicy {
                max_bytes: match max_mb {
                    Some(mb) => Some(mib_bytes(mb)),
                    None => None,
                },
                keep_secs: match keep_days {
                    Some(d) => Some(d.wrapping_mul(86_400)),
                    None => None,
                },
                dry_run,
            },
        )
    }
}

/// Each limit follows from its own option, whatever the other one is: a size is
/// given in MiB of 1048576 bytes, an age in days of 86400 seconds. Without either
/// there is nothing to do.
pub proof fn lemma_limits_are_in_bytes_and_seconds(
    max_mb: Option<u64>,
    keep_days: Option<u64>,
    dry_run: bool,
)
    ensures
        policy_for(max_mb, keep_days, dry_run) is None <==> max_mb is None && keep_days is None,
        policy_for(max_mb, keep_days, dry_run) matches Some(p) ==> {
            &&& p.dry_run == dry_run
            &&& p.max_bytes is Some <==> max_mb is Some
            &&& p.keep_secs is Some <==> keep_days is Some
            &&& max_mb is Some ==> p.max_bytes->0 == (max_mb->0 * 1_048_576)
                % 0x1_0000_0000_0000_0000
            &&& keep_days is Some ==> p.keep_secs->0 == (keep_days->0 * 86_400)
                % 0x1_0000_0000_0000_0000
            &&& max_mb is Some && max_mb->0 * 1_048_576 <= u64::MAX ==> p.max_bytes->0
                == max_mb->0 * 1_048_576
            &&& keep_days is Some && keep_days->0 * 86_400 <= u64::MAX ==> p.keep_secs->0
                == keep_days->0 * 86_400
        },
{
    if let Some(m) = max_mb {
        if m * 1_048_576 <= u64::MAX {
            assert((m * 1_048_576) % 0x1_0000_0000_0000_0000 == m * 1_048_576);
        }
    }
    if let Some(d) = keep_days {
        if d * 86_400 <= u64::MAX {
            assert((d * 86_400) % 0x1_0000_0000_0000_0000 == d * 86_400);
        }
    }
}

/// A size that is given is taken in MiB, whatever the archive; one that is not
/// is that of the archive.
pub proof fn lemma_given_sizes_are_in_bytes(size_mb: Option<u64>, tar_bytes: Option<u64>)
    ensures
        size_for(size_mb, tar_bytes) is None <==> size_mb is None && tar_bytes is None,
        size_mb is Some ==> (size_for(size_mb, tar_bytes) matches Some(SizePolicy::Fixed(n)) && n
            == (size_mb->0 * 1_048_576) % 0x1_0000_0000_0000_0000),
        size_mb is None && tar_bytes is Some ==> size_for(size_mb, tar_bytes) == Some(
            SizePolicy::FromTar { tar_bytes: tar_bytes->0 },
        ),
{
}

/// The policy for an eviction, see [`policy_for`].
pub fn gc_policy(max_mb: Option<u64>, keep_days: Option<u64>, dry_run: bool) -> (r: Option<GcPolicy>)
    ensures
        r == policy_for(max_mb, keep_days, dry_run),
        r is None <==> max_mb is None && keep_days is None,
        r matches Some(p) ==> {
            &&& p.dry_run == dry_run
            &&& p.max_bytes is Some <==> max_mb is Some
            &&& p.keep_secs is Some <==> keep_days is Some
            &&& max_mb is Some ==> p.max_bytes->0 == (max_mb->0 * 1_048_576)
                % 0x1_0000_0000_0000_0000
            &&& keep_days is Some ==> p.keep_secs->0 == (keep_days->0 * 86_400)
                % 0x1_0000_0000_0000_0000
        },
{
    proof {
        lemma_limits_are_in_bytes_and_seconds(max_mb, keep_days, dry_run);
    }
    if max_mb.is_none() && keep_days.is_none() {
        return None;
    }
    let max_bytes = match max_mb {
        Some(mb) => Some(mb.wrapping_mul(1_048_576)),
        None => None,
    };
    let keep_secs = match keep_days {
        Some(d) => Some(d.wrapping_mul(86_400)),
        None => None,
    };
    Some(GcPolicy { max_bytes, keep_secs, dry_run })
}

// ---------------------------------------------------------------------------
// Places
// ---------------------------------------------------------------------------
/// Where the catalog of images is, given what the environment names: the data
/// directory, the home directory.
pub open spec fn catalog_place(data: Option<Seq<char>>, home: Option<Seq<char>>) -> Seq<u8> {
    let base = match data {
        Some(d) => d,
        None => (match home {
            Some(h) => h,
            None => "."@,
        }) + "/.heyo"@,
    };
    path::joined(
        path::joined(encode_utf8(base), encode_utf8("images"@)),
        encode_utf8("firecracker"@),
    )
}

/// Where the catalog of images is.
pub fn catalog_dir(data: Option<&str>, home: Option<&str>) -> (p: Vec<u8>)
    ensures
        p@ == catalog_place(text::option_view(data), text::option_view(home)),
{
    let base = match data {
        Some(d) => d.to_owned(),
        None => {
            let h = match home {
                Some(h) => h,
                None => ".",
            };
            text::concat(h, "/.heyo")
        },
    };
    let images = path::join_text(base.as_str().as_bytes(), "images");
    path::join_text(&images, "firecracker")
}

/// Where to publish an image: under a path, or under a name in the catalog.
pub open spec fn install_place(
    out: Option<Seq<u8>>,
    name: Option<Seq<char>>,
    catalog: Seq<u8>,
) -> Option<Seq<u8>> {
    match (out, name) {
        (Some(o), _) => Some(o),
        (None, Some(n)) => Some(path::joined(catalog, encode_utf8(n + ".ext4"@))),
        (None, None) => None,
    }
}

/// Where to publish an image: under a path, or under a name in the catalog.
pub fn install_to(out: Option<&[u8]>, name: Option<&str>, catalog: &[u8]) -> (p: Option<Vec<u8>>)
    ensures
        crate::build::path_view(p) == install_place(
            match out {
                Some(o) => Some(o@),
                None => None,
            },
            text::option_view(name),
            catalog@,
        ),
{
    match out {
        Some(o) => Some(path::copy_of(o)),
        None => match name {
            Some(n) => {
                let file = text::concat(n, ".ext4");
                Some(path::join_text(catalog, file.as_str()))
            },
            None => None,
        },
    }
}

/// The catalog is `images/firecracker` below the data directory, and only where
/// there is none, below `.heyo` in the home directory, or in the current one.
pub proof fn lemma_catalog_is_below_the_data_directory(
    data: Option<Seq<char>>,
    home: Option<Seq<char>>,
)
    ensures
        ({
            let base = match (data, home) {
                (Some(d), _) => encode_utf8(d),
                (None, Some(h)) => encode_utf8(h) + encode_utf8("/.heyo"@),
                (None, None) => encode_utf8("./.heyo"@),
            };
            let place = catalog_place(data, home);
            if base.len() > 0 && base.last() != 47 {
                place == base + encode_utf8("/images/firecracker"@)
            } else {
                place == base + encode_utf8("images/firecracker"@)
            }
        }),
{
    reveal_strlit("images");
    reveal_strlit("firecracker");
    reveal_strlit("images/firecracker");
    reveal_strlit("/images/firecracker");
    reveal_strlit("/.heyo");
    reveal_strlit("./.heyo");
    reveal_strlit(".");
    is_ascii_chars_encode_utf8("images"@);
    is_ascii_chars_encode_utf8("firecracker"@);
    is_ascii_chars_encode_utf8("images/firecracker"@);
    is_ascii_chars_encode_utf8("/images/firecracker"@);
    let base = match data {
        Some(d) => d,
        None => (match home {
            Some(h) => h,
            None => "."@,
        }) + "/.heyo"@,
    };
    if data is None {
        if let Some(h) = home {
            path::lemma_encode_concat(h, "/.heyo"@);
        } else {
            assert("."@ + "/.heyo"@ =~= "./.heyo"@);
        }
    }
    let b = encode_utf8(base);
    let images = path::joined(b, encode_utf8("images"@));
    let place = path::joined(images, encode_utf8("firecracker"@));
    assert(images.last() == 115);
    assert(place =~= images.push(47) + encode_utf8("firecracker"@));
    if b.len() > 0 && b.last() != 47 {
        assert(place =~= b + encode_utf8("/images/firecracker"@));
    } else {
        assert(place =~= b + encode_utf8("images/firecracker"@));
    }
}

/// A path that is given is where the image goes, whatever its name; a name alone
/// is that of a file in the catalog, with the extension of an image.
pub proof fn lemma_images_go_where_they_were_asked_for(
    out: Option<Seq<u8>>,
    name: Option<Seq<char>>,
    catalog: Seq<u8>,
)
    ensures
        out is Some ==> install_place(out, name, catalog) == out,
        out is None && name is None ==> install_place(out, name, catalog) is None,
        out is None && name is Some ==> install_place(out, name, catalog) == Some(
            path::joined(catalog, encode_utf8(name->0 + ".ext4"@)),
        ),
        out is None ==> (name matches Some(n) && encode_utf8(n).len() > 0 && encode_utf8(n)[0] != 47
            ==> {
            let file = encode_utf8(name->0) + encode_utf8(".ext4"@);
            &&& catalog.len() > 0 && catalog.last() != 47 ==> install_place(out, name, catalog)
                == Some(catalog + seq![47u8] + file)
            &&& catalog.len() > 0 && catalog.last() == 47 ==> install_place(out, name, catalog)
                == Some(catalog + file)
        }),
        out is None ==> (name matches Some(n) && encode_utf8(n).len() > 0 && encode_utf8(n)[0] == 47
            ==> install_place(out, name, catalog) == Some(
            encode_utf8(name->0) + encode_utf8(".ext4"@),
        )),
{
    if let Some(n) = name {
        path::lemma_encode_concat(n, ".ext4"@);
        if encode_utf8(n).len() > 0 {
            assert(encode_utf8(n + ".ext4"@)[0] == encode_utf8(n)[0]);
            assert(catalog.push(47) =~= catalog + seq![47u8]);
        }
    }
}

/// A path that was given, else one that follows, else the current directory.
pub fn place_or(given: Option<Vec<u8>>, other: Option<Vec<u8>>) -> (p: Vec<u8>)
    ensures
        p@ == (match (given, other) {
            (Some(g), _) => g@,
            (None, Some(o)) => o@,
            (None, None) => encode_utf8("."@),
        }),
{
    match given {
        Some(g) => g,
        None => match other {
            Some(o) => o,
            None => path::bytes_of("."),
        },
    }
}

} // verus!
