//! From an archive to an image: names, sizes, the writer and what comes after.

use std::collections::BTreeMap;
use std::io::{Cursor, Read};
use vmbuild::error::{Error, IoError, IoKind};
use vmbuild::ext4::entry::{
    decide, decide_with, fixed_ts, normalize, Action, Attributes, FileTimestamps, NewInode,
    NodeKind, TarEntry,
};
use vmbuild::ext4::finish::{
    add_journal, dump_superblock, features, fsck, normalize_timestamps,
};
use vmbuild::ext4::sizing::{SizePolicy, HEADROOM_BYTES, MIN_BYTES};
use vmbuild::ext4::writer::{write_ext4_from_tar, WriterReply, WriterRequest};
use vmbuild::ext4::{default_epoch, Ext4Options, Ext4Stats, FALLBACK_EPOCH};
use vmbuild::host::{FileStat, Reply, Request, ToolCall, ToolOutput};
use vmbuild::procedure::Procedure;

// ---------------------------------------------------------------------------
// Names
// ---------------------------------------------------------------------------
#[test]
fn normalize_strips_prefixes() {
    assert_eq!(normalize(b"usr/bin").unwrap().unwrap(), "/usr/bin");
    assert_eq!(normalize(b"/usr/bin").unwrap().unwrap(), "/usr/bin");
    assert_eq!(normalize(b"./usr/bin").unwrap().unwrap(), "/usr/bin");
}

#[test]
fn normalize_maps_archive_root_to_none() {
    assert!(normalize(b"./").unwrap().is_none());
    assert!(normalize(b"/").unwrap().is_none());
}

#[test]
fn normalize_rejects_escapes() {
    for bad in ["../etc/passwd", "usr/../../etc", "a/b/../../.."] {
        assert!(
            matches!(normalize(bad.as_bytes()), Err(Error::PathEscape { .. })),
            "{bad} should be rejected"
        );
    }
}

#[test]
fn normalize_handles_odd_names() {
    assert_eq!(normalize(b"a//b/./c/").unwrap().unwrap(), "/a/b/c");
    assert_eq!(normalize("ü/..x/...".as_bytes()).unwrap().unwrap(), "/ü/..x/...");
    assert!(normalize(b"").unwrap().is_none());
    assert!(matches!(
        normalize(b"a/\xff/b"),
        Err(Error::BadPath { path }) if path == b"a/\xff/b"
    ));
    assert!(matches!(normalize(b"\xff/.."), Err(Error::BadPath { .. })));
    assert!(matches!(
        normalize(b"../\xff"),
        Err(Error::PathEscape { path }) if path == b"../\xff"
    ));
}

#[test]
fn a_normalized_name_is_its_own() {
    for raw in ["a/b", "./x", "/y//z/."] {
        let once = normalize(raw.as_bytes()).unwrap().unwrap();
        assert_eq!(normalize(once.as_bytes()).unwrap().unwrap(), once);
    }
}

// ---------------------------------------------------------------------------
// Sizes
// ---------------------------------------------------------------------------
#[test]
fn small_tars_hit_the_floor() {
    assert_eq!(SizePolicy::FromTar { tar_bytes: 0 }.resolve(), MIN_BYTES);
    assert_eq!(SizePolicy::FromTar { tar_bytes: 1024 }.resolve(), MIN_BYTES);
}

#[test]
fn large_tars_scale_with_slack() {
    let gib = 1024 * 1024 * 1024u64;
    let got = SizePolicy::FromTar { tar_bytes: gib }.resolve();
    assert_eq!(got, (gib as f64 * 1.2) as u64 + HEADROOM_BYTES);
    assert!(got > gib, "must leave room for the extracted tree");
}

#[test]
fn sizes_are_six_fifths_and_grow() {
    let mut last = 0;
    for n in [0u64, 1, 4, 5, 60_000_000, 1_000_000_007, 1 << 40, (1 << 48) - 1, 1 << 48] {
        let size = SizePolicy::FromTar { tar_bytes: n }.resolve();
        assert_eq!(size, MIN_BYTES.max(n * 6 / 5 + HEADROOM_BYTES), "{n}");
        assert!(size >= last);
        last = size;
    }
}

#[test]
fn fixed_is_verbatim() {
    assert_eq!(SizePolicy::Fixed(777).resolve(), 777);
}

#[test]
fn sizes_agree_with_double_precision() {
    assert_eq!(HEADROOM_BYTES, 64 * 1024 * 1024);
    assert_eq!(MIN_BYTES, 128 * 1024 * 1024);
    let mut samples: Vec<u64> = vec![0, 1, 5, 10, 55924053, 55924054, u64::MAX / 2];
    for e in 20..64u32 {
        for d in [0u64, 1, 2, 3, 5, 7, 511, 513, 1023, 1025] {
            samples.push((1u64 << e).wrapping_add(d));
            samples.push((1u64 << e).wrapping_sub(d));
        }
    }
    let mut x = 88172645463325252u64;
    for i in 0..20000u32 {
        x ^= x << 13;
        x ^= x >> 7;
        x ^= x << 17;
        samples.push(x >> (i % 44));
    }
    for n in samples {
        let est = ((n as f64 * 1.2) as u64).wrapping_add(HEADROOM_BYTES).max(MIN_BYTES);
        assert_eq!(SizePolicy::FromTar { tar_bytes: n }.resolve(), est, "{n}");
    }
}

#[test]
fn the_epoch_is_a_setting_or_fixed() {
    assert_eq!(default_epoch(None), 1_577_836_800);
    assert_eq!(default_epoch(Some(" 12\n")), 12);
    assert_eq!(default_epoch(Some("+4294967295")), u32::MAX);
    for bad in ["", "x", "-1", "4294967296", "1 2", "1.0"] {
        assert_eq!(default_epoch(Some(bad)), FALLBACK_EPOCH, "{bad:?}");
    }
}

#[test]
fn all_four_times_are_one_second() {
    assert_eq!(
        fixed_ts(7),
        FileTimestamps {
            access_lo: 7,
            access_hi: 0,
            modification_lo: 7,
            modification_hi: 0,
            creation_lo: 7,
            creation_hi: 0,
            now_lo: 7,
            now_hi: 0,
        }
    );
}

// ---------------------------------------------------------------------------
// Entries
// ---------------------------------------------------------------------------
fn hdr(t: tar::EntryType, mode: u32, size: u64) -> tar::Header {
    let mut h = tar::Header::new_gnu();
    h.set_entry_type(t);
    h.set_mode(mode);
    h.set_size(size);
    h.set_uid(0);
    h.set_gid(0);
    h.set_mtime(1_600_000_000);
    h
}

fn tar_entry(h: &tar::Header, path: &str, link: Option<&str>) -> TarEntry {
    TarEntry {
        header: h.as_bytes().to_vec(),
        path: path.as_bytes().to_vec(),
        link: link.map(|l| l.as_bytes().to_vec()),
    }
}

fn created(a: Result<Action, Error>) -> NewInode {
    match a {
        Ok(Action::Create(n)) => n,
        other => panic!("{other:?}"),
    }
}

#[test]
fn an_inode_follows_its_header() {
    let mut h = hdr(tar::EntryType::Regular, 0o104755, 12);
    h.set_uid(1000);
    h.set_gid(70_000);
    let n = created(decide(&tar_entry(&h, "./bin/su", None)));
    assert_eq!(n.path, "/bin/su");
    assert_eq!(n.mode, 0x8000 | 0o4755);
    assert_eq!((n.uid, n.gid, n.size), (1000, 70_000, 12));
    assert_eq!(n.times, fixed_ts(1_600_000_000));
    assert_eq!(n.kind, NodeKind::File);
    assert!(n.target.is_none());

    let n = created(decide(&tar_entry(&hdr(tar::EntryType::Directory, 0o755, 0), "etc/", None)));
    assert_eq!((n.path.as_str(), n.mode), ("/etc", 0x4000 | 0o755));
}

#[test]
fn numbers_that_do_not_fit_keep_their_low_bits() {
    let mut h = hdr(tar::EntryType::Regular, 0o644, 0);
    h.set_uid(0x1_0000_0005);
    h.set_mtime(0x2_0000_0007);
    let n = created(decide(&tar_entry(&h, "f", None)));
    assert_eq!(n.uid, 5);
    assert_eq!(n.times, fixed_ts(7));
}

#[test]
fn a_symlink_leads_where_its_entry_says() {
    let mut h = hdr(tar::EntryType::Symlink, 0o777, 0);
    h.set_link_name("cut").unwrap();
    let n = created(decide(&tar_entry(&h, "bin", Some("usr/bin"))));
    assert_eq!(n.target.as_deref(), Some("usr/bin"));
    assert_eq!(n.mode, 0xA000 | 0o777);
    assert!(matches!(
        decide(&tar_entry(&h, "bin", None)),
        Err(Error::BadPath { path }) if path == b"bin"
    ));
    let bad = TarEntry { link: Some(vec![0xff]), ..tar_entry(&h, "l", None) };
    assert_eq!(created(decide(&bad)).target.unwrap(), "\u{fffd}");
}

#[test]
fn a_long_symlink_target_is_kept_whole() {
    let target = "d/".repeat(90) + "end";
    let mut b = tar::Builder::new(Vec::new());
    let mut h = hdr(tar::EntryType::Symlink, 0o777, 0);
    b.append_link(&mut h, "l", &target).unwrap();
    let mut image = Image::default();
    let stats = write(&mut image, &b.into_inner().unwrap(), &opts()).unwrap();
    assert_eq!(stats.symlinks, 1);
    assert_eq!(image.inodes[0].0.target.as_deref(), Some(target.as_str()));
}

#[test]
fn every_entry_is_counted_somewhere() {
    let mut tar = make_tar(&[
        E::Dir("d", 0o755),
        E::File("d/f", 0o644, b"12345"),
        E::Sym("s", "d"),
        E::Hard("h", "d/f"),
        E::Hard("r", "./"),
    ]);
    tar.truncate(tar.len() - 1024);
    let mut b = tar::Builder::new(Vec::new());
    let mut h = hdr(tar::EntryType::Fifo, 0o644, 0);
    b.append_data(&mut h, "pipe", std::io::empty()).unwrap();
    tar.extend(b.into_inner().unwrap());
    let stats = write(&mut Image::default(), &tar, &opts()).unwrap();
    assert_eq!((stats.dirs, stats.files, stats.symlinks, stats.hardlinks), (1, 1, 1, 1));
    assert_eq!(stats.skipped_special, vec![b"r".to_vec(), b"pipe".to_vec()]);
    assert_eq!(stats.bytes_from_tar, 5);
}

#[test]
fn the_last_group_may_be_short() {
    let p = write_ext4_from_tar(b"/out.ext4", &opts());
    assert!(matches!(
        p.request(),
        Some(WriterRequest::Open { size, epoch: 1_600_000_000, short_last_group: true, .. })
            if size == 64 * 1024 * 1024
    ));
}

#[test]
fn a_hard_link_is_put_off() {
    let h = hdr(tar::EntryType::Link, 0o644, 0);
    assert!(matches!(
        decide(&tar_entry(&h, "b", Some("./a"))),
        Ok(Action::Link { link, target }) if link == "/b" && target == "/a"
    ));
    assert!(matches!(decide(&tar_entry(&h, "b", Some("./"))), Ok(Action::Special)));
    assert!(matches!(decide(&tar_entry(&h, "b", None)), Err(Error::BadPath { .. })));
    assert!(matches!(
        decide(&tar_entry(&h, "b", Some("../a"))),
        Err(Error::PathEscape { .. })
    ));
}

#[test]
fn records_about_other_entries_are_passed_over() {
    for t in [
        tar::EntryType::XGlobalHeader,
        tar::EntryType::XHeader,
        tar::EntryType::GNULongName,
        tar::EntryType::GNULongLink,
    ] {
        let h = hdr(t, 0o644, 0);
        assert!(matches!(decide(&tar_entry(&h, "../x", None)), Ok(Action::Skip)), "{t:?}");
    }
    for t in [
        tar::EntryType::Char,
        tar::EntryType::Block,
        tar::EntryType::Fifo,
        tar::EntryType::Continuous,
        tar::EntryType::GNUSparse,
    ] {
        let mut h = hdr(t, 0o644, 0);
        h.as_gnu_mut().unwrap().set_real_size(0);
        assert!(matches!(decide(&tar_entry(&h, "x", None)), Ok(Action::Special)), "{t:?}");
    }
    let mut old = hdr(tar::EntryType::Regular, 0o644, 0);
    old.as_old_mut().linkflag = [0];
    assert!(matches!(decide(&tar_entry(&old, "x", None)), Ok(Action::Create(_))));
}

#[test]
fn a_header_that_is_no_number_is_told() {
    let mut h = hdr(tar::EntryType::Regular, 0o644, 0);
    h.as_old_mut().mode = *b"rubbish\0";
    let r = decide(&tar_entry(&h, "x", None));
    assert!(matches!(
        r,
        Err(Error::Io(e)) if e.kind == IoKind::Other && e.message.contains("not a number")
    ));
    let field: [fn(&mut tar::Header); 4] = [
        |h| h.as_old_mut().uid = *b"rubbish\0",
        |h| h.as_old_mut().gid = *b"rubbish\0",
        |h| h.as_old_mut().size = *b"rubbish\0\0\0\0\0",
        |h| h.as_old_mut().mtime = *b"rubbish\0\0\0\0\0",
    ];
    for f in field {
        let mut h = hdr(tar::EntryType::Regular, 0o644, 0);
        f(&mut h);
        assert!(matches!(decide(&tar_entry(&h, "x", None)), Err(Error::Io(_))));
        assert!(matches!(decide(&tar_entry(&h, "..", None)), Err(Error::PathEscape { .. })));
    }
}

#[test]
fn what_the_header_says_can_be_given() {
    let h = hdr(tar::EntryType::Regular, 0, 0);
    let says = Attributes { mode: 0o7777, uid: 1, gid: 2, size: 3, mtime: 4 };
    let n = created(decide_with(&tar_entry(&h, "x", None), Ok(says)));
    assert_eq!((n.mode, n.uid, n.gid, n.size), (0x8FFF, 1, 2, 3));
    assert!(matches!(
        decide_with(&tar_entry(&h, "x", None), Err("bad".to_string())),
        Err(Error::Io(e)) if e.message == "bad"
    ));
}

// ---------------------------------------------------------------------------
// The writer
// ---------------------------------------------------------------------------
enum E {
    Dir(&'static str, u32),
    File(&'static str, u32, &'static [u8]),
    Sym(&'static str, &'static str),
    Hard(&'static str, &'static str),
    OwnedFile(&'static str, u32, u32, u32),
}

fn make_tar(entries: &[E]) -> Vec<u8> {
    let mut b = tar::Builder::new(Vec::new());
    for e in entries {
        match e {
            E::Dir(p, mode) => {
                let mut h = hdr(tar::EntryType::Directory, *mode, 0);
                b.append_data(&mut h, p, std::io::empty()).unwrap();
            }
            E::File(p, mode, data) => {
                let mut h = hdr(tar::EntryType::Regular, *mode, data.len() as u64);
                b.append_data(&mut h, p, Cursor::new(*data)).unwrap();
            }
            E::OwnedFile(p, mode, uid, gid) => {
                let mut h = hdr(tar::EntryType::Regular, *mode, 0);
                h.set_uid(*uid as u64);
                h.set_gid(*gid as u64);
                b.append_data(&mut h, p, std::io::empty()).unwrap();
            }
            E::Sym(p, target) => {
                let mut h = hdr(tar::EntryType::Symlink, 0o777, 0);
                b.append_link(&mut h, p, target).unwrap();
            }
            E::Hard(p, target) => {
                let mut h = hdr(tar::EntryType::Link, 0o644, 0);
                b.append_link(&mut h, p, target).unwrap();
            }
        }
    }
    b.into_inner().unwrap()
}

fn append_raw_path(b: &mut tar::Builder<Vec<u8>>, path: &str, data: &[u8]) {
    let mut h = hdr(tar::EntryType::Regular, 0o644, data.len() as u64);
    let name = &mut h.as_old_mut().name;
    name.fill(0);
    let bytes = path.as_bytes();
    name[..bytes.len()].copy_from_slice(bytes);
    h.set_cksum();
    b.append(&h, Cursor::new(data.to_vec())).unwrap();
}

fn opts() -> Ext4Options {
    Ext4Options {
        size: SizePolicy::Fixed(64 * 1024 * 1024),
        label: Some("test".to_string()),
        uuid: Some(0x1234_5678_9abc_def0_1234_5678_9abc_def0u128.to_be_bytes()),
        journal: false,
        strict_special_files: false,
        epoch_secs: 1_600_000_000,
    }
}

/// An image as it was asked for: inodes by name, with their contents.
#[derive(Default)]
struct Image {
    log: Vec<String>,
    inodes: Vec<(NewInode, Vec<u8>)>,
    names: BTreeMap<String, usize>,
    closed: bool,
    tools: Vec<ToolCall>,
    patches: Vec<(Vec<u64>, Vec<u8>)>,
    description: String,
}

fn output(stdout: &str) -> ToolOutput {
    ToolOutput {
        success: true,
        code: Some(0),
        status: "exit status: 0".to_string(),
        stdout: stdout.as_bytes().to_vec(),
        stderr: Vec::new(),
    }
}

fn failed(code: i32, stdout: &str, stderr: &str) -> ToolOutput {
    ToolOutput {
        success: false,
        code: Some(code),
        status: format!("exit status: {code}"),
        stdout: stdout.as_bytes().to_vec(),
        stderr: stderr.as_bytes().to_vec(),
    }
}

fn write(image: &mut Image, tar: &[u8], o: &Ext4Options) -> Result<Ext4Stats, Error> {
    let mut archive = tar::Archive::new(Cursor::new(tar.to_vec()));
    let mut entries = archive.entries().unwrap();
    let mut current: Vec<u8> = Vec::new();
    let mut p = write_ext4_from_tar(b"/out.ext4", o);
    while let Some(r) = p.request() {
        image.log.push(format!("{r:?}"));
        let reply = match r {
            WriterRequest::Open { .. } => WriterReply::Done,
            WriterRequest::NextEntry => match entries.next() {
                None => WriterReply::End,
                Some(Err(e)) => WriterReply::Failed(IoError {
                    kind: IoKind::Other,
                    code: None,
                    message: e.to_string(),
                }),
                Some(Ok(mut e)) => {
                    let entry = TarEntry {
                        header: e.header().as_bytes().to_vec(),
                        path: e.path_bytes().into_owned(),
                        link: e.link_name_bytes().map(|l| l.into_owned()),
                    };
                    current.clear();
                    e.read_to_end(&mut current).unwrap();
                    WriterReply::Entry(entry)
                }
            },
            WriterRequest::Create(n) => {
                let data = match n.kind {
                    NodeKind::File => current.clone(),
                    _ => Vec::new(),
                };
                image.names.insert(n.path.clone(), image.inodes.len());
                image.inodes.push((n, data));
                WriterReply::Done
            }
            WriterRequest::Link { link, target } => match image.names.get(&target).copied() {
                Some(i) => {
                    image.names.insert(link, i);
                    WriterReply::Done
                }
                None => WriterReply::Refused(format!("no {target}")),
            },
            WriterRequest::Close => {
                image.closed = true;
                WriterReply::Done
            }
            WriterRequest::Host(Request::Stat(_)) => WriterReply::Host(Reply::Stat(FileStat {
                len: 1 << 26,
                allocated: 8192,
                links: 1,
                inode: 1,
                device: 1,
            })),
            WriterRequest::Host(Request::Tool(c)) => {
                let out = if c.program == "dumpe2fs" {
                    output(&image.description)
                } else {
                    output("")
                };
                image.tools.push(c);
                WriterReply::Host(Reply::Output(out))
            }
            WriterRequest::Host(Request::Patch { offsets, bytes, .. }) => {
                image.patches.push((offsets, bytes));
                WriterReply::Host(Reply::Done)
            }
            WriterRequest::Host(other) => panic!("unexpected {other:?}"),
        };
        p = p.resume(reply);
    }
    p.outcome().unwrap()
}

#[test]
fn a_tree_is_written_as_it_is() {
    let tar = make_tar(&[
        E::Dir("etc", 0o755),
        E::File("etc/hostname", 0o644, b"vmbuild\n"),
        E::Dir("usr", 0o755),
        E::Dir("usr/bin", 0o755),
        E::File("usr/bin/true", 0o755, b"\x7fELF-ish"),
        E::Sym("bin", "usr/bin"),
    ]);
    let mut image = Image::default();
    let s = write(&mut image, &tar, &opts()).unwrap();
    assert_eq!((s.files, s.dirs, s.symlinks, s.hardlinks), (2, 3, 1, 0));
    assert_eq!(s.bytes_from_tar, 16);
    assert_eq!((s.apparent_size, s.actual_size), (1 << 26, 8192));
    assert!(image.closed);
    let names: Vec<&str> = image.names.keys().map(|k| k.as_str()).collect();
    assert_eq!(
        names,
        vec!["/bin", "/etc", "/etc/hostname", "/usr", "/usr/bin", "/usr/bin/true"]
    );
    assert_eq!(image.inodes[image.names["/etc/hostname"]].1, b"vmbuild\n");
    assert!(image.log[0].contains("size: 67108864"));
    assert!(image.log[0].contains("Some(\"test\")"));
    assert!(image.log[0].contains("epoch: 1600000000"));
}

#[test]
fn an_empty_archive_is_an_empty_image() {
    let mut image = Image::default();
    let s = write(&mut image, &make_tar(&[]), &opts()).unwrap();
    assert_eq!((s.files, s.dirs, s.symlinks, s.hardlinks), (0, 0, 0, 0));
    assert!(image.names.is_empty() && image.closed);
}

#[test]
fn ownership_and_special_mode_bits_survive() {
    let tar = make_tar(&[
        E::Dir("usr", 0o755),
        E::Dir("usr/bin", 0o755),
        E::OwnedFile("usr/bin/passwd", 0o4755, 0, 0),
        E::OwnedFile("usr/bin/chage", 0o2755, 0, 42),
        E::OwnedFile("home_file", 0o600, 1000, 1000),
    ]);
    let mut image = Image::default();
    write(&mut image, &tar, &opts()).unwrap();
    let node = |p: &str| &image.inodes[image.names[p]].0;
    assert_eq!(node("/usr/bin/passwd").mode & 0o7777, 0o4755, "setuid bit lost");
    assert_eq!(node("/usr/bin/chage").mode & 0o7777, 0o2755, "setgid bit lost");
    assert_eq!(node("/usr/bin/chage").gid, 42, "gid lost");
    assert_eq!((node("/home_file").uid, node("/home_file").gid), (1000, 1000));
}

#[test]
fn hardlinks_share_an_inode() {
    let tar = make_tar(&[
        E::Dir("usr", 0o755),
        E::Hard("usr/early", "usr/gunzip"),
        E::File("usr/gunzip", 0o755, b"payload"),
        E::Hard("usr/uncompress", "usr/gunzip"),
    ]);
    let mut image = Image::default();
    let s = write(&mut image, &tar, &opts()).unwrap();
    assert_eq!(image.names["/usr/gunzip"], image.names["/usr/uncompress"]);
    assert_eq!(image.names["/usr/gunzip"], image.names["/usr/early"]);
    assert_eq!(s.hardlinks, 2);
    let first_link = image.log.iter().position(|l| l.starts_with("Link")).unwrap();
    let last_create = image.log.iter().rposition(|l| l.starts_with("Create")).unwrap();
    assert!(first_link > last_create);
}

#[test]
fn a_link_to_nothing_is_refused_by_the_writer() {
    let tar = make_tar(&[E::Hard("a", "b")]);
    let r = write(&mut Image::default(), &tar, &opts());
    assert!(matches!(r, Err(Error::Ext4(s)) if s == "no /b"));
}

#[test]
fn mtimes_come_from_the_tar_not_the_clock() {
    let tar = make_tar(&[E::File("f", 0o644, b"x")]);
    let mut image = Image::default();
    write(&mut image, &tar, &opts()).unwrap();
    assert_eq!(image.inodes[0].0.times, fixed_ts(1_600_000_000));
    assert!(!image.log.iter().any(|l| l.contains("Now")));
}

#[test]
fn the_same_archive_asks_for_the_same_image() {
    let tar = make_tar(&[
        E::Dir("etc", 0o755),
        E::File("etc/a", 0o644, b"alpha"),
        E::Sym("etc/b", "a"),
    ]);
    let (mut a, mut b) = (Image::default(), Image::default());
    write(&mut a, &tar, &opts()).unwrap();
    write(&mut b, &tar, &opts()).unwrap();
    assert_eq!(a.log, b.log);
}

#[test]
fn path_traversal_is_rejected() {
    for bad in ["../escape", "a/../../escape"] {
        let mut b = tar::Builder::new(Vec::new());
        append_raw_path(&mut b, bad, b"bad");
        let tar = b.into_inner().unwrap();
        let r = write(&mut Image::default(), &tar, &opts());
        assert!(
            matches!(r, Err(Error::PathEscape { .. })),
            "{bad:?} should be refused, got {r:?}"
        );
    }
}

#[test]
fn deep_nesting_and_wide_directories() {
    let mut b = tar::Builder::new(Vec::new());
    let mut path = String::new();
    for i in 0..40 {
        path.push_str(&format!("d{i}/"));
        let mut h = hdr(tar::EntryType::Directory, 0o755, 0);
        b.append_data(&mut h, &path, std::io::empty()).unwrap();
    }
    for i in 0..3000 {
        let mut h = hdr(tar::EntryType::Regular, 0o644, 1);
        b.append_data(&mut h, format!("wide/f{i}"), Cursor::new(b"x".to_vec()))
            .unwrap();
    }
    let mut image = Image::default();
    let s = write(&mut image, &b.into_inner().unwrap(), &opts()).unwrap();
    assert_eq!((s.files, s.dirs, s.bytes_from_tar), (3000, 40, 3000));
    assert!(image.names.contains_key(&format!("/{}", path.trim_end_matches('/'))));
    for i in 0..3000 {
        assert_eq!(image.inodes[image.names[&format!("/wide/f{i}")]].1, b"x");
    }
    assert!(image.closed);
}

#[test]
fn long_names_and_odd_but_legal_characters() {
    let long = "n".repeat(200);
    let names = [long.as_str(), "sp ace", "dash-_.x", "üñïçø∂é"];
    let mut b = tar::Builder::new(Vec::new());
    for name in names {
        let mut h = hdr(tar::EntryType::Regular, 0o644, 2);
        b.append_data(&mut h, name, Cursor::new(b"ok".to_vec())).unwrap();
    }
    let mut image = Image::default();
    write(&mut image, &b.into_inner().unwrap(), &opts()).unwrap();
    assert_eq!(image.names.len(), names.len());
    for name in names {
        assert_eq!(image.inodes[image.names[&format!("/{name}")]].1, b"ok");
    }
}

#[test]
fn duplicate_entries_take_the_last_writer() {
    let tar = make_tar(&[
        E::File("dup", 0o644, b"first"),
        E::File("dup", 0o644, b"second"),
    ]);
    let mut image = Image::default();
    write(&mut image, &tar, &opts()).unwrap();
    assert_eq!(image.inodes[image.names["/dup"]].1, b"second");
}

#[test]
fn entry_whose_parent_appears_later() {
    let tar = make_tar(&[
        E::File("a/b/c/file", 0o644, b"x"),
        E::Dir("a", 0o755),
        E::Dir("a/b", 0o755),
    ]);
    let mut image = Image::default();
    let s = write(&mut image, &tar, &opts()).unwrap();
    assert_eq!((s.files, s.dirs, s.bytes_from_tar), (1, 2, 1));
    let asked: Vec<&str> = image.inodes.iter().map(|(n, _)| n.path.as_str()).collect();
    assert_eq!(asked, vec!["/a/b/c/file", "/a", "/a/b"]);
    assert_eq!(image.inodes[0].1, b"x");
    assert_eq!(image.inodes[1].0.mode & 0o7777, 0o755);
    assert!(image.closed);
}

#[test]
fn files_at_extent_boundaries() {
    let bs = 4096usize;
    let sizes = [0usize, 1, bs - 1, bs, bs + 1, bs * 12 + 7];
    let mut b = tar::Builder::new(Vec::new());
    for (i, n) in sizes.into_iter().enumerate() {
        let data = vec![b'z'; n];
        let mut h = hdr(tar::EntryType::Regular, 0o644, n as u64);
        b.append_data(&mut h, format!("sz{i}"), Cursor::new(data))
            .unwrap();
    }
    let mut image = Image::default();
    let s = write(&mut image, &b.into_inner().unwrap(), &opts()).unwrap();
    assert_eq!(s.files, 6);
    assert_eq!(s.bytes_from_tar, (3 * bs + 1 + bs * 12 + 7) as u64);
    for (i, n) in sizes.into_iter().enumerate() {
        assert_eq!(image.inodes[image.names[&format!("/sz{i}")]].1, vec![b'z'; n]);
    }
    assert!(image.closed);
}

#[test]
fn special_files_are_counted_not_silently_dropped() {
    let mut b = tar::Builder::new(Vec::new());
    let mut h = hdr(tar::EntryType::Fifo, 0o644, 0);
    b.append_data(&mut h, "a_fifo", std::io::empty()).unwrap();
    let tar = b.into_inner().unwrap();
    let stats = write(&mut Image::default(), &tar, &opts()).unwrap();
    assert_eq!(
        stats.skipped_special.len(),
        1,
        "special file was dropped without being reported"
    );
    let mut strict = opts();
    strict.strict_special_files = true;
    assert!(matches!(
        write(&mut Image::default(), &tar, &strict),
        Err(Error::SpecialFiles { .. })
    ));
}

#[test]
fn a_few_special_files_are_named() {
    let mut b = tar::Builder::new(Vec::new());
    for i in 0..7 {
        let mut h = hdr(tar::EntryType::Fifo, 0o644, 0);
        b.append_data(&mut h, format!("fifo{i}"), std::io::empty()).unwrap();
    }
    let tar = b.into_inner().unwrap();
    let mut strict = opts();
    strict.strict_special_files = true;
    match write(&mut Image::default(), &tar, &strict) {
        Err(Error::SpecialFiles { count, sample }) => {
            assert_eq!(count, 7);
            assert_eq!(sample.len(), 5);
            assert_eq!(sample[4], b"fifo4");
        }
        other => panic!("{other:?}"),
    }
}

#[test]
fn a_broken_archive_is_told() {
    let mut tar = make_tar(&[E::File("f", 0o644, b"x")]);
    tar[0] = b'X';
    let r = write(&mut Image::default(), &tar, &opts());
    assert!(matches!(r, Err(Error::Io(_))));
}

#[test]
fn a_journal_is_added_and_its_times_are_set() {
    let mut o = opts();
    o.journal = true;
    let mut image = Image::default();
    image.description = "Filesystem features:      has_journal extent\n".to_string();
    write(&mut image, &make_tar(&[]), &o).unwrap();
    let programs: Vec<&str> = image.tools.iter().map(|t| t.program).collect();
    assert_eq!(programs, vec!["tune2fs", "debugfs", "dumpe2fs"]);
    assert_eq!(image.tools[0].args, vec![b"-j".to_vec(), b"/out.ext4".to_vec()]);
    assert_eq!(image.patches.len(), 1);
    assert_eq!(image.patches[0].0, vec![1024 + 0x2C, 1024 + 0x30, 1024 + 0x40]);
    assert_eq!(image.patches[0].1, 1_600_000_000u32.to_le_bytes());
}

// ---------------------------------------------------------------------------
// Tools
// ---------------------------------------------------------------------------
#[test]
fn the_calls_of_the_tools() {
    match add_journal(b"/img").request() {
        Some(Request::Tool(c)) => {
            assert_eq!(c.program, "tune2fs");
            assert_eq!(c.args, vec![b"-j".to_vec(), b"/img".to_vec()]);
            assert!(c.input.is_none());
        }
        other => panic!("{other:?}"),
    }
    match dump_superblock(b"/img").request() {
        Some(Request::Tool(c)) => {
            assert_eq!(c.program, "dumpe2fs");
            assert_eq!(c.args, vec![b"-h".to_vec(), b"/img".to_vec()]);
        }
        other => panic!("{other:?}"),
    }
    match fsck(b"/i\xffg").request() {
        Some(Request::Tool(c)) => {
            assert_eq!(c.program, "e2fsck");
            assert_eq!(c.args, vec![b"-fn".to_vec(), "/i\u{fffd}g".as_bytes().to_vec()]);
        }
        other => panic!("{other:?}"),
    }
}

#[test]
fn a_tool_that_fails_is_told() {
    let p = add_journal(b"/img").resume(Reply::Output(failed(1, "", " no space \n")));
    assert!(matches!(
        p.outcome(),
        Some(Err(Error::ToolFailed { tool: "tune2fs", status, stderr }))
            if status == "exit status: 1" && stderr == "no space"
    ));
    let missing = IoError { kind: IoKind::NotFound, code: None, message: String::new() };
    let p = add_journal(b"/img").resume(Reply::Failed(missing));
    assert!(matches!(p.outcome(), Some(Err(Error::ToolMissing { tool: "tune2fs" }))));
    let other = IoError { kind: IoKind::Other, code: None, message: "x".to_string() };
    let p = dump_superblock(b"/img").resume(Reply::Failed(other));
    assert!(matches!(p.outcome(), Some(Err(Error::Io(e))) if e.message == "x"));
    let p = dump_superblock(b"/img").resume(Reply::Output(output("text")));
    assert_eq!(p.outcome().unwrap().unwrap(), "text");
}

#[test]
fn only_a_clean_check_is_a_success() {
    let p = fsck(b"/img").resume(Reply::Output(output("clean")));
    assert_eq!(p.outcome().unwrap().unwrap(), "clean");
    let p = fsck(b"/img").resume(Reply::Output(failed(1, " out \n", "err\n")));
    assert!(matches!(
        p.outcome(),
        Some(Err(Error::ToolFailed { tool: "e2fsck", stderr, .. })) if stderr == "out\nerr"
    ));
    let p = fsck(b"/img").resume(Reply::Output(failed(4, "", "")));
    assert!(matches!(
        p.outcome(),
        Some(Err(Error::ToolFailed { stderr, .. })) if stderr.is_empty()
    ));
    let missing = IoError { kind: IoKind::NotFound, code: None, message: String::new() };
    let p = fsck(b"/img").resume(Reply::Failed(missing));
    assert!(matches!(p.outcome(), Some(Err(Error::ToolMissing { tool: "e2fsck" }))));
}

#[test]
fn the_features_are_the_words_of_their_line() {
    let text = "Filesystem volume name:   rootfs\n\
                Filesystem features:      has_journal ext_attr  extent\n\
                Filesystem features:      second\n";
    assert_eq!(features(text), vec!["has_journal", "ext_attr", "extent"]);
    assert!(features("nothing here\n Filesystem features: x").is_empty());
    assert!(features("Filesystem features:").is_empty());
}

#[test]
fn the_script_sets_four_times() {
    match normalize_timestamps(b"/i\xffg", 42).request() {
        Some(Request::Tool(c)) => {
            assert_eq!(c.program, "debugfs");
            assert_eq!(c.args, vec![b"-w".to_vec(), b"/i\xffg".to_vec()]);
            assert_eq!(
                String::from_utf8(c.input.unwrap()).unwrap(),
                "sif <8> atime @42\nsif <8> ctime @42\nsif <8> mtime @42\n\
                 sif <8> crtime @42\nquit\n"
            );
        }
        other => panic!("{other:?}"),
    }
}

#[test]
fn a_superblock_with_a_checksum_is_left_alone() {
    let p = normalize_timestamps(b"/img", 1);
    let p = p.resume(Reply::Output(failed(1, "", "")));
    let p = p.resume(Reply::Output(output("Filesystem features: extent metadata_csum\n")));
    assert!(p.request().is_none());
    assert!(matches!(p.outcome(), Some(Ok(()))));
    let p = normalize_timestamps(b"/img", 1);
    let p = p.resume(Reply::Output(output("")));
    let p = p.resume(Reply::Output(output("Filesystem features: metadata_csum_seed\n")));
    assert!(matches!(p.request(), Some(Request::Patch { .. })));
}

#[test]
fn failures_while_setting_times_are_told() {
    let err = |kind| IoError { kind, code: None, message: "x".to_string() };
    let p = normalize_timestamps(b"/img", 1).resume(Reply::Failed(err(IoKind::NotFound)));
    assert!(matches!(p.outcome(), Some(Err(Error::ToolMissing { tool: "debugfs" }))));
    let p = normalize_timestamps(b"/img", 1).resume(Reply::Failed(err(IoKind::Other)));
    assert!(matches!(p.outcome(), Some(Err(Error::Io(_)))));
    let p = normalize_timestamps(b"/img", 1).resume(Reply::Output(output("")));
    let q = p.resume(Reply::Failed(err(IoKind::NotFound)));
    assert!(matches!(q.outcome(), Some(Err(Error::ToolMissing { tool: "dumpe2fs" }))));
    let p = normalize_timestamps(b"/img", 1).resume(Reply::Output(output("")));
    let q = p.resume(Reply::Output(output("")));
    let q = q.resume(Reply::Failed(err(IoKind::Other)));
    assert!(matches!(q.outcome(), Some(Err(Error::Io(_)))));
}
