//! Both kinds of storage, over files that exist in memory only.

use std::collections::{BTreeMap, VecDeque};
use vmbuild::error::{Error, IoError, IoKind, OsCode};
use vmbuild::host::{FileStat, Reply, Request};
use vmbuild::procedure::Procedure;
use vmbuild::store::copy::{sparse_copy, try_ficlone, CopyReply, CopyRequest};
use vmbuild::store::gc::{GcPolicy, GcReport};
use vmbuild::store::list::{sort, Order};
use vmbuild::store::{Entry, InstallKind, Materialization, Store};
use vmbuild::zfs::{clone_graph, is_busy, is_gone, pinned, ZfsBackend};

const MIB: u64 = 1024 * 1024;

struct File {
    data: Vec<u8>,
    /// Where there is data, as opposed to holes.
    extents: Vec<(u64, u64)>,
    mode: u32,
    record: Option<Entry>,
}

impl File {
    fn dense(data: &[u8], mode: u32) -> File {
        let len = data.len() as u64;
        let extents = if len > 0 { vec![(0, len)] } else { vec![] };
        File { data: data.to_vec(), extents, mode, record: None }
    }

    fn sparse(len: u64, chunks: &[(u64, u64)], fill: u8) -> File {
        let mut data = vec![0u8; len as usize];
        for (from, to) in chunks {
            for b in &mut data[*from as usize..*to as usize] {
                *b = fill;
            }
        }
        File { data, extents: chunks.to_vec(), mode: 0o644, record: None }
    }

    fn allocated(&self) -> u64 {
        self.extents.iter().map(|(a, b)| (b - a + 4095) / 4096 * 4096).sum()
    }
}

fn failure(kind: IoKind, code: Option<OsCode>, message: &str) -> IoError {
    IoError { kind, code, message: message.to_string() }
}

fn not_found() -> IoError {
    failure(IoKind::NotFound, Some(OsCode::Number(2)), "No such file or directory")
}

#[derive(Default)]
struct Disk {
    names: BTreeMap<Vec<u8>, usize>,
    files: Vec<File>,
    now: u64,
    /// Names that cannot be removed start like this.
    stuck: Option<Vec<u8>>,
    /// Whether blocks can be shared.
    shares: bool,
    free: VecDeque<Option<u64>>,
    zfs_calls: Vec<String>,
    zfs_replies: VecDeque<Result<String, Error>>,
    asked: Vec<String>,
}

fn device(p: &[u8]) -> u64 {
    if p.starts_with(b"/other/") {
        2
    } else {
        1
    }
}

impl Disk {
    fn write(&mut self, p: &[u8], f: File) {
        match self.names.get(p) {
            Some(i) => self.files[*i] = f,
            None => {
                self.files.push(f);
                self.names.insert(p.to_vec(), self.files.len() - 1);
            }
        }
    }

    fn file(&self, p: &[u8]) -> Option<&File> {
        self.names.get(p).map(|i| &self.files[*i])
    }

    fn inode(&self, p: &[u8]) -> u64 {
        self.names[p] as u64
    }

    fn links(&self, p: &[u8]) -> u64 {
        let i = self.names[p];
        self.names.values().filter(|j| **j == i).count() as u64
    }

    fn stat(&self, p: &[u8]) -> Reply {
        match self.file(p) {
            None => Reply::Failed(not_found()),
            Some(f) => Reply::Stat(FileStat {
                len: f.data.len() as u64,
                allocated: f.allocated(),
                links: self.links(p),
                inode: self.inode(p),
                device: device(p),
            }),
        }
    }

    fn remove(&mut self, p: &[u8]) -> Reply {
        if let Some(s) = &self.stuck {
            if p.starts_with(s) {
                return Reply::Failed(failure(
                    IoKind::PermissionDenied,
                    Some(OsCode::AccessDenied),
                    "Permission denied",
                ));
            }
        }
        match self.names.remove(p) {
            Some(_) => Reply::Done,
            None => Reply::Failed(not_found()),
        }
    }

    fn copy(&mut self, from: &[u8], to: &[u8]) -> Reply {
        let mut p = sparse_copy(from, to);
        let mut at: u64 = 0;
        while let Some(r) = p.request() {
            let reply = self.copy_step(from, to, &mut at, r);
            p = p.resume(reply);
        }
        match p.outcome().unwrap() {
            Ok(n) => Reply::Count(n),
            Err(Error::Io(e)) => Reply::Failed(e),
            Err(e) => panic!("{e:?}"),
        }
    }

    fn clone_file(&mut self, from: &[u8], to: &[u8]) -> Reply {
        let mut p = try_ficlone(from, to);
        let mut at: u64 = 0;
        while let Some(r) = p.request() {
            let reply = self.copy_step(from, to, &mut at, r);
            p = p.resume(reply);
        }
        match p.outcome().unwrap() {
            Ok(n) => Reply::Cloned(n),
            Err(Error::Io(e)) => Reply::Failed(e),
            Err(e) => panic!("{e:?}"),
        }
    }

    fn copy_step(&mut self, from: &[u8], to: &[u8], at: &mut u64, r: CopyRequest) -> CopyReply {
        match r {
            CopyRequest::OpenSource(p) => match self.file(&p) {
                Some(_) => CopyReply::Done,
                None => CopyReply::Failed(not_found()),
            },
            CopyRequest::SyncSource | CopyRequest::SyncDest => CopyReply::Done,
            CopyRequest::SourceLength => {
                CopyReply::Number(self.file(from).unwrap().data.len() as u64)
            }
            CopyRequest::CreateDest { path, mode } => {
                if self.names.contains_key(&path) {
                    return CopyReply::Failed(failure(IoKind::Other, None, "File exists"));
                }
                self.write(&path, File::dense(b"", mode));
                CopyReply::Done
            }
            CopyRequest::SetLength(n) => {
                let i = self.names[to];
                self.files[i].data.resize(n as usize, 0);
                CopyReply::Done
            }
            CopyRequest::SeekData(off) => {
                let f = self.file(from).unwrap();
                match f.extents.iter().find(|(_, b)| *b > off) {
                    Some((a, _)) => CopyReply::Number((*a).max(off)),
                    None => CopyReply::Failed(failure(
                        IoKind::Other,
                        Some(OsCode::NoSuchAddress),
                        "No such device or address",
                    )),
                }
            }
            CopyRequest::SeekHole(off) => {
                let f = self.file(from).unwrap();
                let end = f.extents.iter().find(|(a, b)| *a <= off && off < *b).unwrap().1;
                CopyReply::Number(end)
            }
            CopyRequest::Position(p) => {
                *at = p;
                CopyReply::Done
            }
            CopyRequest::Move(want) => {
                let n = want.min(self.file(from).unwrap().data.len() as u64 - *at);
                let chunk =
                    self.file(from).unwrap().data[*at as usize..(*at + n) as usize].to_vec();
                let i = self.names[to];
                let f = &mut self.files[i];
                f.data[*at as usize..(*at + n) as usize].copy_from_slice(&chunk);
                f.extents.push((*at, *at + n));
                *at += n;
                CopyReply::Number(n)
            }
            CopyRequest::ShareBlocks => {
                if !self.shares {
                    return CopyReply::Failed(failure(
                        IoKind::Unsupported,
                        Some(OsCode::NotSupported),
                        "Operation not supported",
                    ));
                }
                let (data, extents) = {
                    let f = self.file(from).unwrap();
                    (f.data.clone(), f.extents.clone())
                };
                let i = self.names[to];
                self.files[i].data = data;
                self.files[i].extents = extents;
                CopyReply::Done
            }
            CopyRequest::DestAllocated => CopyReply::Number(self.file(to).unwrap().allocated()),
            CopyRequest::RemoveDest(p) => match self.remove(&p) {
                Reply::Done => CopyReply::Done,
                _ => CopyReply::Failed(not_found()),
            },
        }
    }

    fn answer(&mut self, r: Request) -> Reply {
        self.asked.push(format!("{r:?}"));
        match r {
            Request::Exists(p) => Reply::Flag(self.names.contains_key(&p)),
            Request::MakeDir(_) | Request::MakeParent(_) => Reply::Done,
            Request::Rename { from, to } => {
                if device(&from) != device(&to) {
                    return Reply::Failed(failure(
                        IoKind::Other,
                        Some(OsCode::CrossDevice),
                        "Invalid cross-device link",
                    ));
                }
                match self.names.get(&from).copied() {
                    None => Reply::Failed(not_found()),
                    Some(i) => {
                        if self.names.get(&to) != Some(&i) {
                            self.names.remove(&from);
                            self.names.insert(to, i);
                        }
                        Reply::Done
                    }
                }
            }
            Request::HardLink { from, to } => {
                if device(&from) != device(&to) {
                    return Reply::Failed(failure(
                        IoKind::Other,
                        Some(OsCode::CrossDevice),
                        "Invalid cross-device link",
                    ));
                }
                if self.names.contains_key(&to) {
                    return Reply::Failed(failure(IoKind::Other, None, "File exists"));
                }
                match self.names.get(&from).copied() {
                    None => Reply::Failed(not_found()),
                    Some(i) => {
                        self.names.insert(to, i);
                        Reply::Done
                    }
                }
            }
            Request::Remove(p) => self.remove(&p),
            Request::SetMode { path, mode } => {
                let i = self.names[&path];
                self.files[i].mode = mode;
                Reply::Done
            }
            Request::Sync(_) => Reply::Done,
            Request::Stat(p) => self.stat(&p),
            Request::SparseCopy { from, to } => self.copy(&from, &to),
            Request::PlainCopy { from, to } => match self.file(&from) {
                None => Reply::Failed(not_found()),
                Some(f) => {
                    let data = f.data.clone();
                    self.write(&to, File::dense(&data, 0o644));
                    Reply::Count(data.len() as u64)
                }
            },
            Request::Clone { from, to } => self.clone_file(&from, &to),
            Request::ReadEntry(p) => match self.file(&p) {
                None => Reply::Failed(not_found()),
                Some(f) => match &f.record {
                    Some(e) => Reply::Entry(e.duplicate()),
                    None => Reply::Failed(failure(IoKind::InvalidData, None, "expected value")),
                },
            },
            Request::WriteEntry { path, entry } => {
                let mut f = File::dense(b"{}", 0o644);
                f.record = Some(entry);
                self.write(&path, f);
                Reply::Done
            }
            Request::ListEntries(dir) => {
                let mut prefix = dir.clone();
                prefix.push(b'/');
                let mut out = Vec::new();
                for (name, i) in &self.names {
                    if name.starts_with(&prefix) {
                        out.push(self.files[*i].record.as_ref().map(|e| e.duplicate()));
                    }
                }
                Reply::Entries(out)
            }
            Request::Now => Reply::Time(self.now),
            Request::FreeSpace(_) => Reply::Space(self.free.pop_front().unwrap_or(None)),
            Request::Zfs(args) => {
                self.zfs_calls.push(args.join(" "));
                Reply::Zfs(self.zfs_replies.pop_front().unwrap_or(Ok(String::new())))
            }
            other => panic!("unexpected {other:?}"),
        }
    }
}

fn drive<P: Procedure<Request = Request, Reply = Reply>>(disk: &mut Disk, p: P) -> P {
    let mut p = p;
    while let Some(r) = p.request() {
        let reply = disk.answer(r);
        p = p.resume(reply);
    }
    p
}

fn store() -> (Disk, Store) {
    (Disk { now: 1000, ..Disk::default() }, Store::open(b"/store"))
}

fn put_file(d: &mut Disk, s: &Store, key: &str, f: File) -> Vec<u8> {
    let staging = s.staging_path(key);
    d.write(&staging, f);
    let p = s.put(key, &staging, &["sha256:x".to_string()]);
    drive(d, p).outcome().unwrap().unwrap()
}

fn put_dummy(d: &mut Disk, s: &Store, key: &str, bytes: &[u8]) -> Vec<u8> {
    put_file(d, s, key, File::dense(bytes, 0o644))
}

fn get(d: &mut Disk, s: &Store, key: &str) -> Option<Vec<u8>> {
    drive(d, s.get(key)).outcome().unwrap()
}

fn entry(d: &mut Disk, s: &Store, key: &str) -> Result<Entry, Error> {
    drive(d, s.entry(key)).outcome().unwrap()
}

fn install(d: &mut Disk, s: &Store, key: &str, dest: &[u8]) -> Result<InstallKind, Error> {
    drive(d, s.install(key, dest)).outcome().unwrap()
}

fn materialize(d: &mut Disk, s: &Store, key: &str, dest: &[u8]) -> Result<Materialization, Error> {
    drive(d, s.materialize(key, dest)).outcome().unwrap()
}

fn release(d: &mut Disk, s: &Store, dest: &[u8]) -> Result<(), Error> {
    drive(d, s.release(dest)).outcome().unwrap()
}

fn gc(d: &mut Disk, s: &Store, policy: GcPolicy) -> GcReport {
    drive(d, s.gc(&policy)).outcome().unwrap().unwrap()
}

fn limit(max_bytes: u64) -> GcPolicy {
    GcPolicy { max_bytes: Some(max_bytes), ..GcPolicy::default() }
}

// ---------------------------------------------------------------------------
// Copies
// ---------------------------------------------------------------------------
#[test]
fn sparse_copy_preserves_holes_and_reports_real_bytes() {
    const APPARENT: u64 = 64 * MIB;
    let mut d = Disk::default();
    let chunks: Vec<(u64, u64)> =
        (0..4u64).map(|i| (i * 15 * MIB, i * 15 * MIB + MIB)).collect();
    d.write(b"/d/sparse.img", File::sparse(APPARENT, &chunks, b'D'));
    let src_actual = d.file(b"/d/sparse.img").unwrap().allocated();
    assert!(src_actual < APPARENT / 4);

    let written = match d.copy(b"/d/sparse.img", b"/d/copy.img") {
        Reply::Count(n) => n,
        other => panic!("{other:?}"),
    };
    let copy = d.file(b"/d/copy.img").unwrap();
    assert_eq!(copy.data.len() as u64, APPARENT, "apparent size changed");
    assert!(copy.allocated() <= src_actual + 2 * MIB, "copy densified");
    assert!(written < APPARENT / 4);
    assert_eq!(written, 4 * MIB);
    assert!(copy.data == d.file(b"/d/sparse.img").unwrap().data, "contents differ");
    assert_eq!(copy.mode & 0o777, 0o644);
}

#[test]
fn a_copy_goes_chunk_by_chunk() {
    let mut p = sparse_copy(b"/a", b"/b");
    for r in [
        CopyReply::Done,
        CopyReply::Failed(not_found()),
        CopyReply::Number(3 * MIB),
        CopyReply::Done,
        CopyReply::Done,
        CopyReply::Number(0),
        CopyReply::Number(3 * MIB),
        CopyReply::Done,
    ] {
        p = p.resume(r);
    }
    assert!(matches!(p.request(), Some(CopyRequest::Move(n)) if n == MIB));
    p = p.resume(CopyReply::Number(MIB));
    p = p.resume(CopyReply::Number(MIB));
    p = p.resume(CopyReply::Number(MIB - 1));
    assert!(matches!(p.request(), Some(CopyRequest::Move(1))));
    p = p.resume(CopyReply::Number(0));
    assert!(matches!(p.request(), Some(CopyRequest::SyncDest)));
    p = p.resume(CopyReply::Done);
    assert_eq!(p.outcome().unwrap().unwrap(), 3 * MIB - 1);
}

#[test]
fn a_copy_does_not_overwrite() {
    let mut d = Disk::default();
    d.write(b"/a", File::dense(b"a", 0o644));
    d.write(b"/b", File::dense(b"b", 0o644));
    assert!(matches!(d.copy(b"/a", b"/b"), Reply::Failed(e) if e.message == "File exists"));
    assert_eq!(d.file(b"/b").unwrap().data, b"b");
}

#[test]
fn every_code_that_means_no_sharing_is_declined() {
    let declined = [
        OsCode::NotSupported,
        OsCode::NotTty,
        OsCode::CrossDevice,
        OsCode::InvalidArgument,
        OsCode::NotPermitted,
        OsCode::AccessDenied,
    ];
    let attempt = |code: OsCode| {
        let mut p = try_ficlone(b"/a", b"/b");
        p = p.resume(CopyReply::Done);
        p = p.resume(CopyReply::Done);
        assert!(matches!(p.request(), Some(CopyRequest::ShareBlocks)));
        p = p.resume(CopyReply::Failed(failure(IoKind::Other, Some(code), "refused")));
        assert!(matches!(p.request(), Some(CopyRequest::RemoveDest(q)) if q == b"/b"));
        p = p.resume(CopyReply::Failed(not_found()));
        p.outcome().unwrap()
    };
    for code in declined {
        assert!(matches!(attempt(code), Ok(None)), "{code:?}");
    }
    for code in [OsCode::Number(28), OsCode::NoSuchAddress] {
        assert!(matches!(attempt(code), Err(Error::Io(e)) if e.message == "refused"), "{code:?}");
    }
}

// ---------------------------------------------------------------------------
// The store
// ---------------------------------------------------------------------------
#[test]
fn names_of_a_store() {
    let s = Store::open(b"/store");
    assert_eq!(s.root(), b"/store");
    assert_eq!(s.blob("k"), b"/store/blobs/k.ext4");
    assert_eq!(s.meta("k"), b"/store/meta/k.json");
    assert_eq!(s.meta_staging("k"), b"/store/tmp/k.json");
    assert_eq!(s.staging_path("k"), b"/store/tmp/k.building");
    assert_eq!(s.lock("k"), b"/store/locks/k.lock");
    assert_eq!(s.records(), b"/store/meta");
    assert_eq!(
        s.directories(),
        vec![
            b"/store/blobs".to_vec(),
            b"/store/meta".to_vec(),
            b"/store/tmp".to_vec(),
            b"/store/locks".to_vec(),
        ]
    );
}

#[test]
fn the_environment_names_the_store() {
    assert_eq!(Store::default_root(Some("/s"), Some("/d"), Some("/h")), b"/s");
    assert_eq!(Store::default_root(None, Some("/d"), Some("/h")), b"/d/vmbuild");
    assert_eq!(Store::default_root(None, None, Some("/h")), b"/h/.heyo/vmbuild");
    assert_eq!(Store::default_root(None, None, None), b"./.heyo/vmbuild");
}

#[test]
fn put_then_get_roundtrips() {
    let (mut d, s) = store();
    assert!(get(&mut d, &s, "k1").is_none());
    put_dummy(&mut d, &s, "k1", b"hello");
    let got = get(&mut d, &s, "k1").expect("present after put");
    assert_eq!(d.file(&got).unwrap().data, b"hello");
    assert_eq!(entry(&mut d, &s, "k1").unwrap().size_bytes, 5);
}

#[test]
fn a_record_says_what_was_put() {
    let (mut d, s) = store();
    put_dummy(&mut d, &s, "k", b"hello");
    let e = entry(&mut d, &s, "k").unwrap();
    assert_eq!(e.key, "k");
    assert_eq!(e.actual_bytes, 4096);
    assert_eq!(e.diff_ids, vec!["sha256:x".to_string()]);
    assert_eq!((e.created, e.last_used), (1000, 1000));
    assert!(d.file(&s.meta_staging("k")).is_none());
    assert!(d.file(&s.staging_path("k")).is_none());
}

#[test]
fn a_hit_renews_the_date_of_use() {
    let (mut d, s) = store();
    put_dummy(&mut d, &s, "k", b"hello");
    d.now = 2000;
    get(&mut d, &s, "k").unwrap();
    let e = entry(&mut d, &s, "k").unwrap();
    assert_eq!((e.created, e.last_used), (1000, 2000));
}

#[test]
fn an_unreadable_record_is_still_a_hit() {
    let (mut d, s) = store();
    d.write(b"/store/blobs/k.ext4", File::dense(b"x", 0o444));
    assert_eq!(get(&mut d, &s, "k"), Some(b"/store/blobs/k.ext4".to_vec()));
    assert!(matches!(
        entry(&mut d, &s, "k"),
        Err(Error::Io(e)) if e.kind == IoKind::NotFound
    ));
}

#[test]
fn stored_blobs_are_read_only() {
    let (mut d, s) = store();
    let p = put_dummy(&mut d, &s, "k", b"x");
    assert_eq!(
        d.file(&p).unwrap().mode & 0o777,
        0o444,
        "a shared blob must not be writable in place"
    );
}

#[test]
fn put_from_another_filesystem_copies_and_drops_the_source() {
    let (mut d, s) = store();
    d.write(b"/other/img", File::dense(b"payload", 0o600));
    let p = drive(&mut d, s.put("k", b"/other/img", &[])).outcome().unwrap().unwrap();
    assert_eq!(d.file(&p).unwrap().data, b"payload");
    assert_eq!(d.file(&p).unwrap().mode, 0o444);
    assert!(d.file(b"/other/img").is_none());
}

#[test]
fn put_from_another_filesystem_replaces_what_is_stored() {
    let (mut d, s) = store();
    put_dummy(&mut d, &s, "k", b"old");
    install(&mut d, &s, "k", b"/store/c/img.ext4").unwrap();
    d.write(b"/other/img", File::dense(b"new", 0o600));
    d.write(b"/store/tmp/k.part", File::dense(b"half", 0o644));
    let p = drive(&mut d, s.put("k", b"/other/img", &[])).outcome().unwrap().unwrap();
    assert_eq!(p, s.blob("k"));
    assert_eq!(d.file(&p).unwrap().data, b"new");
    assert_eq!(d.file(&p).unwrap().mode, 0o444);
    assert!(d.file(b"/other/img").is_none());
    assert!(d.file(b"/store/tmp/k.part").is_none());
    assert_eq!(d.file(b"/store/c/img.ext4").unwrap().data, b"old");
}

#[test]
fn put_keeps_a_source_that_it_could_not_copy_from() {
    let s = Store::open(b"/store");
    let across = || {
        Reply::Failed(failure(IoKind::Other, Some(OsCode::CrossDevice), "Invalid cross-device link"))
    };
    for source in [s.blob("k"), s.copy_staging("k")] {
        let p = s.put("k", &source, &[]).resume(across());
        assert!(p.request().is_none());
        assert!(matches!(p.outcome(), Some(Err(Error::Io(_)))));
    }
}

#[test]
fn put_of_nothing_fails() {
    let (mut d, s) = store();
    let r = drive(&mut d, s.put("k", b"/store/tmp/none", &[])).outcome().unwrap();
    assert!(matches!(r, Err(Error::Io(e)) if e.kind == IoKind::NotFound));
    assert!(get(&mut d, &s, "k").is_none());
}

#[test]
fn install_hardlinks_within_one_filesystem() {
    let (mut d, s) = store();
    put_dummy(&mut d, &s, "k", b"payload");
    let dest = b"/store/catalog/debian.ext4";
    assert_eq!(install(&mut d, &s, "k", dest).unwrap(), InstallKind::Link);
    assert_eq!(d.file(dest).unwrap().data, b"payload");
    assert_eq!(d.inode(dest), d.inode(&s.blob("k")));
}

#[test]
fn install_across_filesystems_copies() {
    let (mut d, s) = store();
    put_dummy(&mut d, &s, "k", b"payload");
    let dest = b"/other/catalog/debian.ext4";
    assert_eq!(install(&mut d, &s, "k", dest).unwrap(), InstallKind::Copy);
    assert_eq!(d.file(dest).unwrap().data, b"payload");
    assert_eq!(d.file(dest).unwrap().mode, 0o644);
    assert!(d.file(b"/other/catalog/debian.ext4.part").is_none());
}

#[test]
fn install_leaves_no_part_file_behind() {
    let (mut d, s) = store();
    put_dummy(&mut d, &s, "k", b"payload");
    install(&mut d, &s, "k", b"/store/c/img.ext4").unwrap();
    assert!(d.file(b"/store/c/img.ext4.part").is_none());
}

#[test]
fn install_is_idempotent_and_leaves_no_staging_file() {
    let (mut d, s) = store();
    put_dummy(&mut d, &s, "k", b"payload");
    let dest = b"/store/c/img.ext4";
    for _ in 0..3 {
        install(&mut d, &s, "k", dest).unwrap();
    }
    assert_eq!(d.file(dest).unwrap().data, b"payload");
    assert!(d.file(b"/store/c/img.ext4.part").is_none(), "staging file survived the install");
    assert_eq!(d.links(&s.blob("k")), 2);
}

#[test]
fn install_is_prepared_beside_its_destination() {
    let (mut d, s) = store();
    put_dummy(&mut d, &s, "k", b"payload");
    d.write(b"/store/c/img.ext4.part", File::dense(b"mine", 0o644));
    d.write(b"/store/c/img.raw.part", File::dense(b"half", 0o644));
    install(&mut d, &s, "k", b"/store/c/img.raw").unwrap();
    assert_eq!(d.file(b"/store/c/img.raw").unwrap().data, b"payload");
    assert!(d.file(b"/store/c/img.raw.part").is_none());
    assert_eq!(d.file(b"/store/c/img.ext4.part").unwrap().data, b"mine");
}

#[test]
fn install_replaces_what_was_there() {
    let (mut d, s) = store();
    put_dummy(&mut d, &s, "k", b"payload");
    d.write(b"/store/c/img.ext4", File::dense(b"old", 0o644));
    d.write(b"/store/c/img.ext4.part", File::dense(b"half", 0o644));
    assert_eq!(install(&mut d, &s, "k", b"/store/c/img.ext4").unwrap(), InstallKind::Link);
    assert_eq!(d.file(b"/store/c/img.ext4").unwrap().data, b"payload");
    assert!(d.file(b"/store/c/img.ext4.part").is_none());
}

#[test]
fn a_published_image_outlives_a_new_put() {
    let (mut d, s) = store();
    put_dummy(&mut d, &s, "k", b"first");
    install(&mut d, &s, "k", b"/store/c/img.ext4").unwrap();
    put_dummy(&mut d, &s, "other", b"other");
    put_dummy(&mut d, &s, "k", b"second");
    assert_eq!(d.file(b"/store/c/img.ext4").unwrap().data, b"first");
    assert_eq!(d.file(&s.blob("k")).unwrap().data, b"second");
    assert_eq!(d.file(&s.blob("other")).unwrap().data, b"other");
}

#[test]
fn install_missing_key_errors() {
    let (mut d, s) = store();
    let r = install(&mut d, &s, "nope", b"/store/x.ext4");
    assert!(r.is_err());
    assert!(matches!(
        r,
        Err(Error::Io(e))
            if e.kind == IoKind::NotFound && e.message == "no stored image for key nope"
    ));
}

#[test]
fn materialize_yields_an_independent_writable_file() {
    let (mut d, s) = store();
    put_dummy(&mut d, &s, "k", b"payload");
    let dest = b"/store/vm/rootfs.ext4";
    let m = materialize(&mut d, &s, "k", dest).unwrap();
    assert_eq!(d.file(dest).unwrap().data, b"payload");
    assert_ne!(d.inode(dest), d.inode(&s.blob("k")), "materialize returned a hardlink");
    assert_eq!(d.links(&s.blob("k")), 1, "materialize altered the blob's link count");
    assert_eq!(d.file(dest).unwrap().mode & 0o777, 0o644);
    assert!(m.bytes_written() <= 4096, "unexpected cost: {m:?}");
    assert_eq!(m, Materialization::SparseCopy { bytes_written: 7 });
}

#[test]
fn materialize_shares_blocks_where_it_can() {
    let (mut d, s) = store();
    d.shares = true;
    put_dummy(&mut d, &s, "k", b"payload");
    let m = materialize(&mut d, &s, "k", b"/store/vm/rootfs.ext4").unwrap();
    assert_eq!(m, Materialization::Cloned { bytes_written: 4096 });
    assert_eq!(m.bytes_written(), 4096);
    assert_eq!(d.file(b"/store/vm/rootfs.ext4").unwrap().data, b"payload");
}

#[test]
fn materialize_is_repeatable_and_missing_key_errors() {
    let (mut d, s) = store();
    put_dummy(&mut d, &s, "k", b"payload");
    let dest = b"/store/vm/rootfs.ext4";
    materialize(&mut d, &s, "k", dest).unwrap();
    materialize(&mut d, &s, "k", dest).unwrap();
    assert_eq!(d.file(dest).unwrap().data, b"payload");
    assert!(materialize(&mut d, &s, "nope", b"/store/x.ext4").is_err());
}

#[test]
fn materialize_does_not_densify() {
    const APPARENT: u64 = 64 * MIB;
    let (mut d, s) = store();
    put_file(&mut d, &s, "sp", File::sparse(APPARENT, &[(0, 2 * MIB)], b'D'));
    let dest = b"/store/vm/rootfs.ext4";
    let m = materialize(&mut d, &s, "sp", dest).unwrap();
    let out = d.file(dest).unwrap();
    assert_eq!(out.data.len() as u64, APPARENT, "trailing hole lost");
    assert!(m.bytes_written() < APPARENT / 4, "densified: {m:?}");
    assert!(out.allocated() < APPARENT / 4, "densified on disk");
}

#[test]
fn release_reclaims_a_materialization_and_is_idempotent() {
    let (mut d, s) = store();
    put_dummy(&mut d, &s, "k", b"payload");
    let dest = b"/store/vm/rootfs.ext4";
    materialize(&mut d, &s, "k", dest).unwrap();
    assert!(d.file(dest).is_some());
    release(&mut d, &s, dest).unwrap();
    assert!(d.file(dest).is_none());
    release(&mut d, &s, dest).unwrap();
    assert!(get(&mut d, &s, "k").is_some());
}

#[test]
fn release_tells_other_failures() {
    let (mut d, s) = store();
    d.write(b"/store/vm/x", File::dense(b"x", 0o644));
    d.stuck = Some(b"/store/vm".to_vec());
    assert!(matches!(
        release(&mut d, &s, b"/store/vm/x"),
        Err(Error::Io(e)) if e.kind == IoKind::PermissionDenied
    ));
}

fn used(key: &str, last_used: u64) -> Entry {
    Entry {
        key: key.to_string(),
        size_bytes: 1,
        actual_bytes: 1,
        diff_ids: vec![],
        last_used,
        created: 0,
    }
}

fn keys(v: &[Entry]) -> Vec<&str> {
    v.iter().map(|e| e.key.as_str()).collect()
}

#[test]
fn records_are_sorted_and_keep_their_order_within_a_date() {
    let v = || vec![used("a", 2), used("b", 1), used("c", 2), used("d", 3), used("e", 1)];
    assert_eq!(keys(&sort(Order::NewestFirst, v())), vec!["d", "a", "c", "b", "e"]);
    assert_eq!(keys(&sort(Order::OldestFirst, v())), vec!["b", "e", "a", "c", "d"]);
}

#[test]
fn list_passes_over_what_is_no_record() {
    let (mut d, s) = store();
    put_dummy(&mut d, &s, "a", b"1");
    d.now = 3000;
    put_dummy(&mut d, &s, "b", b"2");
    d.write(b"/store/meta/junk", File::dense(b"?", 0o644));
    let listed = drive(&mut d, s.list()).outcome().unwrap().unwrap();
    assert_eq!(keys(&listed), vec!["b", "a"]);
}

#[test]
fn list_tells_a_failure() {
    let s = Store::open(b"/store");
    let p = s.list().resume(Reply::Failed(not_found()));
    assert!(matches!(p.outcome(), Some(Err(Error::Io(e))) if e.kind == IoKind::NotFound));
    let p = s.gc(&GcPolicy::default()).resume(Reply::Failed(not_found()));
    assert!(matches!(p.outcome(), Some(Err(Error::Io(e))) if e.kind == IoKind::NotFound));
}

// ---------------------------------------------------------------------------
// Eviction
// ---------------------------------------------------------------------------
#[test]
fn gc_respects_size_cap_and_evicts_oldest_first() {
    let (mut d, s) = store();
    put_dummy(&mut d, &s, "old", &[0u8; 8192]);
    d.now += 2;
    put_dummy(&mut d, &s, "new", &[0u8; 8192]);
    let r = gc(&mut d, &s, limit(8192));
    assert!(r.removed.contains(&"old".to_string()), "report={r:?}");
    assert!(get(&mut d, &s, "new").is_some(), "newest entry must survive");
    assert_eq!((r.total_before, r.freed_bytes), (16384, 8192));
    assert!(entry(&mut d, &s, "old").is_err());
}

#[test]
fn gc_never_evicts_an_installed_entry() {
    let (mut d, s) = store();
    put_dummy(&mut d, &s, "linked", &[0u8; 8192]);
    install(&mut d, &s, "linked", b"/store/catalog/x.ext4").unwrap();
    let r = gc(&mut d, &s, limit(0));
    assert_eq!(r.kept_linked, 1);
    assert!(r.removed.is_empty());
    assert!(get(&mut d, &s, "linked").is_some());
}

#[test]
fn gc_keeps_metadata_when_the_blob_cannot_be_removed() {
    let (mut d, s) = store();
    put_dummy(&mut d, &s, "stuck", &[0u8; 8192]);
    d.stuck = Some(b"/store/blobs".to_vec());
    let r = gc(&mut d, &s, limit(0));
    d.stuck = None;
    assert_eq!(r.kept_busy, vec!["stuck".to_string()], "report: {r:?}");
    assert!(r.removed.is_empty());
    assert!(entry(&mut d, &s, "stuck").is_ok());
}

#[test]
fn gc_measures_live_size_rather_than_trusting_recorded_bytes() {
    let (mut d, s) = store();
    put_dummy(&mut d, &s, "k", &[0u8; 8192]);
    let mut e = entry(&mut d, &s, "k").unwrap();
    e.actual_bytes = 999_999_999;
    d.answer(Request::WriteEntry { path: s.meta("k"), entry: e });
    let r = gc(
        &mut d,
        &s,
        GcPolicy { keep_secs: Some(0), dry_run: true, ..GcPolicy::default() },
    );
    assert!(r.total_before < 1_000_000, "GC trusted the stale recorded size: {r:?}");
}

#[test]
fn gc_dry_run_reports_without_deleting() {
    let (mut d, s) = store();
    put_dummy(&mut d, &s, "k", &[0u8; 8192]);
    let r = gc(&mut d, &s, GcPolicy { dry_run: true, ..limit(0) });
    assert_eq!(r.removed, vec!["k".to_string()]);
    assert!(r.dry_run);
    assert!(get(&mut d, &s, "k").is_some(), "dry run must not delete");
}

#[test]
fn gc_age_policy() {
    let (mut d, s) = store();
    put_dummy(&mut d, &s, "k", &[0u8; 4096]);
    d.now += 2;
    let r = gc(&mut d, &s, GcPolicy { keep_secs: Some(0), ..GcPolicy::default() });
    assert_eq!(r.removed, vec!["k".to_string()]);
}

#[test]
fn gc_without_a_limit_keeps_everything() {
    let (mut d, s) = store();
    put_dummy(&mut d, &s, "k", &[0u8; 4096]);
    d.now += 1_000_000;
    let r = gc(&mut d, &s, GcPolicy::default());
    assert!(r.removed.is_empty());
    assert!(get(&mut d, &s, "k").is_some());
}

#[test]
fn gc_keeps_what_is_just_old_enough() {
    let (mut d, s) = store();
    put_dummy(&mut d, &s, "k", &[0u8; 4096]);
    d.now += 5;
    let keep = |n| GcPolicy { keep_secs: Some(n), ..GcPolicy::default() };
    assert!(gc(&mut d, &s, keep(5)).removed.is_empty());
    assert_eq!(gc(&mut d, &s, keep(4)).removed, vec!["k".to_string()]);
}

#[test]
fn gc_stops_when_nothing_is_freed() {
    let (mut d, s) = store();
    for key in ["a", "b", "c", "e"] {
        put_dummy(&mut d, &s, key, &[0u8; 8192]);
        d.now += 1;
    }
    d.free = VecDeque::from(vec![Some(100), Some(100 + 2047)]);
    let r = gc(&mut d, &s, limit(0));
    assert_eq!(r.removed, vec!["a".to_string(), "b".to_string()]);
    assert!(r.stopped_early.unwrap().starts_with("measured free space barely moved -- "));
    assert_eq!(r.freed_bytes, 16384);
    assert!(get(&mut d, &s, "c").is_some());
}

#[test]
fn gc_removes_no_more_than_it_takes() {
    let sizes = [3usize, 1, 2, 5, 1];
    for max in 0..14u64 {
        let (mut d, s) = store();
        for (i, n) in sizes.iter().enumerate() {
            put_dummy(&mut d, &s, &format!("k{i}"), &vec![0u8; n * 4096]);
            d.now += 1;
        }
        let r = gc(&mut d, &s, limit(max * 4096));
        let mut left: u64 = sizes.iter().map(|n| *n as u64).sum();
        let mut gone = 0;
        while left > max {
            left -= sizes[gone] as u64;
            gone += 1;
        }
        let want: Vec<String> = (0..gone).map(|i| format!("k{i}")).collect();
        assert_eq!(r.removed, want, "{max}");
        assert_eq!(r.total_before, 12 * 4096);
        assert_eq!(r.freed_bytes, (12 - left) * 4096);
    }
}

#[test]
fn gc_passes_over_what_is_installed_until_it_fits() {
    let sizes = [3usize, 1, 2, 5, 1];
    for max in 0..14u64 {
        let (mut d, s) = store();
        for (i, n) in sizes.iter().enumerate() {
            put_dummy(&mut d, &s, &format!("k{i}"), &vec![0u8; n * 4096]);
            d.now += 1;
        }
        install(&mut d, &s, "k1", b"/store/c/k1.ext4").unwrap();
        install(&mut d, &s, "k3", b"/store/c/k3.ext4").unwrap();
        let r = gc(&mut d, &s, limit(max * 4096));
        let mut left: u64 = sizes.iter().map(|n| *n as u64).sum();
        let mut want: Vec<String> = Vec::new();
        for (i, n) in sizes.iter().enumerate() {
            if left > max && i != 1 && i != 3 {
                left -= *n as u64;
                want.push(format!("k{i}"));
            }
        }
        assert_eq!(r.removed, want, "{max}");
        assert_eq!(r.kept_linked == 2, max < 7, "{max}");
        for key in ["k1", "k3"] {
            assert!(entry(&mut d, &s, key).is_ok() && get(&mut d, &s, key).is_some());
        }
    }
}

#[test]
fn gc_by_age_counts_what_is_installed() {
    let (mut d, s) = store();
    for key in ["a", "b", "c", "e"] {
        put_dummy(&mut d, &s, key, b"payload");
        d.now += 10;
    }
    install(&mut d, &s, "b", b"/store/c/b.ext4").unwrap();
    d.now = 1035;
    let policy = GcPolicy { keep_secs: Some(20), ..GcPolicy::default() };
    let r = gc(&mut d, &s, policy);
    assert_eq!(r.removed, vec!["a".to_string()]);
    assert_eq!(r.kept_linked, 1);
    assert!(r.kept_busy.is_empty() && r.stopped_early.is_none());
    assert_eq!(entry(&mut d, &s, "b").unwrap().last_used, 1010);
    for key in ["b", "c", "e"] {
        assert!(get(&mut d, &s, key).is_some(), "{key}");
    }
}

#[test]
fn an_installed_image_is_not_in_any_report() {
    let (mut d, s) = store();
    put_dummy(&mut d, &s, "k", &[1u8; 5000]);
    install(&mut d, &s, "k", b"/store/c/k.ext4").unwrap();
    let r = gc(&mut d, &s, limit(0));
    assert!(r.removed.is_empty() && r.kept_busy.is_empty());
    assert_eq!(r.kept_linked, 1);
    assert_eq!(r.freed_bytes, 0);
    assert!(entry(&mut d, &s, "k").is_ok());
}

#[test]
fn an_install_that_fails_leaves_its_destination() {
    let s = Store::open(b"/store");
    let mut p = s.install("k", b"/c/img.ext4");
    for r in [
        Reply::Flag(true),
        Reply::Done,
        Reply::Failed(not_found()),
        Reply::Failed(not_found()),
        Reply::Failed(failure(IoKind::PermissionDenied, Some(OsCode::NotPermitted), "no links")),
        Reply::Count(7),
        Reply::Failed(failure(IoKind::Other, None, "no rename")),
    ] {
        if let Some(Request::Rename { from, to }) = p.request() {
            assert_eq!(from, b"/c/img.ext4.part");
            assert_eq!(to, b"/c/img.ext4");
        }
        p = p.resume(r);
    }
    assert!(matches!(p.outcome(), Some(Err(Error::Io(e))) if e.message == "no rename"));
    let p = s.install("k", b"/c/img.ext4").resume(Reply::Flag(true)).resume(Reply::Done);
    let p = p.resume(Reply::Failed(not_found())).resume(Reply::Failed(not_found()));
    let p = p.resume(Reply::Failed(failure(IoKind::Other, Some(OsCode::Number(28)), "full")));
    assert!(matches!(p.outcome(), Some(Err(Error::Io(e))) if e.message == "full"));
}

#[test]
fn gc_goes_on_when_a_quarter_is_freed() {
    let (mut d, s) = store();
    for key in ["a", "b", "c"] {
        put_dummy(&mut d, &s, key, &[0u8; 8192]);
        d.now += 1;
    }
    d.free = VecDeque::from(vec![Some(100), Some(100 + 2048), None]);
    let r = gc(&mut d, &s, limit(0));
    assert_eq!(r.removed.len(), 3);
    assert!(r.stopped_early.is_none());
}

#[test]
fn gc_forgets_an_image_that_is_gone_already() {
    let (mut d, s) = store();
    put_dummy(&mut d, &s, "k", &[0u8; 8192]);
    d.names.remove(&s.blob("k"));
    let r = gc(&mut d, &s, limit(0));
    assert_eq!(r.removed, vec!["k".to_string()]);
    assert_eq!(r.freed_bytes, 8192, "the recorded size stands in for the one of a missing image");
    assert!(entry(&mut d, &s, "k").is_err());
}

// ---------------------------------------------------------------------------
// ZFS
// ---------------------------------------------------------------------------
fn busy(msg: &str) -> Error {
    Error::ToolFailed {
        tool: "zfs",
        status: "exit status: 1".to_string(),
        stderr: msg.to_string(),
    }
}

fn zfs() -> (Disk, ZfsBackend) {
    (Disk { now: 1000, ..Disk::default() }, ZfsBackend::new("tank/vmbuild", b"/mnt"))
}

fn zfs_with_entry() -> (Disk, ZfsBackend) {
    let (mut d, be) = zfs();
    let entry = Entry {
        key: "abc".to_string(),
        size_bytes: 10,
        actual_bytes: 10,
        diff_ids: vec![],
        last_used: 0,
        created: 0,
    };
    d.answer(Request::WriteEntry { path: b"/mnt/meta/abc.json".to_vec(), entry });
    (d, be)
}

#[test]
fn busy_errors_are_classified_not_swallowed() {
    assert!(is_busy(&busy("cannot destroy 'tank/x': dataset is busy")));
    assert!(is_busy(&busy("cannot destroy 'tank/x': filesystem has dependent clones")));
    assert!(!is_busy(&busy("cannot open 'tank/x': dataset does not exist")));
}

#[test]
fn busy_is_told_whatever_the_case_and_from_nothing_else() {
    assert!(is_busy(&busy("Dataset Is BUSY")));
    assert!(is_busy(&busy("cannot destroy 'x': filesystem has children")));
    assert!(!is_busy(&busy("")));
    assert!(!is_busy(&Error::ToolMissing { tool: "zfs" }));
    assert!(is_gone(&busy("cannot open 'x': dataset does not exist")));
    assert!(!is_gone(&busy("Does Not Exist")));
    assert!(!is_gone(&Error::ToolMissing { tool: "zfs" }));
}

#[test]
fn names_on_zfs() {
    let be = ZfsBackend::new("tank/vmbuild", b"/mnt");
    assert_eq!(be.root(), b"/mnt");
    assert_eq!(be.dataset_name(), "tank/vmbuild");
    assert_eq!(be.blob_ds("k"), "tank/vmbuild/blobs/k");
    assert_eq!(be.clone_ds("t"), "tank/vmbuild/clones/t");
    assert_eq!(be.snapshot("k"), "tank/vmbuild/blobs/k@ready");
    assert_eq!(be.blob_dir("k"), b"/mnt/blobs/k");
    assert_eq!(be.blob_file("k"), b"/mnt/blobs/k/image.ext4");
    assert_eq!(be.clone_file("t"), b"/mnt/clones/t/image.ext4");
    assert_eq!(be.meta_path("k"), b"/mnt/meta/k.json");
    assert_eq!(be.records(), b"/mnt/meta");
    assert_eq!(be.lock("k"), b"/mnt/locks/k.lock");
    assert_eq!(be.staging_path("k"), b"/mnt/tmp/k.building");
}

#[test]
fn materialize_clones_the_ready_snapshot() {
    let (mut d, be) = zfs();
    d.write(b"/mnt/blobs/abc/image.ext4", File::dense(b"x", 0o444));
    let m = drive(&mut d, be.materialize("abc", b"/mnt/vm.ext4")).outcome().unwrap().unwrap();
    let clone = d.zfs_calls.iter().find(|c| c.starts_with("clone")).expect("no clone call");
    assert!(
        clone.contains("tank/vmbuild/blobs/abc@ready"),
        "cloned the wrong snapshot: {clone}"
    );
    assert!(
        clone.contains("readonly=off"),
        "clone would inherit the origin's read-only mode: {clone}"
    );
    assert_eq!(m, Materialization::Cloned { bytes_written: 0 });
}

#[test]
fn a_clone_with_a_file_is_linked_as_the_destination() {
    let (mut d, be) = zfs();
    d.write(b"/mnt/blobs/abc/image.ext4", File::dense(b"x", 0o444));
    let token = ZfsBackend::clone_token(b"/mnt/vm.ext4");
    let file = be.clone_file(&token);
    d.write(&file, File::dense(b"x", 0o444));
    d.write(b"/mnt/vm.ext4", File::dense(b"old", 0o644));
    drive(&mut d, be.materialize("abc", b"/mnt/vm.ext4")).outcome().unwrap().unwrap();
    assert_eq!(d.inode(b"/mnt/vm.ext4"), d.inode(&file));
    assert_eq!(d.file(b"/mnt/vm.ext4").unwrap().mode, 0o644);
}

#[test]
fn a_clone_that_fails_is_told() {
    let (mut d, be) = zfs();
    d.write(b"/mnt/blobs/abc/image.ext4", File::dense(b"x", 0o444));
    d.zfs_replies = VecDeque::from(vec![Err(busy("no such clone")), Err(busy("out of space"))]);
    let r = drive(&mut d, be.materialize("abc", b"/mnt/vm.ext4")).outcome().unwrap();
    assert!(matches!(r, Err(Error::ToolFailed { stderr, .. }) if stderr == "out of space"));
    let r = drive(&mut d, be.materialize("nope", b"/mnt/vm.ext4")).outcome().unwrap();
    assert!(matches!(r, Err(Error::Io(e)) if e.message == "no stored image for key nope"));
}

#[test]
fn release_destroys_the_clone_for_that_destination() {
    let (mut d, be) = zfs();
    let dest = b"/mnt/vm.ext4";
    drive(&mut d, be.release(dest)).outcome().unwrap().unwrap();
    let token = ZfsBackend::clone_token(dest);
    assert_eq!(d.zfs_calls, vec![format!("destroy -r tank/vmbuild/clones/{token}")]);
}

#[test]
fn release_of_a_missing_clone_is_not_an_error() {
    let (mut d, be) = zfs();
    d.zfs_replies =
        VecDeque::from(vec![Err(busy("cannot open 'tank/x': dataset does not exist"))]);
    drive(&mut d, be.release(b"/mnt/vm.ext4")).outcome().unwrap().unwrap();
}

#[test]
fn release_of_a_busy_clone_is_an_error() {
    let (mut d, be) = zfs();
    d.zfs_replies = VecDeque::from(vec![Err(busy("dataset is busy"))]);
    let r = drive(&mut d, be.release(b"/mnt/vm.ext4")).outcome().unwrap();
    assert!(matches!(r, Err(Error::ToolFailed { .. })));
}

#[test]
fn clone_token_is_stable_and_destination_specific() {
    let a = b"/run/vm-a/rootfs.ext4";
    let b = b"/run/vm-b/rootfs.ext4";
    assert_eq!(
        ZfsBackend::clone_token(a),
        ZfsBackend::clone_token(a),
        "release could not find the clone materialize made"
    );
    assert_ne!(ZfsBackend::clone_token(a), ZfsBackend::clone_token(b));
    assert_eq!(ZfsBackend::clone_token(b"abc"), "ba7816bf8f01cfea414140de5dae2223");
}

#[test]
fn zfs_put_makes_a_dataset_and_a_snapshot() {
    let (mut d, be) = zfs();
    d.write(b"/mnt/tmp/k.building", File::dense(b"payload", 0o644));
    let p = drive(&mut d, be.put("k", b"/mnt/tmp/k.building", &["l1".to_string()]))
        .outcome()
        .unwrap()
        .unwrap();
    assert_eq!(p, b"/mnt/blobs/k/image.ext4");
    assert_eq!(d.file(&p).unwrap().data, b"payload");
    assert_eq!(
        d.zfs_calls,
        vec![
            "create -p tank/vmbuild/blobs/k".to_string(),
            "snapshot tank/vmbuild/blobs/k@ready".to_string(),
            "set readonly=on tank/vmbuild/blobs/k".to_string(),
        ]
    );
    let e = drive(&mut d, be.entry("k")).outcome().unwrap().unwrap();
    assert_eq!((e.size_bytes, e.created, e.last_used), (7, 1000, 1000));
    d.now = 2000;
    assert_eq!(drive(&mut d, be.get("k")).outcome().unwrap(), Some(p.clone()));
    assert_eq!(d.file(&p).unwrap().data, b"payload");
    let e = drive(&mut d, be.entry("k")).outcome().unwrap().unwrap();
    assert_eq!((e.size_bytes, e.created, e.last_used), (7, 1000, 2000));
    assert_eq!(drive(&mut d, be.get("other")).outcome().unwrap(), None);
}

#[test]
fn a_zfs_hit_without_a_record_is_a_hit() {
    let (mut d, be) = zfs();
    d.write(b"/mnt/blobs/k/image.ext4", File::dense(b"payload", 0o444));
    let found = drive(&mut d, be.get("k")).outcome().unwrap();
    assert_eq!(found, Some(b"/mnt/blobs/k/image.ext4".to_vec()));
    assert!(drive(&mut d, be.entry("k")).outcome().unwrap().is_err());
}

#[test]
fn zfs_put_copies_where_it_cannot_rename() {
    let (mut d, be) = zfs();
    d.write(b"/other/img", File::dense(b"payload", 0o644));
    let p = drive(&mut d, be.put("k", b"/other/img", &[])).outcome().unwrap().unwrap();
    assert_eq!(d.file(&p).unwrap().data, b"payload");
    assert!(d.file(b"/other/img").is_none());
}

#[test]
fn zfs_put_ends_at_the_first_failure() {
    let (mut d, be) = zfs();
    d.zfs_replies = VecDeque::from(vec![Err(busy("permission denied"))]);
    let r = drive(&mut d, be.put("k", b"/mnt/tmp/k.building", &[])).outcome().unwrap();
    assert!(matches!(r, Err(Error::ToolFailed { .. })));
    assert_eq!(d.zfs_calls.len(), 1);
}

#[test]
fn zfs_install_links_or_copies() {
    let (mut d, be) = zfs();
    d.write(b"/mnt/blobs/k/image.ext4", File::dense(b"payload", 0o444));
    let r = drive(&mut d, be.install("k", b"/mnt/c/x.ext4")).outcome().unwrap().unwrap();
    assert_eq!(r, InstallKind::Link);
    let r = drive(&mut d, be.install("k", b"/other/x.ext4")).outcome().unwrap().unwrap();
    assert_eq!(r, InstallKind::Copy);
    assert_eq!(d.file(b"/other/x.ext4").unwrap().data, b"payload");
    assert!(drive(&mut d, be.install("nope", b"/mnt/y")).outcome().unwrap().is_err());
}

#[test]
fn zfs_list_without_records_is_empty() {
    let be = ZfsBackend::new("tank/vmbuild", b"/mnt");
    let p = be.list().resume(Reply::Failed(not_found()));
    assert!(p.outcome().unwrap().is_empty());
    let (mut d, be) = zfs_with_entry();
    assert_eq!(keys(&drive(&mut d, be.list()).outcome().unwrap()), vec!["abc"]);
}

#[test]
fn the_listing_of_clones_is_read() {
    let listing = "tank/vmbuild\t-\n\
                   tank/vmbuild/blobs/abc\t-\r\n\
                   tank/vmbuild/clones/1\t tank/vmbuild/blobs/abc@ready \textra\n\
                   no tab here\n\
                   empty\t\n\
                   tank/vmbuild/clones/2\ttank/vmbuild/blobs/def";
    assert_eq!(
        clone_graph(listing),
        vec![
            (
                "tank/vmbuild/clones/1".to_string(),
                "tank/vmbuild/blobs/abc@ready".to_string()
            ),
            (
                "tank/vmbuild/clones/2".to_string(),
                "tank/vmbuild/blobs/def".to_string()
            ),
        ]
    );
    assert_eq!(
        pinned(listing),
        vec!["tank/vmbuild/blobs/abc".to_string(), "tank/vmbuild/blobs/def".to_string()]
    );
}

fn zfs_gc(d: &mut Disk, be: &ZfsBackend, policy: GcPolicy) -> Result<GcReport, Error> {
    drive(d, be.gc(&policy)).outcome().unwrap()
}

#[test]
fn gc_refuses_to_destroy_an_image_a_clone_still_pins() {
    let (mut d, be) = zfs_with_entry();
    let listing = "tank/vmbuild\t-\n\
                   tank/vmbuild/blobs/abc\t-\n\
                   tank/vmbuild/clones/deadbeef\ttank/vmbuild/blobs/abc@ready\n";
    d.zfs_replies = VecDeque::from(vec![Ok(listing.to_string())]);
    let r = zfs_gc(&mut d, &be, limit(0)).unwrap();
    assert_eq!(r.kept_busy, vec!["abc".to_string()], "{r:?}");
    assert!(r.removed.is_empty());
    assert!(
        !d.zfs_calls.iter().any(|c| c.starts_with("destroy")),
        "GC tried to destroy a pinned image: {:?}",
        d.zfs_calls
    );
    assert_eq!(d.zfs_calls[0], "list -H -r -o name,origin tank/vmbuild");
}

#[test]
fn gc_destroys_an_unpinned_image_then_its_metadata() {
    let (mut d, be) = zfs_with_entry();
    d.zfs_replies = VecDeque::from(vec![Ok("tank/vmbuild\t-\n".to_string())]);
    let r = zfs_gc(&mut d, &be, limit(0)).unwrap();
    assert_eq!(r.removed, vec!["abc".to_string()]);
    assert!(d.zfs_calls.iter().any(|c| c == "destroy -r tank/vmbuild/blobs/abc"));
    assert!(d.file(b"/mnt/meta/abc.json").is_none());
    assert_eq!((r.freed_bytes, r.total_before), (10, 10));
}

#[test]
fn gc_keeps_metadata_when_destroy_reports_busy() {
    let (mut d, be) = zfs_with_entry();
    d.zfs_replies = VecDeque::from(vec![
        Ok("tank/vmbuild\t-\n".to_string()),
        Err(busy("cannot destroy 'x': dataset is busy")),
    ]);
    let r = zfs_gc(&mut d, &be, limit(0)).unwrap();
    assert_eq!(r.kept_busy, vec!["abc".to_string()]);
    assert!(
        d.file(b"/mnt/meta/abc.json").is_some(),
        "metadata deleted for a dataset that still exists"
    );
}

#[test]
fn zfs_gc_ends_at_any_other_failure() {
    let (mut d, be) = zfs_with_entry();
    d.zfs_replies =
        VecDeque::from(vec![Ok(String::new()), Err(busy("cannot destroy 'x': no permission"))]);
    assert!(matches!(zfs_gc(&mut d, &be, limit(0)), Err(Error::ToolFailed { .. })));
    assert!(d.file(b"/mnt/meta/abc.json").is_some());
    d.zfs_replies = VecDeque::from(vec![Err(Error::ToolMissing { tool: "zfs" })]);
    assert!(matches!(zfs_gc(&mut d, &be, limit(0)), Err(Error::ToolMissing { .. })));
}

#[test]
fn zfs_gc_dry_run_destroys_nothing() {
    let (mut d, be) = zfs_with_entry();
    let r = zfs_gc(&mut d, &be, GcPolicy { dry_run: true, ..limit(0) }).unwrap();
    assert_eq!(r.removed, vec!["abc".to_string()]);
    assert_eq!(d.zfs_calls.len(), 1);
    assert!(d.file(b"/mnt/meta/abc.json").is_some());
}
