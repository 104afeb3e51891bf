//! Keys, builds, and what surrounds them.

use sha2::Digest;
use std::collections::VecDeque;
use std::io::{Read, Write};
use vmbuild::build::extract::{
    carry_out, extract_context, is_gzip, plan_extraction, plan_for, ExtractReply, ExtractRequest,
};
use vmbuild::build::{
    build, describe_size, recipe, writing_options, BuildReply, BuildRequest, BuildStep, CacheHit,
};
use vmbuild::buildkit::args::BuildArgs;
use vmbuild::buildkit::prepare::prepare;
use vmbuild::buildkit::solve::{export_rootfs_tar, layers_of, solve, solve_as};
use vmbuild::buildkit::{
    common_args_of, BuildSpec, ContextSource, DockerfileSource, Prepared,
};
use vmbuild::cli;
use vmbuild::doctor::{self, probe_reflink, Findings, ProbeReply, ProbeRequest};
use vmbuild::error::{Error, IoError, IoKind};
use vmbuild::ext4::sizing::SizePolicy;
use vmbuild::ext4::{Ext4Options, Ext4Stats};
use vmbuild::host::{
    allocated_bytes, free_bytes, FileStat, Reply, Request, ToolCall, ToolOutput,
};
use vmbuild::key::{hex16, RecipeKey};
use vmbuild::procedure::Procedure;
use vmbuild::store::InstallKind;

fn failure(kind: IoKind, message: &str) -> IoError {
    IoError { kind, code: None, message: message.to_string() }
}

fn other_failure() -> IoError {
    failure(IoKind::Other, "broken")
}

// ---------------------------------------------------------------------------
// Keys
// ---------------------------------------------------------------------------
fn k() -> RecipeKey {
    RecipeKey {
        diff_ids: vec!["sha256:aaa".to_string(), "sha256:bbb".to_string()],
        size_policy: "auto".to_string(),
        label: Some("rootfs".to_string()),
        journal: true,
        epoch_secs: 1_577_836_800,
    }
}

#[test]
fn stable_across_calls() {
    assert_eq!(k().digest(), k().digest());
}

#[test]
fn layer_order_matters() {
    let mut b = k();
    b.diff_ids.reverse();
    assert_ne!(k().digest(), b.digest(), "chain order must be significant");
}

#[test]
fn every_field_changes_the_key() {
    let base = k().digest();
    let mut a = k();
    a.size_policy = "fixed:123".to_string();
    assert_ne!(base, a.digest());
    let mut b = k();
    b.label = None;
    assert_ne!(base, b.digest());
    let mut c = k();
    c.journal = false;
    assert_ne!(base, c.digest());
    let mut d = k();
    d.epoch_secs += 1;
    assert_ne!(base, d.digest());
    let mut e = k();
    e.diff_ids.push("sha256:ccc".to_string());
    assert_ne!(base, e.digest());
}

#[test]
fn field_boundaries_are_unambiguous() {
    let mut a = k();
    a.label = Some("ab".to_string());
    a.size_policy = "c".to_string();
    let mut b = k();
    b.label = Some("a".to_string());
    b.size_policy = "bc".to_string();
    assert_ne!(a.digest(), b.digest());
}

#[test]
fn uuid_follows_the_key() {
    assert_eq!(k().uuid(), k().uuid());
    let mut other = k();
    other.diff_ids.push("sha256:zzz".to_string());
    assert_ne!(k().uuid(), other.uuid());
}

#[test]
fn the_key_is_the_hash_of_the_recipe() {
    let mut bytes: Vec<u8> = Vec::new();
    bytes.extend_from_slice(b"vmbuild.ext4.v1\0sha256:aaa\0sha256:bbb\0");
    bytes.extend_from_slice(b"|size=auto|label=rootfs|journal=\x01|epoch=");
    bytes.extend_from_slice(&1_577_836_800u32.to_le_bytes());
    let hash = sha2::Sha256::digest(&bytes);
    assert_eq!(k().digest(), format!("{hash:x}"));
    assert_eq!(k().uuid_bytes()[..], hash[..16]);
    assert_eq!(k().uuid(), uuid::Uuid::from_bytes(k().uuid_bytes()));
    let mut empty = k();
    empty.label = Some(String::new());
    let mut none = k();
    none.label = None;
    assert_ne!(empty.digest(), none.digest());
    assert_ne!(empty.uuid(), none.uuid());
}

#[test]
fn no_two_recipes_hash_the_same_bytes() {
    let with = |ids: &[&str], size: &str, label: Option<&str>| RecipeKey {
        diff_ids: ids.iter().map(|s| s.to_string()).collect(),
        size_policy: size.to_string(),
        label: label.map(|l| l.to_string()),
        journal: true,
        epoch_secs: 0,
    };
    let all = [
        with(&["a\0b"], "auto", None),
        with(&["a", "b"], "auto", None),
        with(&["a\\0b"], "auto", None),
        with(&[], "auto|label=x", None),
        with(&[], "auto", Some("x|label=")),
        with(&[], "auto", Some("x")),
        with(&["|size=auto"], "auto", Some("x")),
        with(&[], "auto", Some("")),
        with(&[], "auto", Some("\\e")),
        with(&[], "auto", None),
    ];
    for (i, a) in all.iter().enumerate() {
        for (j, b) in all.iter().enumerate() {
            assert_eq!(a.digest() == b.digest(), i == j, "{a:?} {b:?}");
            assert_eq!(a.uuid() == b.uuid(), i == j, "{a:?} {b:?}");
        }
    }
    let plain = b"vmbuild.ext4.v1\0a\\0b\0|size=auto|label=\\e|journal=\x01|epoch=\0\0\0\0";
    let hash = sha2::Sha256::digest(plain);
    assert_eq!(with(&["a\0b"], "auto", Some("")).digest(), format!("{hash:x}"));
}

#[test]
fn sixteen_bytes_of_hexadecimal() {
    assert_eq!(hex16("00ff10A5"), {
        let mut b = [0u8; 16];
        b[1] = 0xff;
        b[2] = 0x10;
        b[3] = 0xa5;
        b
    });
    assert_eq!(hex16(""), [0u8; 16]);
    assert_eq!(hex16("zz1"), [0u8; 16]);
    assert_eq!(hex16("+f")[0], 15);
    assert_eq!(hex16("-f")[0], 0);
    assert_eq!(hex16("é0a")[1], 10);
    let long = "0123456789abcdef0123456789abcdef0123";
    assert_eq!(hex16(long)[15], 0xef);
}

// ---------------------------------------------------------------------------
// BuildKit
// ---------------------------------------------------------------------------
fn args(v: &[Vec<u8>]) -> Vec<String> {
    v.iter().map(|a| String::from_utf8(a.clone()).unwrap()).collect()
}

fn prepared() -> Prepared {
    Prepared { dockerfile: b"/t/Dockerfile".to_vec(), context: b"/t/context".to_vec(), tmp: None }
}

#[test]
fn build_arguments_are_in_order_and_the_last_one_counts() {
    let mut a = BuildArgs::new();
    for (k, v) in [("b", "1"), ("a", "2"), ("ab", "3"), ("b", "4"), ("", "5"), ("Z", "6")] {
        a.insert(k, v);
    }
    let got: Vec<(String, String)> =
        (0..a.len()).map(|i| (a.name(i).to_string(), a.value(i).to_string())).collect();
    let want: std::collections::BTreeMap<String, String> =
        [("b", "1"), ("a", "2"), ("ab", "3"), ("b", "4"), ("", "5"), ("Z", "6")]
            .iter()
            .map(|(k, v)| (k.to_string(), v.to_string()))
            .collect();
    assert_eq!(got, want.into_iter().collect::<Vec<_>>());
}

#[test]
fn the_common_arguments() {
    let mut spec = BuildSpec::default();
    assert_eq!(
        args(&common_args_of(&prepared(), &spec)),
        vec!["buildx", "build", "-f", "/t/Dockerfile"]
    );
    spec.target = Some("run".to_string());
    spec.platform = Some("linux/amd64".to_string());
    spec.build_args.insert("V", "1=2");
    spec.build_args.insert("A", "");
    spec.no_cache = true;
    spec.pull = true;
    assert_eq!(
        args(&common_args_of(&prepared(), &spec)),
        vec![
            "buildx",
            "build",
            "-f",
            "/t/Dockerfile",
            "--target",
            "run",
            "--platform",
            "linux/amd64",
            "--build-arg",
            "A=",
            "--build-arg",
            "V=1=2",
            "--no-cache",
            "--pull",
        ]
    );
}

/// Runs a preparation with files in memory, and says what was asked.
fn run_prepare(
    df: &DockerfileSource,
    ctx: &ContextSource,
    is_file: bool,
) -> (Result<Prepared, Error>, Vec<Request>) {
    let mut p = prepare(df, ctx);
    let mut asked = Vec::new();
    while let Some(r) = p.request() {
        let reply = match &r {
            Request::MakeTempDir => Reply::Place(b"/tmp/x".to_vec()),
            Request::MakeDir(_) | Request::WriteFile { .. } => Reply::Done,
            Request::IsFile(_) => Reply::Flag(is_file),
            other => panic!("unexpected {other:?}"),
        };
        asked.push(r);
        p = p.resume(reply);
    }
    (p.outcome().unwrap(), asked)
}

#[test]
fn text_dockerfile_is_written_outside_the_context() {
    let (r, asked) = run_prepare(
        &DockerfileSource::Text("FROM scratch\n".to_string()),
        &ContextSource::Empty,
        false,
    );
    let p = r.unwrap();
    assert!(asked.iter().any(|r| matches!(
        r,
        Request::WriteFile { path, bytes } if *path == p.dockerfile && bytes == b"FROM scratch\n"
    )));
    assert!(
        !p.dockerfile.starts_with(&p.context),
        "an uploaded context must not be able to shadow the Dockerfile"
    );
    assert_eq!(p.dockerfile, b"/tmp/x/Dockerfile");
    assert_eq!(p.context, b"/tmp/x/context");
    assert_eq!(p.tmp, Some(b"/tmp/x".to_vec()));
}

#[test]
fn empty_dockerfile_text_is_rejected() {
    let (r, asked) = run_prepare(
        &DockerfileSource::Text("   \n".to_string()),
        &ContextSource::Empty,
        false,
    );
    assert!(matches!(
        r,
        Err(Error::Io(e)) if e.kind == IoKind::InvalidInput && e.message == "dockerfile is empty"
    ));
    assert!(!asked.iter().any(|r| matches!(r, Request::WriteFile { .. })));
}

#[test]
fn missing_dockerfile_path_is_rejected() {
    let (r, _) = run_prepare(
        &DockerfileSource::Path(b"/nonexistent/Dockerfile".to_vec()),
        &ContextSource::Empty,
        false,
    );
    assert!(matches!(
        r,
        Err(Error::Io(e))
            if e.kind == IoKind::NotFound
                && e.message == "Dockerfile not found at /nonexistent/Dockerfile"
    ));
}

#[test]
fn what_is_on_disk_stays_where_it_is() {
    let (r, asked) = run_prepare(
        &DockerfileSource::Path(b"/d/Dockerfile".to_vec()),
        &ContextSource::Dir(b"/d".to_vec()),
        true,
    );
    let p = r.unwrap();
    assert_eq!((p.dockerfile, p.context, p.tmp), (b"/d/Dockerfile".to_vec(), b"/d".to_vec(), None));
    assert_eq!(asked.len(), 1);
    let (r, asked) = run_prepare(
        &DockerfileSource::Text("FROM x".to_string()),
        &ContextSource::Dir(b"/d".to_vec()),
        true,
    );
    assert_eq!(r.unwrap().context, b"/d");
    assert_eq!(asked.len(), 2);
    let (r, asked) = run_prepare(
        &DockerfileSource::Path(b"/d/Dockerfile".to_vec()),
        &ContextSource::TarGz(vec![]),
        true,
    );
    assert_eq!(r.unwrap().context, b"/tmp/x/context");
    assert!(matches!(&asked[1], Request::MakeDir(d) if d == b"/tmp/x/context"));
}

#[test]
fn a_preparation_that_fails_is_told() {
    let p = prepare(&DockerfileSource::Text("x".to_string()), &ContextSource::Empty);
    let p = p.resume(Reply::Failed(other_failure()));
    assert!(matches!(p.outcome(), Some(Err(Error::Io(e))) if e.message == "broken"));
}

fn output(success: bool, stdout: &str, stderr: &str) -> Reply {
    Reply::Output(ToolOutput {
        success,
        code: Some(if success { 0 } else { 1 }),
        status: "exit status".to_string(),
        stdout: stdout.as_bytes().to_vec(),
        stderr: stderr.as_bytes().to_vec(),
    })
}

fn docker(r: Option<Request>) -> Vec<String> {
    match r {
        Some(Request::Tool(ToolCall { program: "docker", args: a, input: None })) => args(&a),
        other => panic!("{other:?}"),
    }
}

#[test]
fn solving_loads_asks_and_untags() {
    let p = solve_as(&prepared(), &BuildSpec::default(), "abc");
    assert_eq!(
        docker(p.request()),
        vec![
            "buildx",
            "build",
            "-f",
            "/t/Dockerfile",
            "--load",
            "-t",
            "vmbuild-stage:abc",
            "/t/context"
        ]
    );
    let p = p.resume(output(true, "", ""));
    assert_eq!(
        docker(p.request()),
        vec!["image", "inspect", "vmbuild-stage:abc", "--format", "{{json .RootFS.Layers}}"]
    );
    let p = p.resume(output(true, " [\"sha256:a\",\"sha256:b\"]\n", ""));
    assert_eq!(docker(p.request()), vec!["image", "rm", "-f", "vmbuild-stage:abc"]);
    let p = p.resume(output(false, "", "no such image"));
    assert!(p.request().is_none());
    assert_eq!(p.outcome().unwrap().unwrap(), vec!["sha256:a", "sha256:b"]);
}

#[test]
fn solving_tells_what_went_wrong() {
    let spec = BuildSpec::default();
    let after = |answers: Vec<Reply>| {
        let mut p = solve_as(&prepared(), &spec, "x");
        for a in answers {
            p = p.resume(a);
        }
        assert!(p.request().is_none());
        p.outcome().unwrap()
    };
    assert!(matches!(
        after(vec![output(false, "", " no ")]),
        Err(Error::ToolFailed { tool: "docker buildx build --load", stderr, .. }) if stderr == "no"
    ));
    assert!(matches!(
        after(vec![Reply::Failed(failure(IoKind::NotFound, ""))]),
        Err(Error::ToolMissing { tool: "docker" })
    ));
    assert!(matches!(
        after(vec![output(true, "", ""), output(false, "", ""), output(true, "", "")]),
        Err(Error::ToolFailed { tool: "docker image inspect", .. })
    ));
    assert!(matches!(
        after(vec![output(true, "", ""), output(true, "[]", ""), output(true, "", "")]),
        Err(Error::Io(e))
            if e.kind == IoKind::InvalidData && e.message == "image reported an empty layer chain"
    ));
    assert!(matches!(
        after(vec![
            output(true, "", ""),
            output(true, "{}", ""),
            Reply::Failed(other_failure())
        ]),
        Err(Error::Io(e)) if e.kind == IoKind::InvalidData
    ));
}

#[test]
fn layers_need_one_at_least() {
    assert_eq!(layers_of(Ok(vec!["a".to_string()])).unwrap(), vec!["a"]);
    assert!(layers_of(Ok(vec![])).is_err());
    assert!(matches!(
        layers_of(Err("bad".to_string())),
        Err(Error::Io(e)) if e.kind == IoKind::InvalidData && e.message == "bad"
    ));
}

#[test]
fn every_solve_has_a_tag_of_its_own() {
    let tag = || docker(solve(&prepared(), &BuildSpec::default()).request())[6].clone();
    let (a, b) = (tag(), tag());
    assert_ne!(a, b);
    let id = a.strip_prefix("vmbuild-stage:").unwrap();
    assert_eq!(id.len(), 32);
    assert!(id.chars().all(|c| c.is_ascii_digit() || ('a'..='f').contains(&c)));
}

fn stat(len: u64) -> Reply {
    Reply::Stat(FileStat { len, allocated: 0, links: 1, inode: 1, device: 1 })
}

#[test]
fn exporting_gives_the_size_of_the_archive() {
    let p = export_rootfs_tar(&prepared(), &BuildSpec::default(), b"/o/rootfs.tar");
    assert_eq!(
        docker(p.request()),
        vec![
            "buildx",
            "build",
            "-f",
            "/t/Dockerfile",
            "-o",
            "type=tar,dest=/o/rootfs.tar",
            "/t/context"
        ]
    );
    let p = p.resume(output(true, "", ""));
    let p = p.resume(stat(99));
    assert_eq!(p.outcome().unwrap().unwrap(), 99);
    let p = export_rootfs_tar(&prepared(), &BuildSpec::default(), b"/o");
    let p = p.resume(output(false, "", "x"));
    assert!(matches!(
        p.outcome(),
        Some(Err(Error::ToolFailed { tool: "docker buildx build -o type=tar", .. }))
    ));
    let p = export_rootfs_tar(&prepared(), &BuildSpec::default(), b"/o");
    let p = p.resume(output(true, "", "")).resume(Reply::Failed(other_failure()));
    assert!(matches!(p.outcome(), Some(Err(Error::Io(_)))));
}

// ---------------------------------------------------------------------------
// Contexts
// ---------------------------------------------------------------------------
/// Unpacks an archive in memory: the names that were unpacked, and the result.
fn unpack(bytes: &[u8]) -> (Vec<Vec<u8>>, Result<(), Error>) {
    let mut plain = Vec::new();
    if is_gzip(bytes) {
        // What is behind a fault is of no use to an unpacking either.
        let _ = flate2::read::GzDecoder::new(bytes).read_to_end(&mut plain);
    } else {
        plain.extend_from_slice(bytes);
    }
    let mut archive = tar::Archive::new(std::io::Cursor::new(plain));
    let mut entries = archive.entries().unwrap();
    let mut unpacked = Vec::new();
    let mut p = extract_context(bytes, b"/ctx");
    while let Some(ExtractRequest::Unpack { gzip, at, dest }) = p.request() {
        assert_eq!(gzip, is_gzip(bytes));
        assert_eq!(at, unpacked.len());
        assert_eq!(dest, b"/ctx");
        unpacked.push(entries.next().unwrap().unwrap().path_bytes().into_owned());
        p = p.resume(ExtractReply::Done);
    }
    (unpacked, p.outcome().unwrap())
}

fn gzip(bytes: &[u8]) -> Vec<u8> {
    let mut e = flate2::write::GzEncoder::new(Vec::new(), flate2::Compression::fast());
    e.write_all(bytes).unwrap();
    e.finish().unwrap()
}

/// An archive with empty files of these names.
fn archive_of(names: &[&str]) -> Vec<u8> {
    let mut b = tar::Builder::new(Vec::new());
    for n in names {
        let mut h = header(0);
        let name = &mut h.as_old_mut().name;
        name.fill(0);
        name[..n.len()].copy_from_slice(n.as_bytes());
        h.set_cksum();
        b.append(&h, std::io::empty()).unwrap();
    }
    b.into_inner().unwrap()
}

fn header(size: u64) -> tar::Header {
    let mut h = tar::Header::new_gnu();
    h.set_entry_type(tar::EntryType::Regular);
    h.set_mode(0o644);
    h.set_size(size);
    h.set_uid(0);
    h.set_gid(0);
    h.set_mtime(0);
    h
}

#[test]
fn context_extraction_refuses_escapes() {
    let mut b = tar::Builder::new(Vec::new());
    let mut h = header(3);
    let name = &mut h.as_old_mut().name;
    name.fill(0);
    name[.."../evil".len()].copy_from_slice(b"../evil");
    h.set_cksum();
    b.append(&h, std::io::Cursor::new(b"bad".to_vec())).unwrap();
    let bytes = b.into_inner().unwrap();
    let (unpacked, r) = unpack(&bytes);
    assert!(matches!(r, Err(Error::PathEscape { path }) if path == b"../evil"));
    assert!(unpacked.is_empty());
}

#[test]
fn plain_context_extracts() {
    let mut b = tar::Builder::new(Vec::new());
    let mut h = header(2);
    b.append_data(&mut h, "ok.txt", std::io::Cursor::new(b"hi".to_vec())).unwrap();
    let bytes = b.into_inner().unwrap();
    assert!(!is_gzip(&bytes));
    let (unpacked, r) = unpack(&bytes);
    r.unwrap();
    assert_eq!(unpacked, vec![b"ok.txt".to_vec()]);
}

#[test]
fn absolute_names_leave_the_context_too() {
    let (unpacked, r) = unpack(&archive_of(&["/etc/passwd"]));
    assert!(matches!(r, Err(Error::PathEscape { path }) if path == b"/etc/passwd"));
    assert!(unpacked.is_empty());
    let p = extract_context(&archive_of(&["a/..b"]), b"/ctx");
    assert!(matches!(p.request(), Some(ExtractRequest::Unpack { at: 0, gzip: false, .. })));
    let p = p.resume(ExtractReply::Failed(other_failure()));
    assert!(matches!(p.outcome(), Some(Err(Error::Io(e))) if e.message == "broken"));
}

#[test]
fn an_archive_is_unpacked_up_to_the_first_escape() {
    let plain = archive_of(&["a", "b/c", "d/../e", "f", "../g"]);
    for bytes in [plain.clone(), gzip(&plain)] {
        let plan = plan_extraction(&bytes);
        assert_eq!(plan.count, 2);
        assert!(matches!(plan.refused, Some(Error::PathEscape { path }) if path == b"d/../e"));
        let (unpacked, r) = unpack(&bytes);
        assert_eq!(unpacked, vec![b"a".to_vec(), b"b/c".to_vec()]);
        assert!(matches!(r, Err(Error::PathEscape { path }) if path == b"d/../e"));
    }
    let whole = archive_of(&["a", "b"]);
    for bytes in [whole.clone(), gzip(&whole)] {
        let (unpacked, r) = unpack(&bytes);
        assert_eq!(unpacked.len(), 2);
        r.unwrap();
    }
    let (unpacked, r) = unpack(b"");
    assert!(unpacked.is_empty() && r.is_ok());
}

#[test]
fn an_archive_that_cannot_be_read_is_told() {
    let mut cut = archive_of(&["a", "b"]);
    cut.truncate(700);
    let plan = plan_extraction(&cut);
    assert_eq!(plan.count, 1);
    assert!(matches!(
        plan.refused,
        Some(Error::Io(e)) if e.kind == IoKind::Other && e.message == "failed to read entire block"
    ));
    let plan = plan_extraction(&[0x1f, 0x8b, 8]);
    assert_eq!(plan.count, 0);
    assert!(matches!(plan.refused, Some(Error::Io(_))));
    let plan = plan_extraction(&[7u8; 512]);
    assert_eq!(plan.count, 0);
    assert!(matches!(plan.refused, Some(Error::Io(_))));
}

#[test]
fn names_are_enough_for_a_plan() {
    let plan = plan_for(&[Ok(b"a".to_vec()), Err("torn".to_string()), Ok(b"..".to_vec())]);
    assert_eq!(plan.count, 1);
    assert!(matches!(&plan.refused, Some(Error::Io(e)) if e.message == "torn"));
    let p = carry_out(plan, true, b"/x");
    assert!(matches!(
        p.request(),
        Some(ExtractRequest::Unpack { gzip: true, at: 0, dest }) if dest == b"/x"
    ));
    let p = p.resume(ExtractReply::Done);
    assert!(matches!(p.outcome(), Some(Err(Error::Io(e))) if e.message == "torn"));
    let plan = plan_for(&[]);
    assert!(plan.count == 0 && plan.refused.is_none());
}

#[test]
fn compression_is_told_by_its_first_bytes() {
    assert!(is_gzip(&[0x1f, 0x8b]));
    assert!(is_gzip(&[0x1f, 0x8b, 8]));
    assert!(!is_gzip(&[0x1f]));
    assert!(!is_gzip(&[]));
    assert!(!is_gzip(&[0x8b, 0x1f]));
    let p = extract_context(&gzip(&archive_of(&["a"])), b"/ctx");
    assert!(matches!(p.request(), Some(ExtractRequest::Unpack { gzip: true, .. })));
}

// ---------------------------------------------------------------------------
// Builds
// ---------------------------------------------------------------------------
fn request(install_to: Option<&str>, refresh: bool) -> BuildRequest {
    BuildRequest {
        dockerfile: DockerfileSource::Path(b"/d/Dockerfile".to_vec()),
        context: ContextSource::Dir(b"/d".to_vec()),
        spec: BuildSpec::default(),
        ext4: Ext4Options::with_epoch(5),
        install_to: install_to.map(|p| p.as_bytes().to_vec()),
        refresh,
    }
}

/// Runs a build; says which parts it had.
fn run_build(
    req: &BuildRequest,
    stored: bool,
) -> (Result<vmbuild::build::BuildOutcome, Error>, Vec<BuildStep>) {
    let mut p = build(req, b"/store");
    let mut steps = Vec::new();
    let mut sizes = VecDeque::new();
    while let Some(step) = p.request() {
        let reply = match &step {
            BuildStep::Prepare { .. } => BuildReply::Prepared(prepared()),
            BuildStep::Extract { .. } | BuildStep::Lock { .. } => BuildReply::Done,
            BuildStep::Solve { .. } => BuildReply::Layers(vec!["sha256:a".to_string()]),
            BuildStep::Get { .. } => BuildReply::Found(if stored {
                Some(b"/store/blob".to_vec())
            } else {
                None
            }),
            BuildStep::MakeTempDir => BuildReply::Place(b"/tmp/y".to_vec()),
            BuildStep::Export { .. } => BuildReply::Size(1000),
            BuildStep::Write { .. } => {
                sizes.push_back(1);
                BuildReply::Written(Ext4Stats::default())
            }
            BuildStep::Put { .. } => BuildReply::Stored(b"/store/new".to_vec()),
            BuildStep::Measure { .. } => BuildReply::Size(4096),
            BuildStep::Install { .. } => BuildReply::Installed(InstallKind::Link),
        };
        steps.push(step);
        p = p.resume(reply);
    }
    (p.outcome().unwrap(), steps)
}

#[test]
fn a_hit_is_not_built_again() {
    let (r, steps) = run_build(&request(None, false), true);
    let o = r.unwrap();
    assert_eq!(o.cache, CacheHit::Hit);
    assert_eq!(o.path, b"/store/blob");
    assert_eq!(o.size_bytes, 4096);
    assert!(o.stats.is_none() && o.install.is_none());
    assert_eq!(o.diff_ids, vec!["sha256:a"]);
    assert_eq!(o.key, recipe(&["sha256:a".to_string()], &Ext4Options::with_epoch(5)).digest());
    assert_eq!(steps.len(), 5);
    assert!(!steps.iter().any(|s| matches!(s, BuildStep::Write { .. } | BuildStep::Put { .. })));
}

#[test]
fn a_miss_is_built_and_stored() {
    let (r, steps) = run_build(&request(Some("/c/x.ext4"), false), false);
    let o = r.unwrap();
    assert_eq!(o.cache, CacheHit::Miss);
    assert_eq!(o.path, b"/c/x.ext4");
    assert_eq!(o.install, Some(InstallKind::Link));
    assert!(o.stats.is_some());
    let recipe = recipe(&["sha256:a".to_string()], &Ext4Options::with_epoch(5));
    let staging = format!("/store/tmp/{}.building", o.key).into_bytes();
    assert!(matches!(
        &steps[0],
        BuildStep::Prepare { dockerfile: DockerfileSource::Path(f), context: ContextSource::Dir(c) }
            if f == b"/d/Dockerfile" && c == b"/d"
    ));
    assert!(steps.iter().any(|s| matches!(
        s,
        BuildStep::Export { dest, .. } if dest == b"/tmp/y/rootfs.tar"
    )));
    assert!(steps.iter().any(|s| matches!(
        s,
        BuildStep::Write { tar, out, options }
            if tar == b"/tmp/y/rootfs.tar"
                && *out == staging
                && options.size == SizePolicy::FromTar { tar_bytes: 1000 }
                && options.uuid == Some(recipe.uuid_bytes())
    )));
    assert!(steps.iter().any(|s| matches!(
        s,
        BuildStep::Put { key, source, diff_ids }
            if *key == o.key && *source == staging && diff_ids == &vec!["sha256:a".to_string()]
    )));
}

#[test]
fn a_refresh_builds_what_is_stored() {
    let (r, _) = run_build(&request(None, true), true);
    let o = r.unwrap();
    assert_eq!(o.cache, CacheHit::Miss);
    assert_eq!(o.path, b"/store/new");
}

#[test]
fn an_archive_is_unpacked_before_anything_is_built() {
    let mut req = request(None, false);
    req.context = ContextSource::TarGz(vec![1, 2]);
    let (_, steps) = run_build(&req, true);
    assert!(matches!(
        &steps[1],
        BuildStep::Extract { bytes, dest } if *bytes == [1, 2] && dest == b"/t/context"
    ));
    assert!(matches!(&steps[2], BuildStep::Solve { .. }));
    let p = build(&req, b"/store").resume(BuildReply::Prepared(prepared()));
    let p = p.resume(BuildReply::Failed(Error::PathEscape { path: b"../x".to_vec() }));
    assert!(p.request().is_none());
    assert!(matches!(p.outcome(), Some(Err(Error::PathEscape { .. }))));
}

#[test]
fn the_lock_comes_before_the_look() {
    let (_, steps) = run_build(&request(None, false), true);
    let lock = steps.iter().position(|s| matches!(s, BuildStep::Lock { .. })).unwrap();
    let get = steps.iter().position(|s| matches!(s, BuildStep::Get { .. })).unwrap();
    assert!(lock < get);
}

#[test]
fn sizes_in_words_and_for_writing() {
    assert_eq!(describe_size(&SizePolicy::Fixed(123)), "fixed:123");
    assert_eq!(describe_size(&SizePolicy::Fixed(0)), "fixed:0");
    assert_eq!(describe_size(&SizePolicy::Fixed(u64::MAX)), format!("fixed:{}", u64::MAX));
    assert_eq!(describe_size(&SizePolicy::FromTar { tar_bytes: 9 }), "auto");
    let mut o = Ext4Options::with_epoch(1);
    o.size = SizePolicy::Fixed(7);
    let w = writing_options(&o, &k(), 55);
    assert_eq!(w.size, SizePolicy::Fixed(7));
    assert_eq!(w.label.as_deref(), Some("rootfs"));
    assert!(w.journal && !w.strict_special_files);
}

// ---------------------------------------------------------------------------
// The command line
// ---------------------------------------------------------------------------
#[test]
fn named_values_are_split_at_the_first_sign() {
    assert_eq!(cli::parse_kv("A=b=c").unwrap(), ("A".to_string(), "b=c".to_string()));
    assert_eq!(cli::parse_kv("=").unwrap(), (String::new(), String::new()));
    assert_eq!(cli::parse_kv("a\"b").unwrap_err(), "expected KEY=VALUE, got \"a\\\"b\"");
}

#[test]
fn storage_is_never_another_than_asked_for() {
    assert!(matches!(cli::open_backend("posix", None, false), Ok(cli::Backend::Posix)));
    assert!(matches!(
        cli::open_backend("zfs", Some("tank/x"), true),
        Ok(cli::Backend::Zfs(d)) if d == "tank/x"
    ));
    assert!(matches!(
        cli::open_backend("zfs", None, true),
        Err(Error::Io(e))
            if e.kind == IoKind::InvalidInput
                && e.message == "--backend zfs requires --zfs-dataset (e.g. tank/vmbuild)"
    ));
    assert!(matches!(
        cli::open_backend("zfs", Some("tank/x"), false),
        Err(Error::Io(e)) if e.kind == IoKind::Unsupported
    ));
    assert!(matches!(
        cli::open_backend("btrfs", None, true),
        Err(Error::Io(e))
            if e.message == "unknown backend \"btrfs\"; expected \"posix\" or \"zfs\""
    ));
}

#[test]
fn sizes_and_limits_from_options() {
    assert_eq!(cli::size_policy(Some(2), Some(9)), Some(SizePolicy::Fixed(2 * 1024 * 1024)));
    assert_eq!(cli::size_policy(None, Some(9)), Some(SizePolicy::FromTar { tar_bytes: 9 }));
    assert_eq!(cli::size_policy(None, None), None);
    assert!(cli::gc_policy(None, None, true).is_none());
    let p = cli::gc_policy(Some(1), Some(2), false).unwrap();
    assert_eq!((p.max_bytes, p.keep_secs, p.dry_run), (Some(1048576), Some(172800), false));
    let p = cli::gc_policy(None, Some(0), true).unwrap();
    assert_eq!((p.max_bytes, p.keep_secs, p.dry_run), (None, Some(0), true));
}

#[test]
fn places_from_options_and_the_environment() {
    assert_eq!(cli::catalog_dir(Some("/d"), Some("/h")), b"/d/images/firecracker");
    assert_eq!(cli::catalog_dir(None, Some("/h")), b"/h/.heyo/images/firecracker");
    assert_eq!(cli::catalog_dir(None, None), b"./.heyo/images/firecracker");
    assert_eq!(cli::install_to(Some(b"/o"), Some("n"), b"/c"), Some(b"/o".to_vec()));
    assert_eq!(cli::install_to(None, Some("n"), b"/c"), Some(b"/c/n.ext4".to_vec()));
    assert_eq!(cli::install_to(None, None, b"/c"), None);
    assert_eq!(cli::place_or(Some(b"/a".to_vec()), Some(b"/b".to_vec())), b"/a");
    assert_eq!(cli::place_or(None, Some(b"/b".to_vec())), b"/b");
    assert_eq!(cli::place_or(None, None), b".");
}

#[test]
fn blocks_are_counted_in_bytes() {
    assert_eq!(allocated_bytes(9), 4608);
    assert_eq!(free_bytes(3, 4096), 12288);
}

// ---------------------------------------------------------------------------
// The machine
// ---------------------------------------------------------------------------
fn findings(reflink: Option<bool>) -> Findings {
    Findings {
        source_magic: Some(0xEF53),
        dest_magic: None,
        reflink,
        reflink_detail: "detail".to_string(),
        zfs: None,
    }
}

#[test]
fn reports_the_pair_it_tested() {
    let r = doctor::run(b"/a", b"/b", findings(Some(false)));
    assert_eq!(r.source_dir, b"/a");
    assert_eq!(r.dest_dir, b"/b");
    assert!(!r.verdict.is_empty());
    assert_eq!((r.source_fs.as_str(), r.dest_fs.as_str()), ("ext2/3/4", "unknown"));
    assert_eq!((r.reflink, r.reflink_detail.as_str()), (Some(false), "detail"));
    assert!(r.verdict.starts_with("no block sharing between these directories"));
    assert!(doctor::run(b"", b"", findings(Some(true))).verdict.starts_with("copies between"));
    assert!(doctor::run(b"", b"", findings(None)).verdict.starts_with("could not determine"));
}

#[test]
fn filesystems_have_names() {
    for (magic, name) in [
        (0xEF53, "ext2/3/4"),
        (0x9123683E, "btrfs"),
        (0x58465342, "xfs"),
        (0x2FC12FC1, "zfs"),
        (0x01021994, "tmpfs"),
        (0x794C7630, "overlayfs"),
        (0x6969, "nfs"),
        (0x65735546, "fuse"),
        (0xABC, "unknown (0xabc)"),
        (0, "unknown (0x0)"),
        (-1, "unknown (0xffffffffffffffff)"),
        (i64::MIN, "unknown (0x8000000000000000)"),
    ] {
        assert_eq!(doctor::fs_name(Some(magic)), name);
    }
    assert_eq!(doctor::fs_name(None), "unknown");
}

#[test]
fn the_setting_of_zfs_is_read() {
    assert!(doctor::zfs_info(None, Some("1")).is_none());
    let z = doctor::zfs_info(Some("2.2.2-1\n"), Some("1\n")).unwrap();
    assert_eq!((z.version.as_str(), z.bclone_enabled), ("2.2.2-1", Some(true)));
    assert!(z.note.starts_with("block cloning enabled"));
    let z = doctor::zfs_info(Some("x"), Some("0")).unwrap();
    assert_eq!(z.bclone_enabled, Some(false));
    assert!(z.note.contains("2.2.1 through 2.2.10"));
    for bad in [None, Some(""), Some("on"), Some("2147483648")] {
        let z = doctor::zfs_info(Some("x"), bad).unwrap();
        assert_eq!(z.bclone_enabled, None);
        assert_eq!(z.note, "zfs_bclone_enabled unreadable; treating as unknown");
    }
    assert_eq!(doctor::zfs_info(Some("x"), Some("-5")).unwrap().bclone_enabled, Some(true));
}

fn probe(replies: Vec<ProbeReply>) -> (Option<bool>, String) {
    let mut p = probe_reflink(b"/a", b"/b");
    for r in replies {
        p = p.resume(r);
    }
    p.outcome().unwrap()
}

#[test]
fn a_clone_is_read_back() {
    let p = probe_reflink(b"/a", b"/b");
    assert!(matches!(p.request(), Some(ProbeRequest::CreateSource(d)) if d == b"/a"));
    let p = p.resume(ProbeReply::Done);
    assert!(matches!(
        p.request(),
        Some(ProbeRequest::Fill { byte: 0xA5, len: 1048576 })
    ));
    let p = p.resume(ProbeReply::Done);
    assert!(matches!(p.request(), Some(ProbeRequest::CreateDest(d)) if d == b"/b"));
    let done = || vec![ProbeReply::Done, ProbeReply::Done, ProbeReply::Done, ProbeReply::Done];
    let with = |last: ProbeReply| {
        let mut v = done();
        v.push(last);
        probe(v)
    };
    assert_eq!(
        with(ProbeReply::Bytes(vec![0xA5; 1 << 20])),
        (Some(true), "FICLONE verified by read-back".to_string())
    );
    let mut wrong = vec![0xA5; 1 << 20];
    wrong[77] = 0;
    for bytes in [wrong, vec![0xA5; 10], vec![]] {
        assert_eq!(
            with(ProbeReply::Bytes(bytes)),
            (
                Some(false),
                "clone succeeded but the data read back differs -- do not trust it".to_string()
            )
        );
    }
    assert_eq!(
        with(ProbeReply::Failed(other_failure())),
        (Some(false), "clone succeeded but could not be read back".to_string())
    );
}

#[test]
fn a_probe_tells_where_it_failed() {
    let e = || ProbeReply::Failed(other_failure());
    assert_eq!(
        probe(vec![e()]),
        (None, "cannot create a temp file in source dir: broken".to_string())
    );
    assert_eq!(
        probe(vec![ProbeReply::Done, e()]),
        (None, "cannot write the probe payload: broken".to_string())
    );
    assert_eq!(
        probe(vec![ProbeReply::Done, ProbeReply::Done, e()]),
        (None, "cannot create a temp file in dest dir: broken".to_string())
    );
    assert_eq!(
        probe(vec![ProbeReply::Done, ProbeReply::Done, ProbeReply::Done, e()]),
        (Some(false), "FICLONE refused: broken".to_string())
    );
}
