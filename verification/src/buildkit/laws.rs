//! What BuildKit is asked for, as it reads it, and what its answers come to.

use super::solve::{self, Export, ExportView, Solve, SolveView};
use super::prepare::{self, Prepare, PreparePhase, PrepareView};
use super::{BuildSpecView, ContextView, DockerfileView, PreparedView};
use crate::buildkit;
use crate::error::{ErrorView, IoKind};
use crate::host::{ReplyView, RequestView, ToolCallView};
use crate::path;
use crate::procedure::{self, happened, Procedure};
use crate::text;
use vstd::prelude::*;
use vstd::utf8::*;

verus! {

// ---------------------------------------------------------------------------
// How a command line is read
// ---------------------------------------------------------------------------
/// What `docker buildx build` is told by its arguments.
#[verifier::ext_equal]
pub struct Told {
    pub dockerfile: Option<Seq<u8>>,
    pub target: Option<Seq<u8>>,
    pub platform: Option<Seq<u8>>,
    pub build_args: Seq<Seq<u8>>,
    pub no_cache: bool,
    pub pull: bool,
    pub load: bool,
    pub tag: Option<Seq<u8>>,
    pub output: Option<Seq<u8>>,
    pub context: Option<Seq<u8>>,
    /// What is none of these.
    pub others: Seq<Seq<u8>>,
}

/// Reads the arguments of `docker buildx build` from left to right: an option
/// with a value takes the argument behind it, and the last argument that is no
/// option is the context. What is read first counts, and what is not known is kept
/// apart.
#[verifier::opaque]
pub open spec fn read(args: Seq<Seq<u8>>) -> Told
    decreases args.len(),
{
    if args.len() == 0 {
        Told {
            dockerfile: None,
            target: None,
            platform: None,
            build_args: seq![],
            no_cache: false,
            pull: false,
            load: false,
            tag: None,
            output: None,
            context: None,
            others: seq![],
        }
    } else if args.len() == 1 {
        Told { context: Some(args[0]), ..read(seq![]) }
    } else if args[0] == encode_utf8("--no-cache"@) {
        Told { no_cache: true, ..read(args.skip(1)) }
    } else if args[0] == encode_utf8("--pull"@) {
        Told { pull: true, ..read(args.skip(1)) }
    } else if args[0] == encode_utf8("--load"@) {
        Told { load: true, ..read(args.skip(1)) }
    } else if args[0] == encode_utf8("-f"@) {
        Told { dockerfile: Some(args[1]), ..read(args.skip(2)) }
    } else if args[0] == encode_utf8("--target"@) {
        Told { target: Some(args[1]), ..read(args.skip(2)) }
    } else if args[0] == encode_utf8("--platform"@) {
        Told { platform: Some(args[1]), ..read(args.skip(2)) }
    } else if args[0] == encode_utf8("--build-arg"@) {
        let rest = read(args.skip(2));
        Told { build_args: seq![args[1]] + rest.build_args, ..rest }
    } else if args[0] == encode_utf8("-t"@) {
        Told { tag: Some(args[1]), ..read(args.skip(2)) }
    } else if args[0] == encode_utf8("-o"@) {
        Told { output: Some(args[1]), ..read(args.skip(2)) }
    } else {
        let rest = read(args.skip(1));
        Told { others: seq![args[0]] + rest.others, ..rest }
    }
}

/// No option is mistaken for another.
proof fn lemma_options_differ()
    ensures
        ({
            let no_cache = encode_utf8("--no-cache"@);
            let pull = encode_utf8("--pull"@);
            let load = encode_utf8("--load"@);
            let f = encode_utf8("-f"@);
            let target = encode_utf8("--target"@);
            let platform = encode_utf8("--platform"@);
            let build_arg = encode_utf8("--build-arg"@);
            let t = encode_utf8("-t"@);
            let o = encode_utf8("-o"@);
            &&& pull != no_cache
            &&& load != no_cache && load != pull
            &&& f != no_cache && f != pull && f != load
            &&& target != no_cache && target != pull && target != load && target != f
            &&& platform != no_cache && platform != pull && platform != load && platform != f
            &&& platform != target
            &&& build_arg != no_cache && build_arg != pull && build_arg != load && build_arg != f
            &&& build_arg != target && build_arg != platform
            &&& t != no_cache && t != pull && t != load && t != f && t != target
            &&& t != platform && t != build_arg
            &&& o != no_cache && o != pull && o != load && o != f && o != target
            &&& o != platform && o != build_arg && o != t
        }),
{
    reveal_strlit("--no-cache");
    reveal_strlit("--pull");
    reveal_strlit("--load");
    reveal_strlit("-f");
    reveal_strlit("--target");
    reveal_strlit("--platform");
    reveal_strlit("--build-arg");
    reveal_strlit("-t");
    reveal_strlit("-o");
    is_ascii_chars_encode_utf8("--no-cache"@);
    is_ascii_chars_encode_utf8("--pull"@);
    is_ascii_chars_encode_utf8("--load"@);
    is_ascii_chars_encode_utf8("-f"@);
    is_ascii_chars_encode_utf8("--target"@);
    is_ascii_chars_encode_utf8("--platform"@);
    is_ascii_chars_encode_utf8("--build-arg"@);
    is_ascii_chars_encode_utf8("-t"@);
    is_ascii_chars_encode_utf8("-o"@);
    assert(encode_utf8("--no-cache"@)[2] == 110);
    assert(encode_utf8("--platform"@)[2] == 112);
    assert(encode_utf8("--pull"@)[2] == 112);
    assert(encode_utf8("--load"@)[2] == 108);
    assert(encode_utf8("-f"@)[1] == 102);
    assert(encode_utf8("-t"@)[1] == 116);
    assert(encode_utf8("-o"@)[1] == 111);
}

proof fn lemma_behind(a: Seq<Seq<u8>>, rest: Seq<Seq<u8>>)
    ensures
        (a + rest).skip(a.len() as int) == rest,
{
    assert((a + rest).skip(a.len() as int) =~= rest);
}

proof fn lemma_read_last(context: Seq<u8>)
    ensures
        read(seq![context]) == (Told {
            dockerfile: None,
            target: None,
            platform: None,
            build_args: seq![],
            no_cache: false,
            pull: false,
            load: false,
            tag: None,
            output: None,
            context: Some(context),
            others: seq![],
        }),
{
    reveal(read);
    let nothing = read(seq![]);
    assert(nothing.build_args =~= seq![]);
    assert(nothing.others =~= seq![]);
}

proof fn lemma_read_pull(set: bool, rest: Seq<Seq<u8>>)
    requires
        rest.len() > 0,
        !read(rest).pull,
    ensures
        read(buildkit::flag_args("--pull"@, set) + rest) == (Told { pull: set, ..read(rest) }),
{
    lemma_options_differ();
    reveal(read);
    let args = buildkit::flag_args("--pull"@, set) + rest;
    if set {
        lemma_behind(seq![encode_utf8("--pull"@)], rest);
        assert(args[0] == encode_utf8("--pull"@));
    } else {
        assert(args =~= rest);
    }
}

proof fn lemma_read_no_cache(set: bool, rest: Seq<Seq<u8>>)
    requires
        rest.len() > 0,
        !read(rest).no_cache,
    ensures
        read(buildkit::flag_args("--no-cache"@, set) + rest) == (Told {
            no_cache: set,
            ..read(rest)
        }),
{
    lemma_options_differ();
    reveal(read);
    let args = buildkit::flag_args("--no-cache"@, set) + rest;
    if set {
        lemma_behind(seq![encode_utf8("--no-cache"@)], rest);
        assert(args[0] == encode_utf8("--no-cache"@));
    } else {
        assert(args =~= rest);
    }
}

proof fn lemma_read_load(set: bool, rest: Seq<Seq<u8>>)
    requires
        rest.len() > 0,
        !read(rest).load,
    ensures
        read(buildkit::flag_args("--load"@, set) + rest) == (Told { load: set, ..read(rest) }),
{
    lemma_options_differ();
    reveal(read);
    let args = buildkit::flag_args("--load"@, set) + rest;
    if set {
        lemma_behind(seq![encode_utf8("--load"@)], rest);
        assert(args[0] == encode_utf8("--load"@));
    } else {
        assert(args =~= rest);
    }
}

proof fn lemma_read_target(value: Option<Seq<char>>, rest: Seq<Seq<u8>>)
    requires
        rest.len() > 0,
        read(rest).target is None,
    ensures
        read(buildkit::option_args("--target"@, value) + rest) == (Told {
            target: encoded(value),
            ..read(rest)
        }),
{
    lemma_options_differ();
    reveal(read);
    let args = buildkit::option_args("--target"@, value) + rest;
    if let Some(v) = value {
        lemma_behind(seq![encode_utf8("--target"@), encode_utf8(v)], rest);
        assert(args[0] == encode_utf8("--target"@));
        assert(args[1] == encode_utf8(v));
    } else {
        assert(args =~= rest);
    }
}

proof fn lemma_read_platform(value: Option<Seq<char>>, rest: Seq<Seq<u8>>)
    requires
        rest.len() > 0,
        read(rest).platform is None,
    ensures
        read(buildkit::option_args("--platform"@, value) + rest) == (Told {
            platform: encoded(value),
            ..read(rest)
        }),
{
    lemma_options_differ();
    reveal(read);
    let args = buildkit::option_args("--platform"@, value) + rest;
    if let Some(v) = value {
        lemma_behind(seq![encode_utf8("--platform"@), encode_utf8(v)], rest);
        assert(args[0] == encode_utf8("--platform"@));
        assert(args[1] == encode_utf8(v));
    } else {
        assert(args =~= rest);
    }
}

proof fn lemma_read_dockerfile(value: Seq<u8>, rest: Seq<Seq<u8>>)
    ensures
        read(seq![encode_utf8("-f"@), value] + rest) == (Told {
            dockerfile: Some(value),
            ..read(rest)
        }),
{
    lemma_options_differ();
    reveal(read);
    let args = seq![encode_utf8("-f"@), value] + rest;
    lemma_behind(seq![encode_utf8("-f"@), value], rest);
    assert(args[0] == encode_utf8("-f"@));
    assert(args[1] == value);
}

proof fn lemma_read_tag(value: Seq<u8>, rest: Seq<Seq<u8>>)
    ensures
        read(seq![encode_utf8("-t"@), value] + rest) == (Told {
            tag: Some(value),
            ..read(rest)
        }),
{
    lemma_options_differ();
    reveal(read);
    let args = seq![encode_utf8("-t"@), value] + rest;
    lemma_behind(seq![encode_utf8("-t"@), value], rest);
    assert(args[0] == encode_utf8("-t"@));
    assert(args[1] == value);
}

proof fn lemma_read_output(value: Seq<u8>, rest: Seq<Seq<u8>>)
    ensures
        read(seq![encode_utf8("-o"@), value] + rest) == (Told {
            output: Some(value),
            ..read(rest)
        }),
{
    lemma_options_differ();
    reveal(read);
    let args = seq![encode_utf8("-o"@), value] + rest;
    lemma_behind(seq![encode_utf8("-o"@), value], rest);
    assert(args[0] == encode_utf8("-o"@));
    assert(args[1] == value);
}

proof fn lemma_read_build_arg(value: Seq<u8>, rest: Seq<Seq<u8>>)
    ensures
        read(seq![encode_utf8("--build-arg"@), value] + rest) == (Told {
            build_args: seq![value] + read(rest).build_args,
            ..read(rest)
        }),
{
    lemma_options_differ();
    reveal(read);
    let args = seq![encode_utf8("--build-arg"@), value] + rest;
    lemma_behind(seq![encode_utf8("--build-arg"@), value], rest);
    assert(args[0] == encode_utf8("--build-arg"@));
    assert(args[1] == value);
}

/// The values of build arguments, each with its name in front.
pub open spec fn named_values(pairs: Seq<(Seq<char>, Seq<char>)>) -> Seq<Seq<u8>> {
    Seq::new(
        pairs.len(),
        |i: int| encode_utf8(pairs[i].0) + seq![61u8] + encode_utf8(pairs[i].1),
    )
}

proof fn lemma_read_build_args(pairs: Seq<(Seq<char>, Seq<char>)>, rest: Seq<Seq<u8>>)
    ensures
        read(buildkit::build_arg_args(pairs) + rest) == (Told {
            build_args: named_values(pairs) + read(rest).build_args,
            ..read(rest)
        }),
    decreases pairs.len(),
{
    let all = buildkit::build_arg_args(pairs);
    if pairs.len() == 0 {
        assert(all + rest =~= rest);
        assert(named_values(pairs) + read(rest).build_args =~= read(rest).build_args);
    } else {
        let p = pairs.last();
        let front = pairs.drop_last();
        let value = encode_utf8(p.0 + "="@ + p.1);
        let more = seq![encode_utf8("--build-arg"@), value] + rest;
        lemma_read_build_args(front, more);
        assert(all + rest =~= buildkit::build_arg_args(front) + more);
        lemma_read_build_arg(value, rest);
        reveal_strlit("=");
        is_ascii_chars_encode_utf8("="@);
        assert(encode_utf8("="@) =~= seq![61u8]);
        path::lemma_encode_concat(p.0 + "="@, p.1);
        path::lemma_encode_concat(p.0, "="@);
        assert(value == encode_utf8(p.0) + seq![61u8] + encode_utf8(p.1));
        let end = read(rest).build_args;
        assert(named_values(front) + (seq![value] + end) =~= named_values(pairs) + end);
    }
}

/// An optional text in UTF-8.
pub open spec fn encoded(s: Option<Seq<char>>) -> Option<Seq<u8>> {
    match s {
        Some(s) => Some(encode_utf8(s)),
        None => None,
    }
}

proof fn lemma_assoc(a: Seq<Seq<u8>>, b: Seq<Seq<u8>>, c: Seq<Seq<u8>>)
    ensures
        (a + b) + c == a + (b + c),
{
    assert((a + b) + c =~= a + (b + c));
}

/// What the arguments of every build consist of, one behind the other.
proof fn lemma_common_parts(p: PreparedView, spec: BuildSpecView, rest: Seq<Seq<u8>>)
    ensures
        buildkit::common_args(p, spec) + rest == seq![
            encode_utf8("buildx"@),
            encode_utf8("build"@),
        ] + (seq![encode_utf8("-f"@), p.dockerfile] + (buildkit::option_args(
            "--target"@,
            spec.target,
        ) + (buildkit::option_args("--platform"@, spec.platform) + (buildkit::build_arg_args(
            spec.build_args,
        ) + (buildkit::flag_args("--no-cache"@, spec.no_cache) + (buildkit::flag_args(
            "--pull"@,
            spec.pull,
        ) + rest)))))),
{
    let h = seq![encode_utf8("buildx"@), encode_utf8("build"@)];
    let f = seq![encode_utf8("-f"@), p.dockerfile];
    let head = seq![
        encode_utf8("buildx"@),
        encode_utf8("build"@),
        encode_utf8("-f"@),
        p.dockerfile,
    ];
    assert(head =~= h + f);
    let t = buildkit::option_args("--target"@, spec.target);
    let l = buildkit::option_args("--platform"@, spec.platform);
    let b = buildkit::build_arg_args(spec.build_args);
    let n = buildkit::flag_args("--no-cache"@, spec.no_cache);
    let u = buildkit::flag_args("--pull"@, spec.pull);
    lemma_assoc(head + t + l + b + n, u, rest);
    lemma_assoc(head + t + l + b, n, u + rest);
    lemma_assoc(head + t + l, b, n + (u + rest));
    lemma_assoc(head + t, l, b + (n + (u + rest)));
    lemma_assoc(head, t, l + (b + (n + (u + rest))));
    lemma_assoc(h, f, t + (l + (b + (n + (u + rest)))));
}

proof fn lemma_read_common(p: PreparedView, spec: BuildSpecView, rest: Seq<Seq<u8>>)
    requires
        rest.len() > 0,
        read(rest).target is None,
        read(rest).platform is None,
        read(rest).build_args == Seq::<Seq<u8>>::empty(),
        !read(rest).no_cache,
        !read(rest).pull,
    ensures
        ({
            let args = buildkit::common_args(p, spec) + rest;
            &&& args.len() > 2
            &&& args[0] == encode_utf8("buildx"@)
            &&& args[1] == encode_utf8("build"@)
            &&& read(args.skip(2)) == (Told {
                dockerfile: Some(p.dockerfile),
                target: encoded(spec.target),
                platform: encoded(spec.platform),
                build_args: named_values(spec.build_args),
                no_cache: spec.no_cache,
                pull: spec.pull,
                ..read(rest)
            })
        }),
{
    let r4 = buildkit::flag_args("--pull"@, spec.pull) + rest;
    lemma_read_pull(spec.pull, rest);
    let r3 = buildkit::flag_args("--no-cache"@, spec.no_cache) + r4;
    lemma_read_no_cache(spec.no_cache, r4);
    let r2 = buildkit::build_arg_args(spec.build_args) + r3;
    lemma_read_build_args(spec.build_args, r3);
    let values = named_values(spec.build_args);
    assert(values + Seq::<Seq<u8>>::empty() =~= values);
    let r1 = buildkit::option_args("--platform"@, spec.platform) + r2;
    lemma_read_platform(spec.platform, r2);
    let r0 = buildkit::option_args("--target"@, spec.target) + r1;
    lemma_read_target(spec.target, r1);
    lemma_read_dockerfile(p.dockerfile, r0);
    let args = buildkit::common_args(p, spec) + rest;
    let body = seq![encode_utf8("-f"@), p.dockerfile] + r0;
    lemma_common_parts(p, spec, rest);
    lemma_behind(seq![encode_utf8("buildx"@), encode_utf8("build"@)], body);
}

/// A build that is loaded under a tag is, as BuildKit reads it, of the Dockerfile
/// and the context that were prepared, with just the target, the platform, the
/// build arguments and the flags that were asked for, each of them whatever the
/// others are, goes nowhere but under this tag, and is told nothing else.
pub proof fn lemma_a_load_says_what_was_asked_for(
    p: PreparedView,
    spec: BuildSpecView,
    tag: Seq<char>,
)
    ensures
        ({
            let args = solve::load_args(p, spec, tag);
            &&& args.len() > 2
            &&& args[0] == encode_utf8("buildx"@)
            &&& args[1] == encode_utf8("build"@)
            &&& read(args.skip(2)) == (Told {
                dockerfile: Some(p.dockerfile),
                target: encoded(spec.target),
                platform: encoded(spec.platform),
                build_args: named_values(spec.build_args),
                no_cache: spec.no_cache,
                pull: spec.pull,
                load: true,
                tag: Some(encode_utf8(tag)),
                output: None,
                context: Some(p.context),
                others: seq![],
            })
        }),
{
    let last = seq![p.context];
    let named = seq![encode_utf8("-t"@), encode_utf8(tag)] + last;
    let rest = buildkit::flag_args("--load"@, true) + named;
    lemma_read_last(p.context);
    lemma_read_tag(encode_utf8(tag), last);
    lemma_read_load(true, named);
    lemma_read_common(p, spec, rest);
    assert(solve::load_args(p, spec, tag) =~= buildkit::common_args(p, spec) + rest);
}

/// An export is of the same build, as BuildKit reads it, goes into an archive at
/// the place that was asked for, and is told nothing else.
pub proof fn lemma_an_export_says_what_was_asked_for(
    p: PreparedView,
    spec: BuildSpecView,
    dest: Seq<u8>,
)
    ensures
        ({
            let args = solve::export_args(p, spec, dest);
            &&& args.len() > 2
            &&& args[0] == encode_utf8("buildx"@)
            &&& args[1] == encode_utf8("build"@)
            &&& read(args.skip(2)) == (Told {
                dockerfile: Some(p.dockerfile),
                target: encoded(spec.target),
                platform: encoded(spec.platform),
                build_args: named_values(spec.build_args),
                no_cache: spec.no_cache,
                pull: spec.pull,
                load: false,
                tag: None,
                output: Some(
                    encode_utf8("type=tar,dest="@) + encode_utf8(path::utf8_lossy(dest)),
                ),
                context: Some(p.context),
                others: seq![],
            })
        }),
{
    let last = seq![p.context];
    let output = encode_utf8("type=tar,dest="@ + path::utf8_lossy(dest));
    path::lemma_encode_concat("type=tar,dest="@, path::utf8_lossy(dest));
    let rest = seq![encode_utf8("-o"@), output] + last;
    lemma_read_last(p.context);
    lemma_read_output(output, last);
    lemma_read_common(p, spec, rest);
    assert(solve::export_args(p, spec, dest) =~= buildkit::common_args(p, spec) + rest);
}

// ---------------------------------------------------------------------------
// What the answers come to
// ---------------------------------------------------------------------------
/// What a run of `docker` that was answered like this failed with, if it did:
/// that the program is missing, that it could not be run, or what it said.
pub open spec fn complaint(what: Seq<char>, reply: ReplyView) -> Option<ErrorView> {
    match reply {
        ReplyView::Output(o) if o.success => None,
        ReplyView::Output(o) => Some(
            ErrorView::ToolFailed {
                tool: what,
                status: o.status,
                stderr: text::trim(path::utf8_lossy(o.stderr)),
            },
        ),
        ReplyView::Failed(e) if e.kind == IoKind::NotFound => Some(
            ErrorView::ToolMissing { tool: "docker"@ },
        ),
        ReplyView::Failed(e) => Some(ErrorView::Io(e)),
        _ => None,
    }
}

/// Solving is three runs of `docker`: the build under the tag, the question for
/// its layers, and the removal of the tag, however the question went. The result
/// is what the question was answered with, all of it, if that is a chain of at
/// least one layer; a failure is that of the build, or of the question, or of
/// reading the answer. How the removal went does not matter.
pub proof fn lemma_solving_reads_the_layers(
    p: PreparedView,
    spec: BuildSpecView,
    tag: Seq<char>,
    built: ReplyView,
    answer: ReplyView,
    removed: ReplyView,
)
    requires
        built is Output || built is Failed,
        answer is Output || answer is Failed,
        removed is Output || removed is Failed,
    ensures
        ({
            let s0 = SolveView::start(p, spec, tag);
            let s1 = Solve::after(s0, built);
            let s2 = Solve::after(s1, answer);
            let s3 = Solve::after(s2, removed);
            let docker = |args: Seq<Seq<u8>>|
                Some(RequestView::Tool(ToolCallView { program: "docker"@, args, input: None }));
            &&& Solve::wants(s0) == docker(solve::load_args(p, spec, tag))
            &&& match complaint("docker buildx build --load"@, built) {
                Some(e) => s1.outcome() == Some(Err::<Seq<Seq<char>>, ErrorView>(e))
                    && Solve::wants(s1) is None,
                None => {
                    &&& s1.outcome() is None
                    &&& Solve::wants(s1) == docker(
                        seq![
                            encode_utf8("image"@),
                            encode_utf8("inspect"@),
                            encode_utf8(tag),
                            encode_utf8("--format"@),
                            encode_utf8("{{json .RootFS.Layers}}"@),
                        ],
                    )
                    &&& s2.outcome() is None
                    &&& Solve::wants(s2) == docker(
                        seq![
                            encode_utf8("image"@),
                            encode_utf8("rm"@),
                            encode_utf8("-f"@),
                            encode_utf8(tag),
                        ],
                    )
                    &&& Solve::wants(s3) is None
                    &&& match complaint("docker image inspect"@, answer) {
                        Some(e) => s3.outcome() == Some(Err::<Seq<Seq<char>>, ErrorView>(e)),
                        None => match solve::json_strings(
                            text::trim(path::utf8_lossy(answer->Output_0.stdout)),
                        ) {
                            Ok(ids) if ids.len() > 0 => s3.outcome() == Some(
                                Ok::<Seq<Seq<char>>, ErrorView>(ids),
                            ),
                            Ok(_) => s3.outcome() matches Some(Err(ErrorView::Io(e))) && e.kind
                                == IoKind::InvalidData && e.message
                                == "image reported an empty layer chain"@,
                            Err(m) => s3.outcome() matches Some(Err(ErrorView::Io(e))) && e.kind
                                == IoKind::InvalidData && e.message == m,
                        },
                    }
                },
            }
        }),
{
}

/// An export is one run of `docker`, and a look at the archive that it was to
/// write; the result is the size of that archive.
pub proof fn lemma_an_export_is_measured(
    p: PreparedView,
    spec: BuildSpecView,
    dest: Seq<u8>,
    run: ReplyView,
    look: ReplyView,
)
    requires
        run is Output || run is Failed,
        look is Stat || look is Failed,
    ensures
        ({
            let s0 = ExportView::start(p, spec, dest);
            let s1 = Export::after(s0, run);
            let s2 = Export::after(s1, look);
            &&& Export::wants(s0) == Some(
                RequestView::Tool(
                    ToolCallView {
                        program: "docker"@,
                        args: solve::export_args(p, spec, dest),
                        input: None,
                    },
                ),
            )
            &&& match complaint("docker buildx build -o type=tar"@, run) {
                Some(e) => s1.outcome() == Some(Err::<u64, ErrorView>(e)) && Export::wants(
                    s1,
                ) is None,
                None => {
                    &&& s1.outcome() is None
                    &&& Export::wants(s1) == Some(RequestView::Stat(dest))
                    &&& Export::wants(s2) is None
                    &&& look matches ReplyView::Stat(stat) ==> s2.outcome() == Some(
                        Ok::<u64, ErrorView>(stat.len),
                    )
                    &&& look matches ReplyView::Failed(e) ==> s2.outcome() == Some(
                        Err::<u64, ErrorView>(ErrorView::Io(e)),
                    )
                },
            }
        }),
{
}

// ---------------------------------------------------------------------------
// Preparing
// ---------------------------------------------------------------------------
spec fn prepare_keeps(
    df: DockerfileView,
    dir: Option<Seq<u8>>,
    done: spec_fn(RequestView, ReplyView) -> bool,
    s: PrepareView,
) -> bool {
    let has_tmp = df is Text || dir is None;
    let made = has_tmp ==> s.tmp is Some && done(
        RequestView::MakeTempDir,
        ReplyView::Place(s.tmp->0),
    );
    let there = made && (dir is None ==> done(
        RequestView::MakeDir(path::joined(s.tmp->0, encode_utf8("context"@))),
        ReplyView::Done,
    ));
    &&& s.dockerfile == df
    &&& s.dir == dir
    &&& !has_tmp ==> s.tmp is None
    &&& match s.phase {
        PreparePhase::MakingTemp => has_tmp && s.tmp is None,
        PreparePhase::MakingContext => made && dir is None,
        PreparePhase::Looking => there && df is Path,
        PreparePhase::Writing => there && df is Text && !prepare::is_blank(df->Text_0),
        PreparePhase::Finished => there && (match df {
            DockerfileView::Path(p) => done(RequestView::IsFile(p), ReplyView::Flag(true)),
            DockerfileView::Text(t) => !prepare::is_blank(t) && done(
                RequestView::WriteFile {
                    path: path::joined(s.tmp->0, encode_utf8("Dockerfile"@)),
                    bytes: encode_utf8(t),
                },
                ReplyView::Done,
            ),
        }),
        PreparePhase::Missing => df matches DockerfileView::Path(p) && done(
            RequestView::IsFile(p),
            ReplyView::Flag(false),
        ),
        PreparePhase::Empty => df matches DockerfileView::Text(t) && prepare::is_blank(t),
        PreparePhase::Failed => s.failure is Some && exists|r: RequestView| #[trigger]
            done(r, ReplyView::Failed(s.failure->0)),
    }
}

proof fn lemma_prepare_step(
    df: DockerfileView,
    dir: Option<Seq<u8>>,
    done: spec_fn(RequestView, ReplyView) -> bool,
    more: spec_fn(RequestView, ReplyView) -> bool,
    s: PrepareView,
    reply: ReplyView,
)
    requires
        prepare_keeps(df, dir, done, s),
        forall|r: RequestView, a: ReplyView| done(r, a) ==> #[trigger] more(r, a),
        Prepare::wants(s) matches Some(r) ==> more(r, reply),
    ensures
        prepare_keeps(df, dir, more, Prepare::after(s, reply)),
{
    if s.phase == PreparePhase::Failed {
        let r = choose|r: RequestView| #[trigger] done(r, ReplyView::Failed(s.failure->0));
        assert(more(r, ReplyView::Failed(s.failure->0)));
    } else if let ReplyView::Failed(e) = reply {
        if let Some(r) = Prepare::wants(s) {
            assert(more(r, ReplyView::Failed(e)));
        }
    }
}

proof fn lemma_prepare_run(df: DockerfileView, dir: Option<Seq<u8>>, replies: Seq<ReplyView>)
    ensures
        ({
            let start = PrepareView::start(df, dir);
            prepare_keeps(
                df,
                dir,
                |r: RequestView, a: ReplyView| happened::<Prepare>(start, replies, r, a),
                procedure::state_given::<Prepare>(start, replies),
            )
        }),
    decreases replies.len(),
{
    let start = PrepareView::start(df, dir);
    if replies.len() > 0 {
        let before = replies.drop_last();
        lemma_prepare_run(df, dir, before);
        procedure::lemma_happened::<Prepare>(start, replies);
        lemma_prepare_step(
            df,
            dir,
            |r: RequestView, a: ReplyView| happened::<Prepare>(start, before, r, a),
            |r: RequestView, a: ReplyView| happened::<Prepare>(start, replies, r, a),
            procedure::state_given::<Prepare>(start, before),
            replies.last(),
        );
    }
}

/// What is prepared is what was given. A Dockerfile that is a file is taken where
/// it is, once it was seen to be one; one that is a text is written, just this
/// text, to a file in a fresh directory, unless it is blank. A context that is a
/// directory is taken as it is; otherwise one is made in the fresh directory.
/// There is a fresh directory only where one is needed. A failure is that the
/// file is not there, that the text is blank, or the one that was met with.
pub proof fn lemma_what_is_prepared_is_what_was_given(
    df: DockerfileView,
    ctx: ContextView,
    replies: Seq<ReplyView>,
)
    ensures
        ({
            let dir = match ctx {
                ContextView::Dir(d) => Some(d),
                _ => None,
            };
            let start = PrepareView::start(df, ctx.dir());
            let s = procedure::state_given::<Prepare>(start, replies);
            let done = |r: RequestView, a: ReplyView| happened::<Prepare>(start, replies, r, a);
            &&& s.outcome() matches Some(Ok(p)) ==> {
                &&& p.tmp is Some <==> df is Text || dir is None
                &&& p.tmp matches Some(tmp) ==> done(
                    RequestView::MakeTempDir,
                    ReplyView::Place(tmp),
                )
                &&& match df {
                    DockerfileView::Path(f) => p.dockerfile == f && done(
                        RequestView::IsFile(f),
                        ReplyView::Flag(true),
                    ),
                    DockerfileView::Text(t) => {
                        &&& p.dockerfile == path::joined(p.tmp->0, encode_utf8("Dockerfile"@))
                        &&& done(
                            RequestView::WriteFile { path: p.dockerfile, bytes: encode_utf8(t) },
                            ReplyView::Done,
                        )
                        &&& exists|i: int| 0 <= i < t.len() && !text::is_white(#[trigger] t[i])
                    },
                }
                &&& match dir {
                    Some(d) => p.context == d,
                    None => {
                        &&& p.context == path::joined(p.tmp->0, encode_utf8("context"@))
                        &&& done(RequestView::MakeDir(p.context), ReplyView::Done)
                    },
                }
            }
            &&& s.outcome() matches Some(Err(e)) ==> {
                ||| df matches DockerfileView::Path(f) && {
                    &&& done(RequestView::IsFile(f), ReplyView::Flag(false))
                    &&& e matches ErrorView::Io(io) && io.kind == IoKind::NotFound && io.message
                        == "Dockerfile not found at "@ + path::utf8_lossy(f)
                }
                ||| df matches DockerfileView::Text(t) && {
                    &&& forall|i: int| 0 <= i < t.len() ==> text::is_white(#[trigger] t[i])
                    &&& e matches ErrorView::Io(io) && io.kind == IoKind::InvalidInput && io.message
                        == "dockerfile is empty"@
                }
                ||| e matches ErrorView::Io(io) && exists|r: RequestView| #[trigger]
                    done(r, ReplyView::Failed(io))
            }
            &&& Prepare::wants(s) is None <==> s.outcome() is Some
        }),
{
    let dir = ctx.dir();
    lemma_prepare_run(df, dir, replies);
    if let DockerfileView::Text(t) = df {
        text::lemma_trim(t);
    }
}

/// A build is loaded under a tag that holds all of its identifier, so that builds
/// with different ones do not get into each other's way.
pub proof fn lemma_tags_hold_their_identifiers(a: Seq<char>, b: Seq<char>)
    ensures
        solve::stage_tag(a) == "vmbuild-stage:"@ + a,
        solve::stage_tag(a) == solve::stage_tag(b) ==> a == b,
{
    let n = "vmbuild-stage:"@.len() as int;
    assert(solve::stage_tag(a).skip(n) =~= a);
    assert(solve::stage_tag(b).skip(n) =~= b);
}

/// Preparing goes on with every answer: from the fresh directory to the context
/// that is to be made in it, and from the context to the Dockerfile, which is
/// looked at or written; with that it is over.
pub proof fn lemma_preparing_goes_on(s: PrepareView, reply: ReplyView)
    requires
        Prepare::wants(s) is Some,
        s.failure is None,
    ensures
        ({
            let next = Prepare::after(s, reply);
            let asked = Prepare::wants(next);
            let over = next.outcome() is Some && asked is None;
            let dockerfile = match s.dockerfile {
                DockerfileView::Path(p) => asked == Some(RequestView::IsFile(p)),
                DockerfileView::Text(t) => over || asked is Some && asked->0 is WriteFile,
            };
            match (Prepare::wants(s)->0, reply) {
                (RequestView::MakeTempDir, ReplyView::Place(p)) => if s.dir is None {
                    asked == Some(RequestView::MakeDir(path::joined(p, encode_utf8("context"@))))
                } else {
                    dockerfile
                },
                (RequestView::MakeDir(_), ReplyView::Done) => dockerfile,
                (RequestView::IsFile(_), ReplyView::Flag(there)) => over && (there
                    <==> next.outcome()->0 is Ok),
                (RequestView::WriteFile { .. }, ReplyView::Done) => over && next.outcome()->0 is Ok,
                (RequestView::IsFile(_), _) => next == s,
                (_, ReplyView::Failed(e)) => next.outcome() == Some(
                    Err::<PreparedView, ErrorView>(ErrorView::Io(e)),
                ),
                _ => next == s,
            }
        }),
{
}

} // verus!
