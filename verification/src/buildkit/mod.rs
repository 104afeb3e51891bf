//! Driving BuildKit through `docker buildx`.
//!
//! No Dockerfile is parsed here: BuildKit's own frontend is the only
//! interpreter. A build is loaded under a throwaway tag, the chain of its
//! layers is read back, and the tag is removed. Only where the image is not
//! stored yet, its root filesystem is exported as one archive.

pub mod args;
pub mod laws;
pub mod prepare;
pub mod solve;

pub use prepare::prepare;
pub use solve::{export_rootfs_tar, solve};

use crate::path;
use crate::text;
use args::BuildArgs;
use vstd::prelude::*;
use vstd::string::*;
use vstd::utf8::*;

verus! {

/// Where the Dockerfile comes from.
#[derive(Debug)]
pub enum DockerfileSource {
    Path(Vec<u8>),
    Text(String),
}

/// A [`DockerfileSource`] as a mathematical value.
pub enum DockerfileView {
    Path(Seq<u8>),
    Text(Seq<char>),
}

impl View for DockerfileSource {
    type V = DockerfileView;

    open spec fn view(&self) -> DockerfileView {
        match self {
            DockerfileSource::Path(p) => DockerfileView::Path(p@),
            DockerfileSource::Text(t) => DockerfileView::Text(t@),
        }
    }
}

impl DockerfileSource {
    /// The same source again.
    pub fn duplicate(&self) -> (d: DockerfileSource)
        ensures
            d@ == self@,
    {
        match self {
            DockerfileSource::Path(p) => DockerfileSource::Path(path::copy_of(p)),
            DockerfileSource::Text(t) => DockerfileSource::Text(t.clone()),
        }
    }
}

/// Where the context of a build comes from.
#[derive(Debug)]
pub enum ContextSource {
    Dir(Vec<u8>),
    /// An archive of the context, compressed or not.
    TarGz(Vec<u8>),
    Empty,
}

/// A [`ContextSource`] as a mathematical value.
pub enum ContextView {
    Dir(Seq<u8>),
    TarGz(Seq<u8>),
    Empty,
}

impl View for ContextSource {
    type V = ContextView;

    open spec fn view(&self) -> ContextView {
        match self {
            ContextSource::Dir(d) => ContextView::Dir(d@),
            ContextSource::TarGz(b) => ContextView::TarGz(b@),
            ContextSource::Empty => ContextView::Empty,
        }
    }
}

impl ContextView {
    /// The directory that is the context as it stands.
    pub open spec fn dir(self) -> Option<Seq<u8>> {
        match self {
            ContextView::Dir(d) => Some(d),
            _ => None,
        }
    }
}

impl ContextSource {
    /// The same source again.
    pub fn duplicate(&self) -> (c: ContextSource)
        ensures
            c@ == self@,
    {
        match self {
            ContextSource::Dir(d) => ContextSource::Dir(path::copy_of(d)),
            ContextSource::TarGz(b) => ContextSource::TarGz(path::copy_of(b)),
            ContextSource::Empty => ContextSource::Empty,
        }
    }
}

/// What is to be built.
#[derive(Debug)]
pub struct BuildSpec {
    pub target: Option<String>,
    pub build_args: BuildArgs,
    pub platform: Option<String>,
    pub no_cache: bool,
    pub pull: bool,
}

/// A [`BuildSpec`] as a mathematical value.
#[verifier::ext_equal]
pub struct BuildSpecView {
    pub target: Option<Seq<char>>,
    pub build_args: Seq<(Seq<char>, Seq<char>)>,
    pub platform: Option<Seq<char>>,
    pub no_cache: bool,
    pub pull: bool,
}

impl View for BuildSpec {
    type V = BuildSpecView;

    open spec fn view(&self) -> BuildSpecView {
        BuildSpecView {
            target: match self.target {
                Some(t) => Some(t@),
                None => None,
            },
            build_args: self.build_args@,
            platform: match self.platform {
                Some(p) => Some(p@),
                None => None,
            },
            no_cache: self.no_cache,
            pull: self.pull,
        }
    }
}

impl Default for BuildSpec {
    /// Nothing asked for.
    fn default() -> (s: BuildSpec)
        ensures
            s@ == (BuildSpecView {
                target: None,
                build_args: Seq::empty(),
                platform: None,
                no_cache: false,
                pull: false,
            }),
    {
        BuildSpec {
            target: None,
            build_args: BuildArgs::new(),
            platform: None,
            no_cache: false,
            pull: false,
        }
    }
}

impl BuildSpec {
    /// The same again.
    pub fn duplicate(&self) -> (s: BuildSpec)
        ensures
            s@ == self@,
    {
        BuildSpec {
            target: match &self.target {
                Some(t) => Some(t.clone()),
                None => None,
            },
            build_args: self.build_args.duplicate(),
            platform: match &self.platform {
                Some(p) => Some(p.clone()),
                None => None,
            },
            no_cache: self.no_cache,
            pull: self.pull,
        }
    }
}

/// A Dockerfile and a context on disk.
#[derive(Debug)]
pub struct Prepared {
    pub dockerfile: Vec<u8>,
    pub context: Vec<u8>,
    /// The directory that was made for them, which goes when they are not
    /// needed any more.
    pub tmp: Option<Vec<u8>>,
}

/// A [`Prepared`] as a mathematical value.
#[verifier::ext_equal]
pub struct PreparedView {
    pub dockerfile: Seq<u8>,
    pub context: Seq<u8>,
    pub tmp: Option<Seq<u8>>,
}

impl View for Prepared {
    type V = PreparedView;

    open spec fn view(&self) -> PreparedView {
        PreparedView {
            dockerfile: self.dockerfile@,
            context: self.context@,
            tmp: match self.tmp {
                Some(t) => Some(t@),
                None => None,
            },
        }
    }
}

impl Prepared {
    /// The same again.
    pub fn duplicate(&self) -> (p: Prepared)
        ensures
            p@ == self@,
    {
        Prepared {
            dockerfile: path::copy_of(&self.dockerfile),
            context: path::copy_of(&self.context),
            tmp: match &self.tmp {
                Some(t) => Some(path::copy_of(t)),
                None => None,
            },
        }
    }
}

// ---------------------------------------------------------------------------
// Arguments
// ---------------------------------------------------------------------------
/// An option with a value, if there is one.
pub open spec fn option_args(name: Seq<char>, value: Option<Seq<char>>) -> Seq<Seq<u8>> {
    match value {
        Some(v) => seq![encode_utf8(name), encode_utf8(v)],
        None => seq![],
    }
}

/// An option without a value, if it is set.
pub open spec fn flag_args(name: Seq<char>, set: bool) -> Seq<Seq<u8>> {
    if set {
        seq![encode_utf8(name)]
    } else {
        seq![]
    }
}

/// The arguments of the build itself, in order of their names.
pub open spec fn build_arg_args(pairs: Seq<(Seq<char>, Seq<char>)>) -> Seq<Seq<u8>>
    decreases pairs.len(),
{
    if pairs.len() == 0 {
        seq![]
    } else {
        let p = pairs.last();
        build_arg_args(pairs.drop_last()) + seq![
            encode_utf8("--build-arg"@),
            encode_utf8(p.0 + "="@ + p.1),
        ]
    }
}

/// What every invocation of a build has.
pub open spec fn common_args(p: PreparedView, spec: BuildSpecView) -> Seq<Seq<u8>> {
    seq![encode_utf8("buildx"@), encode_utf8("build"@), encode_utf8("-f"@), p.dockerfile]
        + option_args("--target"@, spec.target) + option_args("--platform"@, spec.platform)
        + build_arg_args(spec.build_args) + flag_args("--no-cache"@, spec.no_cache) + flag_args(
        "--pull"@,
        spec.pull,
    )
}

/// Appends one argument.
pub(crate) fn push_text(v: &mut Vec<Vec<u8>>, s: &str)
    ensures
        path::views(final(v)@) == path::views(old(v)@).push(encode_utf8(s@)),
{
    let ghost before = path::views(v@);
    v.push(path::bytes_of(s));
    assert(path::views(v@) =~= before.push(encode_utf8(s@)));
}

/// Appends one argument.
pub(crate) fn push_path(v: &mut Vec<Vec<u8>>, p: &[u8])
    ensures
        path::views(final(v)@) == path::views(old(v)@).push(p@),
{
    let ghost before = path::views(v@);
    v.push(path::copy_of(p));
    assert(path::views(v@) =~= before.push(p@));
}

fn push_option(v: &mut Vec<Vec<u8>>, name: &str, value: &Option<String>)
    ensures
        path::views(final(v)@) == path::views(old(v)@) + option_args(
            name@,
            match *value {
                Some(s) => Some(s@),
                None => None,
            },
        ),
{
    let ghost before = path::views(v@);
    match value {
        Some(s) => {
            push_text(v, name);
            push_text(v, s.as_str());
            assert(path::views(v@) =~= before + seq![encode_utf8(name@), encode_utf8(s@)]);
        },
        None => {
            assert(path::views(v@) =~= before + Seq::<Seq<u8>>::empty());
        },
    }
}

fn push_flag(v: &mut Vec<Vec<u8>>, name: &str, set: bool)
    ensures
        path::views(final(v)@) == path::views(old(v)@) + flag_args(name@, set),
{
    let ghost before = path::views(v@);
    if set {
        push_text(v, name);
    }
    assert(path::views(v@) =~= before + flag_args(name@, set));
}

/// What every invocation of a build has.
pub fn common_args_of(p: &Prepared, spec: &BuildSpec) -> (v: Vec<Vec<u8>>)
    ensures
        path::views(v@) == common_args(p@, spec@),
{
    let mut v: Vec<Vec<u8>> = Vec::new();
    push_text(&mut v, "buildx");
    push_text(&mut v, "build");
    push_text(&mut v, "-f");
    push_path(&mut v, &p.dockerfile);
    assert(path::views(v@) =~= seq![
        encode_utf8("buildx"@),
        encode_utf8("build"@),
        encode_utf8("-f"@),
        p.dockerfile@,
    ]);
    push_option(&mut v, "--target", &spec.target);
    push_option(&mut v, "--platform", &spec.platform);
    let ghost before = path::views(v@);
    let ghost pairs = spec.build_args@;
    let mut i: usize = 0;
    assert(before + build_arg_args(pairs.take(0)) =~= before);
    while i < spec.build_args.len()
        invariant
            i <= pairs.len(),
            pairs == spec.build_args@,
            path::views(v@) == before + build_arg_args(pairs.take(i as int)),
        decreases pairs.len() - i,
    {
        let head = text::concat(spec.build_args.name(i), "=");
        let pair = text::concat(head.as_str(), spec.build_args.value(i));
        push_text(&mut v, "--build-arg");
        push_text(&mut v, pair.as_str());
        proof {
            let s = pairs.take(i + 1);
            assert(s.drop_last() =~= pairs.take(i as int));
            assert(s.last() == pairs[i as int]);
            assert(path::views(v@) =~= before + build_arg_args(s));
        }
        i = i + 1;
    }
    assert(pairs.take(i as int) =~= pairs);
    push_flag(&mut v, "--no-cache", spec.no_cache);
    push_flag(&mut v, "--pull", spec.pull);
    v
}

} // verus!
