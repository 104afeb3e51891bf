//! From a Dockerfile to a stored image.
//!
//! BuildKit is asked what the Dockerfile builds to. The answer gives the key;
//! if the store has an image under it, that is the result, and otherwise the
//! root filesystem is exported, written as an image, and stored. There is one
//! key, and it is made from what was actually built.

pub mod extract;
pub mod laws;

use crate::buildkit::{
    BuildSpec, BuildSpecView, ContextSource, ContextView, DockerfileSource, DockerfileView,
    Prepared, PreparedView,
};
use crate::error::{self, Error, ErrorView};
use crate::ext4::sizing::SizePolicy;
use crate::ext4::{self, Ext4Options, Ext4OptionsView, Ext4Stats, Ext4StatsView};
use crate::key::{self, RecipeKey, RecipeKeyView};
use crate::number;
use crate::path;
use crate::procedure::{self, Procedure};
use crate::store::{self, InstallKind, Store};
use crate::text;
use vstd::prelude::*;
use vstd::string::*;
use vstd::utf8::*;

verus! {

/// Whether the image was stored already.
#[derive(Debug, Clone, Copy, PartialEq, Eq, Structural)]
pub enum CacheHit {
    Miss,
    Hit,
}

/// What to build, and what to do with it.
#[derive(Debug)]
pub struct BuildRequest {
    pub dockerfile: DockerfileSource,
    pub context: ContextSource,
    pub spec: BuildSpec,
    pub ext4: Ext4Options,
    /// Where to publish the image, if anywhere.
    pub install_to: Option<Vec<u8>>,
    /// Whether to build the image even if it is stored already.
    pub refresh: bool,
}

/// A [`BuildRequest`] as a mathematical value.
#[verifier::ext_equal]
pub struct BuildRequestView {
    pub dockerfile: DockerfileView,
    pub context: ContextView,
    pub spec: BuildSpecView,
    pub ext4: Ext4OptionsView,
    pub install_to: Option<Seq<u8>>,
    pub refresh: bool,
}

impl View for BuildRequest {
    type V = BuildRequestView;

    open spec fn view(&self) -> BuildRequestView {
        BuildRequestView {
            dockerfile: self.dockerfile@,
            context: self.context@,
            spec: self.spec@,
            ext4: self.ext4@,
            install_to: path_view(self.install_to),
            refresh: self.refresh,
        }
    }
}

impl BuildRequest {
    /// The same request again.
    pub fn duplicate(&self) -> (r: BuildRequest)
        ensures
            r@ == self@,
    {
        BuildRequest {
            dockerfile: self.dockerfile.duplicate(),
            context: self.context.duplicate(),
            spec: self.spec.duplicate(),
            ext4: self.ext4.duplicate(),
            install_to: match &self.install_to {
                Some(p) => Some(path::copy_of(p)),
                None => None,
            },
            refresh: self.refresh,
        }
    }
}

/// What came of a build.
#[derive(Debug)]
pub struct BuildOutcome {
    pub key: String,
    pub path: Vec<u8>,
    pub size_bytes: u64,
    pub cache: CacheHit,
    pub install: Option<InstallKind>,
    pub stats: Option<Ext4Stats>,
    pub diff_ids: Vec<String>,
}

/// A [`BuildOutcome`] as a mathematical value.
#[verifier::ext_equal]
pub struct BuildOutcomeView {
    pub key: Seq<char>,
    pub path: Seq<u8>,
    pub size_bytes: u64,
    pub cache: CacheHit,
    pub install: Option<InstallKind>,
    pub stats: Option<Ext4StatsView>,
    pub diff_ids: Seq<Seq<char>>,
}

/// Optional counts as a mathematical value.
pub open spec fn stats_view(s: Option<Ext4Stats>) -> Option<Ext4StatsView> {
    match s {
        Some(s) => Some(s@),
        None => None,
    }
}

/// An optional path as a mathematical value.
pub open spec fn path_view(p: Option<Vec<u8>>) -> Option<Seq<u8>> {
    match p {
        Some(p) => Some(p@),
        None => None,
    }
}

impl View for BuildOutcome {
    type V = BuildOutcomeView;

    open spec fn view(&self) -> BuildOutcomeView {
        BuildOutcomeView {
            key: self.key@,
            path: self.path@,
            size_bytes: self.size_bytes,
            cache: self.cache,
            install: self.install,
            stats: stats_view(self.stats),
            diff_ids: text::views(self.diff_ids@),
        }
    }
}

/// The rule for the size in words.
pub open spec fn size_words(size: SizePolicy) -> Seq<char> {
    match size {
        SizePolicy::Fixed(n) => "fixed:"@ + number::decimal(n as nat),
        SizePolicy::FromTar { .. } => "auto"@,
    }
}

/// The rule for the size in words.
pub fn describe_size(size: &SizePolicy) -> (s: String)
    ensures
        s@ == size_words(*size),
{
    match *size {
        SizePolicy::Fixed(n) => {
            let digits = number::decimal_of(n);
            text::concat("fixed:", digits.as_str())
        },
        SizePolicy::FromTar { .. } => "auto".to_owned(),
    }
}

/// The recipe for layers and options.
pub open spec fn recipe_for(ids: Seq<Seq<char>>, options: Ext4OptionsView) -> RecipeKeyView {
    RecipeKeyView {
        diff_ids: ids,
        size_policy: size_words(options.size),
        label: options.label,
        journal: options.journal,
        epoch_secs: options.epoch_secs,
    }
}

/// The recipe for layers and options.
pub fn recipe(ids: &[String], options: &Ext4Options) -> (r: RecipeKey)
    ensures
        r@ == recipe_for(text::views(ids@), options@),
{
    RecipeKey {
        diff_ids: text::copy_all(ids),
        size_policy: describe_size(&options.size),
        label: ext4::copy_label(&options.label),
        journal: options.journal,
        epoch_secs: options.epoch_secs,
    }
}

/// The options with which an image is written: a size that depends on the
/// archive is that of this archive, and the identifier follows from the key.
pub open spec fn options_for(
    options: Ext4OptionsView,
    recipe: RecipeKeyView,
    tar_bytes: u64,
) -> Ext4OptionsView {
    Ext4OptionsView {
        size: match options.size {
            SizePolicy::FromTar { .. } => SizePolicy::FromTar { tar_bytes },
            fixed => fixed,
        },
        uuid: Some(key::sha256_of(recipe.preimage()).take(16)),
        ..options
    }
}

/// The options with which an image is written.
pub fn writing_options(options: &Ext4Options, recipe: &RecipeKey, tar_bytes: u64) -> (o: Ext4Options)
    ensures
        o@ == options_for(options@, recipe@, tar_bytes),
{
    let mut o = options.duplicate();
    o.size = match options.size {
        SizePolicy::FromTar { .. } => SizePolicy::FromTar { tar_bytes },
        SizePolicy::Fixed(n) => SizePolicy::Fixed(n),
    };
    o.uuid = Some(recipe.uuid_bytes());
    o
}

/// One part of a build.
#[derive(Debug)]
pub enum BuildStep {
    /// Put the Dockerfile and the context on disk. Answer: `Prepared`.
    Prepare { dockerfile: DockerfileSource, context: ContextSource },
    /// Unpack the archive that was given as the context. Answer: `Done`.
    Extract { bytes: Vec<u8>, dest: Vec<u8> },
    /// Ask for the layers. Answer: `Layers`.
    Solve { prepared: Prepared, spec: BuildSpec },
    /// Wait for the lock of a key, and hold it to the end. Answer: `Done`.
    Lock { key: String },
    /// Look up a key in the store. Answer: `Found`.
    Get { key: String },
    /// Make a directory for the archive. Answer: `Place`.
    MakeTempDir,
    /// Export the root filesystem. Answer: `Size`.
    Export { prepared: Prepared, spec: BuildSpec, dest: Vec<u8> },
    /// Write an archive as an image. Answer: `Written`.
    Write { tar: Vec<u8>, out: Vec<u8>, options: Ext4Options },
    /// Put the image that was written into the store. Answer: `Stored`.
    Put { key: String, source: Vec<u8>, diff_ids: Vec<String> },
    /// The size of a file. Answer: `Size`.
    Measure { path: Vec<u8> },
    /// Publish the stored image. Answer: `Installed`.
    Install { key: String, dest: Vec<u8> },
}

/// A [`BuildStep`] as a mathematical value.
pub enum BuildStepView {
    Prepare { dockerfile: DockerfileView, context: ContextView },
    Extract { bytes: Seq<u8>, dest: Seq<u8> },
    Solve { prepared: PreparedView, spec: BuildSpecView },
    Lock { key: Seq<char> },
    Get { key: Seq<char> },
    MakeTempDir,
    Export { prepared: PreparedView, spec: BuildSpecView, dest: Seq<u8> },
    Write { tar: Seq<u8>, out: Seq<u8>, options: Ext4OptionsView },
    Put { key: Seq<char>, source: Seq<u8>, diff_ids: Seq<Seq<char>> },
    Measure { path: Seq<u8> },
    Install { key: Seq<char>, dest: Seq<u8> },
}

impl View for BuildStep {
    type V = BuildStepView;

    open spec fn view(&self) -> BuildStepView {
        match self {
            BuildStep::Prepare { dockerfile, context } => BuildStepView::Prepare {
                dockerfile: dockerfile@,
                context: context@,
            },
            BuildStep::Extract { bytes, dest } => BuildStepView::Extract {
                bytes: bytes@,
                dest: dest@,
            },
            BuildStep::Solve { prepared, spec } => BuildStepView::Solve {
                prepared: prepared@,
                spec: spec@,
            },
            BuildStep::Lock { key } => BuildStepView::Lock { key: key@ },
            BuildStep::Get { key } => BuildStepView::Get { key: key@ },
            BuildStep::MakeTempDir => BuildStepView::MakeTempDir,
            BuildStep::Export { prepared, spec, dest } => BuildStepView::Export {
                prepared: prepared@,
                spec: spec@,
                dest: dest@,
            },
            BuildStep::Write { tar, out, options } => BuildStepView::Write {
                tar: tar@,
                out: out@,
                options: options@,
            },
            BuildStep::Put { key, source, diff_ids } => BuildStepView::Put {
                key: key@,
                source: source@,
                diff_ids: text::views(diff_ids@),
            },
            BuildStep::Measure { path } => BuildStepView::Measure { path: path@ },
            BuildStep::Install { key, dest } => BuildStepView::Install { key: key@, dest: dest@ },
        }
    }
}

/// What came of a [`BuildStep`].
#[derive(Debug)]
pub enum BuildReply {
    Prepared(Prepared),
    Done,
    Layers(Vec<String>),
    Found(Option<Vec<u8>>),
    Place(Vec<u8>),
    Size(u64),
    Written(Ext4Stats),
    Stored(Vec<u8>),
    Installed(InstallKind),
    Failed(Error),
}

/// A [`BuildReply`] as a mathematical value.
pub enum BuildReplyView {
    Prepared(PreparedView),
    Done,
    Layers(Seq<Seq<char>>),
    Found(Option<Seq<u8>>),
    Place(Seq<u8>),
    Size(u64),
    Written(Ext4StatsView),
    Stored(Seq<u8>),
    Installed(InstallKind),
    Failed(ErrorView),
}

impl View for BuildReply {
    type V = BuildReplyView;

    open spec fn view(&self) -> BuildReplyView {
        match self {
            BuildReply::Prepared(p) => BuildReplyView::Prepared(p@),
            BuildReply::Done => BuildReplyView::Done,
            BuildReply::Layers(v) => BuildReplyView::Layers(text::views(v@)),
            BuildReply::Found(p) => BuildReplyView::Found(path_view(*p)),
            BuildReply::Place(p) => BuildReplyView::Place(p@),
            BuildReply::Size(n) => BuildReplyView::Size(*n),
            BuildReply::Written(s) => BuildReplyView::Written(s@),
            BuildReply::Stored(p) => BuildReplyView::Stored(p@),
            BuildReply::Installed(k) => BuildReplyView::Installed(*k),
            BuildReply::Failed(e) => BuildReplyView::Failed(e@),
        }
    }
}

/// How far a [`Build`] has come.
#[derive(Debug, Clone, Copy, PartialEq, Eq, Structural)]
pub enum BuildPhase {
    Preparing,
    Extracting,
    Solving,
    Locking,
    LookingUp,
    MakingTemp,
    Exporting,
    Writing { tar_bytes: u64 },
    Storing,
    Measuring,
    Installing,
    Finished,
    Failed,
}

/// A build.
#[derive(Debug)]
pub struct Build {
    req: BuildRequest,
    store: Store,
    prepared: Prepared,
    diff_ids: Vec<String>,
    /// Where the archive of the root filesystem goes.
    tar: Vec<u8>,
    blob: Vec<u8>,
    size_bytes: u64,
    cache: CacheHit,
    stats: Option<Ext4Stats>,
    install: Option<InstallKind>,
    phase: BuildPhase,
    failure: Option<Error>,
}

/// A [`Build`] as a mathematical value.
#[verifier::ext_equal]
pub struct BuildView {
    pub req: BuildRequestView,
    /// Where the storage keeps its data.
    pub root: Seq<u8>,
    pub prepared: PreparedView,
    pub diff_ids: Seq<Seq<char>>,
    pub tar: Seq<u8>,
    pub blob: Seq<u8>,
    pub size_bytes: u64,
    pub cache: CacheHit,
    pub stats: Option<Ext4StatsView>,
    pub install: Option<InstallKind>,
    pub phase: BuildPhase,
    pub failure: Option<ErrorView>,
}

impl View for Build {
    type V = BuildView;

    closed spec fn view(&self) -> BuildView {
        BuildView {
            req: self.req@,
            root: self.store@,
            prepared: self.prepared@,
            diff_ids: text::views(self.diff_ids@),
            tar: self.tar@,
            blob: self.blob@,
            size_bytes: self.size_bytes,
            cache: self.cache,
            stats: stats_view(self.stats),
            install: self.install,
            phase: self.phase,
            failure: error::error_view(self.failure),
        }
    }
}

impl BuildView {
    /// Before the first step.
    pub open spec fn start(req: BuildRequestView, root: Seq<u8>) -> BuildView {
        BuildView {
            req,
            root,
            prepared: PreparedView { dockerfile: seq![], context: seq![], tmp: None },
            diff_ids: seq![],
            tar: seq![],
            blob: seq![],
            size_bytes: 0,
            cache: CacheHit::Hit,
            stats: None,
            install: None,
            phase: BuildPhase::Preparing,
            failure: None,
        }
    }

    pub open spec fn recipe(self) -> RecipeKeyView {
        recipe_for(self.diff_ids, self.req.ext4)
    }

    /// The key, once the layers are known.
    pub open spec fn key(self) -> Seq<char> {
        self.recipe().digest()
    }

    /// Where the image is written before it is put into the store.
    pub open spec fn staging(self) -> Seq<u8> {
        store::build_path(self.root, self.key())
    }

    pub open spec fn to(self, phase: BuildPhase) -> BuildView {
        BuildView { phase, ..self }
    }

    pub open spec fn fail(self, e: ErrorView) -> BuildView {
        BuildView { phase: BuildPhase::Failed, failure: Some(e), ..self }
    }

    /// What came of it.
    pub open spec fn outcome(self) -> Option<Result<BuildOutcomeView, ErrorView>> {
        match (self.phase, self.failure) {
            (BuildPhase::Finished, _) => Some(
                Ok(
                    BuildOutcomeView {
                        key: self.key(),
                        path: match self.req.install_to {
                            Some(dest) => dest,
                            None => self.blob,
                        },
                        size_bytes: self.size_bytes,
                        cache: self.cache,
                        install: self.install,
                        stats: self.stats,
                        diff_ids: self.diff_ids,
                    },
                ),
            ),
            (BuildPhase::Failed, Some(e)) => Some(Err(e)),
            _ => None,
        }
    }
}

impl Procedure for Build {
    type Request = BuildStep;

    type Reply = BuildReply;

    open spec fn wants(state: BuildView) -> Option<BuildStepView> {
        match state.phase {
            BuildPhase::Preparing => Some(
                BuildStepView::Prepare {
                    dockerfile: state.req.dockerfile,
                    context: state.req.context,
                },
            ),
            BuildPhase::Extracting => match state.req.context {
                ContextView::TarGz(bytes) => Some(
                    BuildStepView::Extract { bytes, dest: state.prepared.context },
                ),
                _ => None,
            },
            BuildPhase::Solving => Some(
                BuildStepView::Solve { prepared: state.prepared, spec: state.req.spec },
            ),
            BuildPhase::Locking => Some(BuildStepView::Lock { key: state.key() }),
            BuildPhase::LookingUp => Some(BuildStepView::Get { key: state.key() }),
            BuildPhase::MakingTemp => Some(BuildStepView::MakeTempDir),
            BuildPhase::Exporting => Some(
                BuildStepView::Export {
                    prepared: state.prepared,
                    spec: state.req.spec,
                    dest: state.tar,
                },
            ),
            BuildPhase::Writing { tar_bytes } => Some(
                BuildStepView::Write {
                    tar: state.tar,
                    out: state.staging(),
                    options: options_for(state.req.ext4, state.recipe(), tar_bytes),
                },
            ),
            BuildPhase::Storing => Some(
                BuildStepView::Put {
                    key: state.key(),
                    source: state.staging(),
                    diff_ids: state.diff_ids,
                },
            ),
            BuildPhase::Measuring => Some(BuildStepView::Measure { path: state.blob }),
            BuildPhase::Installing => match state.req.install_to {
                Some(dest) => Some(BuildStepView::Install { key: state.key(), dest }),
                None => None,
            },
            BuildPhase::Finished | BuildPhase::Failed => None,
        }
    }

    open spec fn after(state: BuildView, reply: BuildReplyView) -> BuildView {
        match (state.phase, reply) {
            (BuildPhase::Finished, _) => state,
            (BuildPhase::Failed, _) => state,
            // A look into the store cannot fail.
            (BuildPhase::LookingUp, BuildReplyView::Failed(_)) => state,
            (_, BuildReplyView::Failed(e)) => state.fail(e),
            (BuildPhase::Preparing, BuildReplyView::Prepared(p)) => BuildView {
                prepared: p,
                phase: if state.req.context is TarGz {
                    BuildPhase::Extracting
                } else {
                    BuildPhase::Solving
                },
                ..state
            },
            (BuildPhase::Extracting, BuildReplyView::Done) => state.to(BuildPhase::Solving),
            (BuildPhase::Solving, BuildReplyView::Layers(ids)) => BuildView {
                diff_ids: ids,
                phase: BuildPhase::Locking,
                ..state
            },
            (BuildPhase::Locking, BuildReplyView::Done) => state.to(BuildPhase::LookingUp),
            (BuildPhase::LookingUp, BuildReplyView::Found(found)) => match found {
                Some(p) if !state.req.refresh => BuildView {
                    blob: p,
                    phase: BuildPhase::Measuring,
                    ..state
                },
                _ => BuildView {
                    cache: CacheHit::Miss,
                    phase: BuildPhase::MakingTemp,
                    ..state
                },
            },
            (BuildPhase::MakingTemp, BuildReplyView::Place(p)) => BuildView {
                tar: path::joined(p, encode_utf8("rootfs.tar"@)),
                phase: BuildPhase::Exporting,
                ..state
            },
            (BuildPhase::Exporting, BuildReplyView::Size(tar_bytes)) => state.to(
                BuildPhase::Writing { tar_bytes },
            ),
            (BuildPhase::Writing { .. }, BuildReplyView::Written(s)) => BuildView {
                stats: Some(s),
                phase: BuildPhase::Storing,
                ..state
            },
            (BuildPhase::Storing, BuildReplyView::Stored(p)) => BuildView {
                blob: p,
                phase: BuildPhase::Measuring,
                ..state
            },
            (BuildPhase::Measuring, BuildReplyView::Size(n)) => BuildView {
                size_bytes: n,
                phase: if state.req.install_to is Some {
                    BuildPhase::Installing
                } else {
                    BuildPhase::Finished
                },
                ..state
            },
            (BuildPhase::Installing, BuildReplyView::Installed(kind)) => BuildView {
                install: Some(kind),
                phase: BuildPhase::Finished,
                ..state
            },
            _ => state,
        }
    }

    fn request(&self) -> (request: Option<BuildStep>) {
        match self.phase {
            BuildPhase::Preparing => Some(
                BuildStep::Prepare {
                    dockerfile: self.req.dockerfile.duplicate(),
                    context: self.req.context.duplicate(),
                },
            ),
            BuildPhase::Extracting => match &self.req.context {
                ContextSource::TarGz(bytes) => Some(
                    BuildStep::Extract {
                        bytes: path::copy_of(bytes),
                        dest: path::copy_of(&self.prepared.context),
                    },
                ),
                _ => None,
            },
            BuildPhase::Solving => Some(
                BuildStep::Solve {
                    prepared: self.prepared.duplicate(),
                    spec: self.req.spec.duplicate(),
                },
            ),
            BuildPhase::Locking => Some(BuildStep::Lock { key: self.key() }),
            BuildPhase::LookingUp => Some(BuildStep::Get { key: self.key() }),
            BuildPhase::MakingTemp => Some(BuildStep::MakeTempDir),
            BuildPhase::Exporting => Some(
                BuildStep::Export {
                    prepared: self.prepared.duplicate(),
                    spec: self.req.spec.duplicate(),
                    dest: path::copy_of(&self.tar),
                },
            ),
            BuildPhase::Writing { tar_bytes } => {
                let r = recipe(&self.diff_ids, &self.req.ext4);
                Some(
                    BuildStep::Write {
                        tar: path::copy_of(&self.tar),
                        out: self.store.staging_path(r.digest().as_str()),
                        options: writing_options(&self.req.ext4, &r, tar_bytes),
                    },
                )
            },
            BuildPhase::Storing => {
                let key = self.key();
                let source = self.store.staging_path(key.as_str());
                Some(BuildStep::Put { key, source, diff_ids: text::copy_all(&self.diff_ids) })
            },
            BuildPhase::Measuring => Some(BuildStep::Measure { path: path::copy_of(&self.blob) }),
            BuildPhase::Installing => match &self.req.install_to {
                Some(dest) => Some(
                    BuildStep::Install { key: self.key(), dest: path::copy_of(dest) },
                ),
                None => None,
            },
            BuildPhase::Finished | BuildPhase::Failed => None,
        }
    }

    fn resume(self, reply: BuildReply) -> (next: Build) {
        let mut next = self;
        match (next.phase, reply) {
            (
                BuildPhase::Finished | BuildPhase::Failed | BuildPhase::LookingUp,
                BuildReply::Failed(_),
            ) => {},
            (_, BuildReply::Failed(e)) => {
                next.failure = Some(e);
                next.phase = BuildPhase::Failed;
            },
            (BuildPhase::Preparing, BuildReply::Prepared(p)) => {
                next.prepared = p;
                next.phase = match &next.req.context {
                    ContextSource::TarGz(_) => BuildPhase::Extracting,
                    _ => BuildPhase::Solving,
                };
            },
            (BuildPhase::Extracting, BuildReply::Done) => {
                next.phase = BuildPhase::Solving;
            },
            (BuildPhase::Solving, BuildReply::Layers(ids)) => {
                next.diff_ids = ids;
                next.phase = BuildPhase::Locking;
            },
            (BuildPhase::Locking, BuildReply::Done) => {
                next.phase = BuildPhase::LookingUp;
            },
            (BuildPhase::LookingUp, BuildReply::Found(found)) => {
                match found {
                    Some(p) => {
                        if next.req.refresh {
                            next.cache = CacheHit::Miss;
                            next.phase = BuildPhase::MakingTemp;
                        } else {
                            next.blob = p;
                            next.phase = BuildPhase::Measuring;
                        }
                    },
                    None => {
                        next.cache = CacheHit::Miss;
                        next.phase = BuildPhase::MakingTemp;
                    },
                }
            },
            (BuildPhase::MakingTemp, BuildReply::Place(p)) => {
                next.tar = path::join_text(&p, "rootfs.tar");
                next.phase = BuildPhase::Exporting;
            },
            (BuildPhase::Exporting, BuildReply::Size(tar_bytes)) => {
                next.phase = BuildPhase::Writing { tar_bytes };
            },
            (BuildPhase::Writing { .. }, BuildReply::Written(s)) => {
                next.stats = Some(s);
                next.phase = BuildPhase::Storing;
            },
            (BuildPhase::Storing, BuildReply::Stored(p)) => {
                next.blob = p;
                next.phase = BuildPhase::Measuring;
            },
            (BuildPhase::Measuring, BuildReply::Size(n)) => {
                next.size_bytes = n;
                next.phase = if next.req.install_to.is_some() {
                    BuildPhase::Installing
                } else {
                    BuildPhase::Finished
                };
            },
            (BuildPhase::Installing, BuildReply::Installed(kind)) => {
                next.install = Some(kind);
                next.phase = BuildPhase::Finished;
            },
            _ => {},
        }
        next
    }
}

impl Build {
    fn key(&self) -> (s: String)
        ensures
            s@ == self@.key(),
    {
        let r = recipe(&self.diff_ids, &self.req.ext4);
        r.digest()
    }

    /// What came of it; nothing while it is under way.
    pub fn outcome(self) -> (r: Option<Result<BuildOutcome, Error>>)
        ensures
            match r {
                Some(Ok(o)) => self@.outcome() == Some(Ok::<BuildOutcomeView, ErrorView>(o@)),
                Some(Err(e)) => self@.outcome() == Some(Err::<BuildOutcomeView, ErrorView>(e@)),
                None => self@.outcome() is None,
            },
    {
        match self.phase {
            BuildPhase::Finished => {
                let key = self.key();
                let path = match self.req.install_to {
                    Some(dest) => dest,
                    None => self.blob,
                };
                Some(
                    Ok(
                        BuildOutcome {
                            key,
                            path,
                            size_bytes: self.size_bytes,
                            cache: self.cache,
                            install: self.install,
                            stats: self.stats,
                            diff_ids: self.diff_ids,
                        },
                    ),
                )
            },
            BuildPhase::Failed => match self.failure {
                Some(e) => Some(Err(e)),
                None => None,
            },
            _ => None,
        }
    }
}

/// Builds an image, or finds that it is stored already in the storage that
/// keeps its data below `root`.
pub fn build(req: &BuildRequest, root: &[u8]) -> (b: Build)
    ensures
        b@ == BuildView::start(req@, root@),
{
    let b = Build {
        req: req.duplicate(),
        store: Store::open(root),
        prepared: Prepared { dockerfile: Vec::new(), context: Vec::new(), tmp: None },
        diff_ids: Vec::new(),
        tar: Vec::new(),
        blob: Vec::new(),
        size_bytes: 0,
        cache: CacheHit::Hit,
        stats: None,
        install: None,
        phase: BuildPhase::Preparing,
        failure: None,
    };
    assert(b@ =~= BuildView::start(req@, root@));
    b
}

// ---------------------------------------------------------------------------
// What every build keeps to
// ---------------------------------------------------------------------------
/// Whether a part of a build makes an image anew.
pub open spec fn rebuilds(step: BuildStepView) -> bool {
    step is Export || step is Write || step is Put
}

pub(crate) open spec fn build_keeps(start: BuildView, s: BuildView) -> bool {
    &&& s.req == start.req
    &&& s.root == start.root
    &&& s.phase == BuildPhase::Extracting ==> s.req.context is TarGz
    &&& match s.phase {
        BuildPhase::Preparing
        | BuildPhase::Extracting
        | BuildPhase::Solving
        | BuildPhase::Locking
        | BuildPhase::LookingUp => s.cache == CacheHit::Hit && s.stats is None,
        BuildPhase::MakingTemp | BuildPhase::Exporting | BuildPhase::Writing { .. } => s.cache
            == CacheHit::Miss && s.stats is None,
        BuildPhase::Storing => s.cache == CacheHit::Miss && s.stats is Some,
        BuildPhase::Measuring | BuildPhase::Installing | BuildPhase::Finished => {
            &&& s.cache == CacheHit::Miss <==> s.stats is Some
            &&& s.req.refresh ==> s.cache == CacheHit::Miss
        },
        BuildPhase::Failed => true,
    }
    &&& s.phase == BuildPhase::Finished ==> (s.install is Some <==> s.req.install_to is Some)
    &&& s.phase != BuildPhase::Finished ==> s.install is None
    &&& s.phase == BuildPhase::Installing ==> s.req.install_to is Some
}

pub(crate) proof fn lemma_build_run(req: BuildRequestView, root: Seq<u8>, replies: Seq<BuildReplyView>)
    ensures
        build_keeps(
            BuildView::start(req, root),
            procedure::state_given::<Build>(BuildView::start(req, root), replies),
        ),
{
    let start = BuildView::start(req, root);
    let inv = |s: BuildView| build_keeps(start, s);
    assert forall|s: BuildView, reply: BuildReplyView| inv(s) implies inv(
        #[trigger] Build::after(s, reply),
    ) by {
        assert(build_keeps(start, s));
        assert(build_keeps(start, Build::after(s, reply)));
    }
    procedure::lemma_kept::<Build>(inv, start, replies);
}

/// What is reported as found in the store was not made anew, and the other way
/// round; a refresh always makes it anew. Where the image is to be published,
/// the result says how that was done.
pub proof fn lemma_hits_are_not_rebuilt(
    req: BuildRequestView,
    root: Seq<u8>,
    replies: Seq<BuildReplyView>,
)
    ensures
        ({
            let s = procedure::state_given::<Build>(BuildView::start(req, root), replies);
            &&& Build::wants(s) matches Some(step) ==> (rebuilds(step) ==> s.cache
                == CacheHit::Miss)
            &&& s.outcome() matches Some(Ok(o)) ==> {
                &&& o.cache == CacheHit::Miss <==> o.stats is Some
                &&& req.refresh ==> o.cache == CacheHit::Miss
                &&& o.install is Some <==> req.install_to is Some
                &&& o.key == recipe_for(o.diff_ids, req.ext4).digest()
            }
        }),
{
    lemma_build_run(req, root, replies);
}

/// Whatever a build meets with, it is about what was asked for: the Dockerfile
/// and the context of the request are put on disk, the archive that it gives is
/// unpacked, its specification is built and exported, its options are written,
/// and what was written is what is stored, under the key of the layers.
pub proof fn lemma_a_build_is_of_its_request(
    req: BuildRequestView,
    root: Seq<u8>,
    replies: Seq<BuildReplyView>,
)
    ensures
        ({
            let s = procedure::state_given::<Build>(BuildView::start(req, root), replies);
            let recipe = recipe_for(s.diff_ids, req.ext4);
            let staging = store::build_path(root, recipe.digest());
            match Build::wants(s) {
                Some(BuildStepView::Prepare { dockerfile, context }) => {
                    dockerfile == req.dockerfile && context == req.context
                },
                Some(BuildStepView::Extract { bytes, dest }) => {
                    req.context == ContextView::TarGz(bytes) && dest == s.prepared.context
                },
                Some(BuildStepView::Solve { prepared, spec }) => {
                    prepared == s.prepared && spec == req.spec
                },
                Some(BuildStepView::Export { prepared, spec, dest }) => {
                    prepared == s.prepared && spec == req.spec && dest == s.tar
                },
                Some(BuildStepView::Write { tar, out, options }) => {
                    &&& tar == s.tar
                    &&& out == staging
                    &&& exists|n: u64| options == options_for(req.ext4, recipe, n)
                },
                Some(BuildStepView::Put { key, source, diff_ids }) => {
                    key == recipe.digest() && source == staging && diff_ids == s.diff_ids
                },
                Some(BuildStepView::Lock { key }) => key == recipe.digest(),
                Some(BuildStepView::Get { key }) => key == recipe.digest(),
                Some(BuildStepView::Install { key, dest }) => {
                    key == recipe.digest() && req.install_to == Some(dest)
                },
                _ => true,
            }
        }),
        Build::wants(BuildView::start(req, root)) == Some(
            BuildStepView::Prepare { dockerfile: req.dockerfile, context: req.context },
        ),
{
    lemma_build_run(req, root, replies);
}

/// Where the store has the image and no refresh is asked for, nothing is
/// exported, written or stored: the very next part is the size of what was
/// found.
pub proof fn lemma_a_hit_is_taken_as_it_is(s: BuildView, found: Seq<u8>)
    requires
        s.phase == BuildPhase::LookingUp,
        !s.req.refresh,
    ensures
        Build::wants(Build::after(s, BuildReplyView::Found(Some(found)))) == Some(
            BuildStepView::Measure { path: found },
        ),
{
}

proof fn lemma_size_words(a: SizePolicy, b: SizePolicy)
    ensures
        size_words(a) == size_words(b) ==> (match (a, b) {
            (SizePolicy::Fixed(m), SizePolicy::Fixed(n)) => m == n,
            (SizePolicy::FromTar { .. }, SizePolicy::FromTar { .. }) => true,
            _ => false,
        }),
{
    reveal_strlit("fixed:");
    reveal_strlit("auto");
    let w = size_words(a);
    if let SizePolicy::Fixed(m) = a {
        number::lemma_decimal_len(m as nat);
        if let SizePolicy::Fixed(n) = b {
            if size_words(a) == size_words(b) {
                assert(number::decimal(m as nat) =~= w.skip(6));
                assert(number::decimal(n as nat) =~= size_words(b).skip(6));
                number::lemma_decimal_injective(m as nat, n as nat);
            }
        } else {
            assert(w[0] == 'f');
            assert(size_words(b)[0] == 'a');
        }
    } else {
        if let SizePolicy::Fixed(n) = b {
            assert(w[0] == 'a');
            assert(size_words(b)[0] == 'f');
        }
    }
}

/// Two builds hash the same bytes for their keys only if they have the same
/// layers and alike options: the same size or the same rule for it, label,
/// journal and epoch.
pub proof fn lemma_keys_tell_builds_apart(
    ids: Seq<Seq<char>>,
    options: Ext4OptionsView,
    other_ids: Seq<Seq<char>>,
    other: Ext4OptionsView,
)
    requires
        recipe_for(ids, options).preimage() == recipe_for(other_ids, other).preimage(),
    ensures
        ids == other_ids,
        match (options.size, other.size) {
            (SizePolicy::Fixed(m), SizePolicy::Fixed(n)) => m == n,
            (SizePolicy::FromTar { .. }, SizePolicy::FromTar { .. }) => true,
            _ => false,
        },
        options.label == other.label,
        options.journal == other.journal,
        options.epoch_secs == other.epoch_secs,
{
    lemma_size_words(options.size, other.size);
    key::lemma_recipes_are_told_apart(recipe_for(ids, options), recipe_for(other_ids, other));
}

} // verus!
