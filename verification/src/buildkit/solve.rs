//! Building an image and reading back what it is made of.

use super::{BuildSpec, BuildSpecView, Prepared, PreparedView};
use crate::buildkit;
use crate::error::{self, Error, ErrorView, IoError, IoErrorView, IoKind};
use crate::host::{
    self, Reply, ReplyView, Request, RequestView, ToolCall, ToolCallView, ToolOutput,
};
use crate::number;
use crate::path;
use crate::procedure::Procedure;
use crate::text;
use vstd::prelude::*;
use vstd::string::*;
use vstd::utf8::*;

verus! {

/// A run of `docker`.
pub open spec fn docker(args: Seq<Seq<u8>>) -> ToolCallView {
    ToolCallView { program: "docker"@, args, input: None }
}

/// The build that is loaded under a tag.
pub open spec fn load_args(p: PreparedView, spec: BuildSpecView, tag: Seq<char>) -> Seq<Seq<u8>> {
    buildkit::common_args(p, spec) + seq![
        encode_utf8("--load"@),
        encode_utf8("-t"@),
        encode_utf8(tag),
        p.context,
    ]
}

/// The question for the layers of an image.
pub open spec fn inspect_args(tag: Seq<char>) -> Seq<Seq<u8>> {
    seq![
        encode_utf8("image"@),
        encode_utf8("inspect"@),
        encode_utf8(tag),
        encode_utf8("--format"@),
        encode_utf8("{{json .RootFS.Layers}}"@),
    ]
}

/// The removal of a tag.
pub open spec fn untag_args(tag: Seq<char>) -> Seq<Seq<u8>> {
    seq![
        encode_utf8("image"@),
        encode_utf8("rm"@),
        encode_utf8("-f"@),
        encode_utf8(tag),
    ]
}

/// The export of the root filesystem as an archive.
pub open spec fn export_args(
    p: PreparedView,
    spec: BuildSpecView,
    dest: Seq<u8>,
) -> Seq<Seq<u8>> {
    buildkit::common_args(p, spec) + seq![
        encode_utf8("-o"@),
        encode_utf8("type=tar,dest="@ + path::utf8_lossy(dest)),
        p.context,
    ]
}

/// The tag with an identifier.
pub open spec fn stage_tag(id: Seq<char>) -> Seq<char> {
    "vmbuild-stage:"@ + id
}

/// The strings that `serde_json::from_str` reads from an array of them, or its
/// complaint.
pub uninterp spec fn json_strings(s: Seq<char>) -> Result<Seq<Seq<char>>, Seq<char>>;

/// Strings or a complaint, as a mathematical value.
pub open spec fn strings_view(r: Result<Vec<String>, String>) -> Result<
    Seq<Seq<char>>,
    Seq<char>,
> {
    match r {
        Ok(v) => Ok(text::views(v@)),
        Err(s) => Err(s@),
    }
}

/// `serde_json::from_str` for a vector of strings: a function of the text
/// alone.
#[verifier::external_body]
fn parse_strings(s: &str) -> (r: Result<Vec<String>, String>)
    ensures
        strings_view(r) == json_strings(s@),
{
    serde_json::from_str::<Vec<String>>(s).map_err(|e| e.to_string())
}

/// Whether some text is made of 32 small hexadecimal digits.
pub open spec fn is_id(s: Seq<char>) -> bool {
    s.len() == 32 && exists|bytes: Seq<u8>| s == #[trigger] number::hex(bytes)
}

/// `uuid::Uuid::new_v4` and `uuid::Uuid::simple`: sixteen random bytes in
/// hexadecimal. Which ones is left to chance.
#[verifier::external_body]
fn fresh_id() -> (s: String)
    ensures
        is_id(s@),
{
    uuid::Uuid::new_v4().simple().to_string()
}

/// The layers of an image, from what was read of them: there has to be one.
pub open spec fn layers(read: Result<Seq<Seq<char>>, Seq<char>>) -> Result<
    Seq<Seq<char>>,
    ErrorView,
> {
    match read {
        Err(s) => Err(ErrorView::Io(IoErrorView::own(IoKind::InvalidData, s))),
        Ok(ids) => if ids.len() == 0 {
            Err(
                ErrorView::Io(
                    IoErrorView::own(
                        IoKind::InvalidData,
                        "image reported an empty layer chain"@,
                    ),
                ),
            )
        } else {
            Ok(ids)
        },
    }
}

/// Layers or a failure, as a mathematical value.
pub open spec fn layers_view(r: Result<Vec<String>, Error>) -> Result<Seq<Seq<char>>, ErrorView> {
    match r {
        Ok(v) => Ok(text::views(v@)),
        Err(e) => Err(e@),
    }
}

/// The layers of an image, from what was read of them.
pub fn layers_of(read: Result<Vec<String>, String>) -> (r: Result<Vec<String>, Error>)
    ensures
        layers_view(r) == layers(strings_view(read)),
{
    match read {
        Err(s) => Err(Error::Io(IoError::own(IoKind::InvalidData, s))),
        Ok(ids) => if ids.len() == 0 {
            Err(
                Error::Io(
                    IoError::own(
                        IoKind::InvalidData,
                        "image reported an empty layer chain".to_owned(),
                    ),
                ),
            )
        } else {
            Ok(ids)
        },
    }
}

/// How far a [`Solve`] has come.
#[derive(Debug, Clone, Copy, PartialEq, Eq, Structural)]
pub enum SolvePhase {
    Building,
    Inspecting,
    /// Removing the tag, however the question went.
    Untagging,
    Finished,
    Failed,
}

/// Building an image under a throwaway tag and reading its chain of layers.
#[derive(Debug)]
pub struct Solve {
    prepared: Prepared,
    spec: BuildSpec,
    tag: String,
    /// What the question for the layers was answered.
    answer: Option<Result<String, Error>>,
    layers: Vec<String>,
    phase: SolvePhase,
    failure: Option<Error>,
}

/// A [`Solve`] as a mathematical value.
#[verifier::ext_equal]
pub struct SolveView {
    pub prepared: PreparedView,
    pub spec: BuildSpecView,
    pub tag: Seq<char>,
    pub answer: Option<Result<Seq<char>, ErrorView>>,
    pub layers: Seq<Seq<char>>,
    pub phase: SolvePhase,
    pub failure: Option<ErrorView>,
}

impl View for Solve {
    type V = SolveView;

    closed spec fn view(&self) -> SolveView {
        SolveView {
            prepared: self.prepared@,
            spec: self.spec@,
            tag: self.tag@,
            answer: match self.answer {
                Some(r) => Some(host::output_view(r)),
                None => None,
            },
            layers: text::views(self.layers@),
            phase: self.phase,
            failure: error::error_view(self.failure),
        }
    }
}

impl SolveView {
    /// Before the first step.
    pub open spec fn start(
        prepared: PreparedView,
        spec: BuildSpecView,
        tag: Seq<char>,
    ) -> SolveView {
        SolveView {
            prepared,
            spec,
            tag,
            answer: None,
            layers: seq![],
            phase: SolvePhase::Building,
            failure: None,
        }
    }

    pub open spec fn to(self, phase: SolvePhase) -> SolveView {
        SolveView { phase, ..self }
    }

    pub open spec fn fail(self, e: ErrorView) -> SolveView {
        SolveView { phase: SolvePhase::Failed, failure: Some(e), ..self }
    }

    /// The tag is gone: what the layers were said to be is what counts.
    pub open spec fn untagged(self) -> SolveView {
        let rest = SolveView { answer: None, ..self };
        match self.answer {
            None => self,
            Some(Err(e)) => rest.fail(e),
            Some(Ok(json)) => match layers(json_strings(text::trim(json))) {
                Ok(ids) => SolveView { layers: ids, phase: SolvePhase::Finished, ..rest },
                Err(e) => rest.fail(e),
            },
        }
    }

    /// What came of it: the chain of layers, or why there is none.
    pub open spec fn outcome(self) -> Option<Result<Seq<Seq<char>>, ErrorView>> {
        match (self.phase, self.failure) {
            (SolvePhase::Finished, _) => Some(Ok(self.layers)),
            (SolvePhase::Failed, Some(e)) => Some(Err(e)),
            _ => None,
        }
    }
}

impl Procedure for Solve {
    type Request = Request;

    type Reply = Reply;

    open spec fn wants(state: SolveView) -> Option<RequestView> {
        match state.phase {
            SolvePhase::Building => Some(
                RequestView::Tool(docker(load_args(state.prepared, state.spec, state.tag))),
            ),
            SolvePhase::Inspecting => Some(RequestView::Tool(docker(inspect_args(state.tag)))),
            SolvePhase::Untagging => Some(RequestView::Tool(docker(untag_args(state.tag)))),
            SolvePhase::Finished | SolvePhase::Failed => None,
        }
    }

    open spec fn after(state: SolveView, reply: ReplyView) -> SolveView {
        match (state.phase, host::run_of(reply)) {
            (SolvePhase::Building, Some(run)) => match host::tool_result(
                "docker"@,
                "docker buildx build --load"@,
                run,
            ) {
                Ok(_) => state.to(SolvePhase::Inspecting),
                Err(e) => state.fail(e),
            },
            (SolvePhase::Inspecting, Some(run)) => SolveView {
                answer: Some(host::tool_result("docker"@, "docker image inspect"@, run)),
                phase: SolvePhase::Untagging,
                ..state
            },
            (SolvePhase::Untagging, Some(_)) => state.untagged(),
            _ => state,
        }
    }

    fn request(&self) -> (request: Option<Request>) {
        let tag = self.tag.as_str();
        match self.phase {
            SolvePhase::Building => {
                let mut args = buildkit::common_args_of(&self.prepared, &self.spec);
                buildkit::push_text(&mut args, "--load");
                buildkit::push_text(&mut args, "-t");
                buildkit::push_text(&mut args, tag);
                buildkit::push_path(&mut args, &self.prepared.context);
                assert(path::views(args@) =~= load_args(self.prepared@, self.spec@, tag@));
                Some(Request::Tool(ToolCall { program: "docker", args, input: None }))
            },
            SolvePhase::Inspecting => {
                let mut args: Vec<Vec<u8>> = Vec::new();
                buildkit::push_text(&mut args, "image");
                buildkit::push_text(&mut args, "inspect");
                buildkit::push_text(&mut args, tag);
                buildkit::push_text(&mut args, "--format");
                buildkit::push_text(&mut args, "{{json .RootFS.Layers}}");
                assert(path::views(args@) =~= inspect_args(tag@));
                Some(Request::Tool(ToolCall { program: "docker", args, input: None }))
            },
            SolvePhase::Untagging => {
                let mut args: Vec<Vec<u8>> = Vec::new();
                buildkit::push_text(&mut args, "image");
                buildkit::push_text(&mut args, "rm");
                buildkit::push_text(&mut args, "-f");
                buildkit::push_text(&mut args, tag);
                assert(path::views(args@) =~= untag_args(tag@));
                Some(Request::Tool(ToolCall { program: "docker", args, input: None }))
            },
            SolvePhase::Finished | SolvePhase::Failed => None,
        }
    }

    fn resume(self, reply: Reply) -> (next: Solve) {
        match reply {
            Reply::Output(o) => self.with_run(Ok(o)),
            Reply::Failed(e) => self.with_run(Err(e)),
            _ => self,
        }
    }
}

impl Solve {
    fn with_run(self, run: Result<ToolOutput, IoError>) -> (next: Solve)
        ensures
            next@ == (match (self@.phase, host::run_view(run)) {
                (SolvePhase::Building, r) => match host::tool_result(
                    "docker"@,
                    "docker buildx build --load"@,
                    r,
                ) {
                    Ok(_) => self@.to(SolvePhase::Inspecting),
                    Err(e) => self@.fail(e),
                },
                (SolvePhase::Inspecting, r) => SolveView {
                    answer: Some(host::tool_result("docker"@, "docker image inspect"@, r)),
                    phase: SolvePhase::Untagging,
                    ..self@
                },
                (SolvePhase::Untagging, _) => self@.untagged(),
                _ => self@,
            }),
    {
        let mut next = self;
        match next.phase {
            SolvePhase::Building => {
                match host::judge_tool("docker", "docker buildx build --load", run) {
                    Ok(_) => {
                        next.phase = SolvePhase::Inspecting;
                    },
                    Err(e) => {
                        next.failure = Some(e);
                        next.phase = SolvePhase::Failed;
                    },
                }
                next
            },
            SolvePhase::Inspecting => {
                next.answer = Some(host::judge_tool("docker", "docker image inspect", run));
                next.phase = SolvePhase::Untagging;
                next
            },
            SolvePhase::Untagging => next.untagged(),
            SolvePhase::Finished | SolvePhase::Failed => next,
        }
    }

    fn untagged(self) -> (next: Solve)
        ensures
            next@ == self@.untagged(),
    {
        let Solve { prepared, spec, tag, answer, layers, phase, failure } = self;
        match answer {
            None => Solve { prepared, spec, tag, answer: None, layers, phase, failure },
            Some(Err(e)) => Solve {
                prepared,
                spec,
                tag,
                answer: None,
                layers,
                phase: SolvePhase::Failed,
                failure: Some(e),
            },
            Some(Ok(json)) => {
                let body = text::trimmed(json.as_str());
                match layers_of(parse_strings(body.as_str())) {
                    Ok(ids) => Solve {
                        prepared,
                        spec,
                        tag,
                        answer: None,
                        layers: ids,
                        phase: SolvePhase::Finished,
                        failure,
                    },
                    Err(e) => Solve {
                        prepared,
                        spec,
                        tag,
                        answer: None,
                        layers,
                        phase: SolvePhase::Failed,
                        failure: Some(e),
                    },
                }
            },
        }
    }

    /// The chain of layers, or why there is none; nothing while it is under
    /// way.
    pub fn outcome(self) -> (r: Option<Result<Vec<String>, Error>>)
        ensures
            match r {
                Some(r) => self@.outcome() == Some(layers_view(r)),
                None => self@.outcome() is None,
            },
    {
        match self.phase {
            SolvePhase::Finished => Some(Ok(self.layers)),
            SolvePhase::Failed => match self.failure {
                Some(e) => Some(Err(e)),
                None => None,
            },
            _ => None,
        }
    }
}

/// Builds an image under the tag with an identifier and reads its layers.
pub fn solve_as(p: &Prepared, spec: &BuildSpec, id: &str) -> (s: Solve)
    ensures
        s@ == SolveView::start(p@, spec@, stage_tag(id@)),
{
    let layers: Vec<String> = Vec::new();
    assert(text::views(layers@) =~= seq![]);
    Solve {
        prepared: p.duplicate(),
        spec: spec.duplicate(),
        tag: text::concat("vmbuild-stage:", id),
        answer: None,
        layers,
        phase: SolvePhase::Building,
        failure: None,
    }
}

/// Builds an image under a fresh tag and reads its layers.
pub fn solve(p: &Prepared, spec: &BuildSpec) -> (s: Solve)
    ensures
        exists|id: Seq<char>| #[trigger]
            is_id(id) && s@ == SolveView::start(p@, spec@, stage_tag(id)),
{
    let id = fresh_id();
    solve_as(p, spec, id.as_str())
}

/// The tag is removed, however the question for the layers went.
pub proof fn lemma_tag_is_removed(state: SolveView, reply: ReplyView)
    requires
        state.phase == SolvePhase::Inspecting,
        host::run_of(reply) is Some,
    ensures
        Solve::wants(Solve::after(state, reply)) == Some(
            RequestView::Tool(docker(untag_args(state.tag))),
        ),
{
}

// ---------------------------------------------------------------------------
// Export
// ---------------------------------------------------------------------------
/// How far an [`Export`] has come.
#[derive(Debug, Clone, Copy, PartialEq, Eq, Structural)]
pub enum ExportPhase {
    Exporting,
    Measuring,
    Finished { bytes: u64 },
    Failed,
}

/// Exporting the root filesystem of a build as an archive.
#[derive(Debug)]
pub struct Export {
    prepared: Prepared,
    spec: BuildSpec,
    dest: Vec<u8>,
    phase: ExportPhase,
    failure: Option<Error>,
}

/// An [`Export`] as a mathematical value.
#[verifier::ext_equal]
pub struct ExportView {
    pub prepared: PreparedView,
    pub spec: BuildSpecView,
    pub dest: Seq<u8>,
    pub phase: ExportPhase,
    pub failure: Option<ErrorView>,
}

impl View for Export {
    type V = ExportView;

    closed spec fn view(&self) -> ExportView {
        ExportView {
            prepared: self.prepared@,
            spec: self.spec@,
            dest: self.dest@,
            phase: self.phase,
            failure: error::error_view(self.failure),
        }
    }
}

impl ExportView {
    /// Before the first step.
    pub open spec fn start(
        prepared: PreparedView,
        spec: BuildSpecView,
        dest: Seq<u8>,
    ) -> ExportView {
        ExportView { prepared, spec, dest, phase: ExportPhase::Exporting, failure: None }
    }

    pub open spec fn to(self, phase: ExportPhase) -> ExportView {
        ExportView { phase, ..self }
    }

    pub open spec fn fail(self, e: ErrorView) -> ExportView {
        ExportView { phase: ExportPhase::Failed, failure: Some(e), ..self }
    }

    /// What came of it: the size of the archive, or why there is none.
    pub open spec fn outcome(self) -> Option<Result<u64, ErrorView>> {
        match (self.phase, self.failure) {
            (ExportPhase::Finished { bytes }, _) => Some(Ok(bytes)),
            (ExportPhase::Failed, Some(e)) => Some(Err(e)),
            _ => None,
        }
    }
}

impl Procedure for Export {
    type Request = Request;

    type Reply = Reply;

    open spec fn wants(state: ExportView) -> Option<RequestView> {
        match state.phase {
            ExportPhase::Exporting => Some(
                RequestView::Tool(docker(export_args(state.prepared, state.spec, state.dest))),
            ),
            ExportPhase::Measuring => Some(RequestView::Stat(state.dest)),
            ExportPhase::Finished { .. } | ExportPhase::Failed => None,
        }
    }

    open spec fn after(state: ExportView, reply: ReplyView) -> ExportView {
        match (state.phase, reply) {
            (ExportPhase::Exporting, _) => match host::run_of(reply) {
                Some(run) => match host::tool_result(
                    "docker"@,
                    "docker buildx build -o type=tar"@,
                    run,
                ) {
                    Ok(_) => state.to(ExportPhase::Measuring),
                    Err(e) => state.fail(e),
                },
                None => state,
            },
            (ExportPhase::Measuring, ReplyView::Stat(s)) => state.to(
                ExportPhase::Finished { bytes: s.len },
            ),
            (ExportPhase::Measuring, ReplyView::Failed(e)) => state.fail(ErrorView::Io(e)),
            _ => state,
        }
    }

    fn request(&self) -> (request: Option<Request>) {
        match self.phase {
            ExportPhase::Exporting => {
                let name = path::lossy(&self.dest);
                let output = text::concat("type=tar,dest=", name.as_str());
                let mut args = buildkit::common_args_of(&self.prepared, &self.spec);
                buildkit::push_text(&mut args, "-o");
                buildkit::push_text(&mut args, output.as_str());
                buildkit::push_path(&mut args, &self.prepared.context);
                assert(path::views(args@) =~= export_args(self.prepared@, self.spec@, self.dest@));
                Some(Request::Tool(ToolCall { program: "docker", args, input: None }))
            },
            ExportPhase::Measuring => Some(Request::Stat(path::copy_of(&self.dest))),
            ExportPhase::Finished { .. } | ExportPhase::Failed => None,
        }
    }

    fn resume(self, reply: Reply) -> (next: Export) {
        let mut next = self;
        match (next.phase, reply) {
            (ExportPhase::Exporting, Reply::Output(o)) => {
                next.exported(Ok(o));
            },
            (ExportPhase::Exporting, Reply::Failed(e)) => {
                next.exported(Err(e));
            },
            (ExportPhase::Measuring, Reply::Stat(s)) => {
                next.phase = ExportPhase::Finished { bytes: s.len };
            },
            (ExportPhase::Measuring, Reply::Failed(e)) => {
                next.failure = Some(Error::Io(e));
                next.phase = ExportPhase::Failed;
            },
            _ => {},
        }
        next
    }
}

impl Export {
    fn exported(&mut self, run: Result<ToolOutput, IoError>)
        ensures
            final(self)@ == (match host::tool_result(
                "docker"@,
                "docker buildx build -o type=tar"@,
                host::run_view(run),
            ) {
                Ok(_) => old(self)@.to(ExportPhase::Measuring),
                Err(e) => old(self)@.fail(e),
            }),
    {
        match host::judge_tool("docker", "docker buildx build -o type=tar", run) {
            Ok(_) => {
                self.phase = ExportPhase::Measuring;
            },
            Err(e) => {
                self.failure = Some(e);
                self.phase = ExportPhase::Failed;
            },
        }
    }

    /// The size of the archive, or why there is none; nothing while it is
    /// under way.
    pub fn outcome(self) -> (r: Option<Result<u64, Error>>)
        ensures
            match r {
                Some(Ok(n)) => self@.outcome() == Some(Ok::<u64, ErrorView>(n)),
                Some(Err(e)) => self@.outcome() == Some(Err::<u64, ErrorView>(e@)),
                None => self@.outcome() is None,
            },
    {
        match self.phase {
            ExportPhase::Finished { bytes } => Some(Ok(bytes)),
            ExportPhase::Failed => match self.failure {
                Some(e) => Some(Err(e)),
                None => None,
            },
            _ => None,
        }
    }
}

/// Exports the root filesystem of a build as the archive `dest`.
pub fn export_rootfs_tar(p: &Prepared, spec: &BuildSpec, dest: &[u8]) -> (e: Export)
    ensures
        e@ == ExportView::start(p@, spec@, dest@),
{
    Export {
        prepared: p.duplicate(),
        spec: spec.duplicate(),
        dest: path::copy_of(dest),
        phase: ExportPhase::Exporting,
        failure: None,
    }
}

} // verus!
