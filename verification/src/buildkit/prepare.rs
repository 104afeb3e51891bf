//! Putting the Dockerfile and the context on disk.

use super::{ContextSource, DockerfileSource, DockerfileView, Prepared, PreparedView};
use crate::error::{self, Error, ErrorView, IoError, IoErrorView, IoKind};
use crate::host::{Reply, ReplyView, Request, RequestView};
use crate::path;
use crate::procedure::Procedure;
use crate::text;
use vstd::prelude::*;
use vstd::string::*;
use vstd::utf8::*;

verus! {

/// How far a [`Prepare`] has come.
#[derive(Debug, Clone, Copy, PartialEq, Eq, Structural)]
pub enum PreparePhase {
    /// Making a directory for what is not on disk yet.
    MakingTemp,
    /// Making an empty context.
    MakingContext,
    /// Is the Dockerfile a file?
    Looking,
    Writing,
    Finished,
    Missing,
    Empty,
    Failed,
}

/// Putting the Dockerfile and the context of a build on disk.
///
/// A Dockerfile that was given as text is written next to the context, never
/// into it, so that a context with a Dockerfile of its own cannot displace it.
#[derive(Debug)]
pub struct Prepare {
    dockerfile: DockerfileSource,
    dir: Option<Vec<u8>>,
    tmp: Option<Vec<u8>>,
    phase: PreparePhase,
    failure: Option<IoError>,
}

/// A [`Prepare`] as a mathematical value.
#[verifier::ext_equal]
pub struct PrepareView {
    pub dockerfile: DockerfileView,
    /// The context, where it is a directory as it stands.
    pub dir: Option<Seq<u8>>,
    pub tmp: Option<Seq<u8>>,
    pub phase: PreparePhase,
    pub failure: Option<IoErrorView>,
}

impl View for Prepare {
    type V = PrepareView;

    closed spec fn view(&self) -> PrepareView {
        PrepareView {
            dockerfile: self.dockerfile@,
            dir: match self.dir {
                Some(d) => Some(d@),
                None => None,
            },
            tmp: match self.tmp {
                Some(t) => Some(t@),
                None => None,
            },
            phase: self.phase,
            failure: error::failure_view(self.failure),
        }
    }
}

/// Whether some text is nothing but white space.
pub open spec fn is_blank(t: Seq<char>) -> bool {
    text::trim(t).len() == 0
}

impl PrepareView {
    /// Before the first step.
    pub open spec fn start(dockerfile: DockerfileView, dir: Option<Seq<u8>>) -> PrepareView {
        let plain = PrepareView {
            dockerfile,
            dir,
            tmp: None,
            phase: PreparePhase::MakingTemp,
            failure: None,
        };
        if dockerfile is Text || dir is None {
            plain
        } else {
            plain.with_context()
        }
    }

    /// A name in the directory that was made.
    pub open spec fn in_tmp(self, name: Seq<char>) -> Seq<u8> {
        path::joined(
            match self.tmp {
                Some(t) => t,
                None => Seq::empty(),
            },
            encode_utf8(name),
        )
    }

    pub open spec fn context(self) -> Seq<u8> {
        match self.dir {
            Some(d) => d,
            None => self.in_tmp("context"@),
        }
    }

    pub open spec fn file(self) -> Seq<u8> {
        match self.dockerfile {
            DockerfileView::Path(p) => p,
            DockerfileView::Text(_) => self.in_tmp("Dockerfile"@),
        }
    }

    pub open spec fn to(self, phase: PreparePhase) -> PrepareView {
        PrepareView { phase, ..self }
    }

    pub open spec fn fail(self, e: IoErrorView) -> PrepareView {
        PrepareView { phase: PreparePhase::Failed, failure: Some(e), ..self }
    }

    /// The directory was made.
    pub open spec fn with_tmp(self, tmp: Seq<u8>) -> PrepareView {
        let made = PrepareView { tmp: Some(tmp), ..self };
        if self.dir is None {
            made.to(PreparePhase::MakingContext)
        } else {
            made.with_context()
        }
    }

    /// The context is there.
    pub open spec fn with_context(self) -> PrepareView {
        match self.dockerfile {
            DockerfileView::Path(_) => self.to(PreparePhase::Looking),
            DockerfileView::Text(t) => if is_blank(t) {
                self.to(PreparePhase::Empty)
            } else {
                self.to(PreparePhase::Writing)
            },
        }
    }

    /// What came of it.
    pub open spec fn outcome(self) -> Option<Result<PreparedView, ErrorView>> {
        match (self.phase, self.failure) {
            (PreparePhase::Finished, _) => Some(
                Ok(
                    PreparedView {
                        dockerfile: self.file(),
                        context: self.context(),
                        tmp: self.tmp,
                    },
                ),
            ),
            (PreparePhase::Missing, _) => Some(
                Err(
                    ErrorView::Io(
                        IoErrorView::own(
                            IoKind::NotFound,
                            "Dockerfile not found at "@ + path::utf8_lossy(self.file()),
                        ),
                    ),
                ),
            ),
            (PreparePhase::Empty, _) => Some(
                Err(
                    ErrorView::Io(
                        IoErrorView::own(IoKind::InvalidInput, "dockerfile is empty"@),
                    ),
                ),
            ),
            (PreparePhase::Failed, Some(e)) => Some(Err(ErrorView::Io(e))),
            _ => None,
        }
    }
}

impl Procedure for Prepare {
    type Request = Request;

    type Reply = Reply;

    open spec fn wants(state: PrepareView) -> Option<RequestView> {
        match (state.phase, state.dockerfile) {
            (PreparePhase::MakingTemp, _) => Some(RequestView::MakeTempDir),
            (PreparePhase::MakingContext, _) => Some(RequestView::MakeDir(state.context())),
            (PreparePhase::Looking, _) => Some(RequestView::IsFile(state.file())),
            (PreparePhase::Writing, DockerfileView::Text(t)) => Some(
                RequestView::WriteFile { path: state.file(), bytes: encode_utf8(t) },
            ),
            _ => None,
        }
    }

    open spec fn after(state: PrepareView, reply: ReplyView) -> PrepareView {
        match (state.phase, reply) {
            (PreparePhase::MakingTemp, ReplyView::Place(p)) => state.with_tmp(p),
            (PreparePhase::MakingTemp, ReplyView::Failed(e)) => state.fail(e),
            (PreparePhase::MakingContext, ReplyView::Done) => state.with_context(),
            (PreparePhase::MakingContext, ReplyView::Failed(e)) => state.fail(e),
            (PreparePhase::Looking, ReplyView::Flag(true)) => state.to(PreparePhase::Finished),
            (PreparePhase::Looking, ReplyView::Flag(false)) => state.to(PreparePhase::Missing),
            (PreparePhase::Writing, ReplyView::Done) => state.to(PreparePhase::Finished),
            (PreparePhase::Writing, ReplyView::Failed(e)) => state.fail(e),
            _ => state,
        }
    }

    fn request(&self) -> (request: Option<Request>) {
        match self.phase {
            PreparePhase::MakingTemp => Some(Request::MakeTempDir),
            PreparePhase::MakingContext => Some(Request::MakeDir(self.context())),
            PreparePhase::Looking => Some(Request::IsFile(self.file())),
            PreparePhase::Writing => match &self.dockerfile {
                DockerfileSource::Text(t) => Some(
                    Request::WriteFile { path: self.file(), bytes: path::bytes_of(t.as_str()) },
                ),
                DockerfileSource::Path(_) => None,
            },
            _ => None,
        }
    }

    fn resume(self, reply: Reply) -> (next: Prepare) {
        let mut next = self;
        match (next.phase, reply) {
            (PreparePhase::MakingTemp, Reply::Place(p)) => {
                next.tmp = Some(p);
                if next.dir.is_none() {
                    next.phase = PreparePhase::MakingContext;
                } else {
                    next.with_context();
                }
            },
            (PreparePhase::MakingContext, Reply::Done) => {
                next.with_context();
            },
            (PreparePhase::Looking, Reply::Flag(there)) => if there {
                next.phase = PreparePhase::Finished;
            } else {
                next.phase = PreparePhase::Missing;
            },
            (PreparePhase::Writing, Reply::Done) => {
                next.phase = PreparePhase::Finished;
            },
            (
                PreparePhase::MakingTemp | PreparePhase::MakingContext | PreparePhase::Writing,
                Reply::Failed(e),
            ) => {
                next.failure = Some(e);
                next.phase = PreparePhase::Failed;
            },
            _ => {},
        }
        next
    }
}

impl Prepare {
    fn in_tmp(&self, name: &str) -> (p: Vec<u8>)
        ensures
            p@ == self@.in_tmp(name@),
    {
        match &self.tmp {
            Some(t) => path::join_text(t, name),
            None => {
                let nowhere: Vec<u8> = Vec::new();
                assert(nowhere@ =~= Seq::empty());
                path::join_text(&nowhere, name)
            },
        }
    }

    fn context(&self) -> (p: Vec<u8>)
        ensures
            p@ == self@.context(),
    {
        match &self.dir {
            Some(d) => path::copy_of(d),
            None => self.in_tmp("context"),
        }
    }

    fn file(&self) -> (p: Vec<u8>)
        ensures
            p@ == self@.file(),
    {
        match &self.dockerfile {
            DockerfileSource::Path(p) => path::copy_of(p),
            DockerfileSource::Text(_) => self.in_tmp("Dockerfile"),
        }
    }

    fn with_context(&mut self)
        ensures
            final(self)@ == old(self)@.with_context(),
    {
        self.phase = match &self.dockerfile {
            DockerfileSource::Path(_) => PreparePhase::Looking,
            DockerfileSource::Text(t) => {
                let body = text::trimmed(t.as_str());
                proof {
                    reveal_strlit("");
                    if body@.len() == 0 {
                        assert(body@ =~= ""@);
                    }
                }
                if text::same(body.as_str(), "") {
                    PreparePhase::Empty
                } else {
                    PreparePhase::Writing
                }
            },
        };
    }

    /// The Dockerfile and the context, or why they are not there; nothing
    /// while it is under way.
    pub fn outcome(self) -> (r: Option<Result<Prepared, Error>>)
        ensures
            match r {
                Some(Ok(p)) => self@.outcome() == Some(Ok::<PreparedView, ErrorView>(p@)),
                Some(Err(e)) => self@.outcome() == Some(Err::<PreparedView, ErrorView>(e@)),
                None => self@.outcome() is None,
            },
    {
        match self.phase {
            PreparePhase::Finished => {
                let dockerfile = self.file();
                let context = self.context();
                Some(Ok(Prepared { dockerfile, context, tmp: self.tmp }))
            },
            PreparePhase::Missing => {
                let name = path::lossy(&self.file());
                Some(
                    Err(
                        Error::Io(
                            IoError::own(
                                IoKind::NotFound,
                                text::concat("Dockerfile not found at ", name.as_str()),
                            ),
                        ),
                    ),
                )
            },
            PreparePhase::Empty => Some(
                Err(
                    Error::Io(
                        IoError::own(IoKind::InvalidInput, "dockerfile is empty".to_owned()),
                    ),
                ),
            ),
            PreparePhase::Failed => match self.failure {
                Some(e) => Some(Err(Error::Io(e))),
                None => None,
            },
            _ => None,
        }
    }
}

/// Puts the Dockerfile and the context of a build on disk. An archive is not
/// unpacked yet: its context is empty.
pub fn prepare(df: &DockerfileSource, ctx: &ContextSource) -> (p: Prepare)
    ensures
        p@ == PrepareView::start(df@, ctx@.dir()),
{
    let dir = match ctx {
        ContextSource::Dir(d) => Some(path::copy_of(d)),
        _ => None,
    };
    let needs_tmp = match df {
        DockerfileSource::Text(_) => true,
        DockerfileSource::Path(_) => dir.is_none(),
    };
    let mut p = Prepare {
        dockerfile: df.duplicate(),
        dir,
        tmp: None,
        phase: PreparePhase::MakingTemp,
        failure: None,
    };
    if !needs_tmp {
        p.with_context();
    }
    p
}

/// A Dockerfile that was given as text is not put into a context that was made
/// for the build: the name of the context is not the beginning of its name.
pub proof fn lemma_dockerfile_is_outside_the_context(state: PrepareView)
    requires
        state.dockerfile is Text,
        state.dir is None,
    ensures
        !state.context().is_prefix_of(state.file()),
{
    let base = match state.tmp {
        Some(t) => t,
        None => Seq::empty(),
    };
    reveal_strlit("context");
    reveal_strlit("Dockerfile");
    is_ascii_chars_encode_utf8("context"@);
    is_ascii_chars_encode_utf8("Dockerfile"@);
    let c = encode_utf8("context"@);
    let d = encode_utf8("Dockerfile"@);
    assert('c' as u8 == 99 && 'D' as u8 == 68);
    assert(c[0] == 99 && d[0] == 68);
    let head = if base.len() == 0 || base.last() == path::SLASH {
        base
    } else {
        base.push(path::SLASH)
    };
    assert(state.context() == head + c);
    assert(state.file() == head + d);
    assert(state.context()[head.len() as int] == 99);
    assert(state.file()[head.len() as int] == 68);
}

} // verus!
