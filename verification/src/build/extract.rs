//! Unpacking the archive of a context.

use crate::error::{self, Error, ErrorView, IoError, IoErrorView, IoKind};
use crate::path;
use crate::procedure::{self, Procedure};
use vstd::prelude::*;

verus! {

// ---------------------------------------------------------------------------
// What an archive holds
// ---------------------------------------------------------------------------
/// Whether an archive is compressed with gzip: it then starts with two bytes
/// that no plain archive starts with.
pub open spec fn gzipped(bytes: Seq<u8>) -> bool {
    bytes.len() >= 2 && bytes[0] == 0x1f && bytes[1] == 0x8b
}

/// Whether an archive is compressed with gzip.
pub fn is_gzip(bytes: &[u8]) -> (r: bool)
    ensures
        r == gzipped(bytes@),
{
    bytes.len() >= 2 && bytes[0] == 0x1f && bytes[1] == 0x8b
}

/// The names of entries, or why one could not be read, as mathematical values.
pub open spec fn name_views(v: Seq<Result<Vec<u8>, String>>) -> Seq<Result<Seq<u8>, Seq<char>>> {
    v.map_values(
        |r: Result<Vec<u8>, String>|
            match r {
                Ok(p) => Ok::<Seq<u8>, Seq<char>>(p@),
                Err(s) => Err::<Seq<u8>, Seq<char>>(s@),
            },
    )
}

/// The names that `tar::Archive::entries` finds in some bytes, one after the
/// other, and its complaint in place of the first entry that it cannot read.
pub uninterp spec fn tar_names(bytes: Seq<u8>) -> Seq<Result<Seq<u8>, Seq<char>>>;

/// The names that `tar::Archive::entries` finds in what
/// `flate2::read::GzDecoder` makes of some bytes, and the complaint of either in
/// place of the first entry that cannot be read.
pub uninterp spec fn gzip_tar_names(bytes: Seq<u8>) -> Seq<Result<Seq<u8>, Seq<char>>>;

/// `tar::Archive::entries` on some bytes, with `tar::Entry::path_bytes` of each
/// entry: a function of the bytes alone. What it makes of them is left to its
/// name. It adds up lengths as a release build does, where they do not fit into
/// 64 bits.
#[verifier::external_body]
fn plain_names(bytes: &[u8]) -> (v: Vec<Result<Vec<u8>, String>>)
    ensures
        name_views(v@) == tar_names(bytes@),
{
    tar::Archive::new(bytes)
        .entries()
        .map(|es| {
            es.map(|e| e.map(|e| e.path_bytes().into_owned()).map_err(|e| e.to_string())).collect()
        })
        .unwrap_or_else(|e| vec![Err(e.to_string())])
}

/// `tar::Archive::entries` on what `flate2::read::GzDecoder` makes of some
/// bytes, with `tar::Entry::path_bytes` of each entry: a function of the bytes
/// alone. What it makes of them is left to its name. It adds up lengths as a
/// release build does, where they do not fit into 64 bits.
#[verifier::external_body]
fn gzip_names(bytes: &[u8]) -> (v: Vec<Result<Vec<u8>, String>>)
    ensures
        name_views(v@) == gzip_tar_names(bytes@),
{
    tar::Archive::new(flate2::read::GzDecoder::new(bytes))
        .entries()
        .map(|es| {
            es.map(|e| e.map(|e| e.path_bytes().into_owned()).map_err(|e| e.to_string())).collect()
        })
        .unwrap_or_else(|e| vec![Err(e.to_string())])
}

/// The names of the entries of an archive, compressed or not.
pub open spec fn archive_names(bytes: Seq<u8>) -> Seq<Result<Seq<u8>, Seq<char>>> {
    if gzipped(bytes) {
        gzip_tar_names(bytes)
    } else {
        tar_names(bytes)
    }
}

// ---------------------------------------------------------------------------
// What is to be unpacked
// ---------------------------------------------------------------------------
/// Why an entry is not unpacked: its name leaves the context, or it could not
/// be read.
pub open spec fn objection(name: Result<Seq<u8>, Seq<char>>) -> Option<ErrorView> {
    match name {
        Ok(p) => if path::escapes(p) {
            Some(ErrorView::PathEscape { path: p })
        } else {
            None
        },
        Err(s) => Some(ErrorView::Io(IoErrorView::own(IoKind::Other, s))),
    }
}

/// The number of entries in front of the first that is not unpacked.
pub open spec fn harmless(names: Seq<Result<Seq<u8>, Seq<char>>>) -> nat
    decreases names.len(),
{
    if names.len() == 0 || objection(names[0]) is Some {
        0
    } else {
        1 + harmless(names.drop_first())
    }
}

/// What is to be done about an archive.
#[derive(Debug)]
pub struct Plan {
    /// How many of its entries are unpacked, from the first on.
    pub count: usize,
    /// Why the next one is not, if there is one.
    pub refused: Option<Error>,
}

/// A [`Plan`] as a mathematical value.
#[verifier::ext_equal]
pub struct PlanView {
    pub count: nat,
    pub refused: Option<ErrorView>,
}

impl View for Plan {
    type V = PlanView;

    open spec fn view(&self) -> PlanView {
        PlanView { count: self.count as nat, refused: error::error_view(self.refused) }
    }
}

/// What is to be done about an archive with entries of these names: those in
/// front of the first that leaves the context or cannot be read are unpacked,
/// and that one is why it ends there.
pub open spec fn extraction(names: Seq<Result<Seq<u8>, Seq<char>>>) -> PlanView {
    let count = harmless(names);
    PlanView {
        count,
        refused: if count < names.len() {
            objection(names[count as int])
        } else {
            None
        },
    }
}

/// What is in front of the first entry that is not unpacked is unpacked.
pub proof fn lemma_harmless(names: Seq<Result<Seq<u8>, Seq<char>>>)
    ensures
        harmless(names) <= names.len(),
        forall|i: int| 0 <= i < harmless(names) ==> objection(#[trigger] names[i]) is None,
        harmless(names) < names.len() ==> objection(names[harmless(names) as int]) is Some,
    decreases names.len(),
{
    if names.len() > 0 && objection(names[0]) is None {
        let rest = names.drop_first();
        lemma_harmless(rest);
        assert forall|i: int| 0 <= i < harmless(names) implies objection(
            #[trigger] names[i],
        ) is None by {
            if i > 0 {
                assert(names[i] == rest[i - 1]);
            }
        }
        if harmless(names) < names.len() {
            assert(names[harmless(names) as int] == rest[harmless(rest) as int]);
        }
    }
}

/// What is to be done about an archive with entries of these names, see
/// [`extraction`].
pub fn plan_for(names: &[Result<Vec<u8>, String>]) -> (plan: Plan)
    ensures
        plan@ == extraction(name_views(names@)),
{
    let ghost all = name_views(names@);
    let mut count: usize = 0;
    assert(all.skip(0) =~= all);
    while count < names.len()
        invariant
            count <= names@.len(),
            all == name_views(names@),
            harmless(all) == count + harmless(all.skip(count as int)),
        decreases names@.len() - count,
    {
        let ghost rest = all.skip(count as int);
        assert(rest[0] == all[count as int]);
        assert(rest.drop_first() =~= all.skip(count + 1));
        match &names[count] {
            Ok(p) => if path::can_escape(p) {
                return Plan { count, refused: Some(Error::PathEscape { path: path::copy_of(p) }) };
            },
            Err(s) => {
                let e = IoError::own(IoKind::Other, s.clone());
                return Plan { count, refused: Some(Error::Io(e)) };
            },
        }
        count = count + 1;
    }
    Plan { count, refused: None }
}

/// What is to be done about an archive. Whether it is compressed is told by its
/// first bytes.
pub fn plan_extraction(bytes: &[u8]) -> (plan: Plan)
    ensures
        plan@ == extraction(archive_names(bytes@)),
{
    let names = if is_gzip(bytes) {
        gzip_names(bytes)
    } else {
        plain_names(bytes)
    };
    plan_for(&names)
}

// ---------------------------------------------------------------------------
// Unpacking it
// ---------------------------------------------------------------------------
/// One thing to do with the archive of a context.
#[derive(Debug)]
pub enum ExtractRequest {
    /// Unpack the entry at a position of the archive, which is compressed with
    /// gzip or not, below a directory.
    Unpack { gzip: bool, at: usize, dest: Vec<u8> },
}

/// An [`ExtractRequest`] as a mathematical value.
pub enum ExtractRequestView {
    Unpack { gzip: bool, at: usize, dest: Seq<u8> },
}

impl View for ExtractRequest {
    type V = ExtractRequestView;

    open spec fn view(&self) -> ExtractRequestView {
        match self {
            ExtractRequest::Unpack { gzip, at, dest } => ExtractRequestView::Unpack {
                gzip: *gzip,
                at: *at,
                dest: dest@,
            },
        }
    }
}

/// What came of an [`ExtractRequest`].
#[derive(Debug)]
pub enum ExtractReply {
    Done,
    Failed(IoError),
}

/// An [`ExtractReply`] as a mathematical value.
pub enum ExtractReplyView {
    Done,
    Failed(IoErrorView),
}

impl View for ExtractReply {
    type V = ExtractReplyView;

    open spec fn view(&self) -> ExtractReplyView {
        match self {
            ExtractReply::Done => ExtractReplyView::Done,
            ExtractReply::Failed(e) => ExtractReplyView::Failed(e@),
        }
    }
}

/// How far an [`ExtractContext`] has come.
#[derive(Debug, Clone, Copy, PartialEq, Eq, Structural)]
pub enum ExtractPhase {
    Unpacking { at: usize },
    Finished,
    Failed,
}

/// Unpacking the archive of a context, compressed or not, below a directory. An
/// entry that would leave it ends the unpacking before anything of the entry is
/// written.
#[derive(Debug)]
pub struct ExtractContext {
    gzip: bool,
    dest: Vec<u8>,
    count: usize,
    /// Why the archive is not unpacked to its end, or what went wrong.
    failure: Option<Error>,
    phase: ExtractPhase,
}

/// An [`ExtractContext`] as a mathematical value.
#[verifier::ext_equal]
pub struct ExtractView {
    pub gzip: bool,
    pub dest: Seq<u8>,
    pub count: nat,
    pub failure: Option<ErrorView>,
    pub phase: ExtractPhase,
}

impl View for ExtractContext {
    type V = ExtractView;

    closed spec fn view(&self) -> ExtractView {
        ExtractView {
            gzip: self.gzip,
            dest: self.dest@,
            count: self.count as nat,
            failure: error::error_view(self.failure),
            phase: self.phase,
        }
    }
}

impl ExtractView {
    /// Before the first step.
    pub open spec fn start(bytes: Seq<u8>, dest: Seq<u8>) -> ExtractView {
        ExtractView::planned(gzipped(bytes), dest, extraction(archive_names(bytes)))
    }

    /// Before the first step of a plan.
    pub open spec fn planned(gzip: bool, dest: Seq<u8>, plan: PlanView) -> ExtractView {
        ExtractView {
            gzip,
            dest,
            count: plan.count,
            failure: plan.refused,
            phase: ExtractPhase::Finished,
        }.go_on(0)
    }

    /// On to the entry at a position, or behind the last one that is unpacked.
    pub open spec fn go_on(self, at: nat) -> ExtractView {
        ExtractView {
            phase: if at < self.count {
                ExtractPhase::Unpacking { at: at as usize }
            } else if self.failure is Some {
                ExtractPhase::Failed
            } else {
                ExtractPhase::Finished
            },
            ..self
        }
    }

    /// What came of it.
    pub open spec fn outcome(self) -> Option<Result<(), ErrorView>> {
        match (self.phase, self.failure) {
            (ExtractPhase::Finished, _) => Some(Ok(())),
            (ExtractPhase::Failed, Some(e)) => Some(Err(e)),
            _ => None,
        }
    }
}

impl Procedure for ExtractContext {
    type Request = ExtractRequest;

    type Reply = ExtractReply;

    open spec fn wants(state: ExtractView) -> Option<ExtractRequestView> {
        match state.phase {
            ExtractPhase::Unpacking { at } => Some(
                ExtractRequestView::Unpack { gzip: state.gzip, at, dest: state.dest },
            ),
            ExtractPhase::Finished | ExtractPhase::Failed => None,
        }
    }

    open spec fn after(state: ExtractView, reply: ExtractReplyView) -> ExtractView {
        match (state.phase, reply) {
            (ExtractPhase::Unpacking { at }, ExtractReplyView::Done) => if at < state.count {
                state.go_on((at + 1) as nat)
            } else {
                state
            },
            (ExtractPhase::Unpacking { .. }, ExtractReplyView::Failed(e)) => ExtractView {
                phase: ExtractPhase::Failed,
                failure: Some(ErrorView::Io(e)),
                ..state
            },
            _ => state,
        }
    }

    fn request(&self) -> (request: Option<ExtractRequest>) {
        match self.phase {
            ExtractPhase::Unpacking { at } => Some(
                ExtractRequest::Unpack { gzip: self.gzip, at, dest: path::copy_of(&self.dest) },
            ),
            ExtractPhase::Finished | ExtractPhase::Failed => None,
        }
    }

    fn resume(self, reply: ExtractReply) -> (next: ExtractContext) {
        let mut next = self;
        match (next.phase, reply) {
            (ExtractPhase::Unpacking { at }, ExtractReply::Done) => {
                if at < next.count {
                    next.go_on(at + 1);
                }
            },
            (ExtractPhase::Unpacking { .. }, ExtractReply::Failed(e)) => {
                next.failure = Some(Error::Io(e));
                next.phase = ExtractPhase::Failed;
            },
            _ => {},
        }
        next
    }
}

impl ExtractContext {
    fn go_on(&mut self, at: usize)
        ensures
            final(self)@ == old(self)@.go_on(at as nat),
    {
        self.phase = if at < self.count {
            ExtractPhase::Unpacking { at }
        } else if self.failure.is_some() {
            ExtractPhase::Failed
        } else {
            ExtractPhase::Finished
        };
    }

    /// What came of it; nothing while it is under way.
    pub fn outcome(self) -> (r: Option<Result<(), Error>>)
        ensures
            match r {
                Some(Ok(_)) => self@.outcome() == Some(Ok::<(), ErrorView>(())),
                Some(Err(e)) => self@.outcome() == Some(Err::<(), ErrorView>(e@)),
                None => self@.outcome() is None,
            },
    {
        match self.phase {
            ExtractPhase::Finished => Some(Ok(())),
            ExtractPhase::Failed => match self.failure {
                Some(e) => Some(Err(e)),
                None => None,
            },
            _ => None,
        }
    }
}

/// Unpacks what a plan says of an archive, compressed or not, below `dest`.
pub fn carry_out(plan: Plan, gzip: bool, dest: &[u8]) -> (p: ExtractContext)
    ensures
        p@ == ExtractView::planned(gzip, dest@, plan@),
{
    let mut p = ExtractContext {
        gzip,
        dest: path::copy_of(dest),
        count: plan.count,
        failure: plan.refused,
        phase: ExtractPhase::Finished,
    };
    p.go_on(0);
    p
}

/// Unpacks the archive `bytes` below `dest`. Whether it is compressed is told
/// by its first bytes.
pub fn extract_context(bytes: &[u8], dest: &[u8]) -> (p: ExtractContext)
    ensures
        p@ == ExtractView::start(bytes@, dest@),
{
    carry_out(plan_extraction(bytes), is_gzip(bytes), dest)
}

// ---------------------------------------------------------------------------
// What every unpacking keeps to
// ---------------------------------------------------------------------------
spec fn extract_keeps(bytes: Seq<u8>, dest: Seq<u8>, replies: nat, s: ExtractView) -> bool {
    let names = archive_names(bytes);
    let plan = extraction(names);
    &&& s.gzip == gzipped(bytes)
    &&& s.dest == dest
    &&& s.count == plan.count
    &&& s.phase matches ExtractPhase::Unpacking { at } ==> {
        &&& at < plan.count
        &&& at <= replies
        &&& s.failure == plan.refused
    }
    &&& s.phase == ExtractPhase::Finished ==> plan.refused is None && plan.count <= replies
    &&& s.phase == ExtractPhase::Failed ==> s.failure is Some
}

proof fn lemma_extract_run(bytes: Seq<u8>, dest: Seq<u8>, replies: Seq<ExtractReplyView>)
    requires
        harmless(archive_names(bytes)) <= usize::MAX,
    ensures
        extract_keeps(
            bytes,
            dest,
            replies.len(),
            procedure::state_given::<ExtractContext>(ExtractView::start(bytes, dest), replies),
        ),
    decreases replies.len(),
{
    if replies.len() > 0 {
        lemma_extract_run(bytes, dest, replies.drop_last());
    }
}

/// Whatever an archive holds, what is unpacked is one of its entries, below the
/// given directory, and neither that entry nor any in front of it would leave
/// it.
///
/// More entries than a machine can count are left out.
pub proof fn lemma_nothing_leaves_the_context(
    bytes: Seq<u8>,
    dest: Seq<u8>,
    replies: Seq<ExtractReplyView>,
)
    ensures
        harmless(archive_names(bytes)) <= usize::MAX ==> ({
            let s = procedure::state_given::<ExtractContext>(
                ExtractView::start(bytes, dest),
                replies,
            );
            let names = archive_names(bytes);
            ExtractContext::wants(s) matches Some(
                ExtractRequestView::Unpack { gzip, at, dest: below },
            ) ==> {
                &&& gzip == gzipped(bytes)
                &&& below == dest
                &&& at < names.len()
                &&& forall|i: int|
                    0 <= i <= at ==> (#[trigger] names[i] matches Ok(p) && !path::escapes(p))
            }
        }),
{
    let names = archive_names(bytes);
    lemma_harmless(names);
    if harmless(names) <= usize::MAX {
        lemma_extract_run(bytes, dest, replies);
    }
    assert forall|i: int| 0 <= i < harmless(names) implies (#[trigger] names[i] matches Ok(p)
        && !path::escapes(p)) by {
        assert(objection(names[i]) is None);
    }
}

/// An archive with an entry that leaves the context is never unpacked to its
/// end, and one of which every entry can be read and stays inside is refused
/// only for what unpacking it met with. Where the entries in front of the first
/// that leaves it can be unpacked, the failure names that one.
///
/// More entries than a machine can count are left out.
pub proof fn lemma_escapes_end_the_unpacking(
    bytes: Seq<u8>,
    dest: Seq<u8>,
    replies: Seq<ExtractReplyView>,
)
    ensures
        harmless(archive_names(bytes)) <= usize::MAX ==> ({
            let names = archive_names(bytes);
            let done = harmless(names) as int;
            let end = procedure::state_given::<ExtractContext>(
                ExtractView::start(bytes, dest),
                replies,
            );
            let calm = forall|i: int|
                0 <= i < replies.len() ==> #[trigger] replies[i] == ExtractReplyView::Done;
            &&& done < names.len() ==> end.outcome() != Some(Ok::<(), ErrorView>(()))
            &&& calm && replies.len() >= done ==> end.outcome() == Some(
                if done < names.len() {
                    Err::<(), ErrorView>(objection(names[done])->0)
                } else {
                    Ok::<(), ErrorView>(())
                },
            )
        }),
{
    lemma_harmless(archive_names(bytes));
    if harmless(archive_names(bytes)) <= usize::MAX {
        lemma_extract_run(bytes, dest, replies);
        let calm = forall|i: int|
            0 <= i < replies.len() ==> #[trigger] replies[i] == ExtractReplyView::Done;
        if calm {
            lemma_calm(bytes, dest, replies);
        }
    }
}

proof fn lemma_calm(bytes: Seq<u8>, dest: Seq<u8>, replies: Seq<ExtractReplyView>)
    requires
        harmless(archive_names(bytes)) <= usize::MAX,
        forall|i: int| 0 <= i < replies.len() ==> #[trigger] replies[i] == ExtractReplyView::Done,
    ensures
        ({
            let start = ExtractView::start(bytes, dest);
            let done = harmless(archive_names(bytes));
            procedure::state_given::<ExtractContext>(start, replies) == start.go_on(
                if replies.len() < done {
                    replies.len()
                } else {
                    done
                },
            )
        }),
    decreases replies.len(),
{
    if replies.len() > 0 {
        let before = replies.drop_last();
        assert forall|i: int| 0 <= i < before.len() implies #[trigger] before[i]
            == ExtractReplyView::Done by {
            assert(before[i] == replies[i]);
        }
        lemma_calm(bytes, dest, before);
        assert(replies[replies.len() - 1] == ExtractReplyView::Done);
    }
}

/// A plan unpacks every entry in front of the first that cannot be read or that
/// leaves the context, and names that one; with no such entry it unpacks them all
/// and refuses nothing.
pub proof fn lemma_plans_end_at_the_first_objection(names: Seq<Result<Seq<u8>, Seq<char>>>)
    ensures
        ({
            let plan = extraction(names);
            let n = plan.count as int;
            &&& n <= names.len()
            &&& forall|i: int|
                0 <= i < n ==> (#[trigger] names[i] matches Ok(p) && !path::escapes(p))
            &&& n == names.len() ==> plan.refused is None
            &&& n < names.len() ==> match names[n] {
                Ok(p) => path::escapes(p) && plan.refused == Some(
                    ErrorView::PathEscape { path: p },
                ),
                Err(m) => plan.refused matches Some(ErrorView::Io(e)) && e.kind == IoKind::Other
                    && e.message == m,
            }
        }),
{
    lemma_harmless(names);
    assert forall|i: int| 0 <= i < harmless(names) implies (#[trigger] names[i] matches Ok(p)
        && !path::escapes(p)) by {
        assert(objection(names[i]) is None);
    }
}

/// An archive is taken for a compressed one exactly by its first two bytes, and
/// read accordingly.
pub proof fn lemma_compression_is_told_by_two_bytes(bytes: Seq<u8>)
    ensures
        gzipped(bytes) <==> bytes.len() >= 2 && bytes[0] == 31 && bytes[1] == 139,
        gzipped(bytes) ==> archive_names(bytes) == gzip_tar_names(bytes),
        !gzipped(bytes) ==> archive_names(bytes) == tar_names(bytes),
{
}

/// The entries of a plan are unpacked one after the other, each below the given
/// directory; a failure to unpack one ends it with this failure, and behind the
/// last one it ends with what the plan refuses, or well.
pub proof fn lemma_entries_are_unpacked_in_order(
    gzip: bool,
    dest: Seq<u8>,
    plan: PlanView,
    at: usize,
    e: IoErrorView,
)
    requires
        plan.count <= usize::MAX,
    ensures
        ({
            let start = ExtractView::planned(gzip, dest, plan);
            let end = match plan.refused {
                Some(e) => Some(Err::<(), ErrorView>(e)),
                None => Some(Ok::<(), ErrorView>(())),
            };
            let s = ExtractView { phase: ExtractPhase::Unpacking { at }, ..start };
            let next = ExtractContext::after(s, ExtractReplyView::Done);
            let failed = ExtractContext::after(s, ExtractReplyView::Failed(e));
            &&& plan.count == 0 ==> start.outcome() == end && ExtractContext::wants(start) is None
            &&& plan.count > 0 ==> start == (ExtractView {
                phase: ExtractPhase::Unpacking { at: 0 },
                ..start
            })
            &&& ExtractContext::wants(s) == Some(ExtractRequestView::Unpack { gzip, at, dest })
            &&& at + 1 < plan.count ==> next == (ExtractView {
                phase: ExtractPhase::Unpacking { at: (at + 1) as usize },
                ..start
            })
            &&& at + 1 == plan.count ==> next.outcome() == end && ExtractContext::wants(
                next,
            ) is None
            &&& failed.outcome() == Some(Err::<(), ErrorView>(ErrorView::Io(e)))
            &&& ExtractContext::wants(failed) is None
        }),
{
}

} // verus!
