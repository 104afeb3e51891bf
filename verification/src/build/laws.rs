//! What every build comes to, whatever it meets with: which part of it follows
//! from which answers, and what the result says.

use super::{Build, BuildOutcomeView, BuildPhase, BuildReplyView, BuildRequestView, BuildStepView};
use super::{BuildView, CacheHit};
use crate::buildkit::{ContextView, PreparedView};
use crate::error::ErrorView;
use crate::ext4::sizing::SizePolicy;
use crate::ext4::Ext4OptionsView;
use crate::key::{self, RecipeKeyView};
use crate::number;
use crate::path;
use crate::procedure::{self, asked, happened, Procedure};
use crate::store;
use vstd::prelude::*;
use vstd::utf8::*;

verus! {

// ---------------------------------------------------------------------------
// From the layers to the key
// ---------------------------------------------------------------------------
spec fn knows(s: BuildView, req: BuildRequestView, root: Seq<u8>, ids: Seq<Seq<char>>) -> bool {
    &&& s.req == req
    &&& s.root == root
    &&& s.diff_ids == ids
    &&& s.phase != BuildPhase::Preparing
    &&& s.phase != BuildPhase::Extracting
    &&& s.phase != BuildPhase::Solving
}

proof fn lemma_layers_stay(
    req: BuildRequestView,
    root: Seq<u8>,
    replies: Seq<BuildReplyView>,
    i: int,
    ids: Seq<Seq<char>>,
)
    requires
        0 <= i < replies.len(),
        asked::<Build>(BuildView::start(req, root), replies, i) is Some,
        asked::<Build>(BuildView::start(req, root), replies, i)->0 is Solve,
        replies[i] == BuildReplyView::Layers(ids),
    ensures
        knows(
            procedure::state_given::<Build>(BuildView::start(req, root), replies),
            req,
            root,
            ids,
        ),
    decreases replies.len(),
{
    let start = BuildView::start(req, root);
    let before = replies.drop_last();
    super::lemma_build_run(req, root, before);
    if i == before.len() {
        assert(replies.take(i) =~= before);
    } else {
        assert(before.take(i) =~= replies.take(i));
        lemma_layers_stay(req, root, before, i, ids);
    }
}

/// The layers that BuildKit answers with, all of them and in their order, are
/// what the build is about from then on: the key under which it locks, looks up,
/// stores and publishes is that of these layers and of the size, the label, the
/// journal and the epoch that were asked for; the record and the result list
/// these layers; and the identifier of the filesystem is the first half of the
/// hash that is the key.
pub proof fn lemma_the_key_is_that_of_the_layers(
    req: BuildRequestView,
    root: Seq<u8>,
    replies: Seq<BuildReplyView>,
    i: int,
    ids: Seq<Seq<char>>,
)
    requires
        0 <= i < replies.len(),
        asked::<Build>(BuildView::start(req, root), replies, i) is Some,
        asked::<Build>(BuildView::start(req, root), replies, i)->0 is Solve,
        replies[i] == BuildReplyView::Layers(ids),
    ensures
        ({
            let s = procedure::state_given::<Build>(BuildView::start(req, root), replies);
            let recipe = RecipeKeyView {
                diff_ids: ids,
                size_policy: match req.ext4.size {
                    SizePolicy::Fixed(n) => "fixed:"@ + number::decimal(n as nat),
                    SizePolicy::FromTar { .. } => "auto"@,
                },
                label: req.ext4.label,
                journal: req.ext4.journal,
                epoch_secs: req.ext4.epoch_secs,
            };
            let id = recipe.digest();
            &&& Build::wants(s) matches Some(BuildStepView::Lock { key }) ==> key == id
            &&& Build::wants(s) matches Some(BuildStepView::Get { key }) ==> key == id
            &&& Build::wants(s) matches Some(BuildStepView::Install { key, .. }) ==> key == id
            &&& Build::wants(s) matches Some(BuildStepView::Put { key, diff_ids, .. }) ==> key == id
                && diff_ids == ids
            &&& Build::wants(s) matches Some(BuildStepView::Write { options, .. })
                ==> options.uuid == Some(key::sha256_of(recipe.preimage()).take(16))
            &&& s.outcome() matches Some(Ok(o)) ==> o.key == id && o.diff_ids == ids
            &&& !(Build::wants(s) matches Some(BuildStepView::Solve { .. }))
            &&& !(Build::wants(s) matches Some(BuildStepView::Prepare { .. }))
        }),
{
    lemma_layers_stay(req, root, replies, i, ids);
}

/// Builds to other layers, or with a size, a label, a journal or an epoch that
/// differ, never look at each other's images, unless two different byte strings
/// have one hash.
pub proof fn lemma_other_layers_have_another_key(
    req: BuildRequestView,
    other: BuildRequestView,
    root: Seq<u8>,
    replies: Seq<BuildReplyView>,
    more: Seq<BuildReplyView>,
    i: int,
    j: int,
    ids: Seq<Seq<char>>,
    other_ids: Seq<Seq<char>>,
)
    requires
        0 <= i < replies.len(),
        asked::<Build>(BuildView::start(req, root), replies, i) is Some,
        asked::<Build>(BuildView::start(req, root), replies, i)->0 is Solve,
        replies[i] == BuildReplyView::Layers(ids),
        0 <= j < more.len(),
        asked::<Build>(BuildView::start(other, root), more, j) is Some,
        asked::<Build>(BuildView::start(other, root), more, j)->0 is Solve,
        more[j] == BuildReplyView::Layers(other_ids),
        ids != other_ids || req.ext4.label != other.ext4.label || req.ext4.journal
            != other.ext4.journal || req.ext4.epoch_secs != other.ext4.epoch_secs,
    ensures
        ({
            let s = procedure::state_given::<Build>(BuildView::start(req, root), replies);
            let t = procedure::state_given::<Build>(BuildView::start(other, root), more);
            let collide = exists|x: Seq<u8>, y: Seq<u8>|
                x != y && #[trigger] key::sha256_of(x) == #[trigger] key::sha256_of(y);
            &&& (Build::wants(s), Build::wants(t)) matches (
                Some(BuildStepView::Get { key: a }),
                Some(BuildStepView::Get { key: b }),
            ) ==> a != b || collide
            &&& (s.outcome(), t.outcome()) matches (Some(Ok(a)), Some(Ok(b))) ==> a.key != b.key
                || collide
        }),
{
    lemma_layers_stay(req, root, replies, i, ids);
    lemma_layers_stay(other, root, more, j, other_ids);
    let s = procedure::state_given::<Build>(BuildView::start(req, root), replies);
    let t = procedure::state_given::<Build>(BuildView::start(other, root), more);
    key::lemma_key_is_hash(s.recipe(), t.recipe());
    if s.key() == t.key() && s.recipe().preimage() == t.recipe().preimage() {
        super::lemma_keys_tell_builds_apart(ids, req.ext4, other_ids, other.ext4);
    }
}

// ---------------------------------------------------------------------------
// From one part to the next
// ---------------------------------------------------------------------------
/// Whether an image is written as it was asked for: with this label, journal,
/// epoch and strictness, and with this size, or one that follows from the size
/// of the archive.
pub open spec fn as_asked_for(
    options: Ext4OptionsView,
    asked: Ext4OptionsView,
    tar_bytes: u64,
) -> bool {
    &&& options.label == asked.label
    &&& options.journal == asked.journal
    &&& options.strict_special_files == asked.strict_special_files
    &&& options.epoch_secs == asked.epoch_secs
    &&& asked.size matches SizePolicy::Fixed(n) ==> options.size == SizePolicy::Fixed(n)
    &&& asked.size is FromTar ==> options.size == (SizePolicy::FromTar { tar_bytes })
}

/// What was asked for, and how it was answered.
pub type Ledger = spec_fn(BuildStepView, BuildReplyView) -> bool;

spec fn looked_up_in_vain(done: Ledger, s: BuildView) -> bool {
    ||| done(BuildStepView::Get { key: s.key() }, BuildReplyView::Found(None))
    ||| s.req.refresh && exists|p: Seq<u8>| #[trigger]
        done(BuildStepView::Get { key: s.key() }, BuildReplyView::Found(Some(p)))
}

spec fn placed(done: Ledger, s: BuildView) -> bool {
    exists|p: Seq<u8>| #[trigger]
        done(BuildStepView::MakeTempDir, BuildReplyView::Place(p)) && s.tar == path::joined(
            p,
            encode_utf8("rootfs.tar"@),
        )
}

spec fn exported(done: Ledger, s: BuildView, n: u64) -> bool {
    done(
        BuildStepView::Export { prepared: s.prepared, spec: s.req.spec, dest: s.tar },
        BuildReplyView::Size(n),
    )
}

spec fn written(done: Ledger, s: BuildView) -> bool {
    exists|n: u64| #[trigger] exported(done, s, n) && written_after(done, s, n)
}

spec fn written_after(done: Ledger, s: BuildView, n: u64) -> bool {
    s.stats is Some && done(
        BuildStepView::Write {
            tar: s.tar,
            out: s.staging(),
            options: super::options_for(s.req.ext4, s.recipe(), n),
        },
        BuildReplyView::Written(s.stats->0),
    )
}

spec fn prepared(done: Ledger, s: BuildView) -> bool {
    done(
        BuildStepView::Prepare { dockerfile: s.req.dockerfile, context: s.req.context },
        BuildReplyView::Prepared(s.prepared),
    )
}

spec fn unpacked(done: Ledger, s: BuildView) -> bool {
    &&& prepared(done, s)
    &&& s.req.context matches ContextView::TarGz(bytes) ==> done(
        BuildStepView::Extract { bytes, dest: s.prepared.context },
        BuildReplyView::Done,
    )
}

spec fn solved(done: Ledger, s: BuildView) -> bool {
    unpacked(done, s) && done(
        BuildStepView::Solve { prepared: s.prepared, spec: s.req.spec },
        BuildReplyView::Layers(s.diff_ids),
    )
}

spec fn locked(done: Ledger, s: BuildView) -> bool {
    solved(done, s) && done(BuildStepView::Lock { key: s.key() }, BuildReplyView::Done)
}

spec fn missed(done: Ledger, s: BuildView) -> bool {
    locked(done, s) && looked_up_in_vain(done, s) && s.cache == CacheHit::Miss
}

spec fn stored(done: Ledger, s: BuildView) -> bool {
    match s.cache {
        CacheHit::Hit => locked(done, s) && !s.req.refresh && s.stats is None && done(
            BuildStepView::Get { key: s.key() },
            BuildReplyView::Found(Some(s.blob)),
        ),
        CacheHit::Miss => missed(done, s) && placed(done, s) && written(done, s) && done(
            BuildStepView::Put { key: s.key(), source: s.staging(), diff_ids: s.diff_ids },
            BuildReplyView::Stored(s.blob),
        ),
    }
}

spec fn measured(done: Ledger, s: BuildView) -> bool {
    stored(done, s) && done(
        BuildStepView::Measure { path: s.blob },
        BuildReplyView::Size(s.size_bytes),
    )
}

spec fn published(done: Ledger, s: BuildView) -> bool {
    measured(done, s) && (match s.req.install_to {
        Some(dest) => s.install is Some && done(
            BuildStepView::Install { key: s.key(), dest },
            BuildReplyView::Installed(s.install->0),
        ),
        None => s.install is None,
    })
}

spec fn broken(done: Ledger, s: BuildView) -> bool {
    s.failure is Some && exists|step: BuildStepView| #[trigger]
        done(step, BuildReplyView::Failed(s.failure->0))
}

spec fn trace_keeps(done: Ledger, s: BuildView) -> bool {
    match s.phase {
        BuildPhase::Preparing => true,
        BuildPhase::Extracting => prepared(done, s),
        BuildPhase::Solving => unpacked(done, s),
        BuildPhase::Locking => solved(done, s),
        BuildPhase::LookingUp => locked(done, s),
        BuildPhase::MakingTemp => missed(done, s),
        BuildPhase::Exporting => missed(done, s) && placed(done, s),
        BuildPhase::Writing { tar_bytes } => missed(done, s) && placed(done, s) && exported(
            done,
            s,
            tar_bytes,
        ),
        BuildPhase::Storing => missed(done, s) && placed(done, s) && written(done, s),
        BuildPhase::Measuring => stored(done, s),
        BuildPhase::Installing => measured(done, s),
        BuildPhase::Finished => published(done, s),
        BuildPhase::Failed => broken(done, s),
    }
}

/// What has happened stays so.
#[verifier::spinoff_prover]
proof fn lemma_done_stays(done: Ledger, more: Ledger, s: BuildView)
    requires
        trace_keeps(done, s),
        forall|step: BuildStepView, reply: BuildReplyView|
            done(step, reply) ==> #[trigger] more(step, reply),
    ensures
        trace_keeps(more, s),
{
    if looked_up_in_vain(done, s) {
        if !done(BuildStepView::Get { key: s.key() }, BuildReplyView::Found(None)) {
            let p = choose|p: Seq<u8>| #[trigger]
                done(BuildStepView::Get { key: s.key() }, BuildReplyView::Found(Some(p)));
            assert(more(BuildStepView::Get { key: s.key() }, BuildReplyView::Found(Some(p))));
        }
        assert(looked_up_in_vain(more, s));
    }
    if placed(done, s) {
        let p = choose|p: Seq<u8>| #[trigger]
            done(BuildStepView::MakeTempDir, BuildReplyView::Place(p)) && s.tar == path::joined(
                p,
                encode_utf8("rootfs.tar"@),
            );
        assert(more(BuildStepView::MakeTempDir, BuildReplyView::Place(p)));
        assert(placed(more, s));
    }
    if written(done, s) {
        let n = choose|n: u64| #[trigger] exported(done, s, n) && written_after(done, s, n);
        assert(exported(more, s, n) && written_after(more, s, n));
        assert(written(more, s));
    }
    if broken(done, s) {
        let step = choose|step: BuildStepView| #[trigger]
            done(step, BuildReplyView::Failed(s.failure->0));
        assert(more(step, BuildReplyView::Failed(s.failure->0)));
        assert(broken(more, s));
    }
}

#[verifier::spinoff_prover]
#[verifier::rlimit(40)]
proof fn lemma_trace_step(start: BuildView, done: Ledger, s: BuildView, reply: BuildReplyView)
    requires
        super::build_keeps(start, s),
        trace_keeps(done, s),
        Build::wants(s) matches Some(step) ==> done(step, reply),
    ensures
        trace_keeps(done, Build::after(s, reply)),
{
    let next = Build::after(s, reply);
    if let BuildReplyView::Failed(e) = reply {
        if s.phase != BuildPhase::Finished && s.phase != BuildPhase::Failed && s.phase
            != BuildPhase::LookingUp {
            assert(done(Build::wants(s)->0, reply));
            assert(broken(done, next));
        }
    } else {
        match s.phase {
            BuildPhase::LookingUp => {
                if let BuildReplyView::Found(found) = reply {
                    assert(done(BuildStepView::Get { key: s.key() }, reply));
                    assert(locked(done, next));
                    if next.phase == BuildPhase::MakingTemp {
                        assert(looked_up_in_vain(done, next));
                    }
                }
            },
            BuildPhase::MakingTemp => {
                if let BuildReplyView::Place(p) = reply {
                    assert(done(BuildStepView::MakeTempDir, BuildReplyView::Place(p)));
                    assert(placed(done, next));
                    assert(missed(done, next));
                }
            },
            BuildPhase::Exporting => {
                if let BuildReplyView::Size(n) = reply {
                    assert(exported(done, next, n));
                }
            },
            BuildPhase::Writing { tar_bytes } => {
                if let BuildReplyView::Written(stats) = reply {
                    assert(exported(done, next, tar_bytes));
                    assert(written_after(done, next, tar_bytes));
                    assert(written(done, next));
                    assert(missed(done, next));
                }
            },
            BuildPhase::Storing => {
                if let BuildReplyView::Stored(p) = reply {
                    let n = choose|n: u64| #[trigger]
                        exported(done, s, n) && written_after(done, s, n);
                    assert(exported(done, next, n) && written_after(done, next, n));
                    assert(written(done, next));
                    assert(missed(done, next));
                    assert(stored(done, next));
                }
            },
            BuildPhase::Measuring => {
                if let BuildReplyView::Size(n) = reply {
                    if s.cache == CacheHit::Miss {
                        let n = choose|n: u64| #[trigger]
                            exported(done, s, n) && written_after(done, s, n);
                        assert(exported(done, next, n) && written_after(done, next, n));
                        assert(written(done, next));
                        assert(missed(done, next));
                    }
                    assert(stored(done, next));
                    assert(measured(done, next));
                }
            },
            BuildPhase::Installing => {
                if let BuildReplyView::Installed(kind) = reply {
                    if s.cache == CacheHit::Miss {
                        let n = choose|n: u64| #[trigger]
                            exported(done, s, n) && written_after(done, s, n);
                        assert(exported(done, next, n) && written_after(done, next, n));
                        assert(written(done, next));
                        assert(missed(done, next));
                    }
                    assert(stored(done, next));
                    assert(measured(done, next));
                }
            },
            _ => {},
        }
    }
}

proof fn lemma_trace(req: BuildRequestView, root: Seq<u8>, replies: Seq<BuildReplyView>)
    ensures
        ({
            let start = BuildView::start(req, root);
            let done = |step: BuildStepView, reply: BuildReplyView|
                happened::<Build>(start, replies, step, reply);
            trace_keeps(done, procedure::state_given::<Build>(start, replies))
        }),
    decreases replies.len(),
{
    let start = BuildView::start(req, root);
    let done = |step: BuildStepView, reply: BuildReplyView|
        happened::<Build>(start, replies, step, reply);
    if replies.len() > 0 {
        let before = replies.drop_last();
        let s = procedure::state_given::<Build>(start, before);
        let less = |step: BuildStepView, reply: BuildReplyView|
            happened::<Build>(start, before, step, reply);
        lemma_trace(req, root, before);
        super::lemma_build_run(req, root, before);
        procedure::lemma_happened::<Build>(start, replies);
        lemma_done_stays(less, done, s);
        lemma_trace_step(start, done, s, replies.last());
    }
}

/// Whether what is asked for in a state follows from what was done before.
pub open spec fn follows(
    done: Ledger,
    req: BuildRequestView,
    root: Seq<u8>,
    asked: BuildStepView,
) -> bool {
    let prepare = BuildStepView::Prepare { dockerfile: req.dockerfile, context: req.context };
    match asked {
        BuildStepView::Prepare { dockerfile, context } => dockerfile == req.dockerfile && context
            == req.context,
        BuildStepView::Extract { bytes, dest } => {
            &&& req.context == ContextView::TarGz(bytes)
            &&& exists|p: PreparedView| #[trigger]
                done(prepare, BuildReplyView::Prepared(p)) && dest == p.context
        },
        BuildStepView::Solve { prepared, spec } => {
            &&& spec == req.spec
            &&& done(prepare, BuildReplyView::Prepared(prepared))
            &&& req.context matches ContextView::TarGz(bytes) ==> done(
                BuildStepView::Extract { bytes, dest: prepared.context },
                BuildReplyView::Done,
            )
        },
        BuildStepView::Lock { .. } => exists|p: PreparedView, ids: Seq<Seq<char>>| #[trigger]
            done(
                BuildStepView::Solve { prepared: p, spec: req.spec },
                BuildReplyView::Layers(ids),
            ),
        BuildStepView::Get { key } => done(BuildStepView::Lock { key }, BuildReplyView::Done),
        BuildStepView::MakeTempDir => exists|key: Seq<char>, found: Option<Seq<u8>>| #[trigger]
            done(BuildStepView::Get { key }, BuildReplyView::Found(found)) && (found is None
                || req.refresh),
        BuildStepView::Export { prepared, spec, dest } => {
            &&& exists|ids: Seq<Seq<char>>| #[trigger]
                done(BuildStepView::Solve { prepared, spec }, BuildReplyView::Layers(ids))
            &&& exists|key: Seq<char>, found: Option<Seq<u8>>| #[trigger]
                done(BuildStepView::Get { key }, BuildReplyView::Found(found)) && (found is None
                    || req.refresh)
            &&& exists|p: Seq<u8>| #[trigger]
                done(BuildStepView::MakeTempDir, BuildReplyView::Place(p)) && dest == path::joined(
                    p,
                    encode_utf8("rootfs.tar"@),
                )
        },
        BuildStepView::Write { tar, out, options } => {
            &&& exists|p: PreparedView, n: u64| #[trigger]
                done(
                    BuildStepView::Export { prepared: p, spec: req.spec, dest: tar },
                    BuildReplyView::Size(n),
                ) && as_asked_for(options, req.ext4, n)
            &&& exists|key: Seq<char>| #[trigger]
                done(BuildStepView::Lock { key }, BuildReplyView::Done) && out == store::build_path(
                    root,
                    key,
                )
        },
        BuildStepView::Put { key, source, .. } => {
            &&& done(BuildStepView::Lock { key }, BuildReplyView::Done)
            &&& exists|tar: Seq<u8>, options: Ext4OptionsView, reply: BuildReplyView| #[trigger]
                done(BuildStepView::Write { tar, out: source, options }, reply) && reply is Written
        },
        BuildStepView::Measure { path } => {
            ||| !req.refresh && exists|key: Seq<char>| #[trigger]
                done(BuildStepView::Get { key }, BuildReplyView::Found(Some(path)))
            ||| exists|step: BuildStepView| #[trigger]
                done(step, BuildReplyView::Stored(path)) && step is Put
        },
        BuildStepView::Install { key, dest } => {
            &&& req.install_to == Some(dest)
            &&& done(BuildStepView::Lock { key }, BuildReplyView::Done)
            &&& exists|step: BuildStepView, n: u64| #[trigger]
                done(step, BuildReplyView::Size(n)) && step is Measure
        },
    }
}

/// Whatever a build asks for follows from what it was told before. What BuildKit
/// is asked about is the prepared Dockerfile and context of the request, once an
/// archive that was given is unpacked. The store is looked at only under the lock
/// of the key. Nothing is made anew unless the look was in vain, or a refresh was
/// asked for; then what is exported is what was solved, what is written is the
/// archive that was exported, in the way that was asked for, what is stored is
/// what was written, and what is measured is what was found or stored. Nothing is
/// published but where it was asked for, and after it was measured.
pub proof fn lemma_each_part_follows_from_those_before(
    req: BuildRequestView,
    root: Seq<u8>,
    replies: Seq<BuildReplyView>,
    done: Ledger,
)
    requires
        forall|step: BuildStepView, reply: BuildReplyView| #[trigger]
            done(step, reply) == happened::<Build>(
                BuildView::start(req, root),
                replies,
                step,
                reply,
            ),
    ensures
        ({
            let s = procedure::state_given::<Build>(BuildView::start(req, root), replies);
            match Build::wants(s) {
                Some(asked) => follows(done, req, root, asked),
                None => s.outcome() is Some,
            }
        }),
{
    lemma_trace(req, root, replies);
    super::lemma_build_run(req, root, replies);
    let start = BuildView::start(req, root);
    let s = procedure::state_given::<Build>(start, replies);
    let all = |step: BuildStepView, reply: BuildReplyView|
        happened::<Build>(start, replies, step, reply);
    lemma_done_stays(all, done, s);
    lemma_parts_follow(req, root, done, s);
}

#[verifier::spinoff_prover]
#[verifier::rlimit(60)]
proof fn lemma_parts_follow(req: BuildRequestView, root: Seq<u8>, done: Ledger, s: BuildView)
    requires
        s.req == req,
        s.root == root,
        super::build_keeps(BuildView::start(req, root), s),
        trace_keeps(done, s),
    ensures
        match Build::wants(s) {
            Some(asked) => follows(done, req, root, asked),
            None => s.outcome() is Some,
        },
{
    match s.phase {
        BuildPhase::Writing { tar_bytes } => {
            assert(exported(done, s, tar_bytes));
            assert(done(
                BuildStepView::Export { prepared: s.prepared, spec: req.spec, dest: s.tar },
                BuildReplyView::Size(tar_bytes),
            ));
            assert(done(BuildStepView::Lock { key: s.key() }, BuildReplyView::Done));
            let options = super::options_for(req.ext4, s.recipe(), tar_bytes);
            assert(as_asked_for(options, req.ext4, tar_bytes));
            if let Some(BuildStepView::Write { tar, out, options: given }) = Build::wants(s) {
                assert(done(
                    BuildStepView::Export { prepared: s.prepared, spec: req.spec, dest: tar },
                    BuildReplyView::Size(tar_bytes),
                ));
                assert(as_asked_for(given, req.ext4, tar_bytes));
                assert(exists|key: Seq<char>| #[trigger]
                    done(BuildStepView::Lock { key }, BuildReplyView::Done) && out
                        == store::build_path(root, key));
            }
        },
        BuildPhase::Storing => {
            let n = choose|n: u64| #[trigger] exported(done, s, n) && written_after(done, s, n);
            let options = super::options_for(s.req.ext4, s.recipe(), n);
            let reply = BuildReplyView::Written(s.stats->0);
            if let Some(BuildStepView::Put { source, .. }) = Build::wants(s) {
                assert(source == s.staging());
                assert(done(BuildStepView::Write { tar: s.tar, out: source, options }, reply));
                assert(exists|tar: Seq<u8>, options: Ext4OptionsView, reply: BuildReplyView|
                    #[trigger]
                    done(BuildStepView::Write { tar, out: source, options }, reply)
                        && reply is Written);
            }
        },
        BuildPhase::Measuring => {
            if s.cache == CacheHit::Miss {
                assert(done(
                    BuildStepView::Put {
                        key: s.key(),
                        source: s.staging(),
                        diff_ids: s.diff_ids,
                    },
                    BuildReplyView::Stored(s.blob),
                ));
            } else {
                assert(done(
                    BuildStepView::Get { key: s.key() },
                    BuildReplyView::Found(Some(s.blob)),
                ));
            }
        },
        BuildPhase::Installing => {
            assert(done(
                BuildStepView::Measure { path: s.blob },
                BuildReplyView::Size(s.size_bytes),
            ));
        },
        BuildPhase::MakingTemp | BuildPhase::Exporting => {
            if !done(BuildStepView::Get { key: s.key() }, BuildReplyView::Found(None)) {
                let p = choose|p: Seq<u8>| #[trigger]
                    done(BuildStepView::Get { key: s.key() }, BuildReplyView::Found(Some(p)));
                assert(done(BuildStepView::Get { key: s.key() }, BuildReplyView::Found(Some(p))));
            }
            assert(done(
                BuildStepView::Solve { prepared: s.prepared, spec: s.req.spec },
                BuildReplyView::Layers(s.diff_ids),
            ));
        },
        BuildPhase::Locking => {
            assert(done(
                BuildStepView::Solve { prepared: s.prepared, spec: s.req.spec },
                BuildReplyView::Layers(s.diff_ids),
            ));
        },
        BuildPhase::Extracting => {
            assert(done(
                BuildStepView::Prepare { dockerfile: req.dockerfile, context: req.context },
                BuildReplyView::Prepared(s.prepared),
            ));
        },
        _ => {},
    }
}

/// What a build reports is what it was told. A hit is an image that the store
/// had, without a refresh, and is not written; a miss is one that was written,
/// with these counts, and stored. The size is that of this image, and the place
/// is where it was published, in the way that was told, or else where it is
/// stored. A failure is the one that was met with.
pub proof fn lemma_the_result_is_what_was_told(
    req: BuildRequestView,
    root: Seq<u8>,
    replies: Seq<BuildReplyView>,
    done: Ledger,
)
    requires
        forall|step: BuildStepView, reply: BuildReplyView| #[trigger]
            done(step, reply) == happened::<Build>(
                BuildView::start(req, root),
                replies,
                step,
                reply,
            ),
    ensures
        ({
            let s = procedure::state_given::<Build>(BuildView::start(req, root), replies);
            &&& s.outcome() matches Some(Ok(o)) ==> {
                &&& exists|p: PreparedView| #[trigger]
                    done(
                        BuildStepView::Solve { prepared: p, spec: req.spec },
                        BuildReplyView::Layers(o.diff_ids),
                    )
                &&& done(BuildStepView::Lock { key: o.key }, BuildReplyView::Done)
                &&& exists|blob: Seq<u8>|
                    {
                        &&& #[trigger] done(
                            BuildStepView::Measure { path: blob },
                            BuildReplyView::Size(o.size_bytes),
                        )
                        &&& o.cache == CacheHit::Hit ==> !req.refresh && o.stats is None && done(
                            BuildStepView::Get { key: o.key },
                            BuildReplyView::Found(Some(blob)),
                        )
                        &&& o.cache == CacheHit::Miss ==> exists|source: Seq<u8>| #[trigger]
                            done(
                                BuildStepView::Put { key: o.key, source, diff_ids: o.diff_ids },
                                BuildReplyView::Stored(blob),
                            )
                        &&& o.path == (match req.install_to {
                            Some(dest) => dest,
                            None => blob,
                        })
                    }
                &&& o.cache == CacheHit::Miss ==> o.stats is Some && exists|step: BuildStepView|
                    #[trigger] done(step, BuildReplyView::Written(o.stats->0)) && step is Write
                &&& match req.install_to {
                    Some(dest) => o.install is Some && done(
                        BuildStepView::Install { key: o.key, dest },
                        BuildReplyView::Installed(o.install->0),
                    ),
                    None => o.install is None,
                }
            }
            &&& s.outcome() matches Some(Err(e)) ==> exists|step: BuildStepView| #[trigger]
                done(step, BuildReplyView::Failed(e))
        }),
{
    lemma_trace(req, root, replies);
    super::lemma_build_run(req, root, replies);
    let start = BuildView::start(req, root);
    let s = procedure::state_given::<Build>(start, replies);
    let all = |step: BuildStepView, reply: BuildReplyView|
        happened::<Build>(start, replies, step, reply);
    lemma_done_stays(all, done, s);
    lemma_result_is_told(req, root, done, s);
}

#[verifier::spinoff_prover]
#[verifier::rlimit(60)]
proof fn lemma_result_is_told(req: BuildRequestView, root: Seq<u8>, done: Ledger, s: BuildView)
    requires
        s.req == req,
        s.root == root,
        super::build_keeps(BuildView::start(req, root), s),
        trace_keeps(done, s),
    ensures
        ({
            &&& s.outcome() matches Some(Ok(o)) ==> {
                &&& exists|p: PreparedView| #[trigger]
                    done(
                        BuildStepView::Solve { prepared: p, spec: req.spec },
                        BuildReplyView::Layers(o.diff_ids),
                    )
                &&& done(BuildStepView::Lock { key: o.key }, BuildReplyView::Done)
                &&& exists|blob: Seq<u8>|
                    {
                        &&& #[trigger] done(
                            BuildStepView::Measure { path: blob },
                            BuildReplyView::Size(o.size_bytes),
                        )
                        &&& o.cache == CacheHit::Hit ==> !req.refresh && o.stats is None && done(
                            BuildStepView::Get { key: o.key },
                            BuildReplyView::Found(Some(blob)),
                        )
                        &&& o.cache == CacheHit::Miss ==> exists|source: Seq<u8>| #[trigger]
                            done(
                                BuildStepView::Put { key: o.key, source, diff_ids: o.diff_ids },
                                BuildReplyView::Stored(blob),
                            )
                        &&& o.path == (match req.install_to {
                            Some(dest) => dest,
                            None => blob,
                        })
                    }
                &&& o.cache == CacheHit::Miss ==> o.stats is Some && exists|step: BuildStepView|
                    #[trigger] done(step, BuildReplyView::Written(o.stats->0)) && step is Write
                &&& match req.install_to {
                    Some(dest) => o.install is Some && done(
                        BuildStepView::Install { key: o.key, dest },
                        BuildReplyView::Installed(o.install->0),
                    ),
                    None => o.install is None,
                }
            }
            &&& s.outcome() matches Some(Err(e)) ==> exists|step: BuildStepView| #[trigger]
                done(step, BuildReplyView::Failed(e))
        }),
{
    if s.phase == BuildPhase::Finished {
        assert(done(
            BuildStepView::Solve { prepared: s.prepared, spec: s.req.spec },
            BuildReplyView::Layers(s.diff_ids),
        ));
        let o = s.outcome()->0->Ok_0;
        assert(done(
            BuildStepView::Solve { prepared: s.prepared, spec: req.spec },
            BuildReplyView::Layers(o.diff_ids),
        ));
        assert(done(BuildStepView::Measure { path: s.blob }, BuildReplyView::Size(o.size_bytes)));
        assert(done(BuildStepView::Lock { key: o.key }, BuildReplyView::Done));
        if o.cache == CacheHit::Hit {
            assert(done(
                BuildStepView::Get { key: o.key },
                BuildReplyView::Found(Some(s.blob)),
            ));
        }
        if let Some(dest) = req.install_to {
            assert(done(
                BuildStepView::Install { key: o.key, dest },
                BuildReplyView::Installed(o.install->0),
            ));
        }
        if s.cache == CacheHit::Miss {
            assert(done(
                BuildStepView::Put { key: o.key, source: s.staging(), diff_ids: o.diff_ids },
                BuildReplyView::Stored(s.blob),
            ));
            let n = choose|n: u64| #[trigger] exported(done, s, n) && written_after(done, s, n);
            assert(done(
                BuildStepView::Write {
                    tar: s.tar,
                    out: s.staging(),
                    options: super::options_for(s.req.ext4, s.recipe(), n),
                },
                BuildReplyView::Written(o.stats->0),
            ));
        }
    }
}

/// A failure of any part but the look into the store ends the build with just
/// this failure, and nothing more is asked for. The look itself cannot fail: such
/// an answer leaves the question open.
pub proof fn lemma_failures_end_the_build(s: BuildView, e: ErrorView)
    requires
        Build::wants(s) is Some,
    ensures
        ({
            let next = Build::after(s, BuildReplyView::Failed(e));
            if Build::wants(s)->0 is Get {
                next == s
            } else {
                &&& next.outcome() == Some(Err::<BuildOutcomeView, ErrorView>(e))
                &&& Build::wants(next) is None
            }
        }),
{
}

/// Everything goes on: from any state, the answer to the last question leads to
/// the next question or to the end. After preparing, an archive is unpacked if
/// one was given; then the layers are asked for, the key is locked and looked up.
/// What is found ends the search unless a refresh is asked for; otherwise the
/// root filesystem is exported, written and stored. In the end the image is
/// measured, and published if that is asked for.
pub proof fn lemma_a_build_goes_on(s: BuildView, reply: BuildReplyView)
    requires
        Build::wants(s) is Some,
    ensures
        ({
            let next = Build::after(s, reply);
            let wants = Build::wants(next);
            match (Build::wants(s)->0, reply) {
                (BuildStepView::Prepare { .. }, BuildReplyView::Prepared(_)) => if s.req.context
                    is TarGz {
                    wants is Some && wants->0 is Extract
                } else {
                    wants is Some && wants->0 is Solve
                },
                (BuildStepView::Extract { .. }, BuildReplyView::Done) => wants is Some
                    && wants->0 is Solve,
                (BuildStepView::Solve { .. }, BuildReplyView::Layers(_)) => wants is Some
                    && wants->0 is Lock,
                (BuildStepView::Lock { .. }, BuildReplyView::Done) => wants is Some
                    && wants->0 is Get,
                (BuildStepView::Get { .. }, BuildReplyView::Found(found)) => if found is None
                    || s.req.refresh {
                    wants == Some(BuildStepView::MakeTempDir)
                } else {
                    wants == Some(BuildStepView::Measure { path: found->0 })
                },
                (BuildStepView::MakeTempDir, BuildReplyView::Place(_)) => wants is Some
                    && wants->0 is Export,
                (BuildStepView::Export { .. }, BuildReplyView::Size(_)) => wants is Some
                    && wants->0 is Write,
                (BuildStepView::Write { .. }, BuildReplyView::Written(_)) => wants is Some
                    && wants->0 is Put,
                (BuildStepView::Put { .. }, BuildReplyView::Stored(p)) => wants == Some(
                    BuildStepView::Measure { path: p },
                ),
                (BuildStepView::Measure { .. }, BuildReplyView::Size(_)) => if s.req.install_to
                    is Some {
                    wants is Some && wants->0 is Install
                } else {
                    wants is None && next.outcome() is Some && next.outcome()->0 is Ok
                },
                (BuildStepView::Install { .. }, BuildReplyView::Installed(_)) => wants is None
                    && next.outcome() is Some && next.outcome()->0 is Ok,
                (_, BuildReplyView::Failed(_)) => true,
                _ => next == s,
            }
        }),
{
}

} // verus!
