//! What the operations of a store leave alone.

use super::get::{Get, GetView};
use super::install::{self, Install, InstallView};
use super::materialize::{Materialize, MaterializeView};
use super::put::{Put, PutView};
use crate::disk::{Disk, FileId};
use crate::host::{Reply, ReplyView, Request, RequestView};
use crate::procedure::{self, Procedure, Step, World};
use crate::store;
use vstd::prelude::*;

verus! {

/// Whether a request is about this name.
pub open spec fn concerns(request: RequestView, p: Seq<u8>) -> bool {
    match request {
        RequestView::Rename { from, to } => p == from || p == to,
        RequestView::HardLink { from, to } => p == from || p == to,
        RequestView::Remove(q) => p == q,
        RequestView::SetMode { path, .. } => p == path,
        RequestView::SparseCopy { from, to } => p == from || p == to,
        RequestView::PlainCopy { from, to } => p == from || p == to,
        RequestView::Clone { from, to } => p == from || p == to,
        RequestView::WriteEntry { path, .. } => p == path,
        _ => false,
    }
}

/// Whether one of some names leads to a file.
pub open spec fn leads_to(disk: Disk, names: Set<Seq<u8>>, id: FileId) -> bool {
    exists|p: Seq<u8>| #[trigger] names.contains(p) && disk.holds(p) && disk.names[p] == id
}

/// Whether nothing has changed but for some names and the files that they led
/// to.
pub open spec fn kept_outside(names: Set<Seq<u8>>, before: Disk, after: Disk) -> bool {
    &&& forall|p: Seq<u8>| !names.contains(p) ==> #[trigger] after.holds(p) == before.holds(p)
    &&& forall|p: Seq<u8>|
        !names.contains(p) && #[trigger] before.holds(p) ==> after.names[p] == before.names[p]
    &&& forall|id: FileId| #[trigger]
        before.files.contains_key(id) ==> after.files.contains_key(id)
    &&& forall|id: FileId|
        before.files.contains_key(id) && !leads_to(before, names, id) ==> #[trigger]
            after.files[id] == before.files[id] && !leads_to(after, names, id)
}

#[verifier::rlimit(30)]
proof fn lemma_step_keeps(
    names: Set<Seq<u8>>,
    disk: Disk,
    w: Disk,
    request: RequestView,
    step: Step<Disk>,
)
    requires
        kept_outside(names, disk, w),
        w.allows(request, step.reply, step.world),
        forall|p: Seq<u8>| concerns(request, p) ==> #[trigger] names.contains(p),
    ensures
        kept_outside(names, disk, step.world),
{
    let after = step.world;
    assert forall|p: Seq<u8>| !names.contains(p) implies #[trigger] after.holds(p) == w.holds(p)
        && (w.holds(p) ==> after.names[p] == w.names[p]) by {
        assert(!concerns(request, p));
    }
    assert forall|id: FileId| #[trigger]
        w.files.contains_key(id) implies after.files.contains_key(id) by {}
    assert forall|p: Seq<u8>|
        !names.contains(p) implies #[trigger] after.holds(p) == disk.holds(p) by {
        assert(after.holds(p) == w.holds(p));
    }
    assert forall|p: Seq<u8>|
        !names.contains(p) && #[trigger] disk.holds(p) implies after.names[p] == disk.names[p] by {
        assert(w.holds(p) == disk.holds(p));
        assert(after.holds(p) == w.holds(p));
    }
    assert forall|id: FileId| #[trigger]
        disk.files.contains_key(id) implies after.files.contains_key(id) by {
        assert(w.files.contains_key(id));
    }
    assert forall|id: FileId|
        disk.files.contains_key(id) && !leads_to(disk, names, id) implies #[trigger]
        after.files[id] == disk.files[id] && !leads_to(after, names, id) by {
        assert(w.files[id] == disk.files[id]);
        assert(!leads_to(w, names, id));
        if leads_to(after, names, id) {
            let p = choose|p: Seq<u8>| #[trigger]
                names.contains(p) && after.holds(p) && after.names[p] == id;
            assert(names.contains(p));
            match request {
                RequestView::Rename { from, to } => {
                    assert(names.contains(from));
                },
                RequestView::HardLink { from, to } => {
                    assert(names.contains(from));
                },
                _ => {},
            }
        }
        match request {
            RequestView::SetMode { path, .. } => {
                assert(names.contains(path));
            },
            RequestView::WriteEntry { path, .. } => {
                assert(names.contains(path));
            },
            RequestView::PlainCopy { to, .. } => {
                assert(names.contains(to));
            },
            _ => {},
        }
    }
}

proof fn lemma_run_keeps<P: Procedure<Request = Request, Reply = Reply>>(
    names: Set<Seq<u8>>,
    inv: spec_fn(<P as View>::V) -> bool,
    state: <P as View>::V,
    disk: Disk,
    steps: Seq<Step<Disk>>,
)
    requires
        procedure::runs::<Disk, P>(state, disk, steps),
        inv(state),
        forall|s: <P as View>::V, reply: ReplyView| inv(s) ==> inv(#[trigger] P::after(s, reply)),
        forall|s: <P as View>::V, p: Seq<u8>|
            #![trigger names.contains(p), inv(s)]
            inv(s) && (P::wants(s) matches Some(r) && concerns(r, p)) ==> names.contains(p),
    ensures
        kept_outside(names, disk, procedure::world_after(disk, steps)),
        inv(procedure::state_after::<Disk, P>(state, steps)),
    decreases steps.len(),
{
    if steps.len() > 0 {
        let before = steps.drop_last();
        lemma_run_keeps::<P>(names, inv, state, disk, before);
        let s = procedure::state_after::<Disk, P>(state, before);
        let w = procedure::world_after(disk, before);
        let request = P::wants(s)->0;
        assert(inv(s));
        assert forall|p: Seq<u8>| concerns(request, p) implies #[trigger] names.contains(p) by {
            assert(inv(s));
        }
        lemma_step_keeps(names, disk, w, request, steps.last());
    }
}

/// The names that a put is about.
pub open spec fn put_names(root: Seq<u8>, key: Seq<char>, source: Seq<u8>) -> Set<Seq<u8>> {
    set![
        source,
        store::blob_path(root, key),
        store::copy_path(root, key),
        store::meta_path(root, key),
        store::meta_staging_path(root, key),
    ]
}

/// A put changes nothing but its source, the image and the record of its key,
/// and the names under which these are prepared. So a published image stays
/// as it is, even when its key is put anew.
pub proof fn lemma_put_keeps_the_rest(
    root: Seq<u8>,
    key: Seq<char>,
    source: Seq<u8>,
    diff_ids: Seq<Seq<char>>,
    disk: Disk,
    steps: Seq<Step<Disk>>,
)
    requires
        procedure::runs::<Disk, Put>(PutView::start(root, key, source, diff_ids), disk, steps),
    ensures
        kept_outside(
            put_names(root, key, source),
            disk,
            procedure::world_after(disk, steps),
        ),
{
    let inv = |s: PutView| s.root == root && s.key == key && s.source == source;
    lemma_run_keeps::<Put>(
        put_names(root, key, source),
        inv,
        PutView::start(root, key, source, diff_ids),
        disk,
        steps,
    );
}

/// Whether a name is one under which a record is kept or prepared.
pub open spec fn is_record_name(root: Seq<u8>, p: Seq<u8>) -> bool {
    exists|k: Seq<char>|
        p == #[trigger] store::meta_path(root, k) || p == store::meta_staging_path(root, k)
}

/// The names of the records of a store.
pub open spec fn record_names(root: Seq<u8>) -> Set<Seq<u8>> {
    Set::new(|p: Seq<u8>| is_record_name(root, p))
}

/// A get changes nothing but records.
pub proof fn lemma_get_keeps_the_rest(
    root: Seq<u8>,
    key: Seq<char>,
    disk: Disk,
    steps: Seq<Step<Disk>>,
)
    requires
        procedure::runs::<Disk, Get>(GetView::start(root, key), disk, steps),
    ensures
        kept_outside(record_names(root), disk, procedure::world_after(disk, steps)),
{
    let inv = |s: GetView| s.root == root;
    let names = record_names(root);
    assert forall|s: GetView, p: Seq<u8>|
        #![trigger names.contains(p), inv(s)]
        inv(s) && (Get::wants(s) matches Some(r) && concerns(r, p)) implies names.contains(p) by {
        let k = s.record->0.key;
        assert(p == store::meta_path(root, k) || p == store::meta_staging_path(root, k));
        assert(is_record_name(root, p));
    }
    lemma_run_keeps::<Get>(names, inv, GetView::start(root, key), disk, steps);
}

/// An install changes no name but its destination and the one beside it under
/// which that is prepared, and nothing that any file holds. So every other name
/// is what it was, the image and what links to it included.
pub proof fn lemma_install_keeps_the_rest(
    root: Seq<u8>,
    key: Seq<char>,
    dest: Seq<u8>,
    disk: Disk,
    steps: Seq<Step<Disk>>,
)
    requires
        procedure::runs::<Disk, Install>(InstallView::start(root, key, dest), disk, steps),
    ensures
        ({
            let end = procedure::world_after(disk, steps);
            &&& forall|p: Seq<u8>|
                p != dest && p != install::part_path(dest) ==> {
                    &&& #[trigger] end.holds(p) == disk.holds(p)
                    &&& disk.holds(p) ==> end.names[p] == disk.names[p]
                }
            &&& forall|id: FileId| #[trigger]
                disk.files.contains_key(id) ==> end.files.contains_key(id) && end.files[id]
                    == disk.files[id]
        }),
{
    let start = InstallView::start(root, key, dest);
    let inv = |s: InstallView, w: Disk|
        {
            &&& s.dest == dest
            &&& forall|p: Seq<u8>|
                p != dest && p != install::part_path(dest) ==> {
                    &&& #[trigger] w.holds(p) == disk.holds(p)
                    &&& disk.holds(p) ==> w.names[p] == disk.names[p]
                }
            &&& forall|id: FileId| #[trigger]
                disk.files.contains_key(id) ==> w.files.contains_key(id) && w.files[id]
                    == disk.files[id]
        };
    assert forall|s: InstallView, w: Disk, step: Step<Disk>| #[trigger]
        procedure::can_step::<Disk, Install>(s, w, step) && inv(s, w) implies inv(
        Install::after(s, step.reply),
        step.world,
    ) by {
        let after = step.world;
        assert forall|p: Seq<u8>| p != dest && p != install::part_path(dest) implies {
            &&& #[trigger] after.holds(p) == disk.holds(p)
            &&& disk.holds(p) ==> after.names[p] == disk.names[p]
        } by {
            assert(w.holds(p) == disk.holds(p));
        }
    }
    procedure::lemma_invariant::<Disk, Install>(inv, start, disk, steps);
}

/// Materializing changes nothing but its destination; that the image stays,
/// see [`super::laws::lemma_materialize_copies`].
pub proof fn lemma_materialize_keeps_the_rest(
    root: Seq<u8>,
    key: Seq<char>,
    dest: Seq<u8>,
    disk: Disk,
    steps: Seq<Step<Disk>>,
)
    requires
        procedure::runs::<Disk, Materialize>(MaterializeView::start(root, key, dest), disk, steps),
    ensures
        kept_outside(
            set![store::blob_path(root, key), dest],
            disk,
            procedure::world_after(disk, steps),
        ),
{
    let inv = |s: MaterializeView| s.root == root && s.key == key && s.dest == dest;
    lemma_run_keeps::<Materialize>(
        set![store::blob_path(root, key), dest],
        inv,
        MaterializeView::start(root, key, dest),
        disk,
        steps,
    );
}

} // verus!
