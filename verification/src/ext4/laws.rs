//! What becomes of a whole archive, whatever the writing meets with.

use super::entry::{self, ActionView, NodeKind, TarEntryView};
use super::finish;
use super::writer::{
    PendingLinkView, WriteExt4, WritePhase, WriteView, WriterReplyView, WriterRequestView, SAMPLE,
};
use super::{Ext4OptionsView, Ext4StatsView};
use crate::error::ErrorView;
use crate::host::RequestView;
use crate::key;
use crate::path;
use crate::procedure::{self, Procedure};
use vstd::prelude::*;

verus! {

// ---------------------------------------------------------------------------
// What entries come to
// ---------------------------------------------------------------------------
/// What is decided about an entry.
pub open spec fn decided(e: TarEntryView) -> Result<ActionView, ErrorView> {
    entry::decision(e, entry::header_attributes(e.header))
}

/// Whether an entry stands for something in the image: it is no record about
/// other entries, and not the root.
pub open spec fn stands_for_something(e: TarEntryView) -> bool {
    !entry::is_metadata(entry::kind_of(e.header)) && entry::normalized(e.path) != Ok::<
        Option<Seq<char>>,
        ErrorView,
    >(None)
}

/// How many of some entries stand for something in the image.
pub open spec fn standing(es: Seq<TarEntryView>) -> nat
    decreases es.len(),
{
    if es.len() == 0 {
        0
    } else {
        standing(es.drop_last()) + if stands_for_something(es.last()) {
            1nat
        } else {
            0nat
        }
    }
}

/// The inodes that entries ask for, in order.
pub open spec fn creations(es: Seq<TarEntryView>) -> Seq<WriterRequestView>
    decreases es.len(),
{
    if es.len() == 0 {
        seq![]
    } else {
        match decided(es.last()) {
            Ok(ActionView::Create(n)) => creations(es.drop_last()).push(
                WriterRequestView::Create(n),
            ),
            _ => creations(es.drop_last()),
        }
    }
}

/// The hard links that entries ask for, in order.
pub open spec fn links(es: Seq<TarEntryView>) -> Seq<PendingLinkView>
    decreases es.len(),
{
    if es.len() == 0 {
        seq![]
    } else {
        match decided(es.last()) {
            Ok(ActionView::Link { link, target }) => links(es.drop_last()).push(
                PendingLinkView { link, target },
            ),
            _ => links(es.drop_last()),
        }
    }
}

/// The requests for hard links.
pub open spec fn link_requests(v: Seq<PendingLinkView>) -> Seq<WriterRequestView> {
    v.map_values(|l: PendingLinkView| WriterRequestView::Link { link: l.link, target: l.target })
}

/// The names of the entries that cannot be in an image, in order.
pub open spec fn specials(es: Seq<TarEntryView>) -> Seq<Seq<u8>>
    decreases es.len(),
{
    if es.len() == 0 {
        seq![]
    } else {
        match decided(es.last()) {
            Ok(ActionView::Special) => specials(es.drop_last()).push(es.last().path),
            _ => specials(es.drop_last()),
        }
    }
}

/// How many entries become an inode of a kind.
pub open spec fn number_of(es: Seq<TarEntryView>, kind: NodeKind) -> nat
    decreases es.len(),
{
    if es.len() == 0 {
        0
    } else {
        number_of(es.drop_last(), kind) + match decided(es.last()) {
            Ok(ActionView::Create(n)) => if n.kind == kind {
                1nat
            } else {
                0nat
            },
            _ => 0nat,
        }
    }
}

/// The sizes of the entries that become files, added up.
pub open spec fn bytes_of_files(es: Seq<TarEntryView>) -> nat
    decreases es.len(),
{
    if es.len() == 0 {
        0
    } else {
        bytes_of_files(es.drop_last()) + match decided(es.last()) {
            Ok(ActionView::Create(n)) => if n.kind == NodeKind::File {
                n.size as nat
            } else {
                0nat
            },
            _ => 0nat,
        }
    }
}

/// What the image writer is asked to do for an archive, from the first to the
/// last.
pub open spec fn image_requests(
    out: Seq<u8>,
    options: Ext4OptionsView,
    es: Seq<TarEntryView>,
) -> Seq<WriterRequestView> {
    seq![opening(out, options)] + creations(es) + link_requests(links(es)) + seq![
        WriterRequestView::Close,
    ]
}

/// The first request for an image.
pub open spec fn opening(out: Seq<u8>, options: Ext4OptionsView) -> WriterRequestView {
    WriterRequestView::Open {
        path: out,
        size: options.size.bytes(),
        label: options.label,
        uuid: options.uuid,
        epoch: options.epoch_secs,
        short_last_group: true,
    }
}

// ---------------------------------------------------------------------------
// What a run has met with
// ---------------------------------------------------------------------------
/// The entries that were read.
pub open spec fn entries_read(start: WriteView, replies: Seq<WriterReplyView>) -> Seq<TarEntryView>
    decreases replies.len(),
{
    if replies.len() == 0 {
        seq![]
    } else {
        let before = entries_read(start, replies.drop_last());
        let s = procedure::state_given::<WriteExt4>(start, replies.drop_last());
        match (s.phase, replies.last()) {
            (WritePhase::Reading, WriterReplyView::Entry(e)) => if e.header.len()
                == entry::HEADER_LEN {
                before.push(e)
            } else {
                before
            },
            _ => before,
        }
    }
}

/// Whether a request changes the image through its writer.
pub open spec fn is_for_the_image(r: WriterRequestView) -> bool {
    match r {
        WriterRequestView::Open { .. } => true,
        WriterRequestView::Create(_) => true,
        WriterRequestView::Link { .. } => true,
        WriterRequestView::Close => true,
        _ => false,
    }
}

/// What the image writer was asked to do, and did.
pub open spec fn done_for_the_image(
    start: WriteView,
    replies: Seq<WriterReplyView>,
) -> Seq<WriterRequestView>
    decreases replies.len(),
{
    if replies.len() == 0 {
        seq![]
    } else {
        let before = done_for_the_image(start, replies.drop_last());
        let s = procedure::state_given::<WriteExt4>(start, replies.drop_last());
        match (WriteExt4::wants(s), replies.last()) {
            (Some(r), WriterReplyView::Done) => if is_for_the_image(r) {
                before.push(r)
            } else {
                before
            },
            _ => before,
        }
    }
}

// ---------------------------------------------------------------------------
// What holds all along
// ---------------------------------------------------------------------------
proof fn lemma_placed_errors(raw: Seq<u8>, parts: Seq<Seq<u8>>)
    ensures
        entry::placed(raw, parts) matches Err(e) ==> !(e is SpecialFiles),
    decreases parts.len(),
{
    if parts.len() > 0 {
        lemma_placed_errors(raw, parts.drop_first());
    }
}

/// An entry is passed over exactly if it stands for nothing, and is never
/// itself the failure that tells of special files.
proof fn lemma_decided(e: TarEntryView)
    ensures
        decided(e) is Ok ==> (decided(e)->Ok_0 is Skip <==> !stands_for_something(e)),
        decided(e) matches Err(err) ==> !(err is SpecialFiles),
{
    lemma_placed_errors(e.path, path::components(e.path));
    if let Some(l) = e.link {
        lemma_placed_errors(l, path::components(l));
    }
}

spec fn counts(stats: Ext4StatsView, es: Seq<TarEntryView>) -> bool {
    &&& stats.files == number_of(es, NodeKind::File)
    &&& stats.dirs == number_of(es, NodeKind::Directory)
    &&& stats.symlinks == number_of(es, NodeKind::Symlink)
    &&& stats.bytes_from_tar == bytes_of_files(es) % 0x1_0000_0000_0000_0000
}

spec fn is_sound(s: WriteView) -> bool {
    s.times matches Some(t) ==> {
        &&& t.image == s.out
        &&& t.epoch == s.options.epoch_secs
        &&& t.failure matches Some(e) ==> !(e is SpecialFiles)
    }
}

spec fn follows(
    out: Seq<u8>,
    options: Ext4OptionsView,
    s: WriteView,
    es: Seq<TarEntryView>,
    log: Seq<WriterRequestView>,
) -> bool {
    let open = seq![opening(out, options)];
    let made = open + creations(es);
    let linked = link_requests(links(es));
    &&& s.out == out
    &&& s.options == options
    &&& es.len() <= usize::MAX
    &&& s.pending == links(es)
    &&& s.stats.skipped_special == specials(es)
    &&& is_sound(s)
    &&& s.phase != WritePhase::Failed ==> forall|i: int|
        0 <= i < es.len() ==> #[trigger] decided(es[i]) is Ok
    &&& match s.phase {
        WritePhase::Opening => es.len() == 0 && log == Seq::<WriterRequestView>::empty() && counts(
            s.stats,
            es,
        ) && s.stats.hardlinks == 0,
        WritePhase::Reading => log == made && counts(s.stats, es) && s.stats.hardlinks == 0,
        WritePhase::Creating => {
            &&& es.len() > 0
            &&& s.current matches Some(n) && decided(es.last()) == Ok::<ActionView, ErrorView>(
                ActionView::Create(n),
            )
            &&& log == open + creations(es.drop_last())
            &&& counts(s.stats, es.drop_last())
            &&& s.stats.hardlinks == 0
        },
        WritePhase::Linking { at } => {
            &&& at < links(es).len()
            &&& log == made + linked.take(at as int)
            &&& counts(s.stats, es)
            &&& s.stats.hardlinks == at
        },
        WritePhase::Closing => {
            &&& log == made + linked
            &&& counts(s.stats, es)
            &&& s.stats.hardlinks == links(es).len()
        },
        WritePhase::Journaling
        | WritePhase::Normalizing
        | WritePhase::Measuring
        | WritePhase::Finished => {
            &&& log == image_requests(out, options, es)
            &&& counts(s.stats, es)
            &&& s.stats.hardlinks == links(es).len()
            &&& options.strict_special_files ==> specials(es).len() == 0
        },
        WritePhase::Failed => s.failure matches Some(e) && (e matches ErrorView::SpecialFiles {
            count,
            sample,
        } ==> {
            &&& options.strict_special_files
            &&& specials(es).len() > 0
            &&& count == specials(es).len()
            &&& sample == specials(es).take(
                if specials(es).len() > SAMPLE {
                    SAMPLE as int
                } else {
                    specials(es).len() as int
                },
            )
        }),
    }
}

proof fn lemma_lengths(es: Seq<TarEntryView>)
    ensures
        links(es).len() <= es.len(),
        number_of(es, NodeKind::File) <= es.len(),
        number_of(es, NodeKind::Directory) <= es.len(),
        number_of(es, NodeKind::Symlink) <= es.len(),
    decreases es.len(),
{
    if es.len() > 0 {
        lemma_lengths(es.drop_last());
    }
}

/// An entry was read.
#[verifier::spinoff_prover]
#[verifier::rlimit(60)]
proof fn lemma_read_step(
    out: Seq<u8>,
    options: Ext4OptionsView,
    s: WriteView,
    es: Seq<TarEntryView>,
    log: Seq<WriterRequestView>,
    e: TarEntryView,
)
    requires
        follows(out, options, s, es, log),
        s.phase == WritePhase::Reading,
        es.len() < usize::MAX,
        e.header.len() == entry::HEADER_LEN,
    ensures
        follows(
            out,
            options,
            WriteExt4::after(s, WriterReplyView::Entry(e)),
            es.push(e),
            log,
        ),
{
    lemma_decided(e);
    let more = es.push(e);
    assert(more.drop_last() =~= es);
    assert(more.last() == e);
    let next = WriteExt4::after(s, WriterReplyView::Entry(e));
    assert(next == s.read(e, decided(e)));
    if next.phase != WritePhase::Failed {
        assert forall|i: int| 0 <= i < more.len() implies #[trigger] decided(more[i]) is Ok by {
            if i < es.len() {
                assert(more[i] == es[i]);
                assert(decided(es[i]) is Ok);
            }
        }
    }
}

/// An inode was created.
#[verifier::spinoff_prover]
#[verifier::rlimit(60)]
proof fn lemma_created_step(
    out: Seq<u8>,
    options: Ext4OptionsView,
    s: WriteView,
    es: Seq<TarEntryView>,
    log: Seq<WriterRequestView>,
)
    requires
        follows(out, options, s, es, log),
        s.phase == WritePhase::Creating,
    ensures
        WriteExt4::wants(s) is Some,
        is_for_the_image(WriteExt4::wants(s)->0),
        follows(
            out,
            options,
            WriteExt4::after(s, WriterReplyView::Done),
            es,
            log.push(WriteExt4::wants(s)->0),
        ),
{
    lemma_lengths(es.drop_last());
    let n = s.current->0;
    let r = WriterRequestView::Create(n);
    let open = seq![opening(out, options)];
    assert(open + creations(es.drop_last()).push(r) =~= (open + creations(es.drop_last())).push(r));
    let sum = bytes_of_files(es.drop_last());
    if n.kind == NodeKind::File {
        vstd::arithmetic::div_mod::lemma_add_mod_noop(
            sum as int,
            n.size as int,
            0x1_0000_0000_0000_0000,
        );
        assert(n.size as int % 0x1_0000_0000_0000_0000 == n.size);
    }
}

#[verifier::spinoff_prover]
#[verifier::rlimit(60)]
proof fn lemma_linked_step(
    out: Seq<u8>,
    options: Ext4OptionsView,
    s: WriteView,
    es: Seq<TarEntryView>,
    log: Seq<WriterRequestView>,
    at: usize,
)
    requires
        follows(out, options, s, es, log),
        s.phase == (WritePhase::Linking { at }),
    ensures
        WriteExt4::wants(s) is Some,
        is_for_the_image(WriteExt4::wants(s)->0),
        follows(
            out,
            options,
            WriteExt4::after(s, WriterReplyView::Done),
            es,
            log.push(WriteExt4::wants(s)->0),
        ),
{
    lemma_lengths(es);
    let linked = link_requests(links(es));
    let made = seq![opening(out, options)] + creations(es);
    let r = WriteExt4::wants(s)->0;
    assert(linked[at as int] == r);
    assert(linked.take(at + 1) =~= linked.take(at as int).push(r));
    assert(made + linked.take(at + 1) =~= (made + linked.take(at as int)).push(r));
    assert(linked.take(linked.len() as int) =~= linked);
}

#[verifier::spinoff_prover]
#[verifier::rlimit(60)]
proof fn lemma_rest_step(
    out: Seq<u8>,
    options: Ext4OptionsView,
    s: WriteView,
    es: Seq<TarEntryView>,
    log: Seq<WriterRequestView>,
    reply: WriterReplyView,
)
    requires
        follows(out, options, s, es, log),
        !(s.phase is Reading && reply is Entry),
        !(s.phase is Creating && reply is Done),
        !(s.phase is Linking && reply is Done),
    ensures
        follows(
            out,
            options,
            WriteExt4::after(s, reply),
            es,
            match (WriteExt4::wants(s), reply) {
                (Some(r), WriterReplyView::Done) => if is_for_the_image(r) {
                    log.push(r)
                } else {
                    log
                },
                _ => log,
            },
        ),
{
    lemma_lengths(es);
    let next = WriteExt4::after(s, reply);
    let open = seq![opening(out, options)];
    let made = open + creations(es);
    let linked = link_requests(links(es));
    match s.phase {
        WritePhase::Opening => {
            if reply is Done {
                assert(log.push(opening(out, options)) =~= made);
            }
        },
        WritePhase::Reading => {
            assert(made + linked.take(0) =~= made);
            if linked.len() == 0 {
                assert(made + linked =~= made);
            }
        },
        WritePhase::Closing => {
            if reply is Done {
                let close = WriterRequestView::Close;
                assert((made + linked).push(close) =~= image_requests(out, options, es));
                let skipped = specials(es);
                assert(skipped.take(skipped.len() as int) =~= skipped);
            }
        },
        _ => {},
    }
}

proof fn lemma_follows(out: Seq<u8>, options: Ext4OptionsView, replies: Seq<WriterReplyView>)
    requires
        replies.len() <= usize::MAX,
    ensures
        ({
            let start = WriteView::start(out, options);
            &&& entries_read(start, replies).len() <= replies.len()
            &&& follows(
                out,
                options,
                procedure::state_given::<WriteExt4>(start, replies),
                entries_read(start, replies),
                done_for_the_image(start, replies),
            )
        }),
    decreases replies.len(),
{
    let start = WriteView::start(out, options);
    if replies.len() > 0 {
        let before = replies.drop_last();
        lemma_follows(out, options, before);
        let s = procedure::state_given::<WriteExt4>(start, before);
        let es = entries_read(start, before);
        let log = done_for_the_image(start, before);
        match (s.phase, replies.last()) {
            (WritePhase::Reading, WriterReplyView::Entry(e)) => {
                if e.header.len() == entry::HEADER_LEN {
                    lemma_read_step(out, options, s, es, log, e);
                }
            },
            (WritePhase::Creating, WriterReplyView::Done) => {
                lemma_created_step(out, options, s, es, log);
            },
            (WritePhase::Linking { at }, WriterReplyView::Done) => {
                lemma_linked_step(out, options, s, es, log, at);
            },
            (_, reply) => lemma_rest_step(out, options, s, es, log, reply),
        }
    }
}

proof fn lemma_standing(es: Seq<TarEntryView>)
    requires
        forall|i: int| 0 <= i < es.len() ==> #[trigger] decided(es[i]) is Ok,
    ensures
        standing(es) == number_of(es, NodeKind::File) + number_of(es, NodeKind::Directory)
            + number_of(es, NodeKind::Symlink) + links(es).len() + specials(es).len(),
    decreases es.len(),
{
    if es.len() > 0 {
        let rest = es.drop_last();
        assert forall|i: int| 0 <= i < rest.len() implies #[trigger] decided(rest[i]) is Ok by {
            assert(rest[i] == es[i]);
        }
        lemma_standing(rest);
        lemma_decided(es.last());
        assert(decided(es[es.len() - 1]) is Ok);
    }
}

// ---------------------------------------------------------------------------
// The laws
// ---------------------------------------------------------------------------
/// What the image writer does for a writing that succeeds follows from the
/// entries of the archive and from the options alone: neither the time of day
/// nor anything else that was met with has a part in it, and where the image
/// goes only in the name under which it is opened.
///
/// More entries than a machine can count are left out.
pub proof fn lemma_images_follow_from_archive_and_options(
    out: Seq<u8>,
    options: Ext4OptionsView,
    replies: Seq<WriterReplyView>,
)
    requires
        replies.len() <= usize::MAX,
        procedure::state_given::<WriteExt4>(
            WriteView::start(out, options),
            replies,
        ).outcome() matches Some(Ok(_)),
    ensures
        ({
            let start = WriteView::start(out, options);
            done_for_the_image(start, replies) == image_requests(
                out,
                options,
                entries_read(start, replies),
            )
        }),
{
    lemma_follows(out, options, replies);
}

/// Writing an archive twice with the same options, to whatever places and with
/// whatever happening on the way, asks the image writer for the same image.
///
/// More entries than a machine can count are left out.
pub proof fn lemma_images_are_reproducible(
    a: Seq<u8>,
    b: Seq<u8>,
    options: Ext4OptionsView,
    replies_a: Seq<WriterReplyView>,
    replies_b: Seq<WriterReplyView>,
)
    requires
        replies_a.len() <= usize::MAX,
        replies_b.len() <= usize::MAX,
        procedure::state_given::<WriteExt4>(
            WriteView::start(a, options),
            replies_a,
        ).outcome() matches Some(Ok(_)),
        procedure::state_given::<WriteExt4>(
            WriteView::start(b, options),
            replies_b,
        ).outcome() matches Some(Ok(_)),
        entries_read(WriteView::start(a, options), replies_a) == entries_read(
            WriteView::start(b, options),
            replies_b,
        ),
    ensures
        ({
            let done_a = done_for_the_image(WriteView::start(a, options), replies_a);
            let done_b = done_for_the_image(WriteView::start(b, options), replies_b);
            &&& done_a.len() == done_b.len()
            &&& done_a[0] == opening(a, options)
            &&& done_b[0] == opening(b, options)
            &&& done_a.drop_first() == done_b.drop_first()
        }),
{
    lemma_follows(a, options, replies_a);
    lemma_follows(b, options, replies_b);
    let es = entries_read(WriteView::start(a, options), replies_a);
    let x = image_requests(a, options, es);
    let y = image_requests(b, options, es);
    assert(x.drop_first() =~= y.drop_first());
}

/// No entry of the archive is lost without being told: after a writing that
/// succeeds every one that stands for something is counted once, as a file, a
/// directory, a symbolic link, a hard link, or among those that cannot be in an
/// image.
///
/// More entries than a machine can count are left out. The bytes are counted
/// as far as 64 bits go.
pub proof fn lemma_every_entry_is_counted(
    out: Seq<u8>,
    options: Ext4OptionsView,
    replies: Seq<WriterReplyView>,
)
    requires
        replies.len() <= usize::MAX,
    ensures
        ({
            let start = WriteView::start(out, options);
            let es = entries_read(start, replies);
            procedure::state_given::<WriteExt4>(start, replies).outcome() matches Some(
                Ok(stats),
            ) ==> {
                &&& stats.files + stats.dirs + stats.symlinks + stats.hardlinks
                    + stats.skipped_special.len() == standing(es)
                &&& stats.files == number_of(es, NodeKind::File)
                &&& stats.dirs == number_of(es, NodeKind::Directory)
                &&& stats.symlinks == number_of(es, NodeKind::Symlink)
                &&& stats.hardlinks == links(es).len()
                &&& bytes_of_files(es) <= u64::MAX ==> stats.bytes_from_tar == bytes_of_files(es)
            }
        }),
{
    lemma_follows(out, options, replies);
    let start = WriteView::start(out, options);
    let s = procedure::state_given::<WriteExt4>(start, replies);
    if s.phase == WritePhase::Finished {
        lemma_standing(entries_read(start, replies));
    }
}

/// Entries that cannot be in an image are told, all of them and in order. Where
/// they are to be refused, a writing that meets with any fails, with their
/// number and the first of their names, and with that failure in no other case;
/// otherwise they do not make it fail.
///
/// More entries than a machine can count are left out.
pub proof fn lemma_special_files_are_told(
    out: Seq<u8>,
    options: Ext4OptionsView,
    replies: Seq<WriterReplyView>,
)
    requires
        replies.len() <= usize::MAX,
    ensures
        ({
            let start = WriteView::start(out, options);
            let met = specials(entries_read(start, replies));
            match procedure::state_given::<WriteExt4>(start, replies).outcome() {
                Some(Ok(stats)) => {
                    &&& stats.skipped_special == met
                    &&& !(options.strict_special_files && met.len() > 0)
                },
                Some(Err(ErrorView::SpecialFiles { count, sample })) => {
                    &&& options.strict_special_files && met.len() > 0
                    &&& count == met.len()
                    &&& sample == met.take(
                        if met.len() > SAMPLE {
                            SAMPLE as int
                        } else {
                            met.len() as int
                        },
                    )
                },
                _ => true,
            }
        }),
        ({
            let start = WriteView::start(out, options);
            let met = specials(entries_read(start, replies));
            let s = procedure::state_given::<WriteExt4>(start, replies);
            s.phase == WritePhase::Closing && options.strict_special_files && met.len() > 0 ==> {
                WriteExt4::after(s, WriterReplyView::Done).failure matches Some(
                    ErrorView::SpecialFiles { .. },
                )
            }
        }),
{
    lemma_follows(out, options, replies);
}

/// What is asked for besides: the journal is added, the times that this leaves
/// behind are set to the epoch, and the finished image is measured. This follows
/// from the place of the image and from the options.
pub open spec fn is_about(r: RequestView, out: Seq<u8>, options: Ext4OptionsView) -> bool {
    ||| r == RequestView::Stat(out)
    ||| options.journal && {
        ||| r == RequestView::Tool(finish::tool_on("tune2fs"@, "-j"@, out))
        ||| r == RequestView::Tool(finish::debugfs_call(out, options.epoch_secs))
        ||| r == RequestView::Tool(finish::tool_on("dumpe2fs"@, "-h"@, out))
        ||| r matches RequestView::Patch { path, bytes, .. } && path == out && bytes == key::le32(
            options.epoch_secs,
        )
    }
}

/// Nothing that is asked for outside of the image and the archive depends on
/// what has been met with, but for whether it is asked for.
///
/// More entries than a machine can count are left out.
pub proof fn lemma_what_else_is_asked(
    out: Seq<u8>,
    options: Ext4OptionsView,
    replies: Seq<WriterReplyView>,
)
    requires
        replies.len() <= usize::MAX,
    ensures
        WriteExt4::wants(
            procedure::state_given::<WriteExt4>(WriteView::start(out, options), replies),
        ) matches Some(WriterRequestView::Host(r)) ==> is_about(r, out, options),
{
    lemma_follows(out, options, replies);
    lemma_journals_only_if_asked(out, options, replies);
}

proof fn lemma_journals_only_if_asked(
    out: Seq<u8>,
    options: Ext4OptionsView,
    replies: Seq<WriterReplyView>,
)
    ensures
        ({
            let s = procedure::state_given::<WriteExt4>(WriteView::start(out, options), replies);
            &&& s.options == options
            &&& s.phase == WritePhase::Journaling || s.phase == WritePhase::Normalizing
                ==> options.journal
        }),
{
    let inv = |s: WriteView|
        {
            &&& s.options == options
            &&& s.phase == WritePhase::Journaling || s.phase == WritePhase::Normalizing
                ==> options.journal
        };
    procedure::lemma_kept::<WriteExt4>(inv, WriteView::start(out, options), replies);
}

} // verus!
