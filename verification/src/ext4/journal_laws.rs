//! That an image gets its journal, and what every step of a writing leads to.

use super::entry::{self, ActionView, NodeKind};
use super::finish::{self, NormalizePhase, NormalizeTimestamps, NormalizeView};
use super::writer::{
    WriteExt4, WritePhase, WriteView, WriterReplyView, WriterRequestView,
};
use super::{Ext4OptionsView, Ext4StatsView};
use crate::error::{ErrorView, IoKind};
use crate::host::{FileStat, ReplyView, RequestView, ToolCallView, ToolOutputView};
use crate::key;
use crate::number;
use crate::path;
use crate::procedure::{self, happened, Procedure};
use crate::text;
use vstd::prelude::*;
use vstd::utf8::*;

verus! {

// ---------------------------------------------------------------------------
// The tools
// ---------------------------------------------------------------------------
/// The script sets the four times of inode 8, which is that of the journal, to
/// the epoch, and ends.
pub proof fn lemma_the_script_sets_four_times(epoch: u32)
    ensures
        finish::time_script(epoch) == "sif <8> atime @"@ + number::decimal(epoch as nat)
            + "\nsif <8> ctime @"@ + number::decimal(epoch as nat) + "\nsif <8> mtime @"@
            + number::decimal(epoch as nat) + "\nsif <8> crtime @"@ + number::decimal(epoch as nat)
            + "\nquit\n"@,
{
    let d = number::decimal(epoch as nat);
    reveal_strlit("sif <8> ");
    reveal_strlit("atime");
    reveal_strlit("ctime");
    reveal_strlit("mtime");
    reveal_strlit("crtime");
    reveal_strlit(" @");
    reveal_strlit("\n");
    reveal_strlit("quit\n");
    reveal_strlit("sif <8> atime @");
    reveal_strlit("\nsif <8> ctime @");
    reveal_strlit("\nsif <8> mtime @");
    reveal_strlit("\nsif <8> crtime @");
    reveal_strlit("\nquit\n");
    let a = "sif <8> "@ + "atime"@ + " @"@;
    let c = "sif <8> "@ + "ctime"@ + " @"@;
    let m = "sif <8> "@ + "mtime"@ + " @"@;
    let r = "sif <8> "@ + "crtime"@ + " @"@;
    assert("sif <8> atime @"@ =~= a);
    assert("\nsif <8> ctime @"@ =~= "\n"@ + c);
    assert("\nsif <8> mtime @"@ =~= "\n"@ + m);
    assert("\nsif <8> crtime @"@ =~= "\n"@ + r);
    assert("\nquit\n"@ =~= "\n"@ + "quit\n"@);
    assert(finish::time_script(epoch) =~= a + d + ("\n"@ + c) + d + ("\n"@ + m) + d + ("\n"@ + r)
        + d + ("\n"@ + "quit\n"@));
}

/// Setting the times is three steps: the script for the inode of the journal,
/// whose success does not matter, the description of the image, and, unless that
/// lists a checksum among the features, the four bytes of the epoch at the three
/// places of the superblock that hold a time. A failure is that of the first tool
/// that is missing or cannot be run, of the description, or of writing.
pub proof fn lemma_times_are_set(
    image: Seq<u8>,
    epoch: u32,
    script: ReplyView,
    description: ReplyView,
    patch: ReplyView,
)
    requires
        script is Output || script is Failed,
        description is Output || description is Failed,
        patch is Done || patch is Failed,
    ensures
        ({
            let s0 = NormalizeView::start(image, epoch);
            let s1 = NormalizeTimestamps::after(s0, script);
            let s2 = NormalizeTimestamps::after(s1, description);
            let s3 = NormalizeTimestamps::after(s2, patch);
            &&& NormalizeTimestamps::wants(s0) == Some(
                RequestView::Tool(
                    ToolCallView {
                        program: "debugfs"@,
                        args: seq![encode_utf8("-w"@), image],
                        input: Some(encode_utf8(finish::time_script(epoch))),
                    },
                ),
            )
            &&& match script {
                ReplyView::Failed(e) => {
                    &&& s1.outcome() == Some(
                        Err::<(), ErrorView>(
                            if e.kind == IoKind::NotFound {
                                ErrorView::ToolMissing { tool: "debugfs"@ }
                            } else {
                                ErrorView::Io(e)
                            },
                        ),
                    )
                    &&& NormalizeTimestamps::wants(s1) is None
                },
                _ => {
                    &&& s1.outcome() is None
                    &&& NormalizeTimestamps::wants(s1) == Some(
                        RequestView::Tool(
                            ToolCallView {
                                program: "dumpe2fs"@,
                                args: seq![
                                    encode_utf8("-h"@),
                                    encode_utf8(path::utf8_lossy(image)),
                                ],
                                input: None,
                            },
                        ),
                    )
                    &&& match description {
                        ReplyView::Failed(e) => s2.outcome() == Some(
                            Err::<(), ErrorView>(
                                if e.kind == IoKind::NotFound {
                                    ErrorView::ToolMissing { tool: "dumpe2fs"@ }
                                } else {
                                    ErrorView::Io(e)
                                },
                            ),
                        ),
                        ReplyView::Output(o) => if !o.success {
                            s2.outcome() == Some(
                                Err::<(), ErrorView>(
                                    ErrorView::ToolFailed {
                                        tool: "dumpe2fs"@,
                                        status: o.status,
                                        stderr: text::trim(path::utf8_lossy(o.stderr)),
                                    },
                                ),
                            )
                        } else if finish::listed_features(path::utf8_lossy(o.stdout)).contains(
                            "metadata_csum"@,
                        ) {
                            &&& s2.outcome() == Some(Ok::<(), ErrorView>(()))
                            &&& NormalizeTimestamps::wants(s2) is None
                        } else {
                            &&& s2.outcome() is None
                            &&& NormalizeTimestamps::wants(s2) == Some(
                                RequestView::Patch {
                                    path: image,
                                    offsets: seq![1068u64, 1072u64, 1088u64],
                                    bytes: key::le32(epoch),
                                },
                            )
                            &&& patch is Done ==> s3.outcome() == Some(Ok::<(), ErrorView>(()))
                            &&& patch matches ReplyView::Failed(e) ==> s3.outcome() == Some(
                                Err::<(), ErrorView>(ErrorView::Io(e)),
                            )
                            &&& NormalizeTimestamps::wants(s3) is None
                        },
                        _ => true,
                    }
                },
            }
        }),
{
}

/// A check of an image is one run of `e2fsck` that changes nothing. It succeeds
/// exactly with the exit code zero, and then says what was printed; otherwise it
/// says what is wrong.
pub proof fn lemma_only_clean_images_pass(image: Seq<u8>, run: ReplyView)
    requires
        run is Output || run is Failed,
    ensures
        ({
            let s0 = finish::FsckView { image, done: None };
            let s1 = finish::Fsck::after(s0, run);
            &&& finish::Fsck::wants(s0) == Some(
                RequestView::Tool(
                    ToolCallView {
                        program: "e2fsck"@,
                        args: seq![encode_utf8("-fn"@), encode_utf8(path::utf8_lossy(image))],
                        input: None,
                    },
                ),
            )
            &&& s1.done is Some
            &&& s1.done->0 is Ok <==> (run matches ReplyView::Output(o) && o.code == Some(0i32))
            &&& s1.done->0 is Ok ==> s1.done->0->Ok_0 == path::utf8_lossy(run->Output_0.stdout)
            &&& run matches ReplyView::Failed(e) ==> s1.done->0->Err_0 == (if e.kind
                == IoKind::NotFound {
                ErrorView::ToolMissing { tool: "e2fsck"@ }
            } else {
                ErrorView::Io(e)
            })
            &&& run is Output && run->Output_0.code != Some(0i32) ==> {
                s1.done->0->Err_0 == ErrorView::ToolFailed {
                    tool: "e2fsck"@,
                    status: run->Output_0.status,
                    stderr: text::trim(
                        text::trim(path::utf8_lossy(run->Output_0.stdout)) + "\n"@ + text::trim(
                            path::utf8_lossy(run->Output_0.stderr),
                        ),
                    ),
                }
            }
        }),
{
}

// ---------------------------------------------------------------------------
// The journal
// ---------------------------------------------------------------------------
/// What was asked for, and how it was answered.
pub type Ledger = spec_fn(WriterRequestView, WriterReplyView) -> bool;

/// Whether a tool was run with one option on the image, and succeeded, printing
/// this.
pub open spec fn tool_ran(
    done: Ledger,
    program: Seq<char>,
    option: Seq<char>,
    out: Seq<u8>,
    printed: ToolOutputView,
) -> bool {
    printed.success && done(
        WriterRequestView::Host(
            RequestView::Tool(
                ToolCallView {
                    program,
                    args: seq![encode_utf8(option), encode_utf8(path::utf8_lossy(out))],
                    input: None,
                },
            ),
        ),
        WriterReplyView::Host(ReplyView::Output(printed)),
    )
}

/// Whether a journal was added to the image.
pub open spec fn has_journal(done: Ledger, out: Seq<u8>) -> bool {
    exists|o: ToolOutputView| #[trigger] tool_ran(done, "tune2fs"@, "-j"@, out, o)
}

/// Whether `debugfs` was run on the image with the script, printing this.
pub open spec fn debugfs_ran(
    done: Ledger,
    out: Seq<u8>,
    epoch: u32,
    printed: ToolOutputView,
) -> bool {
    done(
        WriterRequestView::Host(
            RequestView::Tool(
                ToolCallView {
                    program: "debugfs"@,
                    args: seq![encode_utf8("-w"@), out],
                    input: Some(encode_utf8(finish::time_script(epoch))),
                },
            ),
        ),
        WriterReplyView::Host(ReplyView::Output(printed)),
    )
}

/// Whether the times of the inode of the journal were to be set.
pub open spec fn script_ran(done: Ledger, out: Seq<u8>, epoch: u32) -> bool {
    exists|o: ToolOutputView| #[trigger] debugfs_ran(done, out, epoch, o)
}

/// Whether the image was described, as one with a checksum or without.
pub open spec fn described(done: Ledger, out: Seq<u8>, checksum: bool) -> bool {
    exists|o: ToolOutputView| #[trigger]
        tool_ran(done, "dumpe2fs"@, "-h"@, out, o) && checksum == finish::listed_features(
            path::utf8_lossy(o.stdout),
        ).contains("metadata_csum"@)
}

/// Whether the three times of the superblock were written.
pub open spec fn patched(done: Ledger, out: Seq<u8>, epoch: u32) -> bool {
    done(
        WriterRequestView::Host(
            RequestView::Patch {
                path: out,
                offsets: seq![1068u64, 1072u64, 1088u64],
                bytes: key::le32(epoch),
            },
        ),
        WriterReplyView::Host(ReplyView::Done),
    )
}

/// Whether the image has a journal and its times are set.
pub open spec fn journal_is_there(done: Ledger, out: Seq<u8>, epoch: u32) -> bool {
    &&& has_journal(done, out)
    &&& script_ran(done, out, epoch)
    &&& described(done, out, true) || described(done, out, false) && patched(done, out, epoch)
}

spec fn times_keep(done: Ledger, out: Seq<u8>, epoch: u32, t: NormalizeView) -> bool {
    &&& t.image == out
    &&& t.epoch == epoch
    &&& t.failure is None
    &&& match t.phase {
        NormalizePhase::Scripting => true,
        NormalizePhase::Describing => script_ran(done, out, epoch),
        NormalizePhase::Patching => script_ran(done, out, epoch) && described(done, out, false),
        _ => false,
    }
}

spec fn journal_keeps(
    done: Ledger,
    out: Seq<u8>,
    options: Ext4OptionsView,
    s: WriteView,
) -> bool {
    let closed = done(WriterRequestView::Close, WriterReplyView::Done);
    let complete = closed && (options.journal ==> journal_is_there(
        done,
        out,
        options.epoch_secs,
    ));
    &&& s.out == out
    &&& s.options == options
    &&& match s.phase {
        WritePhase::Journaling => options.journal && closed,
        WritePhase::Normalizing => {
            &&& options.journal
            &&& closed
            &&& has_journal(done, out)
            &&& s.times matches Some(t) && times_keep(done, out, options.epoch_secs, t)
        },
        WritePhase::Measuring => complete,
        WritePhase::Finished => complete && exists|st: FileStat| #[trigger]
            done(
                WriterRequestView::Host(RequestView::Stat(out)),
                WriterReplyView::Host(ReplyView::Stat(st)),
            ) && s.stats.apparent_size == st.len && s.stats.actual_size == st.allocated,
        _ => true,
    }
}

proof fn lemma_journal_stays(
    done: Ledger,
    more: Ledger,
    out: Seq<u8>,
    options: Ext4OptionsView,
    s: WriteView,
)
    requires
        journal_keeps(done, out, options, s),
        forall|r: WriterRequestView, a: WriterReplyView| done(r, a) ==> #[trigger] more(r, a),
    ensures
        journal_keeps(more, out, options, s),
{
    let epoch = options.epoch_secs;
    if has_journal(done, out) {
        let o = choose|o: ToolOutputView| #[trigger] tool_ran(done, "tune2fs"@, "-j"@, out, o);
        assert(tool_ran(more, "tune2fs"@, "-j"@, out, o));
    }
    if script_ran(done, out, epoch) {
        let o = choose|o: ToolOutputView| #[trigger] debugfs_ran(done, out, epoch, o);
        assert(debugfs_ran(more, out, epoch, o));
    }
    lemma_described_stays(done, more, out, true);
    lemma_described_stays(done, more, out, false);
    if s.phase == WritePhase::Finished {
        let st = choose|st: FileStat| #[trigger]
            done(
                WriterRequestView::Host(RequestView::Stat(out)),
                WriterReplyView::Host(ReplyView::Stat(st)),
            ) && s.stats.apparent_size == st.len && s.stats.actual_size == st.allocated;
        assert(more(
            WriterRequestView::Host(RequestView::Stat(out)),
            WriterReplyView::Host(ReplyView::Stat(st)),
        ));
    }
}

proof fn lemma_described_stays(done: Ledger, more: Ledger, out: Seq<u8>, checksum: bool)
    requires
        forall|r: WriterRequestView, a: WriterReplyView| done(r, a) ==> #[trigger] more(r, a),
    ensures
        described(done, out, checksum) ==> described(more, out, checksum),
{
    if described(done, out, checksum) {
        let o = choose|o: ToolOutputView| #[trigger]
            tool_ran(done, "dumpe2fs"@, "-h"@, out, o) && checksum == finish::listed_features(
                path::utf8_lossy(o.stdout),
            ).contains("metadata_csum"@);
        assert(tool_ran(more, "dumpe2fs"@, "-h"@, out, o));
    }
}

#[verifier::spinoff_prover]
#[verifier::rlimit(60)]
proof fn lemma_journal_step(
    done: Ledger,
    out: Seq<u8>,
    options: Ext4OptionsView,
    s: WriteView,
    reply: WriterReplyView,
)
    requires
        journal_keeps(done, out, options, s),
        WriteExt4::wants(s) matches Some(r) ==> done(r, reply),
    ensures
        journal_keeps(done, out, options, WriteExt4::after(s, reply)),
{
    let next = WriteExt4::after(s, reply);
    let epoch = options.epoch_secs;
    match (s.phase, reply) {
        (WritePhase::Journaling, WriterReplyView::Host(ReplyView::Output(o))) => {
            if o.success {
                assert(tool_ran(done, "tune2fs"@, "-j"@, out, o));
                assert(has_journal(done, out));
            }
        },
        (WritePhase::Normalizing, WriterReplyView::Host(r)) => {
            let t = s.times->0;
            let u = NormalizeTimestamps::after(t, r);
            match (t.phase, r) {
                (NormalizePhase::Scripting, ReplyView::Output(o)) => {
                    assert(debugfs_ran(done, out, epoch, o));
                    assert(script_ran(done, out, epoch));
                },
                (NormalizePhase::Describing, ReplyView::Output(o)) => {
                    if o.success {
                        assert(tool_ran(done, "dumpe2fs"@, "-h"@, out, o));
                        if u.phase == NormalizePhase::Finished {
                            assert(described(done, out, true));
                        } else {
                            assert(described(done, out, false));
                        }
                    }
                },
                (NormalizePhase::Patching, ReplyView::Done) => {
                    assert(patched(done, out, epoch));
                },
                _ => {},
            }
        },
        (WritePhase::Measuring, WriterReplyView::Host(ReplyView::Stat(st))) => {
            assert(done(
                WriterRequestView::Host(RequestView::Stat(out)),
                WriterReplyView::Host(ReplyView::Stat(st)),
            ));
        },
        _ => {},
    }
}

proof fn lemma_journal_run(
    out: Seq<u8>,
    options: Ext4OptionsView,
    replies: Seq<WriterReplyView>,
)
    ensures
        ({
            let start = WriteView::start(out, options);
            let done = |r: WriterRequestView, a: WriterReplyView|
                happened::<WriteExt4>(start, replies, r, a);
            journal_keeps(done, out, options, procedure::state_given::<WriteExt4>(start, replies))
        }),
    decreases replies.len(),
{
    let start = WriteView::start(out, options);
    let done = |r: WriterRequestView, a: WriterReplyView|
        happened::<WriteExt4>(start, replies, r, a);
    if replies.len() > 0 {
        let before = replies.drop_last();
        let less = |r: WriterRequestView, a: WriterReplyView|
            happened::<WriteExt4>(start, before, r, a);
        let s = procedure::state_given::<WriteExt4>(start, before);
        lemma_journal_run(out, options, before);
        procedure::lemma_happened::<WriteExt4>(start, replies);
        lemma_journal_stays(less, done, out, options, s);
        lemma_journal_step(done, out, options, s, replies.last());
    }
}

/// An image that is to have a journal has one before it is measured, and so
/// whenever a writing succeeds: after the image was written out, `tune2fs -j` was
/// run on it and succeeded, the times of the journal were set, and those of the
/// superblock were written unless it has a checksum. What is reported of the
/// size is what was measured then.
pub proof fn lemma_images_get_their_journal(
    out: Seq<u8>,
    options: Ext4OptionsView,
    replies: Seq<WriterReplyView>,
    done: Ledger,
)
    requires
        forall|r: WriterRequestView, a: WriterReplyView| #[trigger]
            done(r, a) == happened::<WriteExt4>(WriteView::start(out, options), replies, r, a),
    ensures
        ({
            let s = procedure::state_given::<WriteExt4>(WriteView::start(out, options), replies);
            let asked = WriteExt4::wants(s);
            let measures = asked == Some(WriterRequestView::Host(RequestView::Stat(out)));
            let succeeded = s.outcome() is Some && s.outcome()->0 is Ok;
            &&& asked is Some && asked->0 is Host || succeeded ==> done(
                WriterRequestView::Close,
                WriterReplyView::Done,
            )
            &&& options.journal && (measures || succeeded) ==> journal_is_there(
                done,
                out,
                options.epoch_secs,
            )
            &&& (asked matches Some(WriterRequestView::Host(RequestView::Tool(call)))
                && call.program != "tune2fs"@) ==> has_journal(done, out)
            &&& asked matches Some(WriterRequestView::Host(RequestView::Patch { .. }))
                ==> has_journal(done, out) && script_ran(done, out, options.epoch_secs)
                && described(done, out, false)
            &&& succeeded ==> exists|st: FileStat| #[trigger]
                done(
                    WriterRequestView::Host(RequestView::Stat(out)),
                    WriterReplyView::Host(ReplyView::Stat(st)),
                ) && s.outcome()->0->Ok_0.apparent_size == st.len
                    && s.outcome()->0->Ok_0.actual_size == st.allocated
        }),
{
    let start = WriteView::start(out, options);
    let s = procedure::state_given::<WriteExt4>(start, replies);
    lemma_journal_run(out, options, replies);
    let all = |r: WriterRequestView, a: WriterReplyView|
        happened::<WriteExt4>(start, replies, r, a);
    lemma_journal_stays(all, done, out, options, s);
    lemma_journal_asks(done, out, options, s);
}

proof fn lemma_journal_asks(done: Ledger, out: Seq<u8>, options: Ext4OptionsView, s: WriteView)
    requires
        journal_keeps(done, out, options, s),
    ensures
        ({
            let asked = WriteExt4::wants(s);
            let measures = asked == Some(WriterRequestView::Host(RequestView::Stat(out)));
            let succeeded = s.outcome() is Some && s.outcome()->0 is Ok;
            &&& asked is Some && asked->0 is Host || succeeded ==> done(
                WriterRequestView::Close,
                WriterReplyView::Done,
            )
            &&& options.journal && (measures || succeeded) ==> journal_is_there(
                done,
                out,
                options.epoch_secs,
            )
            &&& (asked matches Some(WriterRequestView::Host(RequestView::Tool(call)))
                && call.program != "tune2fs"@) ==> has_journal(done, out)
            &&& asked matches Some(WriterRequestView::Host(RequestView::Patch { .. }))
                ==> has_journal(done, out) && script_ran(done, out, options.epoch_secs)
                && described(done, out, false)
            &&& succeeded ==> exists|st: FileStat| #[trigger]
                done(
                    WriterRequestView::Host(RequestView::Stat(out)),
                    WriterReplyView::Host(ReplyView::Stat(st)),
                ) && s.outcome()->0->Ok_0.apparent_size == st.len
                    && s.outcome()->0->Ok_0.actual_size == st.allocated
        }),
{
}

// ---------------------------------------------------------------------------
// From one step to the next
// ---------------------------------------------------------------------------
/// An image is opened first, at its place, with the size, the label, the
/// identifier and the epoch that were asked for, and without rounding its size
/// up.
pub proof fn lemma_an_image_is_opened_as_asked_for(out: Seq<u8>, options: Ext4OptionsView)
    ensures
        WriteExt4::wants(WriteView::start(out, options)) matches Some(
            WriterRequestView::Open { path, size, label, uuid, epoch, short_last_group },
        ) && {
            &&& path == out
            &&& size == options.size.bytes()
            &&& label == options.label
            &&& uuid == options.uuid
            &&& epoch == options.epoch_secs
            &&& short_last_group
        },
{
}

/// Everything goes on: from any state, the answer to the last question leads to
/// the next question or to the end. Each entry is created, put off as a link, or
/// noted, and the next one is asked for; behind the last one come the links, in
/// order, and the image is written out. Then the journal is added if it is to be,
/// and the image is measured. Special files end it where they are to be refused.
/// A refusal of the image writer, a failure to read the archive or to measure the
/// image, and a failure of a tool end it with what they say.
pub proof fn lemma_a_writing_goes_on(s: WriteView, reply: WriterReplyView)
    requires
        WriteExt4::wants(s) is Some,
        s.failure is None,
        s.phase == WritePhase::Normalizing ==> s.times is Some && s.times->0.failure is None,
    ensures
        ({
            let next = WriteExt4::after(s, reply);
            let asked = WriteExt4::wants(next);
            let first_link = if s.pending.len() > 0 {
                WriterRequestView::Link {
                    link: s.pending[0].link,
                    target: s.pending[0].target,
                }
            } else {
                WriterRequestView::Close
            };
            let failed = |e: ErrorView|
                next.outcome() == Some(Err::<Ext4StatsView, ErrorView>(e)) && asked is None;
            match (WriteExt4::wants(s)->0, reply) {
                (WriterRequestView::Open { .. }, WriterReplyView::Done) => asked == Some(
                    WriterRequestView::NextEntry,
                ) && next.stats == s.stats,
                (WriterRequestView::NextEntry, WriterReplyView::Entry(e)) => if e.header.len()
                    != 512 {
                    next == s
                } else {
                    match entry::decision(e, entry::header_attributes(e.header)) {
                        Err(err) => failed(err),
                        Ok(ActionView::Skip) => next == s,
                        Ok(ActionView::Create(n)) => {
                            &&& asked == Some(WriterRequestView::Create(n))
                            &&& next.stats == s.stats && next.pending == s.pending
                        },
                        Ok(ActionView::Link { link, target }) => {
                            &&& asked == Some(WriterRequestView::NextEntry)
                            &&& next.stats == s.stats
                            &&& next.pending.len() == s.pending.len() + 1
                            &&& next.pending.drop_last() == s.pending
                            &&& next.pending.last().link == link
                            &&& next.pending.last().target == target
                        },
                        Ok(ActionView::Special) => {
                            &&& asked == Some(WriterRequestView::NextEntry)
                            &&& next.pending == s.pending
                            &&& next.stats.skipped_special == s.stats.skipped_special.push(e.path)
                            &&& next.stats.files == s.stats.files
                            &&& next.stats.dirs == s.stats.dirs
                            &&& next.stats.symlinks == s.stats.symlinks
                        },
                    }
                },
                (WriterRequestView::NextEntry, WriterReplyView::End) => asked == Some(first_link)
                    && next.stats == s.stats && next.pending == s.pending,
                (WriterRequestView::NextEntry, WriterReplyView::Failed(e)) => failed(
                    ErrorView::Io(e),
                ),
                (WriterRequestView::Create(n), WriterReplyView::Done) => {
                    &&& asked == Some(WriterRequestView::NextEntry)
                    &&& next.pending == s.pending
                    &&& next.stats.skipped_special == s.stats.skipped_special
                    &&& next.stats.files == if n.kind == NodeKind::File {
                        s.stats.files.wrapping_add(1)
                    } else {
                        s.stats.files
                    }
                    &&& next.stats.dirs == if n.kind == NodeKind::Directory {
                        s.stats.dirs.wrapping_add(1)
                    } else {
                        s.stats.dirs
                    }
                    &&& next.stats.symlinks == if n.kind == NodeKind::Symlink {
                        s.stats.symlinks.wrapping_add(1)
                    } else {
                        s.stats.symlinks
                    }
                    &&& next.stats.bytes_from_tar == if n.kind == NodeKind::File {
                        s.stats.bytes_from_tar.wrapping_add(n.size)
                    } else {
                        s.stats.bytes_from_tar
                    }
                },
                (WriterRequestView::Link { .. }, WriterReplyView::Done) => {
                    &&& next.stats.hardlinks == s.stats.hardlinks.wrapping_add(1)
                    &&& asked is Some && (asked->0 is Link || asked->0 is Close)
                },
                (WriterRequestView::Close, WriterReplyView::Done) => {
                    let special = s.stats.skipped_special;
                    if special.len() > 0 && s.options.strict_special_files {
                        failed(
                            ErrorView::SpecialFiles {
                                count: special.len(),
                                sample: special.take(
                                    if special.len() > 5 {
                                        5
                                    } else {
                                        special.len() as int
                                    },
                                ),
                            },
                        )
                    } else if s.options.journal {
                        asked == Some(
                            WriterRequestView::Host(
                                RequestView::Tool(
                                    ToolCallView {
                                        program: "tune2fs"@,
                                        args: seq![
                                            encode_utf8("-j"@),
                                            encode_utf8(path::utf8_lossy(s.out)),
                                        ],
                                        input: None,
                                    },
                                ),
                            ),
                        )
                    } else {
                        asked == Some(WriterRequestView::Host(RequestView::Stat(s.out)))
                    }
                },
                (
                    WriterRequestView::Host(RequestView::Stat(_)),
                    WriterReplyView::Host(ReplyView::Stat(st)),
                ) => {
                    &&& next.outcome() matches Some(Ok(stats)) && {
                        &&& stats.files == s.stats.files
                        &&& stats.dirs == s.stats.dirs
                        &&& stats.symlinks == s.stats.symlinks
                        &&& stats.hardlinks == s.stats.hardlinks
                        &&& stats.bytes_from_tar == s.stats.bytes_from_tar
                        &&& stats.skipped_special == s.stats.skipped_special
                        &&& stats.apparent_size == st.len
                        &&& stats.actual_size == st.allocated
                    }
                    &&& asked is None
                },
                (
                    WriterRequestView::Host(RequestView::Stat(_)),
                    WriterReplyView::Host(ReplyView::Failed(e)),
                ) => failed(ErrorView::Io(e)),
                (WriterRequestView::Host(_), WriterReplyView::Host(r)) => if s.phase
                    == WritePhase::Journaling {
                    match r {
                        ReplyView::Output(o) => if o.success {
                            asked == Some(
                                WriterRequestView::Host(
                                    RequestView::Tool(
                                        ToolCallView {
                                            program: "debugfs"@,
                                            args: seq![encode_utf8("-w"@), s.out],
                                            input: Some(
                                                encode_utf8(
                                                    finish::time_script(s.options.epoch_secs),
                                                ),
                                            ),
                                        },
                                    ),
                                ),
                            ) && next.stats == s.stats
                        } else {
                            failed(
                                ErrorView::ToolFailed {
                                    tool: "tune2fs"@,
                                    status: o.status,
                                    stderr: text::trim(path::utf8_lossy(o.stderr)),
                                },
                            )
                        },
                        ReplyView::Failed(e) => failed(
                            if e.kind == IoKind::NotFound {
                                ErrorView::ToolMissing { tool: "tune2fs"@ }
                            } else {
                                ErrorView::Io(e)
                            },
                        ),
                        _ => next == s,
                    }
                } else if s.phase == WritePhase::Normalizing {
                    let times = NormalizeTimestamps::after(s.times->0, r);
                    match times.outcome() {
                        None => next == (WriteView { times: Some(times), ..s }),
                        Some(Ok(_)) => asked == Some(
                            WriterRequestView::Host(RequestView::Stat(s.out)),
                        ) && next.stats == s.stats,
                        Some(Err(e)) => failed(e),
                    }
                } else {
                    next == s
                },
                (WriterRequestView::Host(_), _) => next == s,
                (WriterRequestView::NextEntry, _) => next == s,
                (_, WriterReplyView::Refused(m)) => failed(ErrorView::Ext4(m)),
                _ => next == s,
            }
        }),
{
    let special = s.stats.skipped_special;
    assert(special.take(special.len() as int) =~= special);
    let next = WriteExt4::after(s, reply);
    if next.pending.len() == s.pending.len() + 1 {
        assert(next.pending.drop_last() =~= s.pending);
    }
}

/// A run of a tool whose output is wanted asks for just this run, and comes to
/// what it printed, or to why it failed.
pub proof fn lemma_a_tool_is_run_once(
    program: Seq<char>,
    option: Seq<char>,
    image: Seq<u8>,
    run: ReplyView,
)
    requires
        run is Output || run is Failed,
    ensures
        ({
            let s0 = finish::ToolRunView { program, option, image, done: None };
            let s1 = finish::ToolRun::after(s0, run);
            &&& finish::ToolRun::wants(s0) == Some(
                RequestView::Tool(
                    ToolCallView {
                        program,
                        args: seq![encode_utf8(option), encode_utf8(path::utf8_lossy(image))],
                        input: None,
                    },
                ),
            )
            &&& finish::ToolRun::wants(s1) is None
            &&& run matches ReplyView::Output(o) ==> s1.done == Some(
                if o.success {
                    Ok(path::utf8_lossy(o.stdout))
                } else {
                    Err(
                        ErrorView::ToolFailed {
                            tool: program,
                            status: o.status,
                            stderr: text::trim(path::utf8_lossy(o.stderr)),
                        },
                    )
                },
            )
            &&& run matches ReplyView::Failed(e) ==> s1.done == Some(
                if e.kind == IoKind::NotFound {
                    Err::<Seq<char>, ErrorView>(ErrorView::ToolMissing { tool: program })
                } else {
                    Err::<Seq<char>, ErrorView>(ErrorView::Io(e))
                },
            )
        }),
{
}

} // verus!
