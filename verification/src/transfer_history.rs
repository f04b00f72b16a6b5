//! What a transfer comes to as a whole: whatever the order in which its requests are answered,
//! a complete transfer gives the file as it was.
use crate::events;
use crate::events::TransferState;
use crate::lang::Lang;
use crate::transfer;
use crate::transfer::{Chunk, ChunkOutcome, DownloadView, ReadReply, UploadView, MAX_INFLIGHT};
use vstd::prelude::*;

verus! {

/// The bytes of a file by their offsets.
pub open spec fn contents(file: Seq<u8>) -> Map<int, u8> {
    Map::new(|p: int| 0 <= p < file.len(), |p: int| file[p])
}

/// A file after bytes were written at an offset.
pub open spec fn written(file: Map<int, u8>, off: int, data: Seq<u8>) -> Map<int, u8> {
    Map::new(
        |p: int| file.contains_key(p) || off <= p < off + data.len(),
        |p: int|
            if off <= p < off + data.len() {
                data[p - off]
            } else {
                file[p]
            },
    )
}

// ---------------------------------------------------------------------------
// Downloads
// ---------------------------------------------------------------------------

/// Something that a download goes through.
pub enum DownloadStep {
    /// The requests were topped up; whether a stop was asked for.
    Plan(bool),
    /// The bytes of one of the chunks under way came and were written in their place.
    Came(nat, Seq<u8>),
    /// One of the chunks under way failed.
    Lost(nat, ChunkOutcome),
}

/// How a download stands, with the chunks under way and the local file as far as it is written.
pub struct DownloadState {
    pub run: DownloadView,
    pub open: Seq<Chunk>,
    pub local: Map<int, u8>,
}

/// How a download stands after what it has been through.
pub open spec fn download_after(
    id: Seq<char>,
    name: Seq<char>,
    total: u64,
    steps: Seq<DownloadStep>,
) -> DownloadState
    decreases steps.len(),
{
    if steps.len() == 0 {
        DownloadState {
            run: DownloadView::fresh(id, name, total),
            open: Seq::empty(),
            local: Map::empty(),
        }
    } else {
        let s = download_after(id, name, total, steps.drop_last());
        match steps.last() {
            DownloadStep::Plan(cancelled) => DownloadState {
                run: s.run.planned(cancelled),
                open: s.open + s.run.new_chunks(cancelled),
                local: s.local,
            },
            DownloadStep::Came(i, data) => if i < s.open.len() {
                DownloadState {
                    run: s.run.took(ChunkOutcome::Written(data.len() as u64)),
                    open: s.open.remove(i as int),
                    local: written(s.local, s.open[i as int].off as int, data),
                }
            } else {
                s
            },
            DownloadStep::Lost(i, outcome) => if i < s.open.len() && !(outcome is Written) {
                DownloadState {
                    run: s.run.took(outcome),
                    open: s.open.remove(i as int),
                    local: s.local,
                }
            } else {
                s
            },
        }
    }
}

/// Whether the server gave, for every chunk that came, the bytes of a file that stand there.
pub open spec fn served(id: Seq<char>, name: Seq<char>, file: Seq<u8>, steps: Seq<DownloadStep>) -> bool
    decreases steps.len(),
{
    steps.len() == 0 || {
        let s = download_after(id, name, file.len() as u64, steps.drop_last());
        &&& served(id, name, file, steps.drop_last())
        &&& steps.last() matches DownloadStep::Came(i, data) ==> i < s.open.len() ==> data
            == file.subrange(
            s.open[i as int].off as int,
            s.open[i as int].off + s.open[i as int].len,
        )
    }
}

/// The bytes of chunks together.
pub open spec fn chunk_bytes(s: Seq<Chunk>) -> nat
    decreases s.len(),
{
    if s.len() == 0 {
        0
    } else {
        s[0].len as nat + chunk_bytes(s.drop_first())
    }
}

proof fn lemma_chunk_bytes_join(a: Seq<Chunk>, b: Seq<Chunk>)
    ensures
        chunk_bytes(a + b) == chunk_bytes(a) + chunk_bytes(b),
    decreases a.len(),
{
    if a.len() == 0 {
        assert(a + b =~= b);
    } else {
        assert((a + b).drop_first() =~= a.drop_first() + b);
        lemma_chunk_bytes_join(a.drop_first(), b);
    }
}

proof fn lemma_chunk_bytes_remove(s: Seq<Chunk>, i: int)
    requires
        0 <= i < s.len(),
    ensures
        chunk_bytes(s) == chunk_bytes(s.remove(i)) + s[i].len,
    decreases s.len(),
{
    if i == 0 {
        assert(s.remove(0) =~= s.drop_first());
    } else {
        lemma_chunk_bytes_remove(s.drop_first(), i - 1);
        assert(s.remove(i).drop_first() =~= s.drop_first().remove(i - 1));
    }
}

/// The chunks from an offset on hold every byte up to where they end, and count them.
proof fn lemma_chunks_hold(off: u64, total: u64, room: nat)
    requires
        off <= total,
    ensures
        ({
            let s = transfer::chunks_from(off, total, room);
            let end = transfer::chunks_end(off, total, room);
            &&& off <= end <= total
            &&& chunk_bytes(s) == end - off
            &&& forall|p: int| off <= p < end ==> #[trigger] in_chunks(s, p)
            &&& forall|i: int| 0 <= i < s.len() ==> (#[trigger] s[i]).off + s[i].len <= end
        }),
    decreases room,
{
    if room > 0 && off < total {
        let c = transfer::chunk_at(off, total);
        let next = (off + c.len) as u64;
        lemma_chunks_hold(next, total, (room - 1) as nat);
        let rest = transfer::chunks_from(next, total, (room - 1) as nat);
        let s = transfer::chunks_from(off, total, room);
        let end = transfer::chunks_end(off, total, room);
        assert(s == seq![c] + rest);
        assert(s.drop_first() =~= rest);
        assert forall|p: int| off <= p < end implies #[trigger] in_chunks(s, p) by {
            if p < next {
                assert(s[0] == c);
            } else {
                assert(in_chunks(rest, p));
                let k = choose|k: int| 0 <= k < rest.len() && in_chunk(#[trigger] rest[k], p);
                assert(s[k + 1] == rest[k]);
            }
        }
        assert forall|i: int| 0 <= i < s.len() implies (#[trigger] s[i]).off + s[i].len <= end by {
            if i > 0 {
                assert(s[i] == rest[i - 1]);
            }
        }
    }
}

/// Whether an offset lies in a chunk.
pub open spec fn in_chunk(c: Chunk, p: int) -> bool {
    c.off <= p < c.off + c.len
}

/// Whether an offset lies in one of the chunks.
pub open spec fn in_chunks(s: Seq<Chunk>, p: int) -> bool {
    exists|k: int| 0 <= k < s.len() && in_chunk(#[trigger] s[k], p)
}

/// A download gives the file as it was: whatever the order in which its chunks come, nothing but
/// the file's own bytes is ever written, each in its place; and when none is under way any more
/// after the requests were topped up, without a failure or a request to stop, then the local
/// file is the whole file, and every byte of it is counted.
pub proof fn law_download_gives_the_file(
    id: Seq<char>,
    name: Seq<char>,
    file: Seq<u8>,
    steps: Seq<DownloadStep>,
)
    requires
        file.len() <= u64::MAX,
        served(id, name, file, steps),
    ensures
        ({
            let s = download_after(id, name, file.len() as u64, steps);
            &&& forall|p: int| #[trigger]
                s.local.contains_key(p) ==> 0 <= p < file.len() && s.local[p] == file[p]
            &&& s.open.len() == 0 && s.run.open_for_more() && steps.len() > 0
                && steps.last() is Plan ==> s.local == contents(file) && s.run.done == file.len()
        }),
{
    lemma_download(id, name, file, steps);
    let total = file.len() as u64;
    let s = download_after(id, name, total, steps);
    if s.open.len() == 0 && s.run.open_for_more() && steps.len() > 0 && steps.last() is Plan {
        let before = download_after(id, name, total, steps.drop_last());
        lemma_download(id, name, file, steps.drop_last());
        transfer::law_download_complete(before.run, steps.last()->Plan_0);
        assert(s.run.next_off == total);
        assert forall|p: int| 0 <= p < file.len() implies #[trigger] s.local.contains_key(p) by {
            assert(in_chunks(s.open, p) || s.local.contains_key(p));
        }
        assert(s.local =~= contents(file));
    }
}

/// Whether a stop was asked for.
pub open spec fn asked_to_stop(steps: Seq<DownloadStep>) -> bool {
    exists|i: int| 0 <= i < steps.len() && #[trigger] steps[i] == DownloadStep::Plan(true)
}

/// Whether a chunk failed.
pub open spec fn lost_a_chunk(steps: Seq<DownloadStep>) -> bool {
    exists|i: int| 0 <= i < steps.len() && (#[trigger] steps[i]) is Lost
}

/// A download that is over has the whole file, or leaves none: it is told as done only with the
/// local file whole and every byte counted, as cancelled only where a stop was asked for, and as
/// failed only where a chunk failed or the bytes could not be written out. In these two cases the
/// partial file is removed.
pub proof fn law_download_is_whole_or_removed(
    id: Seq<char>,
    name: Seq<char>,
    file: Seq<u8>,
    steps: Seq<DownloadStep>,
    flushed: bool,
    local: Seq<char>,
    lang: Lang,
)
    requires
        file.len() <= u64::MAX,
        served(id, name, file, steps),
        steps.len() > 0,
        steps.last() is Plan,
        download_after(id, name, file.len() as u64, steps).open.len() == 0,
    ensures
        ({
            let s = download_after(id, name, file.len() as u64, steps);
            let end = s.run.ended(flushed, local, lang);
            let size = file.len() as u64;
            &&& transfer::tidy(end, local)
            &&& end.result == Ok::<bool, Seq<char>>(true) ==> s.local == contents(file)
                && end.report == Some(
                events::transfer_view(id, name, false, size, size, TransferState::Done, ""@),
            )
            &&& end.result == Ok::<bool, Seq<char>>(false) ==> asked_to_stop(steps)
                && end.report == Some(
                events::transfer_view(
                    id,
                    name,
                    false,
                    s.run.done,
                    size,
                    TransferState::Cancelled,
                    transfer::cancelled_text(lang),
                ),
            )
            &&& end.result is Err ==> lost_a_chunk(steps) || !flushed
        }),
{
    law_download_gives_the_file(id, name, file, steps);
    lemma_download(id, name, file, steps);
    lemma_download_causes(id, name, file.len() as u64, steps);
}

proof fn lemma_download_causes(id: Seq<char>, name: Seq<char>, total: u64, steps: Seq<DownloadStep>)
    ensures
        ({
            let run = download_after(id, name, total, steps).run;
            &&& run.id == id
            &&& run.name == name
            &&& run.cancelled ==> asked_to_stop(steps)
            &&& run.err is Some ==> lost_a_chunk(steps)
        }),
    decreases steps.len(),
{
    if steps.len() > 0 {
        let front = steps.drop_last();
        lemma_download_causes(id, name, total, front);
        assert(steps[steps.len() - 1] == steps.last());
        if asked_to_stop(front) {
            let i = choose|i: int|
                0 <= i < front.len() && #[trigger] front[i] == DownloadStep::Plan(true);
            assert(steps[i] == front[i]);
        }
        if lost_a_chunk(front) {
            let i = choose|i: int| 0 <= i < front.len() && (#[trigger] front[i]) is Lost;
            assert(steps[i] == front[i]);
        }
    }
}

proof fn lemma_download(id: Seq<char>, name: Seq<char>, file: Seq<u8>, steps: Seq<DownloadStep>)
    requires
        file.len() <= u64::MAX,
        served(id, name, file, steps),
    ensures
        ({
            let s = download_after(id, name, file.len() as u64, steps);
            &&& s.run.ok()
            &&& s.run.total == file.len()
            &&& s.run.inflight == s.open.len()
            &&& forall|i: int|
                0 <= i < s.open.len() ==> (#[trigger] s.open[i]).off + s.open[i].len <= file.len()
            &&& s.run.err is None ==> s.run.done + chunk_bytes(s.open) == s.run.next_off
            &&& s.run.err is None ==> forall|p: int|
                0 <= p < s.run.next_off ==> #[trigger] s.local.contains_key(p) || in_chunks(s.open, p)
            &&& forall|p: int| #[trigger]
                s.local.contains_key(p) ==> 0 <= p < file.len() && s.local[p] == file[p]
        }),
    decreases steps.len(),
{
    let total = file.len() as u64;
    if steps.len() > 0 {
        lemma_download(id, name, file, steps.drop_last());
        let b = download_after(id, name, total, steps.drop_last());
        let s = download_after(id, name, total, steps);
        match steps.last() {
            DownloadStep::Plan(cancelled) => {
                let room = (MAX_INFLIGHT - b.run.inflight) as nat;
                let more = b.run.new_chunks(cancelled);
                transfer::law_chunks_tile(b.run.next_off, total, room);
                lemma_chunks_hold(b.run.next_off, total, room);
                lemma_chunk_bytes_join(b.open, more);
                assert(s.open == b.open + more);
                assert forall|p: int| b.run.err is None && 0 <= p < s.run.next_off implies
                    #[trigger] s.local.contains_key(p) || in_chunks(s.open, p) by {
                    if p < b.run.next_off {
                        assert(b.local.contains_key(p) || in_chunks(b.open, p));
                        if in_chunks(b.open, p) {
                            let k = choose|k: int|
                                0 <= k < b.open.len() && in_chunk(#[trigger] b.open[k], p);
                            assert(s.open[k] == b.open[k]);
                        }
                    } else {
                        assert(in_chunks(more, p));
                        let k = choose|k: int| 0 <= k < more.len() && in_chunk(#[trigger] more[k], p);
                        assert(s.open[b.open.len() + k] == more[k]);
                    }
                }
                assert forall|i: int| 0 <= i < s.open.len() implies (#[trigger] s.open[i]).off
                    + s.open[i].len <= file.len() by {
                    if i >= b.open.len() {
                        assert(s.open[i] == more[i - b.open.len()]);
                    }
                }
            },
            DownloadStep::Came(i, data) => {
                if i < b.open.len() {
                    let c = b.open[i as int];
                    lemma_removed(b, s, i);
                    assert(data.len() == c.len);
                    assert forall|p: int| #[trigger] s.local.contains_key(p) implies 0 <= p
                        < file.len() && s.local[p] == file[p] by {
                        if in_chunk(c, p) {
                            assert(data[p - c.off] == file[p]);
                        } else {
                            assert(b.local.contains_key(p));
                        }
                    }
                }
            },
            DownloadStep::Lost(i, outcome) => {
                if i < b.open.len() && !(outcome is Written) {
                    lemma_removed(b, s, i);
                }
            },
        }
    }
}

/// When one of the chunks under way comes back, the others stay.
proof fn lemma_removed(b: DownloadState, s: DownloadState, i: nat)
    requires
        i < b.open.len(),
        s.open == b.open.remove(i as int),
    ensures
        chunk_bytes(b.open) == chunk_bytes(s.open) + b.open[i as int].len,
        forall|p: int| #[trigger]
            in_chunks(b.open, p) ==> in_chunk(b.open[i as int], p) || in_chunks(s.open, p),
        forall|k: int|
            0 <= k < s.open.len() ==> exists|j: int|
                0 <= j < b.open.len() && #[trigger] s.open[k] == #[trigger] b.open[j],
{
    lemma_chunk_bytes_remove(b.open, i as int);
    assert forall|p: int| #[trigger] in_chunks(b.open, p) implies in_chunk(b.open[i as int], p)
        || in_chunks(s.open, p) by {
        let k = choose|k: int| 0 <= k < b.open.len() && in_chunk(#[trigger] b.open[k], p);
        if k < i {
            assert(s.open[k] == b.open[k]);
        } else if k > i {
            assert(s.open[k - 1] == b.open[k]);
        }
    }
    assert forall|k: int| 0 <= k < s.open.len() implies exists|j: int|
        0 <= j < b.open.len() && #[trigger] s.open[k] == #[trigger] b.open[j] by {
        if k < i {
            assert(s.open[k] == b.open[k]);
        } else {
            assert(s.open[k] == b.open[k + 1]);
        }
    }
}

/// A chunk that comes in parts is gathered without a gap: if the bytes so far are those of a file
/// from the start of the chunk on, and an answer brings the bytes that follow, then both together
/// are again those of the file.
pub proof fn law_parts_are_gathered(file: Seq<u8>, off: int, at: int, data: Seq<u8>, part: Seq<u8>)
    requires
        0 <= off <= at <= at + part.len() <= file.len(),
        data == file.subrange(off, at),
        part == file.subrange(at, at + part.len()),
    ensures
        data + part == file.subrange(off, at + part.len()),
{
    assert(data + part =~= file.subrange(off, at + part.len()));
}

// ---------------------------------------------------------------------------
// Downloads of unknown size
// ---------------------------------------------------------------------------

/// Something that a download of unknown size goes through.
pub enum DrainStep {
    /// Bytes were asked for and came, and were written behind those before.
    Came(ReadReply),
    /// Bytes were asked for and came, but could not be written.
    Unwritten(ReadReply),
    /// Bytes were asked for, and none came: the file has ended, or the request failed.
    Over(ReadReply),
    /// A stop was asked for.
    Stop,
}

/// How such a download stands: with the local file, and whether it is over.
pub struct DrainState {
    pub run: DownloadView,
    pub local: Seq<u8>,
    pub over: bool,
}

/// How such a download stands after what it has been through. Once it is over, nothing more
/// happens.
pub open spec fn drain_after(id: Seq<char>, name: Seq<char>, steps: Seq<DrainStep>) -> DrainState
    decreases steps.len(),
{
    if steps.len() == 0 {
        DrainState {
            run: DownloadView::fresh(id, name, 0),
            local: Seq::empty(),
            over: false,
        }
    } else {
        let s = drain_after(id, name, steps.drop_last());
        if s.over {
            s
        } else {
            match steps.last() {
                DrainStep::Came(reply) => DrainState {
                    run: s.run.answered(reply).grown(reply->Data_0@.len() as u64),
                    local: s.local + reply->Data_0@,
                    over: false,
                },
                DrainStep::Unwritten(reply) => DrainState {
                    run: s.run.answered(reply).failed(transfer::DRAIN_WRITE_FAILED@),
                    local: s.local,
                    over: true,
                },
                DrainStep::Over(reply) => DrainState {
                    run: s.run.answered(reply),
                    local: s.local,
                    over: true,
                },
                DrainStep::Stop => DrainState {
                    run: s.run.heard(true),
                    local: s.local,
                    over: true,
                },
            }
        }
    }
}

/// Whether an answer is one that a server with a file gives to a request: bytes of the file that
/// stand there, nothing only where the file has ended, or a failure.
pub open spec fn honest(file: Seq<u8>, want: Chunk, reply: ReadReply) -> bool {
    match reply {
        ReadReply::Data(d) => if d@.len() == 0 {
            want.off >= file.len()
        } else {
            want.off + d@.len() <= file.len() && d@ == file.subrange(
                want.off as int,
                want.off + d@.len(),
            )
        },
        ReadReply::Eof => want.off >= file.len(),
        ReadReply::Failed(_) => true,
    }
}

/// Whether the server answered every request honestly, and what is said of each answer holds.
pub open spec fn drained_from(
    id: Seq<char>,
    name: Seq<char>,
    file: Seq<u8>,
    steps: Seq<DrainStep>,
) -> bool
    decreases steps.len(),
{
    steps.len() == 0 || {
        let want = drain_after(id, name, steps.drop_last()).run.drain_chunk();
        &&& drained_from(id, name, file, steps.drop_last())
        &&& match steps.last() {
            DrainStep::Came(reply) => transfer::brings_bytes(reply) && honest(file, want, reply),
            DrainStep::Unwritten(reply) => transfer::brings_bytes(reply) && honest(
                file,
                want,
                reply,
            ),
            DrainStep::Over(reply) => !transfer::brings_bytes(reply) && honest(file, want, reply),
            DrainStep::Stop => true,
        }
    }
}

/// Whether a stop was asked of such a download.
pub open spec fn drain_stopped(steps: Seq<DrainStep>) -> bool {
    exists|i: int| 0 <= i < steps.len() && (#[trigger] steps[i]) is Stop
}

/// Whether a request of such a download failed, or bytes could not be written.
pub open spec fn drain_lost(steps: Seq<DrainStep>) -> bool {
    exists|i: int|
        0 <= i < steps.len() && match #[trigger] steps[i] {
            DrainStep::Unwritten(_) => true,
            DrainStep::Over(reply) => reply is Failed,
            _ => false,
        }
}

/// A download of unknown size gives the file as it was: what is written is always the beginning
/// of the file, counted byte by byte; when the end comes without a failure or a request to stop,
/// it is the whole file. It is told as done only then, as cancelled only where a stop was asked
/// for, and as failed only where something failed; in these two cases the partial file is
/// removed.
pub proof fn law_drain_gives_the_file(
    id: Seq<char>,
    name: Seq<char>,
    file: Seq<u8>,
    steps: Seq<DrainStep>,
    flushed: bool,
    local: Seq<char>,
    lang: Lang,
)
    requires
        file.len() <= u64::MAX,
        drained_from(id, name, file, steps),
    ensures
        ({
            let s = drain_after(id, name, steps);
            let end = s.run.ended(flushed, local, lang);
            let size = file.len() as u64;
            &&& s.local.len() <= file.len()
            &&& s.local == file.take(s.local.len() as int)
            &&& s.run.done == s.local.len()
            &&& s.over && s.run.open_for_more() ==> s.local == file
            &&& s.over ==> transfer::tidy(end, local)
            &&& s.over && end.result == Ok::<bool, Seq<char>>(true) ==> s.local == file
                && end.report == Some(
                events::transfer_view(id, name, false, size, size, TransferState::Done, ""@),
            )
            &&& s.over && end.result == Ok::<bool, Seq<char>>(false) ==> drain_stopped(steps)
                && end.report == Some(
                events::transfer_view(
                    id,
                    name,
                    false,
                    s.run.done,
                    0,
                    TransferState::Cancelled,
                    transfer::cancelled_text(lang),
                ),
            )
            &&& s.over && end.result is Err ==> drain_lost(steps) || !flushed
        }),
{
    lemma_drain(id, name, file, steps);
    let s = drain_after(id, name, steps);
    if s.over && s.run.open_for_more() {
        assert(s.local =~= file);
    }
}

proof fn lemma_drain(id: Seq<char>, name: Seq<char>, file: Seq<u8>, steps: Seq<DrainStep>)
    requires
        file.len() <= u64::MAX,
        drained_from(id, name, file, steps),
    ensures
        ({
            let s = drain_after(id, name, steps);
            &&& s.run.id == id
            &&& s.run.name == name
            &&& s.run.total == 0
            &&& s.local.len() <= file.len()
            &&& s.local == file.take(s.local.len() as int)
            &&& s.run.done == s.local.len()
            &&& s.over && s.run.open_for_more() ==> s.local.len() == file.len()
            &&& !s.over ==> s.run.open_for_more()
            &&& s.run.cancelled ==> drain_stopped(steps)
            &&& s.run.err is Some ==> drain_lost(steps)
        }),
    decreases steps.len(),
{
    if steps.len() > 0 {
        let front = steps.drop_last();
        lemma_drain(id, name, file, front);
        let b = drain_after(id, name, front);
        let s = drain_after(id, name, steps);
        assert(steps[steps.len() - 1] == steps.last());
        if drain_stopped(front) {
            let i = choose|i: int| 0 <= i < front.len() && (#[trigger] front[i]) is Stop;
            assert(steps[i] == front[i]);
        }
        if drain_lost(front) {
            let i = choose|i: int|
                0 <= i < front.len() && match #[trigger] front[i] {
                    DrainStep::Unwritten(_) => true,
                    DrainStep::Over(reply) => reply is Failed,
                    _ => false,
                };
            assert(steps[i] == front[i]);
        }
        if !b.over && steps.last() is Came {
            assert(s.local =~= file.take(s.local.len() as int));
        }
    } else {
        assert(file.take(0) =~= Seq::<u8>::empty());
    }
}

// ---------------------------------------------------------------------------
// Uploads
// ---------------------------------------------------------------------------

/// Something that an upload goes through.
pub enum UploadStep {
    /// Bytes were read from the local file, none at its end.
    Read(Seq<u8>),
    /// Bytes could not be read from the local file.
    Unread(String),
    /// One of the writes under way was carried out.
    Written(nat),
    /// One of the writes under way failed.
    Unwritten(nat, String),
    /// A round began after a stop was asked for.
    Stop,
}

/// How an upload stands, with the writes under way by their offsets, the remote file as far as
/// it is written, and all that was read.
pub struct UploadState {
    pub run: UploadView,
    pub open: Seq<(u64, Seq<u8>)>,
    pub remote: Map<int, u8>,
    pub read: Seq<u8>,
}

/// How an upload stands after what it has been through.
pub open spec fn upload_after(
    id: Seq<char>,
    name: Seq<char>,
    total: u64,
    steps: Seq<UploadStep>,
) -> UploadState
    decreases steps.len(),
{
    if steps.len() == 0 {
        UploadState {
            run: UploadView::fresh(id, name, total),
            open: Seq::empty(),
            remote: Map::empty(),
            read: Seq::empty(),
        }
    } else {
        let s = upload_after(id, name, total, steps.drop_last());
        match steps.last() {
            UploadStep::Read(data) => UploadState {
                run: s.run.after_read(Ok(data.len() as u64)),
                open: if data.len() == 0 {
                    s.open
                } else {
                    s.open.push((s.run.offset, data))
                },
                read: s.read + data,
                ..s
            },
            UploadStep::Written(i) => if i < s.open.len() {
                let (off, data) = s.open[i as int];
                UploadState {
                    run: s.run.took(Ok(data.len() as u64)),
                    open: s.open.remove(i as int),
                    remote: written(s.remote, off as int, data),
                    ..s
                }
            } else {
                s
            },
            UploadStep::Unread(m) => UploadState { run: s.run.after_read(Err(m)), ..s },
            UploadStep::Unwritten(i, m) => if i < s.open.len() {
                UploadState { run: s.run.took(Err(m)), open: s.open.remove(i as int), ..s }
            } else {
                s
            },
            UploadStep::Stop => UploadState { run: s.run.round(true), ..s },
        }
    }
}

/// The bytes of writes together.
pub open spec fn write_bytes(s: Seq<(u64, Seq<u8>)>) -> nat
    decreases s.len(),
{
    if s.len() == 0 {
        0
    } else {
        s[0].1.len() + write_bytes(s.drop_first())
    }
}

proof fn lemma_write_bytes_push(s: Seq<(u64, Seq<u8>)>, w: (u64, Seq<u8>))
    ensures
        write_bytes(s.push(w)) == write_bytes(s) + w.1.len(),
    decreases s.len(),
{
    reveal_with_fuel(write_bytes, 2);
    if s.len() == 0 {
        assert(s.push(w).drop_first() =~= s);
    } else {
        assert(s.push(w).drop_first() =~= s.drop_first().push(w));
        lemma_write_bytes_push(s.drop_first(), w);
    }
}

proof fn lemma_write_bytes_remove(s: Seq<(u64, Seq<u8>)>, i: int)
    requires
        0 <= i < s.len(),
    ensures
        write_bytes(s) == write_bytes(s.remove(i)) + s[i].1.len(),
    decreases s.len(),
{
    if i == 0 {
        assert(s.remove(0) =~= s.drop_first());
    } else {
        lemma_write_bytes_remove(s.drop_first(), i - 1);
        assert(s.remove(i).drop_first() =~= s.drop_first().remove(i - 1));
    }
}

/// Whether a write covers an offset.
pub open spec fn in_write(w: (u64, Seq<u8>), p: int) -> bool {
    w.0 <= p < w.0 + w.1.len()
}

/// Whether one of the writes covers an offset.
pub open spec fn in_writes(s: Seq<(u64, Seq<u8>)>, p: int) -> bool {
    exists|k: int| 0 <= k < s.len() && in_write(#[trigger] s[k], p)
}

/// An upload gives the file as it was: whatever the order in which its writes are carried out,
/// nothing but the bytes that were read is ever written, each in its place; what was written and
/// what is under way are together what was read; and when nothing is under way any more, without
/// a failure, the remote file is all that was read.
pub proof fn law_upload_gives_the_file(
    id: Seq<char>,
    name: Seq<char>,
    total: u64,
    steps: Seq<UploadStep>,
)
    requires
        upload_after(id, name, total, steps).read.len() <= u64::MAX,
    ensures
        ({
            let s = upload_after(id, name, total, steps);
            &&& s.run.offset == s.read.len()
            &&& s.run.inflight == s.open.len()
            &&& s.run.err is None ==> s.run.done + write_bytes(s.open) == s.read.len()
            &&& forall|p: int| #[trigger]
                s.remote.contains_key(p) ==> 0 <= p < s.read.len() && s.remote[p] == s.read[p]
            &&& s.open.len() == 0 && s.run.err is None ==> s.remote == contents(s.read) && s.run.done == s.read.len()
        }),
{
    lemma_upload(id, name, total, steps);
    let s = upload_after(id, name, total, steps);
    if s.open.len() == 0 && s.run.err is None {
        assert forall|p: int| 0 <= p < s.read.len() implies #[trigger] s.remote.contains_key(p) by {
            assert(s.remote.contains_key(p) || in_writes(s.open, p));
        }
        assert(s.remote =~= contents(s.read));
    }
}

proof fn lemma_upload(id: Seq<char>, name: Seq<char>, total: u64, steps: Seq<UploadStep>)
    requires
        upload_after(id, name, total, steps).read.len() <= u64::MAX,
    ensures
        ({
            let s = upload_after(id, name, total, steps);
            &&& s.run.offset == s.read.len()
            &&& s.run.inflight == s.open.len()
            &&& s.run.err is None ==> s.run.done + write_bytes(s.open) == s.read.len()
            &&& forall|k: int|
                0 <= k < s.open.len() ==> (#[trigger] s.open[k]).0 + s.open[k].1.len()
                    <= s.read.len() && s.open[k].1 == s.read.subrange(
                    s.open[k].0 as int,
                    s.open[k].0 + s.open[k].1.len(),
                )
            &&& s.run.err is None ==> forall|p: int|
                0 <= p < s.read.len() ==> #[trigger] s.remote.contains_key(p) || in_writes(s.open, p)
            &&& forall|p: int| #[trigger]
                s.remote.contains_key(p) ==> 0 <= p < s.read.len() && s.remote[p] == s.read[p]
        }),
    decreases steps.len(),
{
    if steps.len() > 0 {
        let b = upload_after(id, name, total, steps.drop_last());
        let s = upload_after(id, name, total, steps);
        lemma_upload(id, name, total, steps.drop_last());
        match steps.last() {
            UploadStep::Read(data) => {
                let w = (b.run.offset, data);
                if data.len() > 0 {
                    lemma_write_bytes_push(b.open, w);
                }
                assert forall|k: int| 0 <= k < s.open.len() implies (#[trigger] s.open[k]).0
                    + s.open[k].1.len() <= s.read.len() && s.open[k].1 == s.read.subrange(
                    s.open[k].0 as int,
                    s.open[k].0 + s.open[k].1.len(),
                ) by {
                    let end = s.open[k].0 + s.open[k].1.len();
                    if k < b.open.len() {
                        assert(s.open[k] == b.open[k]);
                        assert(s.read.subrange(s.open[k].0 as int, end) =~= b.read.subrange(
                            s.open[k].0 as int,
                            end,
                        ));
                    } else {
                        assert(s.read.subrange(s.open[k].0 as int, end) =~= data);
                    }
                }
                assert forall|p: int| s.run.err is None && 0 <= p < s.read.len() implies
                    #[trigger] s.remote.contains_key(p) || in_writes(s.open, p) by {
                    if p < b.read.len() {
                        assert(b.remote.contains_key(p) || in_writes(b.open, p));
                        if in_writes(b.open, p) {
                            let k = choose|k: int|
                                0 <= k < b.open.len() && in_write(#[trigger] b.open[k], p);
                            assert(s.open[k] == b.open[k]);
                        }
                    } else {
                        assert(s.open[b.open.len() as int] == w);
                        assert(in_write(s.open[b.open.len() as int], p));
                    }
                }
            },
            UploadStep::Written(i) => {
                if i < b.open.len() {
                    let w = b.open[i as int];
                    lemma_write_bytes_remove(b.open, i as int);
                    assert forall|k: int| 0 <= k < s.open.len() implies (#[trigger] s.open[k]).0
                        + s.open[k].1.len() <= s.read.len() && s.open[k].1 == s.read.subrange(
                        s.open[k].0 as int,
                        s.open[k].0 + s.open[k].1.len(),
                    ) by {
                        if k < i {
                            assert(s.open[k] == b.open[k]);
                        } else {
                            assert(s.open[k] == b.open[k + 1]);
                        }
                    }
                    assert forall|p: int| s.run.err is None && 0 <= p < s.read.len() implies
                        #[trigger] s.remote.contains_key(p) || in_writes(s.open, p) by {
                        assert(b.remote.contains_key(p) || in_writes(b.open, p));
                        if in_writes(b.open, p) && !in_write(w, p) {
                            let k = choose|k: int|
                                0 <= k < b.open.len() && in_write(#[trigger] b.open[k], p);
                            if k < i {
                                assert(s.open[k] == b.open[k]);
                            } else {
                                assert(s.open[k - 1] == b.open[k]);
                            }
                        }
                    }
                    assert forall|p: int| #[trigger] s.remote.contains_key(p) implies 0 <= p
                        < s.read.len() && s.remote[p] == s.read[p] by {
                        if in_write(w, p) {
                            assert(w.1[p - w.0] == s.read[p]);
                        } else {
                            assert(b.remote.contains_key(p));
                        }
                    }
                }
            },
            UploadStep::Unwritten(i, m) => {
                if i < b.open.len() {
                    assert forall|k: int| 0 <= k < s.open.len() implies (#[trigger] s.open[k]).0
                        + s.open[k].1.len() <= s.read.len() && s.open[k].1 == s.read.subrange(
                        s.open[k].0 as int,
                        s.open[k].0 + s.open[k].1.len(),
                    ) by {
                        if k < i {
                            assert(s.open[k] == b.open[k]);
                        } else {
                            assert(s.open[k] == b.open[k + 1]);
                        }
                    }
                }
            },
            UploadStep::Unread(m) => {},
            UploadStep::Stop => {},
        }
    }
}

/// Whether the local file gave its bytes in order, and none only at its end.
pub open spec fn read_from(
    id: Seq<char>,
    name: Seq<char>,
    total: u64,
    file: Seq<u8>,
    steps: Seq<UploadStep>,
) -> bool
    decreases steps.len(),
{
    steps.len() == 0 || {
        let at = upload_after(id, name, total, steps.drop_last()).read.len() as int;
        &&& read_from(id, name, total, file, steps.drop_last())
        &&& steps.last() matches UploadStep::Read(data) ==> at + data.len() <= file.len() && data
            == file.subrange(at, at + data.len()) && (data.len() == 0 ==> at == file.len())
    }
}

/// Whether a stop was asked for.
pub open spec fn upload_stopped(steps: Seq<UploadStep>) -> bool {
    exists|i: int| 0 <= i < steps.len() && (#[trigger] steps[i]) is Stop
}

/// Whether reading or writing failed.
pub open spec fn upload_lost(steps: Seq<UploadStep>) -> bool {
    exists|i: int|
        0 <= i < steps.len() && ((#[trigger] steps[i]) is Unread || steps[i] is Unwritten)
}

/// An upload that has no other round has sent the whole file, or leaves none: it is told as done
/// only with the remote file whole and every byte counted, as cancelled only where a stop was
/// asked for, and as failed only where reading or writing failed. In these two cases the partial
/// file is removed.
pub proof fn law_upload_is_whole_or_removed(
    id: Seq<char>,
    name: Seq<char>,
    total: u64,
    file: Seq<u8>,
    steps: Seq<UploadStep>,
    remote: Seq<char>,
    lang: Lang,
)
    requires
        file.len() <= u64::MAX,
        read_from(id, name, total, file, steps),
        !upload_after(id, name, total, steps).run.goes_on(),
    ensures
        ({
            let s = upload_after(id, name, total, steps);
            let end = s.run.ended(remote, lang);
            let size = file.len() as u64;
            &&& transfer::tidy(end, remote)
            &&& end.result == Ok::<bool, Seq<char>>(true) ==> s.remote == contents(file)
                && end.report == Some(
                events::transfer_view(
                    id,
                    name,
                    true,
                    size,
                    transfer::larger(total, size),
                    TransferState::Done,
                    ""@,
                ),
            )
            &&& end.result == Ok::<bool, Seq<char>>(false) ==> upload_stopped(steps)
                && end.report == Some(
                events::transfer_view(
                    id,
                    name,
                    true,
                    s.run.done,
                    total,
                    TransferState::Cancelled,
                    transfer::cancelled_text(lang),
                ),
            )
            &&& end.result is Err ==> upload_lost(steps)
        }),
{
    lemma_upload_reads(id, name, total, file, steps);
    law_upload_gives_the_file(id, name, total, steps);
    let s = upload_after(id, name, total, steps);
    if s.read.len() == file.len() {
        assert(s.read =~= file);
    }
}

proof fn lemma_upload_reads(
    id: Seq<char>,
    name: Seq<char>,
    total: u64,
    file: Seq<u8>,
    steps: Seq<UploadStep>,
)
    requires
        file.len() <= u64::MAX,
        read_from(id, name, total, file, steps),
    ensures
        ({
            let s = upload_after(id, name, total, steps);
            &&& s.run.id == id
            &&& s.run.name == name
            &&& s.run.total == total
            &&& s.read.len() <= file.len()
            &&& s.read == file.take(s.read.len() as int)
            &&& s.run.eof && s.run.err is None && !s.run.cancelled ==> s.read.len() == file.len()
            &&& s.run.cancelled ==> upload_stopped(steps)
            &&& s.run.err is Some ==> upload_lost(steps)
        }),
    decreases steps.len(),
{
    if steps.len() > 0 {
        let front = steps.drop_last();
        lemma_upload_reads(id, name, total, file, front);
        let s = upload_after(id, name, total, steps);
        assert(steps[steps.len() - 1] == steps.last());
        if upload_stopped(front) {
            let i = choose|i: int| 0 <= i < front.len() && (#[trigger] front[i]) is Stop;
            assert(steps[i] == front[i]);
        }
        if upload_lost(front) {
            let i = choose|i: int|
                0 <= i < front.len() && ((#[trigger] front[i]) is Unread || front[i] is Unwritten);
            assert(steps[i] == front[i]);
        }
        assert(s.read =~= file.take(s.read.len() as int));
    } else {
        assert(file.take(0) =~= Seq::<u8>::empty());
    }
}

} // verus!
