//! What a transfer reports, and what it has under way.
use crate::events::{EventView, TransferState};
use crate::lang::Lang;
use crate::text;
use crate::text_laws;
use crate::transfer;
use crate::transfer::{ChunkOutcome, DownloadView, ReadReply, SetupStep, UploadView};
use vstd::prelude::*;

verus! {

/// A download asks for no more than thirty-two kibibytes at once, has no more than thirty-two
/// requests under way, and asks for nothing behind the end of the file, nothing twice, and
/// nothing more once it failed or a stop was asked for. While there are free places and bytes to
/// ask for, it asks.
pub proof fn law_download_asks_within_bounds(d: DownloadView, cancelled: bool, i: int)
    requires
        d.ok(),
    ensures
        ({
            let more = d.new_chunks(cancelled);
            let next = d.planned(cancelled);
            &&& next.inflight == d.inflight + more.len()
            &&& next.inflight <= 32
            &&& 0 <= i < more.len() ==> {
                &&& 0 < more[i].len <= 32768
                &&& more[i].off + more[i].len <= d.total
                &&& i == 0 ==> more[i].off == d.next_off
                &&& i > 0 ==> more[i].off == more[i - 1].off + more[i - 1].len
                &&& i == more.len() - 1 ==> next.next_off == more[i].off + more[i].len
            }
            &&& (cancelled || d.cancelled || d.err is Some) ==> more.len() == 0
            &&& !cancelled && !d.cancelled && d.err is None && d.inflight < 32 && d.next_off
                < d.total ==> more.len() > 0
            &&& next.done == d.done
            &&& next.err == d.err
        }),
{
    transfer::law_chunks_tile(
        d.next_off,
        d.total,
        (transfer::MAX_INFLIGHT - d.inflight) as nat,
    );
    let more = d.new_chunks(cancelled);
    if 0 < i < more.len() {
        assert(more[i - 1].off + more[i - 1].len == more[i].off);
    }
}

/// A chunk that was written counts with all its bytes, one that failed with none; either way one
/// request fewer is under way, and a failure is remembered.
pub proof fn law_chunk_is_counted(d: DownloadView, outcome: ChunkOutcome, now: u64)
    requires
        d.ok(),
        d.inflight > 0,
        outcome matches ChunkOutcome::Written(n) ==> d.done + n <= u64::MAX,
    ensures
        ({
            let next = d.after_chunk(outcome, now);
            &&& next.inflight == d.inflight - 1
            &&& next.total == d.total && next.next_off == d.next_off && next.cancelled
                == d.cancelled && next.id == d.id && next.name == d.name
            &&& match outcome {
                ChunkOutcome::Written(n) => next.done == d.done + n && next.err == d.err,
                _ => next.done == d.done && next.err is Some,
            }
        }),
{
}

/// A report on a download names it, and tells the bytes that have come.
pub proof fn law_download_report_tells_the_bytes(
    d: DownloadView,
    total: u64,
    state: TransferState,
    msg: Seq<char>,
)
    ensures
        d.report(total, state, msg) == (EventView::SftpTransfer {
            id: d.id,
            name: d.name,
            is_upload: false,
            transferred: d.done,
            total,
            state,
            msg,
        }),
{
}

/// The end of a download is told as it is: as done with all bytes, the total being at least as
/// large, only where it did not fail and was not stopped; as cancelled with the bytes so far; a
/// failure by its reason, without a report of its own.
pub proof fn law_download_end_is_told(
    d: DownloadView,
    flushed: bool,
    local: Seq<char>,
    lang: Lang,
)
    ensures
        ({
            let end = d.ended(flushed, local, lang);
            match end.result {
                Ok(true) => {
                    &&& end.report matches Some(EventView::SftpTransfer {
                        id,
                        name,
                        is_upload,
                        transferred,
                        total,
                        state,
                        msg,
                    }) && id == d.id && name == d.name && !is_upload && transferred == d.done
                        && total >= d.done && total >= d.total && (total == d.done || total
                        == d.total) && state == TransferState::Done && msg == ""@
                    &&& end.remove is None
                },
                Ok(false) => {
                    &&& end.report matches Some(EventView::SftpTransfer {
                        id,
                        name,
                        is_upload,
                        transferred,
                        total,
                        state,
                        msg,
                    }) && id == d.id && name == d.name && !is_upload && transferred == d.done
                        && total == d.total && state == TransferState::Cancelled && msg
                        == lang.pick("已取消"@, "Cancelled"@)
                    &&& end.remove == Some(local)
                },
                Err(m) => {
                    &&& end.report is None
                    &&& end.remove == Some(local)
                    &&& d.err is Some ==> d.err == Some(m)
                },
            }
        }),
{
}

/// Where the size is not known, the bytes behind those that have come are asked for, again at
/// most thirty-two kibibytes.
pub proof fn law_drain_asks_for_what_follows(d: DownloadView, reply: ReadReply)
    ensures
        d.drain_chunk().off == d.done,
        d.drain_chunk().len == 32768,
        d.answered(reply).done == d.done,
        reply matches ReadReply::Failed(m) ==> d.answered(reply).err == Some("read remote: "@ + m@),
        !(reply is Failed) ==> d.answered(reply) == d,
{
}

/// An upload reads on while fewer than thirty-two requests are under way and the end was not
/// reached; what it reads goes behind what it read before, and the end of the file ends it.
pub proof fn law_upload_reads_in_order(u: UploadView, n: u64)
    requires
        u.offset + n <= u64::MAX,
    ensures
        u.reads() <==> !u.eof && u.inflight < 32,
        ({
            let next = u.after_read(Ok(n));
            &&& n > 0 ==> next.offset == u.offset + n && next.inflight == u.inflight + 1
                && next.eof == u.eof
            &&& n == 0 ==> next.eof && next.offset == u.offset && next.inflight == u.inflight
            &&& next.done == u.done && next.err == u.err && next.cancelled == u.cancelled
        }),
{
}

/// A write that was carried out counts with all its bytes; one that failed counts with none and
/// ends the reading. A stop ends the reading too, but what is under way is waited for.
pub proof fn law_write_is_counted(u: UploadView, r: Result<u64, String>, cancelled: bool)
    requires
        u.inflight > 0,
        r matches Ok(n) ==> u.done + n <= u64::MAX,
    ensures
        ({
            let next = u.took(r);
            &&& next.inflight == u.inflight - 1
            &&& next.offset == u.offset && next.total == u.total
            &&& match r {
                Ok(n) => next.done == u.done + n && next.err == u.err && next.eof == u.eof,
                Err(m) => next.done == u.done && next.err == Some("write remote file: "@ + m@)
                    && next.eof,
            }
        }),
        u.err is None && cancelled ==> u.round(cancelled).cancelled && u.round(cancelled).eof
            && u.round(cancelled).inflight == u.inflight && u.round(cancelled).goes_on(),
        !cancelled ==> u.round(cancelled) == u,
{
}

/// A report on an upload names it, and tells the bytes that were sent.
pub proof fn law_upload_report_tells_the_bytes(
    u: UploadView,
    total: u64,
    state: TransferState,
    msg: Seq<char>,
)
    ensures
        u.report(total, state, msg) == (EventView::SftpTransfer {
            id: u.id,
            name: u.name,
            is_upload: true,
            transferred: u.done,
            total,
            state,
            msg,
        }),
{
}

/// The end of an upload is told as it is: as done with all bytes, the total being at least as
/// large, only where it did not fail and was not stopped; as cancelled with the bytes so far; a
/// failure by its reason, without a report of its own.
pub proof fn law_upload_end_is_told(u: UploadView, remote: Seq<char>, lang: Lang)
    ensures
        ({
            let end = u.ended(remote, lang);
            match end.result {
                Ok(true) => {
                    &&& end.report matches Some(EventView::SftpTransfer {
                        id,
                        name,
                        is_upload,
                        transferred,
                        total,
                        state,
                        msg,
                    }) && id == u.id && name == u.name && is_upload && transferred == u.done
                        && total >= u.done && total >= u.total && (total == u.done || total
                        == u.total) && state == TransferState::Done && msg == ""@
                    &&& end.remove is None
                },
                Ok(false) => {
                    &&& end.report matches Some(EventView::SftpTransfer {
                        id,
                        name,
                        is_upload,
                        transferred,
                        total,
                        state,
                        msg,
                    }) && id == u.id && name == u.name && is_upload && transferred == u.done
                        && total == u.total && state == TransferState::Cancelled && msg
                        == lang.pick("已取消"@, "Cancelled"@)
                    &&& end.remove == Some(remote)
                },
                Err(m) => {
                    &&& end.report is None
                    &&& end.remove == Some(remote)
                    &&& u.err == Some(m)
                },
            }
        }),
{
}

/// Reports come no more often than every hundred and fifty milliseconds, and no less often once
/// that time is over.
pub proof fn law_reports_keep_their_distance(now: u64, last: u64)
    ensures
        transfer::report_due(now, last) <==> now >= last + 150,
{
}

/// A transfer that cannot be set up tells which file was in the way: for a download the remote one
/// that was to be read or the local one that was to be made, for an upload the other way round.
pub proof fn law_setup_failure_names_the_file(remote: Seq<char>, local: Seq<char>)
    ensures
        text::has_text(
            transfer::download_setup_failure(SetupStep::OpenSource, remote, local),
            remote,
        ),
        text::has_text(
            transfer::download_setup_failure(SetupStep::CreateTarget, remote, local),
            local,
        ),
        text::has_text(
            transfer::upload_setup_failure(SetupStep::OpenSource, local, remote),
            local,
        ),
        text::has_text(
            transfer::upload_setup_failure(SetupStep::CreateTarget, local, remote),
            remote,
        ),
{
    let none = Seq::<char>::empty();
    text_laws::law_text_is_found("open remote "@, remote, none, remote);
    text_laws::law_text_is_found("create local "@, local, none, local);
    text_laws::law_text_is_found("open local "@, local, none, local);
    text_laws::law_text_is_found("create remote "@, remote, none, remote);
    assert("open remote "@ + remote + none =~= "open remote "@ + remote);
    assert("create local "@ + local + none =~= "create local "@ + local);
    assert("open local "@ + local + none =~= "open local "@ + local);
    assert("create remote "@ + remote + none =~= "create remote "@ + remote);
}

} // verus!
