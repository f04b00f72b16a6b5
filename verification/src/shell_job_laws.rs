//! What an upload over a shell sends, and to where, from the first look to the last report.
use crate::events::{EventView, TransferState};
use crate::lang::Lang;
use crate::listing;
use crate::messages;
use crate::number;
use crate::remote_path;
use crate::shell::Capture;
use crate::shell_job::{ShipOpView, ShipPhaseView, ShipReplyView, ShipView};
use crate::shell_upload;
use crate::shell_upload::{OpenView, StreamOpening, UploadSource};
use crate::text;
use crate::text::CharSet;
use crate::text_laws;
use crate::utf8;
use crate::worker_laws;
use vstd::prelude::*;

verus! {

/// A name in a directory whose path is in its normal form.
pub open spec fn name_in(dir: Seq<char>, name: Seq<char>) -> Seq<char> {
    if dir == "/"@ {
        "/"@ + name
    } else {
        dir + "/"@ + name
    }
}

/// Uploading a file: exactly this file is measured and sent. The command that takes it writes
/// into the remote directory that was asked for: its bytes go to a hidden file of their own there
/// and then to the file's own name, and it expects exactly as many bytes as the file has.
pub proof fn law_file_is_sent_as_asked(
    id: Seq<char>,
    local: Seq<char>,
    remote_dir: Seq<char>,
    lang: Lang,
    total: u64,
    a: Seq<char>,
    b: Seq<char>,
)
    requires
        remote_path::remote_dir(remote_dir) == remote_dir,
        ({
            let name = remote_path::base_name_of(local);
            name.len() > 0 && name != "."@ && name != ".."@
        }),
    ensures
        ({
            let name = remote_path::base_name_of(local);
            let one = ShipView::fresh(id, local, remote_dir, lang);
            let (two, first) = one.step(ShipReplyView::Source(UploadSource::File), a);
            let (three, second) = two.step(ShipReplyView::Size(Some(total)), b);
            &&& first.op == ShipOpView::Measure(local)
            &&& second.op == (ShipOpView::SendFile {
                local,
                command: shell_upload::UPLOAD_HEAD@ + remote_path::quoted(remote_dir) + "; dst="@
                    + remote_path::quoted(name_in(remote_dir, name)) + "; tmp="@
                    + remote_path::quoted(
                    name_in(remote_dir, ".probe-shell-upload-"@ + b + ".part"@),
                ) + "; expected="@ + number::decimal(total as nat) + shell_upload::FILE_TAIL@,
                total,
            })
            &&& number::number_in(number::decimal(total as nat), 10, u64::MAX as nat) == Some(
                total as nat,
            )
        }),
{
    lemma_child_path(remote_dir, remote_path::base_name_of(local));
    lemma_child_path(remote_dir, ".probe-shell-upload-"@ + b + ".part"@);
    number::law_number_round_trip(total as nat, 10, u64::MAX as nat);
    assert(number::decimal(total as nat) == number::digits_of(total as nat, 10));
}

/// Uploading a folder: exactly this folder is packed, and the archive that came of it is sent,
/// whole. The command that takes it unpacks it into a hidden directory of its own in the remote
/// directory that was asked for, expects the folder under its own name there, and puts it to its
/// own name.
pub proof fn law_folder_is_sent_as_asked(
    id: Seq<char>,
    local: Seq<char>,
    remote_dir: Seq<char>,
    lang: Lang,
    total: u64,
    no_rate: Seq<char>,
    a: Seq<char>,
    b: Seq<char>,
)
    requires
        remote_path::remote_dir(remote_dir) == remote_dir,
        ({
            let tmp = name_in(remote_dir, ".probe-shell-folder-"@ + b);
            remote_path::remote_dir(tmp) == tmp && tmp != "/"@
        }),
        ({
            let name = remote_path::base_name_of(local);
            name.len() > 0 && name != "."@ && name != ".."@
        }),
    ensures
        ({
            let name = remote_path::base_name_of(local);
            let one = ShipView::fresh(id, local, remote_dir, lang);
            let (two, first) = one.step(ShipReplyView::Source(UploadSource::Dir), a);
            let (three, second) = two.step(
                ShipReplyView::Packed { built: Ok(total), cancelled: false, no_rate },
                b,
            );
            let archive = first.op->Pack_archive;
            let tmp = name_in(remote_dir, ".probe-shell-folder-"@ + b);
            &&& first.op == (ShipOpView::Pack { root: local, archive })
            &&& first.events.len() > 0
            &&& first.events[0] == (EventView::SftpTransfer {
                id,
                name,
                is_upload: true,
                transferred: 0,
                total: 0,
                state: TransferState::Preparing,
                msg: ""@,
            })
            &&& second.op == (ShipOpView::SendArchive {
                archive,
                command: shell_upload::UPLOAD_HEAD@ + remote_path::quoted(remote_dir) + "; dst="@
                    + remote_path::quoted(name_in(remote_dir, name)) + "; tmp="@
                    + remote_path::quoted(tmp) + "; src="@ + remote_path::quoted(
                    name_in(tmp, name),
                ) + "; expected="@ + number::decimal(total as nat) + shell_upload::FOLDER_TAIL@,
                total,
            })
        }),
{
    lemma_child_path(remote_dir, remote_path::base_name_of(local));
    lemma_child_path(remote_dir, ".probe-shell-folder-"@ + b);
    lemma_child_path(
        name_in(remote_dir, ".probe-shell-folder-"@ + b),
        remote_path::base_name_of(local),
    );
}

/// What is neither a regular file nor a folder is not sent, nor is what has no usable name: the
/// upload fails, and says so on the transfer.
pub proof fn law_other_sources_are_refused(
    id: Seq<char>,
    local: Seq<char>,
    remote_dir: Seq<char>,
    lang: Lang,
    source: UploadSource,
    a: Seq<char>,
)
    requires
        !(source is File || source is Dir) || ({
            let name = remote_path::base_name_of(local);
            name.len() == 0 || name == "."@ || name == ".."@
        }),
    ensures
        ({
            let (end, turn) = ShipView::fresh(id, local, remote_dir, lang).step(
                ShipReplyView::Source(source),
                a,
            );
            &&& turn.op is Stop
            &&& turn.events.len() >= 2
            &&& turn.events[turn.events.len() - 2] matches EventView::SftpTransfer {
                id: i,
                is_upload,
                state,
                msg,
                ..
            } && i == id && is_upload && state == TransferState::Failed
        }),
{
}

/// The command is trusted only with its confirmation: it prints that it is done and how many
/// bytes it took, and that confirms an upload of exactly so many bytes and of no other size.
pub proof fn law_confirmation_names_the_size(n: u64, total: u64)
    ensures
        shell_upload::confirmed(
            vstd::utf8::encode_utf8("OK\t"@ + number::decimal(n as nat) + "\n"@),
            total,
        ) <==> n == total,
{
    broadcast use vstd::utf8::encode_utf8_valid_utf8, vstd::utf8::encode_utf8_decode_utf8;

    reveal_strlit("OK\t");
    reveal_strlit("\n");
    let line = "OK\t"@ + number::decimal(n as nat);
    let shown = line + "\n"@;
    let out = vstd::utf8::encode_utf8(shown);
    utf8::law_lossless_on_utf8(out);
    number::lemma_decimal(n as nat);
    let digits = number::decimal(n as nat);
    assert(line[0] == 'O');
    assert(line.last() == digits.last());
    assert("OK\t"@ =~= seq!['O', 'K', '\t']);
    assert("\n"@ =~= seq!['\n']);
    assert forall|i: int| 0 <= i < line.len() implies line[i] != '\n' by {
        if i >= 3 {
            assert(line[i] == digits[i - 3]);
        }
    }
    let lines = seq![line];
    assert(lines.drop_last() =~= Seq::<Seq<char>>::empty());
    reveal_with_fuel(text_laws::printed, 2);
    assert(text_laws::printed(lines) =~= shown);
    assert forall|i: int| 0 <= i < lines.len() implies !(#[trigger] lines[i]).contains('\n') && !(
    lines[i].len() > 0 && lines[i].last() == '\r') by {}
    text_laws::law_lines_are_read_back(lines);
    text_laws::law_trimmed_stays(line);
    assert(text::lines(utf8::lossy(out)) == lines);
    assert(text::trimmed(text::lines(utf8::lossy(out))[0]) == line);
    if shell_upload::confirmed(out, total) {
        let more = number::decimal(total as nat);
        assert("OK\t"@ + more == line);
        assert(more =~= ("OK\t"@ + more).skip(3));
        assert(digits =~= line.skip(3));
        number::law_number_round_trip(n as nat, 10, u64::MAX as nat);
        number::law_number_round_trip(total as nat, 10, u64::MAX as nat);
        assert(digits == number::digits_of(n as nat, 10));
        assert(more == number::digits_of(total as nat, 10));
    }
}

/// A file that was sent, and whose size the command confirmed, is reported as done, with the bytes
/// that were sent; then the remote directory is listed, what is in it is shown, and the last
/// message says that the upload is complete.
pub proof fn law_confirmed_upload_is_told(
    u: ShipView,
    c: Capture,
    transferred: u64,
    percent: Seq<char>,
    rate: Seq<char>,
    d: crate::browser::ExecView,
    a: Seq<char>,
    b: Seq<char>,
)
    requires
        u.phase is SendFile,
        shell_upload::confirmed(c.out@, u.phase->SendFile_total),
        c.status is None || c.status == Some(0u32),
        d.code == 0,
    ensures
        ({
            let total = u.phase->SendFile_total;
            let (one, first) = u.step(
                ShipReplyView::Sent {
                    cancelled: false,
                    sent: true,
                    wait: Some(c),
                    transferred,
                    percent,
                    rate,
                },
                a,
            );
            let (two, second) = one.step(ShipReplyView::Exec(Ok(d)), b);
            &&& first.events.len() > 0
            &&& first.events[0] == (EventView::SftpTransfer {
                id: u.id,
                name: u.name,
                is_upload: true,
                transferred,
                total,
                state: TransferState::Done,
                msg: ""@,
            })
            &&& first.op == ShipOpView::Exec(
                listing::LIST_HEAD@ + remote_path::quoted(u.remote_dir) + listing::LIST_TAIL@,
            )
            &&& second.op is Stop
            &&& second.events.len() > 1
            &&& second.events[0] == (EventView::SftpEntries {
                path: u.remote_dir,
                entries: listing::shell_entries(u.remote_dir, d.out),
            })
            &&& tells_rate(
                second.events.last(),
                u.lang.pick("上传完成"@, "Uploaded"@),
                u.name,
                "100"@,
                u.lang.pick("平均速率"@, "Average"@),
                rate,
            )
        }),
{
}

/// An upload that was stopped is reported as cancelled, with the bytes that were sent, and one
/// that failed as failed; neither is followed by anything.
pub proof fn law_unfinished_upload_is_told(
    u: ShipView,
    cancelled: bool,
    wait: Option<Capture>,
    transferred: u64,
    percent: Seq<char>,
    rate: Seq<char>,
    a: Seq<char>,
)
    requires
        u.phase is SendFile,
    ensures
        ({
            let total = u.phase->SendFile_total;
            let (one, first) = u.step(
                ShipReplyView::Sent {
                    cancelled,
                    sent: false,
                    wait,
                    transferred,
                    percent,
                    rate,
                },
                a,
            );
            &&& first.op is Stop
            &&& first.events.len() == 2
            &&& first.events[0] matches EventView::SftpTransfer {
                id,
                name,
                is_upload,
                transferred: n,
                total: t,
                state,
                msg,
            } && id == u.id && name == u.name && is_upload && if cancelled {
                &&& state == TransferState::Cancelled
                &&& n == transferred
                &&& t == total
                &&& msg == u.lang.pick("已取消"@, "Cancelled"@)
                &&& tells_rate(
                    first.events[1],
                    msg,
                    u.name,
                    percent,
                    u.lang.pick("平均速率"@, "Average"@),
                    rate,
                )
            } else {
                &&& state == TransferState::Failed
                &&& msg == "send SSH upload data"@
                &&& worker_laws::says(
                    first.events[1],
                    u.lang.pick("上传失败"@, "Upload failed"@),
                    msg,
                )
            }
        }),
{
}

/// An upload whose bytes were all sent, but which the server did not confirm, is reported as
/// failed and followed by nothing. The reason is that the server did not end in time, the failure
/// that its exit code and its error output tell of, or that it kept silent on the size.
pub proof fn law_refused_upload_is_told(
    u: ShipView,
    wait: Option<Capture>,
    transferred: u64,
    percent: Seq<char>,
    rate: Seq<char>,
    a: Seq<char>,
)
    requires
        u.phase is SendFile,
        wait matches Some(c) ==> (c.status matches Some(s) && s != 0)
            || !shell_upload::confirmed(c.out@, u.phase->SendFile_total),
    ensures
        ({
            let told = u.step(
                ShipReplyView::Sent {
                    cancelled: false,
                    sent: true,
                    wait,
                    transferred,
                    percent,
                    rate,
                },
                a,
            ).1;
            let why = match wait {
                None => u.lang.pick(
                    "远端上传收尾超时，临时文件已请求清理"@,
                    "Remote upload finalization timed out; temporary cleanup was requested"@,
                ),
                Some(c) => match c.status {
                    Some(s) => if s == 0 {
                        u.lang.pick(
                            "远端未返回完整性确认，已按失败处理"@,
                            "The remote host did not confirm integrity; treating the upload as failed"@,
                        )
                    } else {
                        messages::upload_failure(s, c.err@, u.lang)
                    },
                    None => messages::upload_failure(u32::MAX, c.err@, u.lang),
                },
            };
            &&& told.op is Stop
            &&& tells_failure(told.events, u, why)
        }),
{
}

/// Whether events tell that an upload failed, and why, on the transfer and as a message.
pub open spec fn tells_failure(events: Seq<EventView>, u: ShipView, why: Seq<char>) -> bool {
    &&& events.len() == 2
    &&& events[0] matches EventView::SftpTransfer { id, name, is_upload, state, msg, .. } && id
        == u.id && name == u.name && is_upload && state == TransferState::Failed && msg == why
    &&& worker_laws::says(events[1], u.lang.pick("上传失败"@, "Upload failed"@), why)
}

/// The archive of a folder does not outlive its upload: whatever came of sending it, it is removed
/// before anything is told. Then all goes on as after a file of that size.
pub proof fn law_archive_is_removed_after_sending(
    u: ShipView,
    reply: ShipReplyView,
    a: Seq<char>,
    b: Seq<char>,
)
    requires
        u.phase is SendArchive,
        reply is Sent || reply is NotSent,
    ensures
        ({
            let (one, first) = u.step(reply, a);
            let (two, second) = one.step(ShipReplyView::Dropped, b);
            let file = ShipView {
                phase: ShipPhaseView::SendFile { total: u.phase->SendArchive_total },
                ..u
            };
            &&& first.op == ShipOpView::DropArchive(u.phase->SendArchive_archive)
            &&& first.events.len() == 0
            &&& two == file.step(reply, a).0
            &&& second == file.step(reply, a).1
        }),
{
}

/// A folder whose packing was stopped or failed is not sent: what there is of the archive is
/// removed, and then the upload is reported as cancelled, or as failed with the reason.
pub proof fn law_unpacked_folder_is_not_sent(
    u: ShipView,
    built: Result<u64, Seq<char>>,
    cancelled: bool,
    no_rate: Seq<char>,
    a: Seq<char>,
    b: Seq<char>,
)
    requires
        u.phase is Pack,
        cancelled || built is Err,
    ensures
        ({
            let (one, first) = u.step(ShipReplyView::Packed { built, cancelled, no_rate }, a);
            let second = one.step(ShipReplyView::Dropped, b).1;
            &&& first.op == ShipOpView::DropArchive(u.phase->Pack_archive)
            &&& first.events.len() == 0
            &&& second.op is Stop
            &&& !cancelled ==> tells_failure(second.events, u, built->Err_0)
            &&& cancelled ==> {
                &&& second.events.len() == 2
                &&& second.events[0] == (EventView::SftpTransfer {
                    id: u.id,
                    name: u.name,
                    is_upload: true,
                    transferred: 0,
                    total: if built is Ok {
                        built->Ok_0
                    } else {
                        0
                    },
                    state: TransferState::Cancelled,
                    msg: u.lang.pick("已取消"@, "Cancelled"@),
                })
                &&& tells_rate(
                    second.events[1],
                    u.lang.pick("已取消"@, "Cancelled"@),
                    u.name,
                    "0.0"@,
                    u.lang.pick("平均速率"@, "Average"@),
                    no_rate,
                )
            }
        }),
{
}

/// A file that could not be measured, or whose stream could not be opened, is reported as failed
/// with the reason, and nothing is sent.
pub proof fn law_unsent_file_is_told(u: ShipView, why: Seq<char>, a: Seq<char>)
    ensures
        u.phase is Measure ==> u.step(ShipReplyView::Size(None), a).1.op is Stop && tells_failure(
            u.step(ShipReplyView::Size(None), a).1.events,
            u,
            "stat local upload file "@ + u.local,
        ),
        u.phase is SendFile ==> u.step(ShipReplyView::NotSent(why), a).1.op is Stop
            && tells_failure(u.step(ShipReplyView::NotSent(why), a).1.events, u, why),
{
}

/// Opening a stream: a channel that cannot be opened is tried once more after a pause, a command
/// that cannot be started once more on a new channel, and what fails again is given up with its
/// reason. As soon as the command was started the stream is ready.
pub proof fn law_opening_is_tried_again()
    ensures
        ({
            let start = StreamOpening::FirstChannel;
            let opened = start.after(true);
            let paused = start.after(false);
            let late = paused.0.after(true);
            &&& opened.1 is Exec
            &&& paused.1 is PauseAndOpen
            &&& late.1 is Exec
            &&& paused.0.after(false).1 == OpenView::Fail("open SSH upload channel after retry"@)
            &&& starts_or_tries_again(opened.0)
            &&& starts_or_tries_again(late.0)
        }),
{
}

/// Whether a state leads to a started command, with one more attempt on a new channel.
pub open spec fn starts_or_tries_again(s: StreamOpening) -> bool {
    let reopened = s.after(false);
    let again = reopened.0.after(true);
    &&& s.after(true).1 is Ready
    &&& reopened.1 is Reopen
    &&& reopened.0.after(false).1 == OpenView::Fail("open SSH upload retry channel"@)
    &&& again.1 is Exec
    &&& again.0.after(true).1 is Ready
    &&& again.0.after(false).1 == OpenView::Fail("start SSH upload command after retry"@)
}

/// While bytes are sent, the report names the upload, the bytes that were sent and the bytes in
/// all, and the message the file, how far it is and how fast.
pub proof fn law_progress_tells_the_bytes(
    id: Seq<char>,
    name: Seq<char>,
    transferred: u64,
    total: u64,
    percent: Seq<char>,
    rate: Seq<char>,
    lang: Lang,
)
    ensures
        ({
            let told = shell_upload::progress_reports(
                id,
                name,
                transferred,
                total,
                percent,
                rate,
                lang,
            );
            &&& told.len() == 2
            &&& told[0] == (EventView::SftpTransfer {
                id,
                name,
                is_upload: true,
                transferred,
                total,
                state: TransferState::Running,
                msg: ""@,
            })
            &&& tells_rate(
                told[1],
                lang.pick("上传中"@, "Uploading"@),
                name,
                percent,
                lang.pick("实时速率"@, "Live"@),
                rate,
            )
        }),
{
}

/// Whether an event is the message that tells what is done to which file, how far and how fast.
pub open spec fn tells_rate(
    e: EventView,
    what: Seq<char>,
    name: Seq<char>,
    percent: Seq<char>,
    kind: Seq<char>,
    rate: Seq<char>,
) -> bool {
    e matches EventView::SftpStatus(m) && m == what + ": "@ + name + " · "@ + percent + "% · "@
        + kind + " "@ + rate
}

proof fn lemma_child_path(dir: Seq<char>, name: Seq<char>)
    requires
        remote_path::remote_dir(dir) == dir,
    ensures
        remote_path::child_path(dir, name) == name_in(dir, name),
{
    if dir != "/"@ {
        lemma_normal_has_no_slash(dir);
    }
}

/// A directory in its normal form does not end with a slash, but for the root.
proof fn lemma_normal_has_no_slash(dir: Seq<char>)
    requires
        remote_path::remote_dir(dir) == dir,
        dir != "/"@,
    ensures
        text::strip_end(dir, CharSet::Only('/')) == dir,
{
    let p = text::trimmed(dir);
    reveal_strlit("/");
    reveal_strlit("..");
    if p == ".."@ {
        assert(dir.last() == '.');
    } else {
        let s = text::swapped(p, '\\', '/');
        let u = remote_path::unslashed(p);
        text::lemma_strip_end(s, CharSet::Only('/'));
        if text::strip_end(s, CharSet::Only('/')).len() == 0 {
            assert(u == "/"@);
            assert(u[0] == '/');
            assert(remote_path::rooted(u) == u);
        } else {
            assert(remote_path::rooted(u).last() == u.last());
        }
    }
}

} // verus!
