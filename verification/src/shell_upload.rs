//! Uploads over a shell: the remote command takes the bytes on its input, checks them and puts
//! them in place at one stroke.
use crate::events;
use crate::events::{EventView, SessionEvent, TransferState};
use crate::lang::Lang;
use crate::messages;
use crate::number;
use crate::remote_path;
use crate::shell::Capture;
use crate::text;
use crate::utf8;
use vstd::prelude::*;

verus! {

// ---------------------------------------------------------------------------
// Commands
// ---------------------------------------------------------------------------

/// How both commands begin.
pub const UPLOAD_HEAD: &'static str = "PATH=/usr/bin:/bin:/usr/sbin:/sbin; export PATH; dir=";

/// The command for a file, behind its settings.
pub const FILE_TAIL: &'static str =
    "; [ -d \"$dir\" ] || exit 21; [ ! -d \"$dst\" ] || exit 27; trap 'rm -f \"$tmp\"' HUP INT TERM EXIT; umask 077; : > \"$tmp\" || exit 22; cat > \"$tmp\" || exit 23; got=$(wc -c < \"$tmp\" 2>/dev/null) || exit 24; [ \"$got\" = \"$expected\" ] || exit 25; mv -f \"$tmp\" \"$dst\" || exit 26; trap - HUP INT TERM EXIT; printf 'OK\\t%s\\n' \"$got\"";

/// The command for a folder, behind its settings.
pub const FOLDER_TAIL: &'static str =
    "; command -v tar >/dev/null 2>&1 || exit 31; [ -d \"$dir\" ] || exit 21; trap 'rm -rf \"$tmp\"' HUP INT TERM EXIT; umask 077; mkdir \"$tmp\" || exit 32; tar -x -f - -C \"$tmp\" || exit 33; [ -d \"$src\" ] || exit 34; if [ -e \"$dst\" ]; then   [ -d \"$dst\" ] || exit 35;   cp -R \"$src/.\" \"$dst/\" || exit 36;   rm -rf \"$tmp\" || exit 37; else   mv \"$src\" \"$dst\" || exit 37;   rmdir \"$tmp\" 2>/dev/null || rm -rf \"$tmp\"; fi; trap - HUP INT TERM EXIT; printf 'OK\\t%s\\n' \"$expected\"";

/// Where the bytes of a file stand until they are checked, by a random identifier.
pub open spec fn part_name(id: Seq<char>) -> Seq<char> {
    ".probe-shell-upload-"@ + id + ".part"@
}

/// Where a folder is unpacked until it is checked, by a random identifier.
pub open spec fn unpack_name(id: Seq<char>) -> Seq<char> {
    ".probe-shell-folder-"@ + id
}

/// The command that takes a file of a given size.
pub open spec fn file_command_text(
    remote_dir: Seq<char>,
    name: Seq<char>,
    total: u64,
    id: Seq<char>,
) -> Seq<char> {
    let dir = remote_path::remote_dir(remote_dir);
    UPLOAD_HEAD@ + remote_path::quoted(dir) + "; dst="@ + remote_path::quoted(
        remote_path::child_path(dir, name),
    ) + "; tmp="@ + remote_path::quoted(remote_path::child_path(dir, part_name(id)))
        + "; expected="@ + number::decimal(total as nat) + FILE_TAIL@
}

/// The command that takes the archive of a folder, of a given size.
pub open spec fn folder_command_text(
    remote_dir: Seq<char>,
    name: Seq<char>,
    total: u64,
    id: Seq<char>,
) -> Seq<char> {
    let dir = remote_path::remote_dir(remote_dir);
    let tmp = remote_path::child_path(dir, unpack_name(id));
    UPLOAD_HEAD@ + remote_path::quoted(dir) + "; dst="@ + remote_path::quoted(
        remote_path::child_path(dir, name),
    ) + "; tmp="@ + remote_path::quoted(tmp) + "; src="@ + remote_path::quoted(
        remote_path::child_path(tmp, name),
    ) + "; expected="@ + number::decimal(total as nat) + FOLDER_TAIL@
}

/// The command that takes a file of a given size. The bytes go to a file of their own, are
/// counted there, and then replace the target.
pub fn file_command(remote_dir: &str, name: &str, total: u64, id: &str) -> (out: String)
    ensures
        out@ == file_command_text(remote_dir@, name@, total, id@),
{
    let dir = remote_path::normalise_remote_dir(remote_dir);
    let final_path = remote_path::remote_child_path(dir.as_str(), name);
    let part = text::join3(".probe-shell-upload-", id, ".part");
    let temp_path = remote_path::remote_child_path(dir.as_str(), part.as_str());
    let q_dir = remote_path::sh_quote(dir.as_str());
    let q_dst = remote_path::sh_quote(final_path.as_str());
    let q_tmp = remote_path::sh_quote(temp_path.as_str());
    let digits = number::number_text(total, 10);
    let mut out = text::join4(UPLOAD_HEAD, q_dir.as_str(), "; dst=", q_dst.as_str());
    out.append("; tmp=");
    out.append(q_tmp.as_str());
    out.append("; expected=");
    out.append(digits.as_str());
    out.append(FILE_TAIL);
    out
}

/// The command that takes the archive of a folder. The folder is unpacked in a directory of its
/// own, and then merged into the target or moved there.
pub fn folder_command(remote_dir: &str, name: &str, total: u64, id: &str) -> (out: String)
    ensures
        out@ == folder_command_text(remote_dir@, name@, total, id@),
{
    let dir = remote_path::normalise_remote_dir(remote_dir);
    let final_path = remote_path::remote_child_path(dir.as_str(), name);
    let unpack = text::join2(".probe-shell-folder-", id);
    let temp_root = remote_path::remote_child_path(dir.as_str(), unpack.as_str());
    let extracted = remote_path::remote_child_path(temp_root.as_str(), name);
    let q_dir = remote_path::sh_quote(dir.as_str());
    let q_dst = remote_path::sh_quote(final_path.as_str());
    let q_tmp = remote_path::sh_quote(temp_root.as_str());
    let q_src = remote_path::sh_quote(extracted.as_str());
    let digits = number::number_text(total, 10);
    let mut out = text::join4(UPLOAD_HEAD, q_dir.as_str(), "; dst=", q_dst.as_str());
    out.append("; tmp=");
    out.append(q_tmp.as_str());
    out.append("; src=");
    out.append(q_src.as_str());
    out.append("; expected=");
    out.append(digits.as_str());
    out.append(FOLDER_TAIL);
    out
}

/// What is uploaded over a shell.
#[derive(Debug, Clone, Copy, PartialEq, Eq, Structural)]
pub enum Cargo {
    File,
    Folder,
}

/// The command that takes a file or the archive of a folder.
pub open spec fn upload_command_text(
    cargo: Cargo,
    remote_dir: Seq<char>,
    name: Seq<char>,
    total: u64,
    id: Seq<char>,
) -> Seq<char> {
    match cargo {
        Cargo::File => file_command_text(remote_dir, name, total, id),
        Cargo::Folder => folder_command_text(remote_dir, name, total, id),
    }
}

/// The command that takes a file or the archive of a folder. The identifier is that of what is
/// not yet in place.
pub fn upload_command(cargo: Cargo, remote_dir: &str, name: &str, total: u64, id: &str) -> (out:
    String)
    ensures
        out@ == upload_command_text(cargo, remote_dir@, name@, total, id@),
{
    match cargo {
        Cargo::File => file_command(remote_dir, name, total, id),
        Cargo::Folder => folder_command(remote_dir, name, total, id),
    }
}

/// The name of the local archive of a folder, by a random identifier.
pub open spec fn archive_file(id: Seq<char>) -> Seq<char> {
    "probe-shell-folder-upload-"@ + id + ".tar"@
}

/// The name of the local archive of a folder, by a random identifier.
pub fn local_archive_name(id: &str) -> (out: String)
    ensures
        out@ == archive_file(id@),
{
    text::join3("probe-shell-folder-upload-", id, ".tar")
}

// ---------------------------------------------------------------------------
// Starting the remote command
// ---------------------------------------------------------------------------

/// How long to wait before another attempt, in milliseconds.
pub const RETRY_PAUSE_MS: u64 = 260;

/// What is done to start the remote command.
#[derive(Debug)]
pub enum OpenStep {
    /// Open a channel.
    OpenChannel,
    /// Wait, and open a channel.
    PauseAndOpen,
    /// Ask for the command to be run on the channel.
    Exec,
    /// Close the channel, wait, and open another one.
    Reopen,
    /// The command runs. Nothing follows.
    Ready,
    /// The command could not be started. Nothing follows.
    Fail(String),
}

/// The contents of an [`OpenStep`].
#[verifier::ext_equal]
pub enum OpenView {
    OpenChannel,
    PauseAndOpen,
    Exec,
    Reopen,
    Ready,
    Fail(Seq<char>),
}

impl View for OpenStep {
    type V = OpenView;

    open spec fn view(&self) -> OpenView {
        match *self {
            OpenStep::OpenChannel => OpenView::OpenChannel,
            OpenStep::PauseAndOpen => OpenView::PauseAndOpen,
            OpenStep::Exec => OpenView::Exec,
            OpenStep::Reopen => OpenView::Reopen,
            OpenStep::Ready => OpenView::Ready,
            OpenStep::Fail(m) => OpenView::Fail(m@),
        }
    }
}

/// The attempt that is under way. The first answers come before any byte is sent, so no attempt
/// sends a byte twice.
#[derive(Debug, Clone, Copy, PartialEq, Eq, Structural)]
pub enum StreamOpening {
    FirstChannel,
    SecondChannel,
    FirstExec,
    ChannelAfterExec,
    SecondExec,
    Over,
}

impl StreamOpening {
    /// What follows an attempt that worked or did not.
    pub open spec fn after(self, worked: bool) -> (StreamOpening, OpenView) {
        match self {
            StreamOpening::FirstChannel => if worked {
                (StreamOpening::FirstExec, OpenView::Exec)
            } else {
                (StreamOpening::SecondChannel, OpenView::PauseAndOpen)
            },
            StreamOpening::SecondChannel => if worked {
                (StreamOpening::FirstExec, OpenView::Exec)
            } else {
                (StreamOpening::Over, OpenView::Fail("open SSH upload channel after retry"@))
            },
            StreamOpening::FirstExec => if worked {
                (StreamOpening::Over, OpenView::Ready)
            } else {
                (StreamOpening::ChannelAfterExec, OpenView::Reopen)
            },
            StreamOpening::ChannelAfterExec => if worked {
                (StreamOpening::SecondExec, OpenView::Exec)
            } else {
                (StreamOpening::Over, OpenView::Fail("open SSH upload retry channel"@))
            },
            StreamOpening::SecondExec => if worked {
                (StreamOpening::Over, OpenView::Ready)
            } else {
                (StreamOpening::Over, OpenView::Fail("start SSH upload command after retry"@))
            },
            StreamOpening::Over => (StreamOpening::Over, OpenView::Ready),
        }
    }

    /// The first attempt.
    pub fn start() -> (out: (StreamOpening, OpenStep))
        ensures
            out.0 == StreamOpening::FirstChannel,
            out.1@ == OpenView::OpenChannel,
    {
        (StreamOpening::FirstChannel, OpenStep::OpenChannel)
    }

    /// What follows an attempt that worked or did not.
    pub fn answer(self, worked: bool) -> (out: (StreamOpening, OpenStep))
        ensures
            (out.0, out.1@) == self.after(worked),
    {
        match self {
            StreamOpening::FirstChannel => if worked {
                (StreamOpening::FirstExec, OpenStep::Exec)
            } else {
                (StreamOpening::SecondChannel, OpenStep::PauseAndOpen)
            },
            StreamOpening::SecondChannel => if worked {
                (StreamOpening::FirstExec, OpenStep::Exec)
            } else {
                (
                    StreamOpening::Over,
                    OpenStep::Fail("open SSH upload channel after retry".to_string()),
                )
            },
            StreamOpening::FirstExec => if worked {
                (StreamOpening::Over, OpenStep::Ready)
            } else {
                (StreamOpening::ChannelAfterExec, OpenStep::Reopen)
            },
            StreamOpening::ChannelAfterExec => if worked {
                (StreamOpening::SecondExec, OpenStep::Exec)
            } else {
                (StreamOpening::Over, OpenStep::Fail("open SSH upload retry channel".to_string()))
            },
            StreamOpening::SecondExec => if worked {
                (StreamOpening::Over, OpenStep::Ready)
            } else {
                (
                    StreamOpening::Over,
                    OpenStep::Fail("start SSH upload command after retry".to_string()),
                )
            },
            StreamOpening::Over => (StreamOpening::Over, OpenStep::Ready),
        }
    }
}

/// The state after a series of answers.
pub open spec fn opening_after(answers: Seq<bool>) -> StreamOpening
    decreases answers.len(),
{
    if answers.len() == 0 {
        StreamOpening::FirstChannel
    } else {
        opening_after(answers.drop_last()).after(answers.last()).0
    }
}

/// A server is not asked forever: after five answers, whatever they are, no attempt follows. And
/// the command counts as running only where the last request to run it worked.
pub proof fn law_opening_ends(answers: Seq<bool>, s: StreamOpening, worked: bool)
    ensures
        answers.len() >= 5 ==> opening_after(answers) == StreamOpening::Over,
        s != StreamOpening::Over && s.after(worked).1 is Ready ==> worked && (s
            == StreamOpening::FirstExec || s == StreamOpening::SecondExec),
    decreases answers.len(),
{
    if answers.len() > 5 {
        law_opening_ends(answers.drop_last(), s, worked);
    } else if answers.len() == 5 {
        reveal_with_fuel(opening_after, 6);
    }
}

// ---------------------------------------------------------------------------
// Reports
// ---------------------------------------------------------------------------

/// How many milliseconds lie at least between two reports on the progress.
pub const PROGRESS_MS: u64 = 150;

/// A message about an upload: what is done, to what, how far, and how fast. The numbers come as
/// texts.
pub open spec fn rate_message(
    what: Seq<char>,
    name: Seq<char>,
    percent: Seq<char>,
    rate_name: Seq<char>,
    rate: Seq<char>,
) -> Seq<char> {
    what + ": "@ + name + " · "@ + percent + "% · "@ + rate_name + " "@ + rate
}

fn rate_status(what: &str, name: &str, percent: &str, rate_name: &str, rate: &str) -> (out:
    SessionEvent)
    ensures
        out@ == EventView::SftpStatus(rate_message(what@, name@, percent@, rate_name@, rate@)),
{
    let mut out = text::join4(what, ": ", name, " · ");
    out.append(percent);
    out.append("% · ");
    out.append(rate_name);
    out.append(" ");
    out.append(rate);
    SessionEvent::SftpStatus(out)
}

/// The reports on bytes that have been sent.
pub open spec fn progress_reports(
    id: Seq<char>,
    name: Seq<char>,
    transferred: u64,
    total: u64,
    percent: Seq<char>,
    rate: Seq<char>,
    lang: Lang,
) -> Seq<EventView> {
    seq![
        events::transfer_view(id, name, true, transferred, total, TransferState::Running, ""@),
        EventView::SftpStatus(
            rate_message(
                lang.pick("上传中"@, "Uploading"@),
                name,
                percent,
                lang.pick("实时速率"@, "Live"@),
                rate,
            ),
        ),
    ]
}

/// The reports on bytes that have been sent. How far the upload is and how fast come as texts.
pub fn emit_shell_upload_progress(
    id: &str,
    name: &str,
    transferred: u64,
    total: u64,
    percent: &str,
    rate: &str,
    lang: Lang,
) -> (out: Vec<SessionEvent>)
    ensures
        events::events_view(out@) == progress_reports(
            id@,
            name@,
            transferred,
            total,
            percent@,
            rate@,
            lang,
        ),
{
    let mut out: Vec<SessionEvent> = Vec::new();
    out.push(
        events::emit_transfer(id, name, true, transferred, total, TransferState::Running, ""),
    );
    out.push(
        rate_status(
            lang.t("上传中", "Uploading"),
            name,
            percent,
            lang.t("实时速率", "Live"),
            rate,
        ),
    );
    assert(events::events_view(out@) =~= progress_reports(
        id@,
        name@,
        transferred,
        total,
        percent@,
        rate@,
        lang,
    ));
    out
}

/// The bytes that have been sent, and when that was last reported.
pub struct SendMeter {
    pub transferred: u64,
    pub reported: u64,
    /// When the last report was made, in milliseconds since the start.
    pub last: u64,
}

impl SendMeter {
    /// No byte has been sent.
    pub fn new() -> (out: SendMeter)
        ensures
            out.transferred == 0,
            out.reported == 0,
            out.last == 0,
    {
        SendMeter { transferred: 0, reported: 0, last: 0 }
    }

    /// Counts bytes that were sent. When the last report is old enough, it gives the bytes since
    /// then and the time that they took, for the rate that is reported.
    pub fn sent(&mut self, n: u64, now: u64) -> (out: Option<(u64, u64)>)
        requires
            old(self).transferred + n <= u64::MAX,
            old(self).reported <= old(self).transferred,
        ensures
            final(self).transferred == old(self).transferred + n,
            out is Some <==> n > 0 && now - old(self).last >= PROGRESS_MS,
            out matches Some(r) ==> r.0 == old(self).transferred + n - old(self).reported && r.1
                == now - old(self).last && final(self).reported == final(self).transferred
                && final(self).last == now,
            out is None ==> final(self).reported == old(self).reported && final(self).last == old(self).last,
            final(self).reported <= final(self).transferred,
    {
        self.transferred = self.transferred + n;
        if n > 0 && now >= self.last && now - self.last >= PROGRESS_MS {
            let delta: u64 = self.transferred - self.reported;
            let elapsed: u64 = now - self.last;
            self.reported = self.transferred;
            self.last = now;
            Some((delta, elapsed))
        } else {
            None
        }
    }
}

/// The reports that all bytes are sent and are being checked.
pub fn verifying_reports(id: &str, name: &str, sent: u64, total: u64, rate: &str, lang: Lang) -> (out:
    Vec<SessionEvent>)
    ensures
        events::events_view(out@) == seq![
            events::transfer_view(id@, name@, true, sent, total, TransferState::Running, ""@),
            EventView::SftpStatus(
                rate_message(
                    lang.pick("正在校验"@, "Verifying"@),
                    name@,
                    "100"@,
                    lang.pick("平均速率"@, "Average"@),
                    rate@,
                ),
            ),
        ],
{
    let mut out: Vec<SessionEvent> = Vec::new();
    out.push(events::emit_transfer(id, name, true, sent, total, TransferState::Running, ""));
    out.push(
        rate_status(
            lang.t("正在校验", "Verifying"),
            name,
            "100",
            lang.t("平均速率", "Average"),
            rate,
        ),
    );
    assert(events::events_view(out@) =~= seq![out@[0]@, out@[1]@]);
    out
}

// ---------------------------------------------------------------------------
// The end
// ---------------------------------------------------------------------------

/// How long the remote command may take at the end, in seconds.
pub fn finalize_timeout_secs(cancelled: bool) -> (out: u64)
    ensures
        out == (if cancelled {
            5u64
        } else {
            30u64
        }),
{
    if cancelled {
        5
    } else {
        30
    }
}

/// What the remote command prints when all is in place.
pub open spec fn ok_marker(total: u64) -> Seq<char> {
    "OK\t"@ + number::decimal(total as nat)
}

/// Whether one of the lines is the marker, but for white space around it.
pub open spec fn confirmed(out: Seq<u8>, total: u64) -> bool {
    exists|i: int|
        0 <= i < text::lines(utf8::lossy(out)).len() && text::trimmed(
            #[trigger] text::lines(utf8::lossy(out))[i],
        ) == ok_marker(total)
}

/// The exit code of the remote command. Where it told none, the marker stands for success.
pub open spec fn effective_code(status: Option<u32>, sure: bool) -> u32 {
    match status {
        Some(s) => s,
        None => if sure {
            0
        } else {
            u32::MAX
        },
    }
}

/// What an upload came to: whether it was completed or cancelled, or the message why it failed.
/// `sent` says whether all bytes could be sent; `wait` holds what came back from the remote
/// command, if it ended in time.
pub open spec fn stream_verdict(
    cancelled: bool,
    sent: bool,
    wait: Option<Capture>,
    total: u64,
    lang: Lang,
) -> Result<bool, Seq<char>> {
    if cancelled {
        Ok(false)
    } else if !sent {
        Err("send SSH upload data"@)
    } else {
        match wait {
            None => Err(
                lang.pick(
                    "远端上传收尾超时，临时文件已请求清理"@,
                    "Remote upload finalization timed out; temporary cleanup was requested"@,
                ),
            ),
            Some(c) => {
                let sure = confirmed(c.out@, total);
                let code = effective_code(c.status, sure);
                if code != 0 {
                    Err(messages::upload_failure(code, c.err@, lang))
                } else if !sure {
                    Err(
                        lang.pick(
                            "远端未返回完整性确认，已按失败处理"@,
                            "The remote host did not confirm integrity; treating the upload as failed"@,
                        ),
                    )
                } else {
                    Ok(true)
                }
            },
        }
    }
}

fn is_confirmed(out: &[u8], total: u64) -> (r: bool)
    ensures
        r == confirmed(out@, total),
{
    let digits = number::number_text(total, 10);
    let marker = text::join2("OK\t", digits.as_str());
    let whole = utf8::decode_lossy(out);
    let lines = text::split_lines(whole.as_str());
    let ghost all = text::lines(utf8::lossy(out@));
    let mut i: usize = 0;
    while i < lines.len()
        invariant
            i <= lines@.len(),
            all == text::texts(lines@),
            all == text::lines(utf8::lossy(out@)),
            marker@ == ok_marker(total),
            forall|k: int| 0 <= k < i ==> text::trimmed(#[trigger] all[k]) != ok_marker(total),
        decreases lines@.len() - i,
    {
        assert(all[i as int] == lines@[i as int]@);
        let t = text::trim(lines[i].as_str());
        if text::same_text(t.as_str(), marker.as_str()) {
            assert(text::trimmed(text::lines(utf8::lossy(out@))[i as int]) == ok_marker(total));
            return true;
        }
        i = i + 1;
    }
    false
}

/// Decides what an upload came to. A request to stop outweighs all else; without it the upload
/// is only complete when the remote command confirmed that every byte is in place.
pub fn shell_stream_verdict(
    cancelled: bool,
    sent: bool,
    wait: Option<Capture>,
    total: u64,
    lang: Lang,
) -> (out: Result<bool, String>)
    ensures
        crate::folder::moved_view(out) == stream_verdict(cancelled, sent, wait, total, lang),
{
    if cancelled {
        return Ok(false);
    }
    if !sent {
        return Err("send SSH upload data".to_string());
    }
    match wait {
        None => Err(
            lang.t(
                "远端上传收尾超时，临时文件已请求清理",
                "Remote upload finalization timed out; temporary cleanup was requested",
            ).to_string(),
        ),
        Some(c) => {
            let sure = is_confirmed(c.out.as_slice(), total);
            let code: u32 = match c.status {
                Some(s) => s,
                None => if sure {
                    0
                } else {
                    u32::MAX
                },
            };
            if code != 0 {
                return Err(messages::shell_upload_error(code, c.err.as_slice(), lang));
            }
            if !sure {
                return Err(
                    lang.t(
                        "远端未返回完整性确认，已按失败处理",
                        "The remote host did not confirm integrity; treating the upload as failed",
                    ).to_string(),
                );
            }
            Ok(true)
        },
    }
}

/// An upload counts as complete only if the remote command printed the marker for its whole
/// size, and did not tell another exit code than success.
pub proof fn law_complete_is_confirmed(
    cancelled: bool,
    sent: bool,
    wait: Option<Capture>,
    total: u64,
    lang: Lang,
)
    ensures
        stream_verdict(cancelled, sent, wait, total, lang) == Ok::<bool, Seq<char>>(true) <==> (
        !cancelled && sent && (wait matches Some(c) && confirmed(c.out@, total) && (c.status is None
            || c.status == Some(0u32)))),
{
}

// ---------------------------------------------------------------------------
// The whole upload
// ---------------------------------------------------------------------------

/// What stands at the local path of an upload.
#[derive(Debug)]
pub enum UploadSource {
    Symlink,
    File,
    Dir,
    Other,
    /// It could not be looked at.
    Unknown,
}

/// What to upload over a shell, or the message why nothing is.
pub open spec fn shell_cargo(source: UploadSource, lang: Lang) -> Result<Cargo, Seq<char>> {
    match source {
        UploadSource::Symlink => Err(
            lang.pick(
                "只允许上传普通文件或文件夹，符号链接不会被跟随"@,
                "Only regular files or folders can be uploaded; symbolic links are not followed"@,
            ),
        ),
        UploadSource::File => Ok(Cargo::File),
        UploadSource::Dir => Ok(Cargo::Folder),
        UploadSource::Other => Err(
            lang.pick(
                "只允许上传普通文件或文件夹"@,
                "Only regular files or folders can be uploaded"@,
            ),
        ),
        UploadSource::Unknown => Err("read local upload source"@),
    }
}

/// The contents of what to upload.
pub open spec fn cargo_view(r: Result<Cargo, String>) -> Result<Cargo, Seq<char>> {
    match r {
        Ok(c) => Ok(c),
        Err(m) => Err(m@),
    }
}

/// What to upload over a shell, or the message why nothing is: only regular files and folders
/// are, and symbolic links are not followed.
pub fn upload_cargo(source: UploadSource, lang: Lang) -> (out: Result<Cargo, String>)
    ensures
        cargo_view(out) == shell_cargo(source, lang),
{
    match source {
        UploadSource::Symlink => Err(
            lang.t(
                "只允许上传普通文件或文件夹，符号链接不会被跟随",
                "Only regular files or folders can be uploaded; symbolic links are not followed",
            ).to_string(),
        ),
        UploadSource::File => Ok(Cargo::File),
        UploadSource::Dir => Ok(Cargo::Folder),
        UploadSource::Other => Err(
            lang.t(
                "只允许上传普通文件或文件夹",
                "Only regular files or folders can be uploaded",
            ).to_string(),
        ),
        UploadSource::Unknown => Err("read local upload source".to_string()),
    }
}

/// The reports that a folder is being prepared.
pub open spec fn preparing(id: Seq<char>, name: Seq<char>, lang: Lang) -> Seq<EventView> {
    seq![
        events::transfer_view(id, name, true, 0, 0, TransferState::Preparing, ""@),
        EventView::SftpStatus(
            events::titled(lang.pick("正在准备上传文件夹"@, "Preparing folder upload"@), name),
        ),
    ]
}

/// The reports that a folder is being prepared.
pub fn preparing_reports(id: &str, name: &str, lang: Lang) -> (out: Vec<SessionEvent>)
    ensures
        events::events_view(out@) == preparing(id@, name@, lang),
{
    let mut out: Vec<SessionEvent> = Vec::new();
    out.push(events::emit_transfer(id, name, true, 0, 0, TransferState::Preparing, ""));
    out.push(
        events::titled_status(lang.t("正在准备上传文件夹", "Preparing folder upload"), name),
    );
    assert(events::events_view(out@) =~= seq![out@[0]@, out@[1]@]);
    out
}

/// What follows the archiving of a folder.
#[derive(Debug)]
pub enum ArchiveVerdict {
    /// Send the archive of this size.
    Send(u64),
    /// The upload was cancelled; this is the size that is reported.
    Cancelled(u64),
    Fail(String),
}

/// Decides after a folder was archived, or was not. A request to stop outweighs a failure.
pub fn after_archive(built: Result<u64, String>, cancelled: bool) -> (out: ArchiveVerdict)
    ensures
        match built {
            Ok(total) => if cancelled {
                out == ArchiveVerdict::Cancelled(total)
            } else {
                out == ArchiveVerdict::Send(total)
            },
            Err(m) => if cancelled {
                out == ArchiveVerdict::Cancelled(0)
            } else {
                out == ArchiveVerdict::Fail(m)
            },
        },
{
    match built {
        Ok(total) => if cancelled {
            ArchiveVerdict::Cancelled(total)
        } else {
            ArchiveVerdict::Send(total)
        },
        Err(m) => if cancelled {
            ArchiveVerdict::Cancelled(0)
        } else {
            ArchiveVerdict::Fail(m)
        },
    }
}

/// The report that an upload is complete.
pub fn upload_done_report(id: &str, name: &str, transferred: u64, total: u64) -> (out: SessionEvent)
    ensures
        out@ == events::transfer_view(
            id@,
            name@,
            true,
            transferred,
            total,
            TransferState::Done,
            ""@,
        ),
{
    events::emit_transfer(id, name, true, transferred, total, TransferState::Done, "")
}

/// The message that an upload is complete, with its average rate.
pub open spec fn done_message(name: Seq<char>, rate: Seq<char>, lang: Lang) -> EventView {
    EventView::SftpStatus(
        rate_message(
            lang.pick("上传完成"@, "Uploaded"@),
            name,
            "100"@,
            lang.pick("平均速率"@, "Average"@),
            rate,
        ),
    )
}

/// The message that an upload is complete, with its average rate.
pub fn upload_done_message(name: &str, rate: &str, lang: Lang) -> (out: SessionEvent)
    ensures
        out@ == done_message(name@, rate@, lang),
{
    rate_status(
        lang.t("上传完成", "Uploaded"),
        name,
        "100",
        lang.t("平均速率", "Average"),
        rate,
    )
}

/// The reports that an upload was cancelled.
pub open spec fn cancelled_reports(
    id: Seq<char>,
    name: Seq<char>,
    transferred: u64,
    total: u64,
    percent: Seq<char>,
    rate: Seq<char>,
    lang: Lang,
) -> Seq<EventView> {
    seq![
        events::transfer_view(
            id,
            name,
            true,
            transferred,
            total,
            TransferState::Cancelled,
            lang.pick("已取消"@, "Cancelled"@),
        ),
        EventView::SftpStatus(
            rate_message(
                lang.pick("已取消"@, "Cancelled"@),
                name,
                percent,
                lang.pick("平均速率"@, "Average"@),
                rate,
            ),
        ),
    ]
}

/// The reports that an upload was cancelled.
pub fn upload_cancelled_reports(
    id: &str,
    name: &str,
    transferred: u64,
    total: u64,
    percent: &str,
    rate: &str,
    lang: Lang,
) -> (out: Vec<SessionEvent>)
    ensures
        events::events_view(out@) == cancelled_reports(
            id@,
            name@,
            transferred,
            total,
            percent@,
            rate@,
            lang,
        ),
{
    let mut out: Vec<SessionEvent> = Vec::new();
    out.push(
        events::emit_transfer(
            id,
            name,
            true,
            transferred,
            total,
            TransferState::Cancelled,
            lang.t("已取消", "Cancelled"),
        ),
    );
    out.push(
        rate_status(
            lang.t("已取消", "Cancelled"),
            name,
            percent,
            lang.t("平均速率", "Average"),
            rate,
        ),
    );
    assert(events::events_view(out@) =~= seq![out@[0]@, out@[1]@]);
    out
}

/// The reports that an upload failed: one on the transfer, and a message.
pub open spec fn failed_upload(id: Seq<char>, name: Seq<char>, msg: Seq<char>, lang: Lang) -> Seq<
    EventView,
> {
    seq![
        events::transfer_view(id, name, true, 0, 0, TransferState::Failed, msg),
        EventView::SftpStatus(events::titled(lang.pick("上传失败"@, "Upload failed"@), msg)),
    ]
}

/// The reports that an upload failed: one on the transfer, and a message.
pub fn failed_reports(id: &str, name: &str, msg: &str, lang: Lang) -> (out: Vec<SessionEvent>)
    ensures
        events::events_view(out@) == failed_upload(id@, name@, msg@, lang),
{
    let mut out: Vec<SessionEvent> = Vec::new();
    out.push(events::emit_transfer(id, name, true, 0, 0, TransferState::Failed, msg));
    out.push(events::titled_status(lang.t("上传失败", "Upload failed"), msg));
    assert(events::events_view(out@) =~= seq![out@[0]@, out@[1]@]);
    out
}

} // verus!
