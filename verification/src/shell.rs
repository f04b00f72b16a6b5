//! Commands that do the work of a file service over a plain shell, and what their output means.
use crate::lang::Lang;
use crate::listing;
use crate::listing::ExecOutput;
use crate::number;
use crate::remote_path;
use crate::text;
use crate::utf8;
use base64::Engine;
use vstd::prelude::*;

verus! {

// ---------------------------------------------------------------------------
// Running a command
// ---------------------------------------------------------------------------

/// A message on the channel of a command.
#[derive(Debug)]
pub enum ChannelNote {
    Data(Vec<u8>),
    ExtendedData(Vec<u8>),
    ExitStatus(u32),
    Close,
    Other,
}

/// What has come on the channel of a command.
pub struct Capture {
    pub status: Option<u32>,
    pub out: Vec<u8>,
    pub err: Vec<u8>,
}

/// The contents of a [`Capture`].
#[verifier::ext_equal]
pub struct CaptureView {
    pub status: Option<u32>,
    pub out: Seq<u8>,
    pub err: Seq<u8>,
}

impl View for Capture {
    type V = CaptureView;

    open spec fn view(&self) -> CaptureView {
        CaptureView { status: self.status, out: self.out@, err: self.err@ }
    }
}

impl CaptureView {
    /// With one more message.
    pub open spec fn absorbed(self, note: ChannelNote) -> CaptureView {
        match note {
            ChannelNote::Data(d) => CaptureView { out: self.out + d@, ..self },
            ChannelNote::ExtendedData(d) => CaptureView { err: self.err + d@, ..self },
            ChannelNote::ExitStatus(s) => CaptureView { status: Some(s), ..self },
            ChannelNote::Close => self,
            ChannelNote::Other => self,
        }
    }
}

/// What has come after a series of messages.
pub open spec fn captured(notes: Seq<ChannelNote>) -> CaptureView
    decreases notes.len(),
{
    if notes.len() == 0 {
        CaptureView { status: None, out: Seq::empty(), err: Seq::empty() }
    } else {
        captured(notes.drop_last()).absorbed(notes.last())
    }
}

/// Output and error output are kept apart, each whole and in its order, and the exit code is the
/// one that was told last: the parts of a series of messages follow one another.
pub proof fn law_output_is_captured_whole(notes: Seq<ChannelNote>, more: Vec<u8>, code: u32)
    ensures
        captured(notes.push(ChannelNote::Data(more))).out == captured(notes).out + more@,
        captured(notes.push(ChannelNote::Data(more))).err == captured(notes).err,
        captured(notes.push(ChannelNote::ExtendedData(more))).err == captured(notes).err + more@,
        captured(notes.push(ChannelNote::ExtendedData(more))).out == captured(notes).out,
        captured(notes.push(ChannelNote::ExitStatus(code))).status == Some(code),
        captured(notes.push(ChannelNote::ExitStatus(code))).out == captured(notes).out,
        captured(notes.push(ChannelNote::Data(more))).status == captured(notes).status,
        captured(notes.push(ChannelNote::Close)) == captured(notes),
        captured(notes.push(ChannelNote::Other)) == captured(notes),
{
    assert(notes.push(ChannelNote::Data(more)).drop_last() =~= notes);
    assert(notes.push(ChannelNote::ExtendedData(more)).drop_last() =~= notes);
    assert(notes.push(ChannelNote::ExitStatus(code)).drop_last() =~= notes);
    assert(notes.push(ChannelNote::Close).drop_last() =~= notes);
    assert(notes.push(ChannelNote::Other).drop_last() =~= notes);
}

impl Capture {
    /// Nothing has come.
    pub fn new() -> (c: Capture)
        ensures
            c.status is None,
            c.out@ == Seq::<u8>::empty(),
            c.err@ == Seq::<u8>::empty(),
            c@ == captured(Seq::empty()),
    {
        Capture { status: None, out: Vec::new(), err: Vec::new() }
    }

    /// Takes a message. The channel is read on until it is closed.
    pub fn absorb(&mut self, note: ChannelNote) -> (go_on: bool)
        ensures
            go_on == !(note is Close),
            final(self)@ == old(self)@.absorbed(note),
            final(self).status == (match note {
                ChannelNote::ExitStatus(s) => Some(s),
                _ => old(self).status,
            }),
            final(self).out@ == (match note {
                ChannelNote::Data(d) => old(self).out@ + d@,
                _ => old(self).out@,
            }),
            final(self).err@ == (match note {
                ChannelNote::ExtendedData(d) => old(self).err@ + d@,
                _ => old(self).err@,
            }),
    {
        match note {
            ChannelNote::Data(d) => {
                let mut d = d;
                self.out.append(&mut d);
                true
            },
            ChannelNote::ExtendedData(d) => {
                let mut d = d;
                self.err.append(&mut d);
                true
            },
            ChannelNote::ExitStatus(s) => {
                self.status = Some(s);
                true
            },
            ChannelNote::Close => false,
            ChannelNote::Other => true,
        }
    }

    /// What the command came to. A command that told no exit code counts as successful.
    pub fn output(self) -> (done: ExecOutput)
        ensures
            done.code == (match self.status {
                Some(s) => s,
                None => 0,
            }),
            done.out == self.out,
            done.err == self.err,
    {
        ExecOutput {
            code: match self.status {
                Some(s) => s,
                None => 0,
            },
            out: self.out,
            err: self.err,
        }
    }
}

/// How long a command may take, in seconds.
pub const EXEC_TIMEOUT_SECS: u64 = 18;

/// What an attempt to run a command came to.
#[derive(Debug)]
pub enum ExecReply {
    Done(ExecOutput),
    /// It could not be run: the message with its causes, and without them.
    Failed { full: String, shown: String },
    TimedOut,
}

/// What to do after an attempt to run a command.
#[derive(Debug)]
pub enum ExecVerdict {
    /// Wait and run it once more.
    Again,
    /// Go on with what it came to, or with the message why it came to nothing.
    Answer(Result<ExecOutput, String>),
}

/// Whether a failure, in lower case, is one that passes: some servers refuse a channel while
/// the one before is being closed.
pub open spec fn passing_failure(low: Seq<char>) -> bool {
    text::has_text(low, "open exec channel"@) || text::has_text(
        low,
        "administratively prohibited"@,
    ) || text::has_text(low, "channel open"@)
}

/// Whether a failure, in lower case, is one that passes.
pub fn is_passing_failure(low: &str) -> (r: bool)
    ensures
        r == passing_failure(low@),
{
    text::contains(low, "open exec channel") || text::contains(low, "administratively prohibited")
        || text::contains(low, "channel open")
}

/// The message for a command that took too long.
pub open spec fn exec_timed_out(first: bool) -> Seq<char> {
    "Connection Timeout: exec channel exceeded "@ + number::decimal(EXEC_TIMEOUT_SECS as nat)
        + if first {
        "s"@
    } else {
        "s after retry"@
    }
}

/// Decides after an attempt to run a command: a first failure that passes is tried again.
pub fn after_exec(first: bool, reply: ExecReply) -> (out: ExecVerdict)
    ensures
        match reply {
            ExecReply::Done(done) => out == ExecVerdict::Answer(Ok(done)),
            ExecReply::Failed { full, shown } => if first && passing_failure(
                text::unicode_lower(full@),
            ) {
                out is Again
            } else {
                out matches ExecVerdict::Answer(Err(m)) && m@ == (if first {
                    shown@
                } else {
                    "retry after exec channel failure"@
                })
            },
            ExecReply::TimedOut => out matches ExecVerdict::Answer(Err(m)) && m@ == exec_timed_out(
                first,
            ),
        },
{
    match reply {
        ExecReply::Done(done) => ExecVerdict::Answer(Ok(done)),
        ExecReply::Failed { full, shown } => {
            if first {
                let low = text::lowercase(full.as_str());
                if is_passing_failure(low.as_str()) {
                    ExecVerdict::Again
                } else {
                    ExecVerdict::Answer(Err(shown))
                }
            } else {
                ExecVerdict::Answer(Err("retry after exec channel failure".to_string()))
            }
        },
        ExecReply::TimedOut => {
            let secs = number::number_text(EXEC_TIMEOUT_SECS, 10);
            let tail = if first {
                "s"
            } else {
                "s after retry"
            };
            ExecVerdict::Answer(
                Err(text::join3("Connection Timeout: exec channel exceeded ", secs.as_str(), tail)),
            )
        },
    }
}

/// The command that tells the working directory.
pub const PWD_COMMAND: &'static str = "pwd";

/// Reads what the command for the working directory came to.
pub fn shell_pwd(done: &ExecOutput) -> (out: Result<String, String>)
    ensures
        out is Ok <==> done.code == 0,
        out matches Ok(dir) ==> dir@ == text::trimmed(utf8::lossy(done.out@)),
        out matches Err(m) ==> m@ == listing::complaint(done.err@),
{
    if done.code != 0 {
        Err(listing::complaint_of(done.err.as_slice()))
    } else {
        Ok(listing::complaint_of(done.out.as_slice()))
    }
}

// ---------------------------------------------------------------------------
// Base64
// ---------------------------------------------------------------------------

/// The text that `base64` encodes bytes to, with its standard engine.
pub uninterp spec fn base64_text(bytes: Seq<u8>) -> Seq<char>;

/// The bytes that `base64` decodes a text to with its standard engine, or its message where the
/// text is no encoding.
pub uninterp spec fn base64_decoded(text: Seq<char>) -> Result<Seq<u8>, Seq<char>>;

/// Whether bytes are few enough to be encoded: the text takes four bytes for each three that are
/// begun, and has to fit into memory.
pub open spec fn encodable(bytes: Seq<u8>) -> bool {
    4 * ((bytes.len() + 2) / 3) <= isize::MAX
}

/// Whether a character occurs in an encoding.
pub open spec fn base64_char(c: char) -> bool {
    'A' <= c <= 'Z' || 'a' <= c <= 'z' || '0' <= c <= '9' || c == '+' || c == '/' || c == '='
}

/// Encodes bytes, by `base64::Engine::encode` of `general_purpose::STANDARD`: four characters
/// for each three bytes that are begun, letters, digits, `+`, `/` and padding by `=`, which the
/// same engine decodes to the same bytes.
#[verifier::external_body]
fn encode_base64(bytes: &[u8]) -> (out: String)
    requires
        encodable(bytes@),
    ensures
        out@ == base64_text(bytes@),
        out@.len() == 4 * ((bytes@.len() + 2) / 3),
        forall|i: int| 0 <= i < out@.len() ==> base64_char(#[trigger] out@[i]),
        base64_decoded(out@) is Ok && base64_decoded(out@)->Ok_0 == bytes@,
{
    base64::engine::general_purpose::STANDARD.encode(bytes)
}

/// The contents of what decoding came to.
pub open spec fn decode_view(r: Result<Vec<u8>, String>) -> Result<Seq<u8>, Seq<char>> {
    match r {
        Ok(v) => Ok(v@),
        Err(m) => Err(m@),
    }
}

/// Decodes a text, by `base64::Engine::decode` of `general_purpose::STANDARD`. The error is given
/// as its text.
#[verifier::external_body]
fn decode_base64(s: &str) -> (out: Result<Vec<u8>, String>)
    ensures
        decode_view(out) == base64_decoded(s@),
{
    base64::engine::general_purpose::STANDARD.decode(s.as_bytes()).map_err(|e| format!("{e}"))
}

// ---------------------------------------------------------------------------
// Text for the built-in editor
// ---------------------------------------------------------------------------

/// How many bytes a file for the built-in editor has at most.
pub const MAX_EDIT_BYTES: u64 = 2_097_152;

/// Whether a byte is a control character other than a tab, a line feed and a carriage return.
pub open spec fn control_byte(b: u8) -> bool {
    (b < 0x20 && b != 9 && b != 10 && b != 13) || b == 0x7f
}

/// Whether bytes hold no control characters.
pub open spec fn clean_bytes(bytes: Seq<u8>) -> bool {
    forall|i: int| 0 <= i < bytes.len() ==> !control_byte(#[trigger] bytes[i])
}

/// The message for a file that is too large.
pub open spec fn too_large_text(lang: Lang) -> Seq<char> {
    lang.pick(
        "文件过大,无法在内置编辑器中打开(上限 2 MB),请下载查看"@,
        "Too large for the built-in editor (2 MB limit); download it instead"@,
    )
}

/// The message for a file with control characters.
pub open spec fn binary_text(lang: Lang) -> Seq<char> {
    lang.pick(
        "包含控制字符(疑似二进制),无法以文本打开,请下载查看"@,
        "Contains control characters (likely binary); download it instead"@,
    )
}

/// The message for a file that is no UTF-8.
pub open spec fn not_utf8_text(lang: Lang) -> Seq<char> {
    lang.pick("非 UTF-8 文本,无法打开"@, "Not UTF-8 text; cannot open"@)
}

/// The text of a file for the built-in editor, or the message why there is none.
pub open spec fn edit_text(bytes: Seq<u8>, lang: Lang) -> Result<Seq<char>, Seq<char>> {
    if !clean_bytes(bytes) {
        Err(binary_text(lang))
    } else if !vstd::utf8::valid_utf8(bytes) {
        Err(not_utf8_text(lang))
    } else {
        Ok(vstd::utf8::decode_utf8(bytes))
    }
}

/// The contents of a text or of a message.
pub open spec fn text_view(r: Result<String, String>) -> Result<Seq<char>, Seq<char>> {
    match r {
        Ok(s) => Ok(s@),
        Err(m) => Err(m@),
    }
}

fn has_control(bytes: &[u8]) -> (r: bool)
    ensures
        r == !clean_bytes(bytes@),
{
    let mut i: usize = 0;
    while i < bytes.len()
        invariant
            i <= bytes@.len(),
            forall|k: int| 0 <= k < i ==> !control_byte(#[trigger] bytes@[k]),
        decreases bytes@.len() - i,
    {
        let b: u8 = bytes[i];
        if (b < 0x20 && b != 9 && b != 10 && b != 13) || b == 0x7f {
            assert(control_byte(bytes@[i as int]));
            return true;
        }
        i = i + 1;
    }
    false
}

/// The text of a file for the built-in editor. Files with control characters, which would be
/// spoilt by editing, and files that are no UTF-8 are refused.
pub fn editor_text(bytes: &[u8], lang: Lang) -> (out: Result<String, String>)
    ensures
        text_view(out) == edit_text(bytes@, lang),
        (vstd::utf8::valid_utf8(bytes@) && forall|i: int|
            0 <= i < bytes@.len() ==> 0x20 <= #[trigger] bytes@[i] <= 0x7e || bytes@[i] >= 0x80
                || bytes@[i] == 9 || bytes@[i] == 10 || bytes@[i] == 13) ==> (out matches Ok(s)
            && s@ == vstd::utf8::decode_utf8(bytes@)),
{
    if has_control(bytes) {
        return Err(
            lang.t(
                "包含控制字符(疑似二进制),无法以文本打开,请下载查看",
                "Contains control characters (likely binary); download it instead",
            ).to_string(),
        );
    }
    match utf8::decode_strict(bytes) {
        Some(s) => Ok(s),
        None => Err(lang.t("非 UTF-8 文本,无法打开", "Not UTF-8 text; cannot open").to_string()),
    }
}

/// The message where a file is too large for the built-in editor.
pub fn size_guard(size: u64, lang: Lang) -> (out: Option<String>)
    ensures
        out is Some <==> size > MAX_EDIT_BYTES,
        out matches Some(m) ==> m@ == too_large_text(lang),
{
    if size > MAX_EDIT_BYTES {
        Some(
            lang.t(
                "文件过大,无法在内置编辑器中打开(上限 2 MB),请下载查看",
                "Too large for the built-in editor (2 MB limit); download it instead",
            ).to_string(),
        )
    } else {
        None
    }
}

// ---------------------------------------------------------------------------
// Reading and writing files
// ---------------------------------------------------------------------------

/// The command that prints a small file in base64.
pub open spec fn read_text_command_text(remote: Seq<char>) -> Seq<char> {
    let q = remote_path::quoted(remote);
    "test -f "@ + q + " || exit 3; sz=$(stat -c %s "@ + q
        + " 2>/dev/null || echo 0); [ \"$sz\" -le 2097152 ] || exit 4; base64 "@ + q
}

/// The command that prints a small file in base64.
pub fn read_text_command(remote: &str) -> (out: String)
    ensures
        out@ == read_text_command_text(remote@),
{
    let q = remote_path::sh_quote(remote);
    let mut out = text::join4(
        "test -f ",
        q.as_str(),
        " || exit 3; sz=$(stat -c %s ",
        q.as_str(),
    );
    out.append(" 2>/dev/null || echo 0); [ \"$sz\" -le 2097152 ] || exit 4; base64 ");
    out.append(q.as_str());
    out
}

/// Output without its line ends.
pub open spec fn one_line(out: Seq<u8>) -> Seq<char> {
    text::expanded(text::expanded(utf8::lossy(out), '\r', ""@), '\n', ""@)
}

fn join_lines(out: &[u8]) -> (line: String)
    ensures
        line@ == one_line(out@),
{
    let raw = utf8::decode_lossy(out);
    let half = text::expand_char(raw.as_str(), '\r', "");
    text::expand_char(half.as_str(), '\n', "")
}

/// The text that decoded bytes make for the built-in editor, or the message.
pub open spec fn decoded_text(decoded: Result<Seq<u8>, Seq<char>>, lang: Lang) -> Result<
    Seq<char>,
    Seq<char>,
> {
    match decoded {
        Ok(bytes) => edit_text(bytes, lang),
        Err(m) => Err("base64 decode: "@ + m),
    }
}

/// The text that decoded bytes make for the built-in editor, or the message.
pub fn read_decoded(decoded: &Result<Vec<u8>, String>, lang: Lang) -> (out: Result<String, String>)
    ensures
        text_view(out) == decoded_text(decode_view(*decoded), lang),
{
    match decoded {
        Ok(bytes) => editor_text(bytes.as_slice(), lang),
        Err(m) => Err(text::join2("base64 decode: ", m.as_str())),
    }
}

/// The text of a file that was read over a shell, or the message why there is none.
pub open spec fn shell_text(code: u32, out: Seq<u8>, err: Seq<u8>, lang: Lang) -> Result<
    Seq<char>,
    Seq<char>,
> {
    if code == 0 {
        decoded_text(base64_decoded(one_line(out)), lang)
    } else if code == 3 {
        Err(lang.pick("不是普通文件,无法打开"@, "Not a regular file; cannot open"@))
    } else if code == 4 {
        Err(too_large_text(lang))
    } else {
        Err(listing::complaint(err))
    }
}

/// Reads what the command that prints a file came to.
pub fn shell_read_text(done: &ExecOutput, lang: Lang) -> (out: Result<String, String>)
    ensures
        text_view(out) == shell_text(done.code, done.out@, done.err@, lang),
{
    if done.code == 3 {
        return Err(lang.t("不是普通文件,无法打开", "Not a regular file; cannot open").to_string());
    }
    if done.code == 4 {
        return Err(
            lang.t(
                "文件过大,无法在内置编辑器中打开(上限 2 MB),请下载查看",
                "Too large for the built-in editor (2 MB limit); download it instead",
            ).to_string(),
        );
    }
    if done.code != 0 {
        return Err(listing::complaint_of(done.err.as_slice()));
    }
    let line = join_lines(done.out.as_slice());
    let decoded = decode_base64(line.as_str());
    read_decoded(&decoded, lang)
}

/// The command that writes what an encoded text stands for to a file.
pub open spec fn write_command_text(encoded: Seq<char>, remote: Seq<char>) -> Seq<char> {
    "printf %s "@ + remote_path::quoted(encoded) + " | base64 -d > "@ + remote_path::quoted(remote)
}

/// The command that writes what an encoded text stands for to a file.
pub fn write_command(encoded: &str, remote: &str) -> (out: String)
    ensures
        out@ == write_command_text(encoded@, remote@),
{
    let q = remote_path::sh_quote(encoded);
    let r = remote_path::sh_quote(remote);
    text::join4("printf %s ", q.as_str(), " | base64 -d > ", r.as_str())
}

/// The command that writes a text to a file. What it holds decodes to the text again.
pub fn shell_write_text(remote: &str, content: &str) -> (out: String)
    requires
        encodable(vstd::utf8::encode_utf8(content@)),
    ensures
        out@ == write_command_text(base64_text(vstd::utf8::encode_utf8(content@)), remote@),
        base64_decoded(base64_text(vstd::utf8::encode_utf8(content@))) == Ok::<
            Seq<u8>,
            Seq<char>,
        >(vstd::utf8::encode_utf8(content@)),
{
    let encoded = encode_base64(content.as_bytes());
    write_command(encoded.as_str(), remote)
}

/// Reads what a command that gives nothing back came to.
pub fn exec_outcome(done: &ExecOutput) -> (out: Result<(), String>)
    ensures
        out is Ok <==> done.code == 0,
        out matches Err(m) ==> m@ == listing::complaint(done.err@),
{
    if done.code == 0 {
        Ok(())
    } else {
        Err(listing::complaint_of(done.err.as_slice()))
    }
}

/// The command that prints a file in base64.
pub open spec fn fetch_command_text(remote: Seq<char>) -> Seq<char> {
    let q = remote_path::quoted(remote);
    "test -f "@ + q + " || exit 3; base64 "@ + q
}

/// The command that prints a file in base64.
pub fn fetch_command(remote: &str) -> (out: String)
    ensures
        out@ == fetch_command_text(remote@),
{
    let q = remote_path::sh_quote(remote);
    text::join4("test -f ", q.as_str(), " || exit 3; base64 ", q.as_str())
}

/// The bytes of a downloaded file, or the message why there are none.
pub open spec fn fetched_bytes(decoded: Result<Seq<u8>, Seq<char>>) -> Result<
    Seq<u8>,
    Seq<char>,
> {
    match decoded {
        Ok(bytes) => Ok(bytes),
        Err(_) => Err("base64 decode remote file"@),
    }
}

/// The bytes of a file that was downloaded over a shell, or the message why there are none.
pub open spec fn shell_file(code: u32, out: Seq<u8>, err: Seq<u8>, lang: Lang) -> Result<
    Seq<u8>,
    Seq<char>,
> {
    if code == 0 {
        fetched_bytes(base64_decoded(one_line(out)))
    } else if code == 3 {
        Err(
            lang.pick(
                "当前 SSH 文件浏览模式只支持下载普通文件"@,
                "SSH file-browser mode can only download regular files"@,
            ),
        )
    } else if listing::complaint(err).len() == 0 {
        Err("download failed"@)
    } else {
        Err(listing::complaint(err))
    }
}

/// The bytes of a downloaded file, or the message why there are none.
pub fn fetch_decoded(decoded: Result<Vec<u8>, String>) -> (out: Result<Vec<u8>, String>)
    ensures
        decode_view(out) == fetched_bytes(decode_view(decoded)),
{
    match decoded {
        Ok(bytes) => Ok(bytes),
        Err(_) => Err("base64 decode remote file".to_string()),
    }
}

/// Reads what the command that prints a file came to: the bytes of the file.
pub fn shell_download_file(done: &ExecOutput, lang: Lang) -> (out: Result<Vec<u8>, String>)
    ensures
        decode_view(out) == shell_file(done.code, done.out@, done.err@, lang),
{
    if done.code == 3 {
        return Err(
            lang.t(
                "当前 SSH 文件浏览模式只支持下载普通文件",
                "SSH file-browser mode can only download regular files",
            ).to_string(),
        );
    }
    if done.code != 0 {
        let msg = listing::complaint_of(done.err.as_slice());
        return Err(
            if msg.as_str().is_empty() {
                "download failed".to_string()
            } else {
                msg
            },
        );
    }
    let line = join_lines(done.out.as_slice());
    fetch_decoded(decode_base64(line.as_str()))
}

/// A text that was saved is read back as it was: if the file holds what the saving command
/// wrote, and the reading command prints it in the same encoding, broken into lines at will,
/// then the text comes back, unless it holds control characters, which the editor refuses.
pub proof fn law_saved_text_reads_back(content: Seq<char>, out: Seq<u8>, err: Seq<u8>, lang: Lang)
    requires
        base64_decoded(base64_text(vstd::utf8::encode_utf8(content))) == Ok::<Seq<u8>, Seq<char>>(
            vstd::utf8::encode_utf8(content),
        ),
        one_line(out) == base64_text(vstd::utf8::encode_utf8(content)),
        clean_bytes(vstd::utf8::encode_utf8(content)),
    ensures
        shell_text(0, out, err, lang) == Ok::<Seq<char>, Seq<char>>(content),
{
    broadcast use vstd::utf8::encode_utf8_valid_utf8, vstd::utf8::encode_utf8_decode_utf8;

}

/// Every text of printable characters opens as it is: where each byte is a blank or another one
/// up to the tilde, or belongs to a character beyond ASCII, or is a tab, a line feed or a carriage
/// return, and the bytes are UTF-8, the editor shows exactly their text.
pub proof fn law_printable_text_opens(bytes: Seq<u8>, lang: Lang)
    requires
        vstd::utf8::valid_utf8(bytes),
        forall|i: int|
            0 <= i < bytes.len() ==> 0x20 <= #[trigger] bytes[i] <= 0x7e || bytes[i] >= 0x80
                || bytes[i] == 0x09 || bytes[i] == 0x0a || bytes[i] == 0x0d,
    ensures
        edit_text(bytes, lang) == Ok::<Seq<char>, Seq<char>>(vstd::utf8::decode_utf8(bytes)),
{
}

/// Anything else is refused, and why is told: bytes among which is another control character as
/// binary, bytes that are no UTF-8 as such.
pub proof fn law_other_bytes_are_refused(bytes: Seq<u8>, lang: Lang)
    ensures
        (exists|i: int|
            0 <= i < bytes.len() && (#[trigger] bytes[i] == 0x7f || bytes[i] <= 0x08 || bytes[i]
                == 0x0b || bytes[i] == 0x0c || 0x0e <= bytes[i] <= 0x1f)) ==> edit_text(
            bytes,
            lang,
        ) == Err::<Seq<char>, Seq<char>>(
            lang.pick(
                "包含控制字符(疑似二进制),无法以文本打开,请下载查看"@,
                "Contains control characters (likely binary); download it instead"@,
            ),
        ),
        !vstd::utf8::valid_utf8(bytes) ==> edit_text(bytes, lang) is Err,
{
    if exists|i: int|
        0 <= i < bytes.len() && (#[trigger] bytes[i] == 0x7f || bytes[i] <= 0x08 || bytes[i]
            == 0x0b || bytes[i] == 0x0c || 0x0e <= bytes[i] <= 0x1f) {
        let i = choose|i: int|
            0 <= i < bytes.len() && (#[trigger] bytes[i] == 0x7f || bytes[i] <= 0x08 || bytes[i]
                == 0x0b || bytes[i] == 0x0c || 0x0e <= bytes[i] <= 0x1f);
        assert(control_byte(bytes[i]));
    }
}

/// A text that the editor shows is saved as the bytes that it was made of.
pub proof fn law_shown_text_keeps_bytes(bytes: Seq<u8>, lang: Lang)
    ensures
        edit_text(bytes, lang) matches Ok(s) ==> vstd::utf8::encode_utf8(s) == bytes,
{
    broadcast use vstd::utf8::decode_utf8_encode_utf8;

}

// ---------------------------------------------------------------------------
// Changing files and directories
// ---------------------------------------------------------------------------

/// The command that makes a directory.
pub fn mkdir_command(path: &str) -> (out: String)
    ensures
        out@ == "mkdir -p "@ + remote_path::quoted(path@),
{
    let q = remote_path::sh_quote(path);
    text::join2("mkdir -p ", q.as_str())
}

/// The command that makes an empty file where there is none.
pub fn touch_command(path: &str) -> (out: String)
    ensures
        out@ == "test -e "@ + remote_path::quoted(path@) + " || : > "@ + remote_path::quoted(path@),
{
    let q = remote_path::sh_quote(path);
    text::join4("test -e ", q.as_str(), " || : > ", q.as_str())
}

/// The command that moves a file or a directory.
pub fn move_command(from: &str, to: &str) -> (out: String)
    ensures
        out@ == "mv "@ + remote_path::quoted(from@) + " "@ + remote_path::quoted(to@),
{
    let f = remote_path::sh_quote(from);
    let t = remote_path::sh_quote(to);
    text::join4("mv ", f.as_str(), " ", t.as_str())
}

/// The command that sets the permission bits of a file or a directory.
pub fn chmod_command(path: &str, mode: u32) -> (out: String)
    ensures
        out@ == "chmod "@ + number::octal((mode & 0o7777) as nat) + " "@ + remote_path::quoted(
            path@,
        ),
{
    let bits: u32 = mode & 0o7777;
    let digits = number::number_text(bits as u64, 8);
    let q = remote_path::sh_quote(path);
    text::join4("chmod ", digits.as_str(), " ", q.as_str())
}

/// The command that deletes a file or a directory, behind the quoted path. It refuses what must
/// not be deleted, deletes no more than the bound on nodes, stays on one file system and does
/// not follow symbolic links.
pub const DELETE_TAIL: &'static str =
    "; [ -n \"$p\" ] && [ \"$p\" != / ] && [ \"$p\" != . ] && [ \"$p\" != .. ] || exit 64; if [ -L \"$p\" ] || [ ! -d \"$p\" ]; then rm -f -- \"$p\"; else excess=$(find \"$p\" -xdev -mindepth 1 -print | sed -n '20001p'); [ -z \"$excess\" ] || exit 65; find \"$p\" -xdev -depth -mindepth 1 \\( -type l -o -type f -o ! -type d \\) -exec rm -f -- {} + -o -type d -exec rmdir -- {} +; rmdir -- \"$p\"; fi";

/// The command that deletes a file or a directory.
pub fn delete_command(path: &str) -> (out: String)
    ensures
        out@ == "p="@ + remote_path::quoted(path@) + DELETE_TAIL@,
{
    let q = remote_path::sh_quote(path);
    text::join3("p=", q.as_str(), DELETE_TAIL)
}

// ---------------------------------------------------------------------------
// Archives
// ---------------------------------------------------------------------------

/// A list of names, each quoted and with a space before.
pub open spec fn quoted_names(names: Seq<Seq<char>>) -> Seq<char>
    decreases names.len(),
{
    if names.len() == 0 {
        Seq::empty()
    } else {
        quoted_names(names.drop_last()) + " "@ + remote_path::quoted(names.last())
    }
}

/// The command that packs names of a directory into an archive.
pub open spec fn tar_command_text(
    archive: Seq<char>,
    dir: Seq<char>,
    names: Seq<Seq<char>>,
) -> Seq<char> {
    "tar -cf "@ + remote_path::quoted(archive) + " -C "@ + remote_path::quoted(dir) + quoted_names(
        names,
    )
}

/// The command that packs names of a directory into an archive.
pub fn tar_command(archive: &str, dir: &str, names: &Vec<String>) -> (out: String)
    ensures
        out@ == tar_command_text(archive@, dir@, text::texts(names@)),
{
    let a = remote_path::sh_quote(archive);
    let d = remote_path::sh_quote(dir);
    let mut out = text::join4("tar -cf ", a.as_str(), " -C ", d.as_str());
    let ghost head = out@;
    let ghost all = text::texts(names@);
    let mut i: usize = 0;
    assert(all.take(0) == Seq::<Seq<char>>::empty());
    assert(head + quoted_names(all.take(0)) =~= head);
    while i < names.len()
        invariant
            i <= names@.len(),
            all == text::texts(names@),
            out@ == head + quoted_names(all.take(i as int)),
        decreases names@.len() - i,
    {
        assert(all[i as int] == names@[i as int]@);
        assert(all.take(i + 1).drop_last() == all.take(i as int));
        let ghost before = quoted_names(all.take(i as int));
        let q = remote_path::sh_quote(names[i].as_str());
        out.append(" ");
        out.append(q.as_str());
        assert(out@ =~= head + (before + " "@ + q@));
        i = i + 1;
    }
    assert(all.take(all.len() as int) == all);
    out
}

/// The command that removes an archive again.
pub fn remove_command(path: &str) -> (out: String)
    ensures
        out@ == "rm -f "@ + remote_path::quoted(path@),
{
    let q = remote_path::sh_quote(path);
    text::join2("rm -f ", q.as_str())
}

/// Where the archive stands while it is downloaded, by a random identifier.
pub fn archive_temp(id: &str) -> (out: String)
    ensures
        out@ == "/tmp/probe-shell-"@ + id@ + ".tar"@,
{
    text::join3("/tmp/probe-shell-", id, ".tar")
}

/// A name without its last extension; the whole name where nothing would be left, or where it
/// has none.
pub open spec fn stem(name: Seq<char>) -> Seq<char> {
    match name.index_of_last('.') {
        Some(at) => if at > 0 {
            name.take(at)
        } else {
            name
        },
        None => name,
    }
}

/// A name without its last extension.
pub fn stem_of(name: &str) -> (out: String)
    ensures
        out@ == stem(name@),
{
    let chars = text::chars_of(name);
    let mut i: usize = chars.len();
    while i > 0
        invariant
            i <= chars@.len(),
            chars@ == name@,
            forall|k: int| i <= k < chars@.len() ==> #[trigger] chars@[k] != '.',
        decreases i,
    {
        i = i - 1;
        if chars[i] == '.' {
            assert(name@[i as int] == '.');
            proof {
                name@.index_of_last_ensures('.');
                let j = name@.index_of_last('.')->0;
                assert(name@[j] == '.');
                assert(j == i);
            }
            if i > 0 {
                assert(name@.subrange(0, i as int) =~= name@.take(i as int));
                return text::piece(chars.as_slice(), 0, i);
            } else {
                return name.to_string();
            }
        }
    }
    proof {
        name@.index_of_last_ensures('.');
    }
    name.to_string()
}

/// The local name of the archive of several entries: after the first of them.
pub open spec fn archive_name(names: Seq<Seq<char>>, lang: Lang) -> Seq<char> {
    let first = if names.len() == 0 {
        "download"@
    } else {
        names[0]
    };
    remote_path::safe_name(stem(first) + lang.pick("等文件"@, "-and-more"@) + ".tar"@)
}

/// The local name of the archive of several entries.
pub fn archive_name_of(names: &Vec<String>, lang: Lang) -> (out: String)
    ensures
        out@ == archive_name(text::texts(names@), lang),
{
    let first = if names.len() == 0 {
        "download".to_string()
    } else {
        assert(text::texts(names@)[0] == names@[0]@);
        names[0].clone()
    };
    let short = stem_of(first.as_str());
    let whole = text::join3(short.as_str(), lang.t("等文件", "-and-more"), ".tar");
    remote_path::sanitize_filename(whole.as_str())
}

/// The stem of a name is what stands before its last dot, whatever dots it holds before; a name
/// without a dot, or with one at its beginning alone, is its own stem.
pub proof fn law_stem_stands_before_the_last_dot(base: Seq<char>, ext: Seq<char>)
    requires
        base.len() > 0,
        !ext.contains('.'),
    ensures
        stem(base + seq!['.'] + ext) == base,
        stem(ext) == ext,
        stem(seq!['.'] + ext) == seq!['.'] + ext,
{
    let name = base + seq!['.'] + ext;
    let hidden = seq!['.'] + ext;
    assert(name[base.len() as int] == '.');
    name.index_of_last_ensures('.');
    let i = name.index_of_last('.')->0;
    assert(i == base.len()) by {
        if i > base.len() {
            assert(ext[i - base.len() - 1] == '.');
        }
    }
    assert(name.take(base.len() as int) =~= base);
    ext.index_of_last_ensures('.');
    assert(hidden[0] == '.');
    hidden.index_of_last_ensures('.');
    let j = hidden.index_of_last('.')->0;
    assert(j == 0) by {
        if j > 0 {
            assert(ext[j - 1] == '.');
        }
    }
}

/// The archive of several entries is named after the first of them, where that makes a plain name.
pub proof fn law_archive_is_named_after_the_first(names: Seq<Seq<char>>, lang: Lang)
    requires
        names.len() > 0,
        remote_path::plain_name(
            stem(names[0]) + lang.pick("等文件"@, "-and-more"@) + ".tar"@,
        ),
    ensures
        archive_name(names, lang) == stem(names[0]) + lang.pick("等文件"@, "-and-more"@) + ".tar"@,
{
    remote_path::law_plain_names_pass(
        stem(names[0]) + lang.pick("等文件"@, "-and-more"@) + ".tar"@,
    );
}

/// A command that packs names hands each of them over as a word of its own, in their order.
pub proof fn law_every_name_is_packed(names: Seq<Seq<char>>, more: Seq<char>)
    ensures
        quoted_names(names.push(more)) == quoted_names(names) + " "@ + remote_path::quoted(more),
        quoted_names(Seq::empty()) == Seq::<char>::empty(),
{
    assert(names.push(more).drop_last() =~= names);
}

/// A failure to open a channel passes, and is tried again: these words speak of it.
pub proof fn law_passing_failures_are_recognised(low: Seq<char>)
    ensures
        text::has_text(low, "open exec channel"@) ==> passing_failure(low),
        text::has_text(low, "administratively prohibited"@) ==> passing_failure(low),
        text::has_text(low, "channel open"@) ==> passing_failure(low),
        !text::has_text(low, "channel"@) && !text::has_text(low, "prohibited"@)
            ==> !passing_failure(low),
{
    lemma_part_is_held(low, "open exec "@, "channel"@, ""@);
    lemma_part_is_held(low, ""@, "channel"@, " open"@);
    lemma_part_is_held(low, "administratively "@, "prohibited"@, ""@);
    reveal_strlit("open exec channel");
    reveal_strlit("open exec ");
    reveal_strlit("channel");
    reveal_strlit("channel open");
    reveal_strlit(" open");
    reveal_strlit("");
    reveal_strlit("administratively prohibited");
    reveal_strlit("administratively ");
    reveal_strlit("prohibited");
    assert("open exec channel"@ =~= "open exec "@ + "channel"@ + ""@);
    assert("channel open"@ =~= ""@ + "channel"@ + " open"@);
    assert("administratively prohibited"@ =~= "administratively "@ + "prohibited"@ + ""@);
}

/// What holds a text holds its parts.
proof fn lemma_part_is_held(hay: Seq<char>, a: Seq<char>, b: Seq<char>, c: Seq<char>)
    ensures
        text::has_text(hay, a + b + c) ==> text::has_text(hay, b),
{
    let needle = a + b + c;
    if text::has_text(hay, needle) {
        let i = choose|i: int|
            0 <= i && i + needle.len() <= hay.len() && #[trigger] hay.subrange(
                i,
                i + needle.len(),
            ) == needle;
        let at = i + a.len();
        assert(hay.subrange(at, at + b.len()) =~= needle.subrange(
            a.len() as int,
            (a.len() + b.len()) as int,
        ));
        assert(needle.subrange(a.len() as int, (a.len() + b.len()) as int) =~= b);
    }
}

/// Line ends do not count where a file is printed in an encoding: what was broken into lines is
/// put together again, and nothing else is changed.
pub proof fn law_lines_are_put_together(a: Seq<char>, b: Seq<char>)
    requires
        !a.contains('\n') && !a.contains('\r'),
        !b.contains('\n') && !b.contains('\r'),
    ensures
        one_line(vstd::utf8::encode_utf8(a)) == a,
        one_line(vstd::utf8::encode_utf8(a + seq!['\n'] + b)) == a + b,
        one_line(vstd::utf8::encode_utf8(a + seq!['\r', '\n'] + b)) == a + b,
{
    broadcast use vstd::utf8::encode_utf8_valid_utf8, vstd::utf8::encode_utf8_decode_utf8;

    let none = Seq::<char>::empty();
    reveal_strlit("");
    assert(""@ =~= none);
    let nl = seq!['\n'];
    let both = seq!['\r', '\n'];
    utf8::law_lossless_on_utf8(vstd::utf8::encode_utf8(a));
    utf8::law_lossless_on_utf8(vstd::utf8::encode_utf8(a + nl + b));
    utf8::law_lossless_on_utf8(vstd::utf8::encode_utf8(a + both + b));
    lemma_expanded_plain(a, '\r', none);
    lemma_expanded_plain(a, '\n', none);
    lemma_expanded_plain(b, '\r', none);
    lemma_expanded_plain(b, '\n', none);
    lemma_expanded_joins(a + nl, b, '\r', none);
    lemma_expanded_joins(a, nl, '\r', none);
    lemma_expanded_joins(a + nl, b, '\n', none);
    lemma_expanded_joins(a, nl, '\n', none);
    lemma_expanded_joins(a + both, b, '\r', none);
    lemma_expanded_joins(a, both, '\r', none);
    assert(nl.drop_last() =~= none);
    assert(both.drop_last() =~= seq!['\r']);
    assert(both.drop_last().drop_last() =~= none);
    reveal_with_fuel(text::expanded, 3);
    assert(text::expanded(nl, '\r', none) =~= nl);
    assert(text::expanded(nl, '\n', none) =~= none);
    assert(text::expanded(both, '\r', none) =~= nl);
    assert(a + none + b =~= a + b);
}

proof fn lemma_expanded_plain(s: Seq<char>, c: char, to: Seq<char>)
    requires
        !s.contains(c),
    ensures
        text::expanded(s, c, to) == s,
    decreases s.len(),
{
    if s.len() > 0 {
        let front = s.drop_last();
        if front.contains(c) {
            let i = front.index_of(c);
            assert(s[i] == c);
        }
        lemma_expanded_plain(front, c, to);
        assert(s.contains(s[s.len() - 1]));
        assert(front.push(s.last()) =~= s);
    } else {
        assert(s =~= Seq::<char>::empty());
    }
}

proof fn lemma_expanded_joins(a: Seq<char>, b: Seq<char>, c: char, to: Seq<char>)
    ensures
        text::expanded(a + b, c, to) == text::expanded(a, c, to) + text::expanded(b, c, to),
    decreases b.len(),
{
    if b.len() == 0 {
        assert(a + b =~= a);
        assert(text::expanded(a, c, to) + text::expanded(b, c, to) =~= text::expanded(a, c, to));
    } else {
        let front = b.drop_last();
        assert((a + b).drop_last() =~= a + front);
        lemma_expanded_joins(a, front, c, to);
        assert(text::expanded(a + b, c, to) =~= text::expanded(a, c, to) + text::expanded(
            b,
            c,
            to,
        ));
    }
}

/// The message for a command that took too long tells the limit, and whether it was the second
/// attempt.
pub proof fn law_timeout_tells_the_limit(first: bool)
    ensures
        exec_timed_out(first) == "Connection Timeout: exec channel exceeded "@ + number::decimal(18)
            + if first {
            "s"@
        } else {
            "s after retry"@
        },
{
}

} // verus!
