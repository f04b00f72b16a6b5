//! A terminal on the local machine.
use crate::events;
use crate::events::{EventView, SessionEvent};
use crate::lang::Lang;
use crate::text;
use crate::utf8;
use crate::utf8::Utf8StreamDecoder;
use vstd::prelude::*;

verus! {

/// A number of columns or rows that a terminal can have.
pub open spec fn clamped(n: u32) -> u16 {
    if n < 1 {
        1
    } else if n > u16::MAX {
        u16::MAX
    } else {
        n as u16
    }
}

/// A number of columns or rows that a terminal can have: at least one, and no more than fits.
pub fn size(n: u32) -> (out: u16)
    ensures
        out == clamped(n),
        out >= 1,
        1 <= n <= u16::MAX ==> out == n,
{
    if n < 1 {
        1
    } else if n > u16::MAX as u32 {
        u16::MAX
    } else {
        n as u16
    }
}

/// The system that the program runs on.
#[derive(Debug, Clone, Copy, PartialEq, Eq, Structural)]
pub enum Platform {
    Windows,
    Unix,
}

/// The program of a terminal.
pub open spec fn program_name(kind: Seq<char>, platform: Platform, shell: Option<Seq<char>>) -> Seq<
    char,
> {
    match platform {
        Platform::Windows => if kind == "cmd"@ {
            "cmd.exe"@
        } else {
            "powershell.exe"@
        },
        Platform::Unix => match shell {
            Some(s) => s,
            None => "/bin/sh"@,
        },
    }
}

/// The arguments of that program. On Windows they make it speak UTF-8.
pub open spec fn program_args(kind: Seq<char>, platform: Platform) -> Seq<Seq<char>> {
    match platform {
        Platform::Windows => if kind == "cmd"@ {
            seq!["/Q"@, "/K"@, "chcp 65001>nul"@]
        } else {
            seq![
                "-NoLogo"@,
                "-NoExit"@,
                "-Command"@,
                "$u=[Text.UTF8Encoding]::new($false);[Console]::InputEncoding=$u;[Console]::OutputEncoding=$u;$OutputEncoding=$u"@,
            ]
        },
        Platform::Unix => Seq::empty(),
    }
}

/// The contents of an optional text.
pub open spec fn maybe_shell(s: Option<String>) -> Option<Seq<char>> {
    match s {
        Some(x) => Some(x@),
        None => None,
    }
}

/// The program of a terminal and its arguments. `shell` is the shell that the user has chosen, if
/// there is one.
pub fn local_program(kind: &str, platform: Platform, shell: Option<String>) -> (out: (
    String,
    Vec<String>,
))
    ensures
        out.0@ == program_name(kind@, platform, maybe_shell(shell)),
        text::texts(out.1@) == program_args(kind@, platform),
{
    let mut args: Vec<String> = Vec::new();
    let name = match platform {
        Platform::Windows => {
            if text::same_text(kind, "cmd") {
                args.push("/Q".to_string());
                args.push("/K".to_string());
                args.push("chcp 65001>nul".to_string());
                "cmd.exe".to_string()
            } else {
                args.push("-NoLogo".to_string());
                args.push("-NoExit".to_string());
                args.push("-Command".to_string());
                args.push(
                    "$u=[Text.UTF8Encoding]::new($false);[Console]::InputEncoding=$u;[Console]::OutputEncoding=$u;$OutputEncoding=$u".to_string(),
                );
                "powershell.exe".to_string()
            }
        },
        Platform::Unix => match shell {
            Some(s) => s,
            None => "/bin/sh".to_string(),
        },
    };
    assert(text::texts(args@) =~= program_args(kind@, platform));
    (name, args)
}

/// The reports that a terminal is ready.
pub fn started_reports(name: &str, lang: Lang) -> (out: Vec<SessionEvent>)
    ensures
        events::events_view(out@) == seq![
            EventView::Connected,
            EventView::Status(lang.pick("已启动"@, "Started"@) + " "@ + name@),
        ],
{
    let mut out: Vec<SessionEvent> = Vec::new();
    out.push(SessionEvent::Connected);
    out.push(SessionEvent::Status(text::join3(lang.t("已启动", "Started"), " ", name)));
    assert(events::events_view(out@) =~= seq![out@[0]@, out@[1]@]);
    out
}

// ---------------------------------------------------------------------------
// Output
// ---------------------------------------------------------------------------

/// What reading from a terminal came to.
#[derive(Debug)]
pub enum TerminalRead {
    Bytes(Vec<u8>),
    /// The terminal has ended.
    End,
    Failed(String),
}

/// Text that a terminal printed, where there is any.
pub open spec fn output(s: Seq<char>) -> Seq<EventView> {
    if s.len() == 0 {
        Seq::empty()
    } else {
        seq![EventView::Output(s)]
    }
}

/// What is reported of a read, by the bytes that are held back.
pub open spec fn read_reports(pending: Seq<u8>, r: TerminalRead, lang: Lang) -> Seq<EventView> {
    match r {
        TerminalRead::Bytes(b) => output(utf8::decoded(pending + b@)),
        TerminalRead::End => output(utf8::lossy(pending)).push(
            EventView::Closed(lang.pick("本地终端已退出"@, "Local terminal exited"@)),
        ),
        TerminalRead::Failed(m) => seq![
            EventView::Closed(
                lang.pick("本地终端读取失败"@, "Local terminal read failed"@) + ": "@ + m@,
            ),
        ],
    }
}

/// Reads the output of a terminal.
pub struct TerminalReader {
    pub decoder: Utf8StreamDecoder,
}

fn push_output(sink: &mut Vec<SessionEvent>, s: String)
    ensures
        events::events_view(final(sink)@) == events::events_view(old(sink)@) + output(s@),
{
    let ghost before = events::events_view(sink@);
    if s.as_str().is_empty() {
        assert(before + output(s@) =~= before);
    } else {
        let ghost sv = s@;
        sink.push(SessionEvent::Output(s));
        assert(events::events_view(sink@) =~= before + seq![EventView::Output(sv)]);
    }
}

impl TerminalReader {
    /// A reader to which nothing has come.
    pub fn new() -> (out: TerminalReader)
        ensures
            out.decoder.pending@ == Seq::<u8>::empty(),
    {
        TerminalReader { decoder: Utf8StreamDecoder::new() }
    }

    /// Takes what a read came to, and says whether to read on. Characters that are cut in two by
    /// the end of a read come out whole with the next one.
    pub fn on_read(&mut self, r: TerminalRead, lang: Lang) -> (out: (Vec<SessionEvent>, bool))
        ensures
            events::events_view(out.0@) == read_reports(old(self).decoder.pending@, r, lang),
            out.1 == (r is Bytes),
            final(self).decoder.pending@ == (match r {
                TerminalRead::Bytes(b) => utf8::unfinished(old(self).decoder.pending@ + b@),
                TerminalRead::End => Seq::<u8>::empty(),
                TerminalRead::Failed(_) => old(self).decoder.pending@,
            }),
    {
        let mut events: Vec<SessionEvent> = Vec::new();
        assert(events::events_view(events@) =~= Seq::<EventView>::empty());
        match r {
            TerminalRead::Bytes(b) => {
                let s = self.decoder.push(b.as_slice());
                let ghost sv = s@;
                push_output(&mut events, s);
                assert(events::events_view(events@) =~= output(sv));
                (events, true)
            },
            TerminalRead::End => {
                let s = self.decoder.finish();
                let ghost sv = s@;
                push_output(&mut events, s);
                assert(events::events_view(events@) =~= output(sv));
                let e = SessionEvent::Closed(
                    lang.t("本地终端已退出", "Local terminal exited").to_string(),
                );
                proof {
                    events::lemma_events_push(events@, e);
                }
                events.push(e);
                (events, false)
            },
            TerminalRead::Failed(m) => {
                let e = SessionEvent::Closed(
                    text::join3(
                        lang.t("本地终端读取失败", "Local terminal read failed"),
                        ": ",
                        m.as_str(),
                    ),
                );
                events.push(e);
                assert(events::events_view(events@) =~= seq![e@]);
                (events, false)
            },
        }
    }
}

// ---------------------------------------------------------------------------
// Input
// ---------------------------------------------------------------------------

/// A command for a terminal.
#[derive(Debug)]
pub enum TerminalCommand {
    RawInput(Vec<u8>),
    Resize { cols: u32, rows: u32 },
    Close,
    /// A command that a local terminal has no use for.
    Other,
}

/// What a command leads to.
#[derive(Debug)]
pub enum TerminalAction {
    Write(Vec<u8>),
    Resize { cols: u16, rows: u16 },
    /// End the terminal.
    Terminate,
    Nothing,
}

/// What a command leads to.
pub open spec fn action_of(c: TerminalCommand) -> TerminalAction {
    match c {
        TerminalCommand::RawInput(b) => TerminalAction::Write(b),
        TerminalCommand::Resize { cols, rows } => TerminalAction::Resize {
            cols: clamped(cols),
            rows: clamped(rows),
        },
        TerminalCommand::Close => TerminalAction::Terminate,
        TerminalCommand::Other => TerminalAction::Nothing,
    }
}

/// What a command leads to.
pub fn terminal_action(c: TerminalCommand) -> (out: TerminalAction)
    ensures
        out == action_of(c),
        out == (match c {
            TerminalCommand::RawInput(b) => TerminalAction::Write(b),
            TerminalCommand::Resize { cols, rows } => TerminalAction::Resize {
                cols: clamped(cols),
                rows: clamped(rows),
            },
            TerminalCommand::Close => TerminalAction::Terminate,
            TerminalCommand::Other => TerminalAction::Nothing,
        }),
{
    match c {
        TerminalCommand::RawInput(b) => TerminalAction::Write(b),
        TerminalCommand::Resize { cols, rows } => TerminalAction::Resize {
            cols: size(cols),
            rows: size(rows),
        },
        TerminalCommand::Close => TerminalAction::Terminate,
        TerminalCommand::Other => TerminalAction::Nothing,
    }
}

// ---------------------------------------------------------------------------
// Laws
// ---------------------------------------------------------------------------

/// What is typed reaches the terminal byte by byte as it is, and nothing but a request to end
/// ends it. A size reaches it as it is, columns as columns and rows as rows, where it fits.
pub proof fn law_input_reaches_the_terminal(c: TerminalCommand)
    ensures
        c matches TerminalCommand::RawInput(b) ==> action_of(c) == TerminalAction::Write(b),
        c matches TerminalCommand::Resize { cols, rows } ==> (action_of(
            c,
        ) matches TerminalAction::Resize { cols: x, rows: y } && x >= 1 && y >= 1 && (1 <= cols
            <= 65535 ==> x == cols) && (1 <= rows <= 65535 ==> y == rows) && (cols > 65535 ==> x
            == 65535) && (rows > 65535 ==> y == 65535)),
        action_of(c) is Terminate <==> c is Close,
{
}

/// The program of a terminal is the shell that the user has chosen, with no arguments; on Windows
/// it is the one that was asked for, and is told to stay and to speak UTF-8.
pub proof fn law_program_is_the_chosen_one(kind: Seq<char>, shell: Seq<char>)
    ensures
        program_name(kind, Platform::Unix, Some(shell)) == shell,
        program_name(kind, Platform::Unix, None) == "/bin/sh"@,
        program_args(kind, Platform::Unix).len() == 0,
        program_name("cmd"@, Platform::Windows, Some(shell)) == "cmd.exe"@,
        kind != "cmd"@ ==> program_name(kind, Platform::Windows, Some(shell)) == "powershell.exe"@,
        program_args("cmd"@, Platform::Windows) == seq!["/Q"@, "/K"@, "chcp 65001>nul"@],
        kind != "cmd"@ ==> program_args(kind, Platform::Windows) == seq![
            "-NoLogo"@,
            "-NoExit"@,
            "-Command"@,
            "$u=[Text.UTF8Encoding]::new($false);[Console]::InputEncoding=$u;[Console]::OutputEncoding=$u;$OutputEncoding=$u"@,
        ],
{
}

/// The text that reports show.
pub open spec fn shown_text(reports: Seq<EventView>) -> Seq<char>
    decreases reports.len(),
{
    if reports.len() == 0 {
        Seq::empty()
    } else {
        shown_text(reports.drop_last()) + match reports.last() {
            EventView::Output(s) => s,
            _ => Seq::empty(),
        }
    }
}

/// The text that is shown of reads that bring bytes, by the bytes that are held back at first.
pub open spec fn session_text(pending: Seq<u8>, reads: Seq<Vec<u8>>, lang: Lang) -> Seq<char>
    decreases reads.len(),
{
    if reads.len() == 0 {
        shown_text(read_reports(pending, TerminalRead::End, lang))
    } else {
        shown_text(read_reports(pending, TerminalRead::Bytes(reads[0]), lang)) + session_text(
            utf8::unfinished(pending + reads[0]@),
            reads.drop_first(),
            lang,
        )
    }
}

/// The bytes of reads, one behind the other.
pub open spec fn session_bytes(reads: Seq<Vec<u8>>) -> Seq<u8>
    decreases reads.len(),
{
    if reads.len() == 0 {
        Seq::empty()
    } else {
        reads[0]@ + session_bytes(reads.drop_first())
    }
}

/// A terminal shows all that was printed, and nothing else: where what was printed is UTF-8, its
/// text is shown, however the reads cut it.
pub proof fn law_terminal_shows_what_was_printed(reads: Seq<Vec<u8>>, lang: Lang)
    requires
        vstd::utf8::valid_utf8(session_bytes(reads)),
    ensures
        session_text(Seq::empty(), reads, lang) == vstd::utf8::decode_utf8(session_bytes(reads)),
{
    lemma_session(Seq::empty(), reads, lang);
    assert(Seq::<u8>::empty() + session_bytes(reads) =~= session_bytes(reads));
    utf8::law_lossless_on_utf8(session_bytes(reads));
}

proof fn lemma_session(pending: Seq<u8>, reads: Seq<Vec<u8>>, lang: Lang)
    ensures
        session_text(pending, reads, lang) == utf8::lossy(pending + session_bytes(reads)),
    decreases reads.len(),
{
    reveal_with_fuel(shown_text, 3);
    if reads.len() == 0 {
        let told = read_reports(pending, TerminalRead::End, lang);
        let text = utf8::lossy(pending);
        assert(pending + session_bytes(reads) =~= pending);
        assert(told.drop_last() =~= output(text));
        lemma_shown_output(text);
        assert(shown_text(told) =~= text);
    } else {
        let here = pending + reads[0]@;
        let text = utf8::decoded(here);
        lemma_shown_output(text);
        lemma_session(utf8::unfinished(here), reads.drop_first(), lang);
        let rest = session_bytes(reads.drop_first());
        utf8::law_stream_of_two_chunks(here, rest);
        assert(pending + session_bytes(reads) =~= here + rest);
    }
}

proof fn lemma_shown_output(text: Seq<char>)
    ensures
        shown_text(output(text)) == text,
{
    reveal_with_fuel(shown_text, 2);
    if text.len() > 0 {
        assert(output(text).drop_last() =~= Seq::<EventView>::empty());
        assert(shown_text(output(text)) =~= text);
    } else {
        assert(text =~= Seq::<char>::empty());
    }
}

/// The end of a terminal is told once, behind what was still held back of its output; a failure
/// to read it is told with its reason.
pub proof fn law_end_of_terminal_is_told(pending: Seq<u8>, m: String, lang: Lang)
    ensures
        ({
            let ended = read_reports(pending, TerminalRead::End, lang);
            let failed = read_reports(pending, TerminalRead::Failed(m), lang);
            &&& ended.len() > 0
            &&& ended.last() == EventView::Closed(
                lang.pick("本地终端已退出"@, "Local terminal exited"@),
            )
            &&& forall|i: int| 0 <= i < ended.len() - 1 ==> #[trigger] ended[i] is Output
            &&& shown_text(ended) == utf8::lossy(pending)
            &&& failed.len() == 1
            &&& failed[0] == EventView::Closed(
                lang.pick("本地终端读取失败"@, "Local terminal read failed"@) + ": "@ + m@,
            )
        }),
{
    let held = utf8::lossy(pending);
    let ended = read_reports(pending, TerminalRead::End, lang);
    reveal_with_fuel(shown_text, 3);
    if held.len() == 0 {
        assert(ended.drop_last() =~= Seq::<EventView>::empty());
        assert(shown_text(ended) =~= held);
    } else {
        assert(ended.drop_last() =~= seq![EventView::Output(held)]);
        assert(seq![EventView::Output(held)].drop_last() =~= Seq::<EventView>::empty());
        assert(shown_text(ended) =~= held);
    }
}

} // verus!
