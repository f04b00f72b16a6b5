//! The log of what the user asked the file browser to do: when, what and of what, but neither
//! contents nor secrets. The log stays on the local machine and is only ever appended to.
use crate::text;
use crate::text::CharSet;
use vstd::prelude::*;

verus! {

/// The name of the log in the log directory.
pub const LOG_NAME: &'static str = "operations.log";

/// The name under which a log that has grown too large is put aside.
pub const OLD_LOG_NAME: &'static str = "operations.log.1";

/// How many bytes the log has at most before it is put aside.
pub const MAX_LOG_SIZE: u64 = 20_971_520;

/// The first line of a new log.
pub const LOG_HEADER: &'static str = "time\taction\tstatus\ttarget\tdetail\n";

/// What is logged, but for the time.
#[derive(Debug)]
pub struct LogEntry {
    pub action: String,
    pub target: String,
    pub status: String,
    pub detail: String,
}

/// The contents of a [`LogEntry`].
#[verifier::ext_equal]
pub struct LogView {
    pub action: Seq<char>,
    pub target: Seq<char>,
    pub status: Seq<char>,
    pub detail: Seq<char>,
}

impl View for LogEntry {
    type V = LogView;

    open spec fn view(&self) -> LogView {
        LogView {
            action: self.action@,
            target: self.target@,
            status: self.status@,
            detail: self.detail@,
        }
    }
}

/// A field without what would end it: line ends and tabs become spaces.
pub open spec fn field_text(s: Seq<char>) -> Seq<char> {
    text::swapped(text::swapped(text::swapped(s, '\r', ' '), '\n', ' '), '\t', ' ')
}

/// A field without what would end it: line ends and tabs become spaces.
pub fn sanitize_field(s: &str) -> (out: String)
    ensures
        out@ == field_text(s@),
{
    let a = text::swap_char(s, '\r', ' ');
    let b = text::swap_char(a.as_str(), '\n', ' ');
    text::swap_char(b.as_str(), '\t', ' ')
}

/// The entry for an operation.
pub fn record(action: &str, target: &str, status: &str, detail: &str) -> (out: LogEntry)
    ensures
        out@ == (LogView {
            action: action@,
            target: field_text(target@),
            status: status@,
            detail: field_text(detail@),
        }),
{
    LogEntry {
        action: action.to_string(),
        target: sanitize_field(target),
        status: status.to_string(),
        detail: sanitize_field(detail),
    }
}

/// The entry for something that was asked for.
pub open spec fn request_entry(action: Seq<char>, target: Seq<char>, detail: Seq<char>) -> LogView {
    LogView {
        action,
        target: field_text(target),
        status: "请求"@,
        detail: field_text(detail),
    }
}

/// The entry for a file operation that was asked for.
pub open spec fn sftp_entry(action: Seq<char>, target: Seq<char>) -> LogView {
    request_entry(action, target, "SFTP/SSH文件操作"@)
}

/// The entry for a file operation that was asked for.
pub fn record_sftp(action: &str, target: &str) -> (out: LogEntry)
    ensures
        out@ == sftp_entry(action@, target@),
{
    record(action, target, "请求", "SFTP/SSH文件操作")
}

/// The line of an entry.
pub open spec fn log_line(now: Seq<char>, e: LogView) -> Seq<char> {
    now + "\t"@ + e.action + "\t"@ + e.status + "\t"@ + e.target + "\t"@ + e.detail + "\n"@
}

/// The line of an entry, by the time as it is shown.
pub fn line_at(now: &str, e: &LogEntry) -> (out: String)
    ensures
        out@ == log_line(now@, e@),
{
    let mut out = text::join4(now, "\t", e.action.as_str(), "\t");
    out.append(e.status.as_str());
    out.append("\t");
    out.append(e.target.as_str());
    out.append("\t");
    out.append(e.detail.as_str());
    out.append("\n");
    out
}

/// Whether a text is made of decimal digits.
pub open spec fn is_digits(s: Seq<char>) -> bool {
    forall|i: int| 0 <= i < s.len() ==> '0' <= #[trigger] s[i] <= '9'
}

/// Whether a text is a year: four digits, or at least four behind a sign where four do not do.
pub open spec fn is_year(s: Seq<char>) -> bool {
    ||| s.len() == 4 && is_digits(s)
    ||| s.len() > 4 && (s[0] == '+' || s[0] == '-') && is_digits(s.skip(1))
}

/// Whether a text has the form of a time in the log: year, month and day with `-` between, a
/// space, and hour, minute and second with `:` between. All but the year have two digits.
pub open spec fn is_stamp(s: Seq<char>) -> bool {
    let n = s.len() - 15;
    &&& n >= 4
    &&& is_year(s.take(n))
    &&& s[n] == '-' && is_digits(s.subrange(n + 1, n + 3))
    &&& s[n + 3] == '-' && is_digits(s.subrange(n + 4, n + 6))
    &&& s[n + 6] == ' ' && is_digits(s.subrange(n + 7, n + 9))
    &&& s[n + 9] == ':' && is_digits(s.subrange(n + 10, n + 12))
    &&& s[n + 12] == ':' && is_digits(s.subrange(n + 13, n + 15))
}

/// A time fits into its field: it holds nothing but digits, signs, `:` and a space.
pub proof fn law_stamp_fits(s: Seq<char>)
    requires
        is_stamp(s),
    ensures
        fits_field(s),
        s.len() >= 19,
        forall|i: int|
            0 <= i < s.len() ==> '0' <= #[trigger] s[i] <= '9' || s[i] == '-' || s[i] == '+'
                || s[i] == ':' || s[i] == ' ',
{
    let n = s.len() - 15;
    let year = s.take(n);
    assert forall|i: int| 0 <= i < s.len() implies '0' <= #[trigger] s[i] <= '9' || s[i] == '-'
        || s[i] == '+' || s[i] == ':' || s[i] == ' ' by {
        if i < n {
            assert(year[i] == s[i]);
            if i > 0 && year.len() > 4 {
                assert(year.skip(1)[i - 1] == year[i]);
            }
        } else {
            lemma_two(s, n + 1);
            lemma_two(s, n + 4);
            lemma_two(s, n + 7);
            lemma_two(s, n + 10);
            lemma_two(s, n + 13);
        }
    }
}

proof fn lemma_two(s: Seq<char>, at: int)
    requires
        0 <= at,
        at + 2 <= s.len(),
        is_digits(s.subrange(at, at + 2)),
    ensures
        '0' <= s[at] <= '9',
        '0' <= s[at + 1] <= '9',
{
    let part = s.subrange(at, at + 2);
    assert(part[0] == s[at] && part[1] == s[at + 1]);
}

/// The local time as it is shown in the log, by `chrono::Local::now` and its `format` with year,
/// month, day, hour, minute and second. Its form is claimed: two digits each, and a year of four
/// or, beyond those, of a sign and at least four. Which time it is depends on the clock.
#[verifier::external_body]
fn now_text() -> (out: String)
    ensures
        is_stamp(out@),
{
    chrono::Local::now().format("%Y-%m-%d %H:%M:%S").to_string()
}

/// The line of an entry that is logged now.
pub fn line_now(e: &LogEntry) -> (out: String)
    ensures
        exists|now: Seq<char>| #[trigger] is_stamp(now) && out@ == log_line(now, e@),
{
    let now = now_text();
    assert(is_stamp(now@));
    line_at(now.as_str(), e)
}

/// Whether the log, of a given size, is put aside before the next line.
pub fn must_rotate(size: u64) -> (r: bool)
    ensures
        r == (size > MAX_LOG_SIZE),
{
    size > MAX_LOG_SIZE
}

/// Whether a text fits into a field.
pub open spec fn fits_field(s: Seq<char>) -> bool {
    !s.contains('\t') && !s.contains('\n') && !s.contains('\r')
}

/// Whatever a target or a detail holds, it fits into its field.
pub proof fn law_fields_fit(s: Seq<char>)
    ensures
        fits_field(field_text(s)),
        field_text(s).len() == s.len(),
        fits_field(s) ==> field_text(s) == s,
{
    let a = text::swapped(s, '\r', ' ');
    let b = text::swapped(a, '\n', ' ');
    let c = text::swapped(b, '\t', ' ');
    assert(forall|i: int| 0 <= i < s.len() ==> c[i] != '\t' && c[i] != '\n' && c[i] != '\r');
    if fits_field(s) {
        assert forall|i: int| 0 <= i < s.len() implies c[i] == s[i] by {
            assert(s.contains(s[i]));
        }
        assert(c =~= s);
    }
}

/// Every entry is one line of five fields: whatever is logged, its line splits at tabs into the
/// time, the action, the status, the target and the detail, as long as the first three hold no
/// tab.
pub proof fn law_line_has_five_fields(
    now: Seq<char>,
    action: Seq<char>,
    status: Seq<char>,
    target: Seq<char>,
    detail: Seq<char>,
)
    requires
        fits_field(now),
        fits_field(action),
        fits_field(status),
    ensures
        ({
            let e = LogView {
                action,
                target: field_text(target),
                status,
                detail: field_text(detail),
            };
            text::pieces(log_line(now, e).drop_last(), CharSet::Only('\t')) == seq![
                now,
                action,
                status,
                field_text(target),
                field_text(detail),
            ]
        }),
{
    law_fields_fit(target);
    law_fields_fit(detail);
    let t = field_text(target);
    let d = field_text(detail);
    let e = LogView { action, target: t, status, detail: d };
    reveal_strlit("\t");
    reveal_strlit("\n");
    let tab = seq!['\t'];
    let r4 = d;
    let r3 = t + tab + r4;
    let r2 = status + tab + r3;
    let r1 = action + tab + r2;
    let r0 = now + tab + r1;
    assert(log_line(now, e).drop_last() =~= r0);
    lemma_one_piece(d);
    lemma_next_piece(t, r4);
    lemma_next_piece(status, r3);
    lemma_next_piece(action, r2);
    lemma_next_piece(now, r1);
    let set = CharSet::Only('\t');
    assert(text::pieces(r0, set) =~= seq![now, action, status, t, d]);
}

proof fn lemma_one_piece(s: Seq<char>)
    requires
        fits_field(s),
    ensures
        text::pieces(s, CharSet::Only('\t')) == seq![s],
{
    assert forall|i: int| 0 <= i < s.len() implies !CharSet::Only('\t').contains(#[trigger] s[i]) by {
        assert(s.contains(s[i]));
    }
    text::lemma_whole_piece(s, CharSet::Only('\t'));
}

proof fn lemma_next_piece(a: Seq<char>, rest: Seq<char>)
    requires
        fits_field(a),
    ensures
        text::pieces(a + seq!['\t'] + rest, CharSet::Only('\t')) == seq![a] + text::pieces(
            rest,
            CharSet::Only('\t'),
        ),
{
    lemma_one_piece(a);
    text::lemma_pieces_cut(a, '\t', rest, CharSet::Only('\t'));
}

/// A field keeps every character in its place, but for line ends and tabs, of which each becomes
/// one space.
pub proof fn law_fields_keep_the_rest(s: Seq<char>, i: int)
    requires
        0 <= i < s.len(),
    ensures
        field_text(s)[i] == if s[i] == '\r' || s[i] == '\n' || s[i] == '\t' {
            ' '
        } else {
            s[i]
        },
{
}

} // verus!
