//! The report that is written when the program panics.
use crate::app_update::CURRENT_VERSION;
use crate::number;
use crate::text;
use crate::text_laws;
use vstd::prelude::*;

verus! {

/// The name of the report in the log directory. It has a file of its own, so that the last crash
/// is quickly found.
pub const CRASH_LOG_NAME: &'static str = "crash.log";

/// A place in the source as text.
pub fn place(file: &str, line: u32, column: u32) -> (out: String)
    ensures
        out@ == file@ + ":"@ + number::decimal(line as nat) + ":"@ + number::decimal(column as nat),
{
    let l = number::number_text(line as u64, 10);
    let c = number::number_text(column as u64, 10);
    let mut out = text::join4(file, ":", l.as_str(), ":");
    out.append(c.as_str());
    out
}

/// The report on a panic.
pub open spec fn report_text(
    time: u64,
    location: Seq<char>,
    payload: Seq<char>,
    backtrace: Seq<char>,
) -> Seq<char> {
    "\n================ Probe Shell crash ================\ntime_unix: "@ + number::decimal(
        time as nat,
    ) + "\nversion: "@ + CURRENT_VERSION@ + "\nlocation: "@ + location + "\npanic: "@ + payload
        + "\n\nBacktrace:\n"@ + backtrace + "\n\n"@
}

/// The report on a panic: when, in which version, where, why, and how it came there.
pub fn crash_report(time: u64, location: &str, payload: &str, backtrace: &str) -> (out: String)
    ensures
        out@ == report_text(time, location@, payload@, backtrace@),
{
    let t = number::number_text(time, 10);
    let mut out = text::join4(
        "\n================ Probe Shell crash ================\ntime_unix: ",
        t.as_str(),
        "\nversion: ",
        CURRENT_VERSION,
    );
    out.append("\nlocation: ");
    out.append(location);
    out.append("\npanic: ");
    out.append(payload);
    out.append("\n\nBacktrace:\n");
    out.append(backtrace);
    out.append("\n\n");
    out
}

/// The report on a panic tells where it happened, why, and how it came there, whatever these hold,
/// and when.
pub proof fn law_report_tells_all(
    time: u64,
    location: Seq<char>,
    payload: Seq<char>,
    backtrace: Seq<char>,
)
    ensures
        ({
            let r = report_text(time, location, payload, backtrace);
            &&& text::has_text(r, "\nlocation: "@ + location)
            &&& text::has_text(r, "\npanic: "@ + payload)
            &&& text::has_text(r, "\n\nBacktrace:\n"@ + backtrace)
            &&& text::has_text(r, number::decimal(time as nat))
            &&& text::has_text(r, CURRENT_VERSION@)
        }),
{
    let r = report_text(time, location, payload, backtrace);
    let head = "\n================ Probe Shell crash ================\ntime_unix: "@;
    let digits = number::decimal(time as nat);
    let a = head + digits + "\nversion: "@ + CURRENT_VERSION@;
    let b = "\nlocation: "@ + location;
    let c = "\npanic: "@ + payload;
    let d = "\n\nBacktrace:\n"@ + backtrace;
    let e = "\n\n"@;
    assert(r =~= a + b + (c + d + e));
    text_laws::law_text_is_found(a, b, c + d + e, b);
    assert(r =~= (a + b) + c + (d + e));
    text_laws::law_text_is_found(a + b, c, d + e, c);
    assert(r =~= (a + b + c) + d + e);
    text_laws::law_text_is_found(a + b + c, d, e, d);
    let tail = "\nversion: "@ + CURRENT_VERSION@ + b + c + d + e;
    assert(r =~= head + digits + tail);
    text_laws::law_text_is_found(head, digits, tail, digits);
    let front = head + digits + "\nversion: "@;
    assert(r =~= front + CURRENT_VERSION@ + (b + c + d + e));
    text_laws::law_text_is_found(front, CURRENT_VERSION@, b + c + d + e, CURRENT_VERSION@);
}

} // verus!
