//! Hints for people on why a connection failed.
use crate::text;
use vstd::prelude::*;

verus! {

/// A hint in both languages.
#[derive(Debug)]
pub struct ErrorHint {
    pub zh: &'static str,
    pub en: &'static str,
}

/// The cause that a reason speaks of.
pub enum Cause {
    Auth,
    Timeout,
    Refused,
    Unreachable,
    HostKey,
}

/// The cause that a reason speaks of, whatever the case of its ASCII letters; the first of those
/// that it names.
pub open spec fn cause_of(reason: Seq<char>) -> Option<Cause> {
    let r = text::ascii_lower(reason);
    if text::has_text(r, "permission denied"@) || text::has_text(r, "auth"@) || text::has_text(
        r,
        "password"@,
    ) {
        Some(Cause::Auth)
    } else if text::has_text(r, "timed out"@) || text::has_text(r, "timeout"@) {
        Some(Cause::Timeout)
    } else if text::has_text(r, "refused"@) {
        Some(Cause::Refused)
    } else if text::has_text(r, "no route"@) || text::has_text(r, "unreachable"@) {
        Some(Cause::Unreachable)
    } else if text::has_text(r, "host key"@) || text::has_text(r, "known_hosts"@) {
        Some(Cause::HostKey)
    } else {
        None
    }
}

/// The Chinese hint for a cause.
pub open spec fn hint_zh(c: Cause) -> Seq<char> {
    match c {
        Cause::Auth => "认证失败：请检查用户名、密码或私钥。"@,
        Cause::Timeout => "连接超时：设备可能离线、端口不通或被防火墙拦截。"@,
        Cause::Refused => "连接被拒绝：SSH 服务可能未启动，或端口填写错误。"@,
        Cause::Unreachable => "网络不可达：请检查当前网络、网关、VPN 或 IPv6 路由。"@,
        Cause::HostKey => "主机密钥异常：设备可能重装过系统，确认安全后再信任。"@,
    }
}

/// The English hint for a cause.
pub open spec fn hint_en(c: Cause) -> Seq<char> {
    match c {
        Cause::Auth => "Auth failed: check username, password or private key."@,
        Cause::Timeout => "Connection timed out: host may be offline, blocked, or unreachable."@,
        Cause::Refused => "Connection refused: SSH service may be stopped or the port is wrong."@,
        Cause::Unreachable => "Network unreachable: check network, gateway, VPN or IPv6 route."@,
        Cause::HostKey => "Host key issue: verify the device before trusting the new key."@,
    }
}

/// The hint for a reason, if it speaks of a known cause.
pub fn hint_for(reason: &str) -> (out: Option<ErrorHint>)
    ensures
        match cause_of(reason@) {
            Some(c) => out is Some && out->0.zh@ == hint_zh(c) && out->0.en@ == hint_en(c),
            None => out is None,
        },
{
    let low = text::to_ascii_lower(reason);
    let r = low.as_str();
    if text::contains(r, "permission denied") || text::contains(r, "auth") || text::contains(
        r,
        "password",
    ) {
        Some(
            ErrorHint {
                zh: "认证失败：请检查用户名、密码或私钥。",
                en: "Auth failed: check username, password or private key.",
            },
        )
    } else if text::contains(r, "timed out") || text::contains(r, "timeout") {
        Some(
            ErrorHint {
                zh: "连接超时：设备可能离线、端口不通或被防火墙拦截。",
                en: "Connection timed out: host may be offline, blocked, or unreachable.",
            },
        )
    } else if text::contains(r, "refused") {
        Some(
            ErrorHint {
                zh: "连接被拒绝：SSH 服务可能未启动，或端口填写错误。",
                en: "Connection refused: SSH service may be stopped or the port is wrong.",
            },
        )
    } else if text::contains(r, "no route") || text::contains(r, "unreachable") {
        Some(
            ErrorHint {
                zh: "网络不可达：请检查当前网络、网关、VPN 或 IPv6 路由。",
                en: "Network unreachable: check network, gateway, VPN or IPv6 route.",
            },
        )
    } else if text::contains(r, "host key") || text::contains(r, "known_hosts") {
        Some(
            ErrorHint {
                zh: "主机密钥异常：设备可能重装过系统，确认安全后再信任。",
                en: "Host key issue: verify the device before trusting the new key.",
            },
        )
    } else {
        None
    }
}

/// A reason with its hint on a line of its own, where there is one.
pub open spec fn hinted(reason: Seq<char>, lang_en: bool) -> Seq<char> {
    match cause_of(reason) {
        Some(c) => reason + "\n"@ + if lang_en {
            hint_en(c)
        } else {
            hint_zh(c)
        },
        None => reason,
    }
}

/// A reason with its hint on a line of its own, where there is one.
pub fn append_hint(reason: &str, lang_en: bool) -> (out: String)
    ensures
        out@ == hinted(reason@, lang_en),
{
    match hint_for(reason) {
        Some(h) => {
            let hint = if lang_en {
                h.en
            } else {
                h.zh
            };
            text::join3(reason, "\n", hint)
        },
        None => reason.to_string(),
    }
}

/// A hint never hides the reason: the message begins with it.
pub proof fn law_reason_stays(reason: Seq<char>, lang_en: bool)
    ensures
        text::begins(hinted(reason, lang_en), reason),
{
    let h = hinted(reason, lang_en);
    assert(h.take(reason.len() as int) =~= reason);
}

/// The hint is the one for the first cause that the reason speaks of, in capitals or not: a
/// failed login, a timeout, a refused connection, a network that cannot be reached, a host key.
pub proof fn law_hint_is_the_first_that_fits(reason: Seq<char>)
    ensures
        ({
            let r = text::ascii_lower(reason);
            let login = text::has_text(r, "permission denied"@) || text::has_text(r, "auth"@)
                || text::has_text(r, "password"@);
            let late = text::has_text(r, "timed out"@) || text::has_text(r, "timeout"@);
            let refused = text::has_text(r, "refused"@);
            let far = text::has_text(r, "no route"@) || text::has_text(r, "unreachable"@);
            let key = text::has_text(r, "host key"@) || text::has_text(r, "known_hosts"@);
            &&& login ==> cause_of(reason) == Some(Cause::Auth)
            &&& !login && late ==> cause_of(reason) == Some(Cause::Timeout)
            &&& !login && !late && refused ==> cause_of(reason) == Some(Cause::Refused)
            &&& !login && !late && !refused && far ==> cause_of(reason) == Some(Cause::Unreachable)
            &&& !login && !late && !refused && !far && key ==> cause_of(reason) == Some(
                Cause::HostKey,
            )
            &&& !login && !late && !refused && !far && !key ==> cause_of(reason) is None
        }),
{
}

/// Where there is a hint it stands on the line behind the reason, in the language that was asked
/// for; where there is none the reason stands alone.
pub proof fn law_hint_follows_the_reason(reason: Seq<char>, lang_en: bool)
    ensures
        cause_of(reason) is None ==> hinted(reason, lang_en) == reason,
        cause_of(reason) matches Some(c) ==> hinted(reason, true) == reason + "\n"@ + hint_en(c)
            && hinted(reason, false) == reason + "\n"@ + hint_zh(c),
{
}

} // verus!
