//! Opening the connection of the file browser.
use crate::events;
use crate::events::{EventView, SessionEvent};
use crate::lang::Lang;
use crate::number;
use crate::text;
use crate::text_laws;
use vstd::prelude::*;

verus! {

/// The message while the connection is opened.
pub fn connecting_status(lang: Lang) -> (out: SessionEvent)
    ensures
        out@ == EventView::SftpStatus(lang.pick("SFTP 连接中..."@, "SFTP connecting..."@)),
{
    events::plain_status(lang.t("SFTP 连接中...", "SFTP connecting..."))
}

/// A host and a port as one text.
pub fn host_address(host: &str, port: u16) -> (out: String)
    ensures
        out@ == host@ + ":"@ + number::decimal(port as nat),
{
    let digits = number::number_text(port as u64, 10);
    text::join3(host, ":", digits.as_str())
}

/// A step at which the connection can fail.
#[derive(Debug, Clone, Copy, PartialEq, Eq, Structural)]
pub enum ConnectStep {
    /// The proxy could not be reached.
    Proxy,
    /// The server could not be reached.
    Connect,
    /// The user did not log in.
    Login,
    /// The password could not be offered.
    PasswordAuth,
    /// There is no path to a private key.
    KeyPath,
    /// The private key could not be read.
    LoadKey,
    /// The private key cannot be used.
    CheckKey,
    /// The key could not be offered.
    KeyAuth,
    /// The server did not accept the login.
    Rejected,
}

/// The message for a connection that failed at a step.
pub open spec fn connect_failure(
    step: ConnectStep,
    address: Seq<char>,
    key_path: Seq<char>,
    lang: Lang,
) -> Seq<char> {
    match step {
        ConnectStep::Proxy => "sftp proxy connect "@ + address + " failed"@,
        ConnectStep::Connect => "sftp connect "@ + address + " failed"@,
        ConnectStep::Login => lang.pick("已取消登录"@, "login cancelled"@),
        ConnectStep::PasswordAuth => "sftp password auth failed"@,
        ConnectStep::KeyPath => lang.pick("私钥路径为空"@, "private key path is empty"@),
        ConnectStep::LoadKey => "failed to load key "@ + key_path,
        ConnectStep::CheckKey => "invalid private key"@,
        ConnectStep::KeyAuth => "sftp publickey auth failed"@,
        ConnectStep::Rejected => lang.pick("SFTP 认证失败"@, "SFTP authentication failed"@),
    }
}

/// The message for a connection that failed at a step.
pub fn connect_error(step: ConnectStep, address: &str, key_path: &str, lang: Lang) -> (out: String)
    ensures
        out@ == connect_failure(step, address@, key_path@, lang),
{
    match step {
        ConnectStep::Proxy => text::join3("sftp proxy connect ", address, " failed"),
        ConnectStep::Connect => text::join3("sftp connect ", address, " failed"),
        ConnectStep::Login => lang.t("已取消登录", "login cancelled").to_string(),
        ConnectStep::PasswordAuth => "sftp password auth failed".to_string(),
        ConnectStep::KeyPath => lang.t("私钥路径为空", "private key path is empty").to_string(),
        ConnectStep::LoadKey => text::join2("failed to load key ", key_path),
        ConnectStep::CheckKey => "invalid private key".to_string(),
        ConnectStep::KeyAuth => "sftp publickey auth failed".to_string(),
        ConnectStep::Rejected => lang.t("SFTP 认证失败", "SFTP authentication failed").to_string(),
    }
}

/// The file of a private key: the given path, trimmed, with slashes, and without the ending of
/// the public key beside it.
pub open spec fn private_key_path(raw: Seq<char>) -> Option<Seq<char>> {
    let t = text::trimmed(raw);
    if t.len() == 0 {
        None
    } else {
        Some(text::before_end(text::swapped(t, '\\', '/'), ".pub"@))
    }
}

/// The file of a private key; `None` where no path is given.
pub fn key_file(raw: &str) -> (out: Option<String>)
    ensures
        match private_key_path(raw@) {
            Some(p) => out is Some && out->0@ == p,
            None => out is None,
        },
{
    let t = text::trim(raw);
    if t.as_str().is_empty() {
        return None;
    }
    let slashed = text::swap_char(t.as_str(), '\\', '/');
    Some(text::drop_end(slashed.as_str(), ".pub"))
}

/// The passphrase of a private key: the password of the session, `None` where it is empty.
pub fn key_passphrase(password: &str) -> (out: Option<String>)
    ensures
        out is None <==> password@.len() == 0,
        out matches Some(p) ==> p@ == password@,
{
    if password.is_empty() {
        None
    } else {
        Some(password.to_string())
    }
}

/// What follows when the server has no file service.
#[derive(Debug)]
pub enum Fallback {
    /// Browse over a shell instead.
    Shell(SessionEvent),
    /// There is no way to browse.
    Unavailable(SessionEvent),
}

/// Decides what follows when the server has no file service: where commands can be run, files
/// are browsed over a shell. `full` is the failure with its causes.
pub fn after_refusal(can_run: bool, full: &str, lang: Lang) -> (out: Fallback)
    ensures
        can_run ==> (out matches Fallback::Shell(e) && e@ == EventView::SftpStatus(
            lang.pick("SSH 文件浏览模式"@, "SSH file-browser mode"@) + " · "@ + lang.pick(
                "未检测到标准 SFTP"@,
                "native SFTP not detected"@,
            ),
        )),
        !can_run ==> (out matches Fallback::Unavailable(e) && e@ == EventView::SftpStatus(
            events::titled(
                lang.pick("文件浏览不可用"@, "Remote file browser unavailable"@),
                full@,
            ),
        )),
{
    if can_run {
        Fallback::Shell(
            SessionEvent::SftpStatus(
                text::join3(
                    lang.t("SSH 文件浏览模式", "SSH file-browser mode"),
                    " · ",
                    lang.t("未检测到标准 SFTP", "native SFTP not detected"),
                ),
            ),
        )
    } else {
        Fallback::Unavailable(
            events::titled_status(
                lang.t("文件浏览不可用", "Remote file browser unavailable"),
                full,
            ),
        )
    }
}

/// The file of a private key is the path that was given, with slashes: the ending of the public
/// key comes off, and white space around the path does not count.
pub proof fn law_key_path_is_kept(path: Seq<char>)
    requires
        path.len() > 0,
        !path.contains('\\'),
        !text::white_space(path[0]),
        !text::white_space(path.last()),
        path.len() < 4 || path.skip(path.len() - 4) != ".pub"@,
    ensures
        private_key_path(path) == Some(path),
        private_key_path(path + ".pub"@) == Some(path),
{
    reveal_strlit(".pub");
    let with = path + ".pub"@;
    assert(text::trimmed(path) == path);
    assert(with.last() == 'b' && with[0] == path[0]);
    assert(text::trimmed(with) == with);
    assert forall|i: int| 0 <= i < path.len() implies path[i] != '\\' by {
        assert(path.contains(path[i]));
    }
    assert(text::swapped(path, '\\', '/') =~= path);
    assert(text::swapped(with, '\\', '/') =~= with);
    assert(with.skip(with.len() - 4) =~= ".pub"@);
    assert(with.take(with.len() - 4) =~= path);
}

/// The message for a connection that failed names what was tried: the address where it could not
/// be reached, the file where a key could not be read.
pub proof fn law_failure_names_its_place(
    address: Seq<char>,
    key_path: Seq<char>,
    lang: Lang,
)
    ensures
        text::has_text(connect_failure(ConnectStep::Proxy, address, key_path, lang), address),
        text::has_text(connect_failure(ConnectStep::Connect, address, key_path, lang), address),
        text::has_text(connect_failure(ConnectStep::LoadKey, address, key_path, lang), key_path),
{
    text_laws::law_text_is_found("sftp proxy connect "@, address, " failed"@, address);
    text_laws::law_text_is_found("sftp connect "@, address, " failed"@, address);
    text_laws::law_text_is_found("failed to load key "@, key_path, Seq::empty(), key_path);
    assert("failed to load key "@ + key_path + Seq::<char>::empty() =~= "failed to load key "@
        + key_path);
}

/// The message for a login that failed tells at which step: before a password or a key was tried,
/// with the password, with the key, or by the server's refusal.
pub proof fn law_failure_tells_the_step(
    step: ConnectStep,
    address: Seq<char>,
    key_path: Seq<char>,
    lang: Lang,
)
    ensures
        ({
            let told = connect_failure(step, address, key_path, lang);
            &&& step is Login ==> told == lang.pick("已取消登录"@, "login cancelled"@)
            &&& step is PasswordAuth ==> told == "sftp password auth failed"@
            &&& step is KeyPath ==> told == lang.pick("私钥路径为空"@, "private key path is empty"@)
            &&& step is CheckKey ==> told == "invalid private key"@
            &&& step is KeyAuth ==> told == "sftp publickey auth failed"@
            &&& step is Rejected ==> told == lang.pick(
                "SFTP 认证失败"@,
                "SFTP authentication failed"@,
            )
        }),
{
}

} // verus!
