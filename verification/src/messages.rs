//! Messages that explain failures to the user.
use crate::lang::Lang;
use crate::number;
use crate::text;
use crate::text_laws;
use crate::utf8;
use vstd::prelude::*;

verus! {

// ---------------------------------------------------------------------------
// The connection
// ---------------------------------------------------------------------------

/// Whether a text, in lower case, speaks of a server that refuses the file service.
pub open spec fn refusal(low: Seq<char>) -> bool {
    text::has_text(low, "subsystem"@) || text::has_text(low, "sftp channel"@) || text::has_text(
        low,
        "sftp handshake"@,
    ) || text::has_text(low, "permission"@) || text::has_text(low, "denied"@) || text::has_text(
        low,
        "prohibited"@,
    ) || text::has_text(low, "not allowed"@)
}

/// Whether a text, in lower case, speaks of a server that refuses the file service.
pub fn permission_like(low: &str) -> (r: bool)
    ensures
        r == refusal(low@),
{
    text::contains(low, "subsystem") || text::contains(low, "sftp channel") || text::contains(
        low,
        "sftp handshake",
    ) || text::contains(low, "permission") || text::contains(low, "denied") || text::contains(
        low,
        "prohibited",
    ) || text::contains(low, "not allowed")
}

/// The lower case of each text.
pub open spec fn lowered(list: Seq<Seq<char>>) -> Seq<Seq<char>> {
    list.map_values(|s: Seq<char>| text::unicode_lower(s))
}

/// The message for a connection that failed. The failure is a chain of texts, the outermost
/// first.
pub open spec fn connection_failure(chain: Seq<Seq<char>>, lang: Lang) -> Seq<char> {
    if refusal(text::joined_with(lowered(chain), " | "@)) {
        lang.pick(
            "SFTP 不可用,请检查是否有访问权限(服务器可能未开放 SFTP)"@,
            "SFTP unavailable — check whether you have permission (server may not allow SFTP)"@,
        )
    } else {
        lang.pick("SFTP 错误"@, "SFTP error"@) + ": "@ + text::joined_with(chain, ": "@)
    }
}

/// Turns a failed connection into a message.
///
/// The file service has a connection of its own, so the terminal goes on without it. Often the
/// terminal is allowed and the file service is not: that gets a message in plain words. Any
/// other failure is shown as it is, with its causes.
pub fn friendly_sftp_error(chain: &Vec<String>, lang: Lang) -> (out: String)
    ensures
        out@ == connection_failure(text::texts(chain@), lang),
{
    let ghost all = text::texts(chain@);
    let mut low: Vec<String> = Vec::new();
    let mut i: usize = 0;
    while i < chain.len()
        invariant
            i <= chain@.len(),
            all == text::texts(chain@),
            text::texts(low@) == lowered(all.take(i as int)),
        decreases chain@.len() - i,
    {
        assert(all[i as int] == chain@[i as int]@);
        let ghost before = text::texts(low@);
        low.push(text::lowercase(chain[i].as_str()));
        assert(text::texts(low@) =~= before.push(text::unicode_lower(all[i as int])));
        assert(all.take(i + 1) =~= all.take(i as int).push(all[i as int]));
        assert(lowered(all.take(i + 1)) =~= before.push(text::unicode_lower(all[i as int])));
        i = i + 1;
    }
    assert(all.take(all.len() as int) == all);
    let joined = text::join_all(&low, " | ");
    if permission_like(joined.as_str()) {
        lang.t(
            "SFTP 不可用,请检查是否有访问权限(服务器可能未开放 SFTP)",
            "SFTP unavailable — check whether you have permission (server may not allow SFTP)",
        ).to_string()
    } else {
        let full = text::join_all(chain, ": ");
        text::join3(lang.t("SFTP 错误", "SFTP error"), ": ", full.as_str())
    }
}

// ---------------------------------------------------------------------------
// Listings
// ---------------------------------------------------------------------------

/// The class of a failed listing, by its text in lower case.
pub open spec fn listing_class(low: Seq<char>) -> Seq<char> {
    if text::has_text(low, "permission"@) || text::has_text(low, "denied"@) {
        "Permission Denied"@
    } else if text::has_text(low, "timeout"@) || text::has_text(low, "timed out"@) {
        "Connection Timeout"@
    } else if text::has_text(low, "no such"@) || text::has_text(low, "not found"@) {
        "Not Found"@
    } else if text::has_text(low, "open exec channel"@) || text::has_text(low, "channel open"@)
        || text::has_text(low, "administratively prohibited"@) {
        "Exec Channel Refused"@
    } else if text::has_text(low, "connection"@) || text::has_text(low, "reset"@)
        || text::has_text(low, "closed"@) {
        "Connection Closed"@
    } else {
        "Open Failed"@
    }
}

/// The class of a failed listing, by its text in lower case.
pub fn listing_code(low: &str) -> (out: &'static str)
    ensures
        out@ == listing_class(low@),
{
    if text::contains(low, "permission") || text::contains(low, "denied") {
        "Permission Denied"
    } else if text::contains(low, "timeout") || text::contains(low, "timed out") {
        "Connection Timeout"
    } else if text::contains(low, "no such") || text::contains(low, "not found") {
        "Not Found"
    } else if text::contains(low, "open exec channel") || text::contains(low, "channel open")
        || text::contains(low, "administratively prohibited") {
        "Exec Channel Refused"
    } else if text::contains(low, "connection") || text::contains(low, "reset") || text::contains(
        low,
        "closed",
    ) {
        "Connection Closed"
    } else {
        "Open Failed"
    }
}

/// The message for a listing that failed.
pub open spec fn listing_failure(path: Seq<char>, raw: Seq<char>, lang: Lang) -> Seq<char> {
    lang.pick("无法访问"@, "Cannot open"@) + " "@ + path + " ["@ + listing_class(
        text::unicode_lower(raw),
    ) + "]: "@ + raw
}

/// The message for a listing that failed. It calls out the common causes.
pub fn list_error_msg(path: &str, raw: &str, lang: Lang) -> (out: String)
    ensures
        out@ == listing_failure(path@, raw@, lang),
{
    let low = text::lowercase(raw);
    let mut out = text::join4(lang.t("无法访问", "Cannot open"), " ", path, " [");
    out.append(listing_code(low.as_str()));
    out.append("]: ");
    out.append(raw);
    out
}

// ---------------------------------------------------------------------------
// Uploads
// ---------------------------------------------------------------------------

/// What the exit code of an upload command means.
pub open spec fn upload_code_meaning(code: u32, lang: Lang) -> Seq<char> {
    if code == 21 {
        lang.pick("远端目标目录不存在或不可访问"@, "Remote target directory is unavailable"@)
    } else if code == 22 {
        lang.pick("无法创建远端临时文件"@, "Cannot create the remote temporary file"@)
    } else if code == 23 {
        lang.pick("远端写入失败，可能空间不足"@, "Remote write failed; storage may be full"@)
    } else if code == 24 {
        lang.pick("无法校验远端文件大小"@, "Cannot verify the remote file size"@)
    } else if code == 25 {
        lang.pick("远端文件大小校验失败"@, "Remote file size verification failed"@)
    } else if code == 26 {
        lang.pick("无法原子替换目标文件"@, "Cannot atomically replace the target file"@)
    } else if code == 27 {
        lang.pick("目标路径是文件夹，不能用文件覆盖"@, "The target path is a folder"@)
    } else if code == 31 {
        lang.pick(
            "远端缺少 tar，无法上传文件夹"@,
            "The remote host has no tar command for folder upload"@,
        )
    } else if code == 32 {
        lang.pick("无法创建远端临时目录"@, "Cannot create the remote temporary directory"@)
    } else if code == 33 {
        lang.pick(
            "远端解包失败，可能空间不足"@,
            "Remote extraction failed; storage may be full"@,
        )
    } else if code == 34 {
        lang.pick(
            "文件夹包结构校验失败"@,
            "Folder archive structure verification failed"@,
        )
    } else if code == 35 {
        lang.pick(
            "目标路径不是文件夹或不可写"@,
            "The target path is not a writable folder"@,
        )
    } else if code == 36 {
        lang.pick("合并文件夹内容失败"@, "Failed to merge the uploaded folder"@)
    } else if code == 37 {
        lang.pick("远端文件夹收尾失败"@, "Failed to finalize the remote folder"@)
    } else {
        lang.pick("远端上传命令执行失败"@, "Remote upload command failed"@)
    }
}

fn upload_code_text(code: u32, lang: Lang) -> (out: &'static str)
    ensures
        out@ == upload_code_meaning(code, lang),
{
    match code {
        21 => lang.t("远端目标目录不存在或不可访问", "Remote target directory is unavailable"),
        22 => lang.t("无法创建远端临时文件", "Cannot create the remote temporary file"),
        23 => lang.t("远端写入失败，可能空间不足", "Remote write failed; storage may be full"),
        24 => lang.t("无法校验远端文件大小", "Cannot verify the remote file size"),
        25 => lang.t("远端文件大小校验失败", "Remote file size verification failed"),
        26 => lang.t("无法原子替换目标文件", "Cannot atomically replace the target file"),
        27 => lang.t("目标路径是文件夹，不能用文件覆盖", "The target path is a folder"),
        31 => lang.t(
            "远端缺少 tar，无法上传文件夹",
            "The remote host has no tar command for folder upload",
        ),
        32 => lang.t("无法创建远端临时目录", "Cannot create the remote temporary directory"),
        33 => lang.t(
            "远端解包失败，可能空间不足",
            "Remote extraction failed; storage may be full",
        ),
        34 => lang.t("文件夹包结构校验失败", "Folder archive structure verification failed"),
        35 => lang.t("目标路径不是文件夹或不可写", "The target path is not a writable folder"),
        36 => lang.t("合并文件夹内容失败", "Failed to merge the uploaded folder"),
        37 => lang.t("远端文件夹收尾失败", "Failed to finalize the remote folder"),
        _ => lang.t("远端上传命令执行失败", "Remote upload command failed"),
    }
}

/// The message for an upload command that failed.
pub open spec fn upload_failure(code: u32, stderr: Seq<u8>, lang: Lang) -> Seq<char> {
    let detail = text::trimmed(utf8::lossy(stderr));
    let head = upload_code_meaning(code, lang) + " (exit "@ + number::decimal(code as nat) + ")"@;
    if detail.len() == 0 {
        head
    } else {
        head + ": "@ + detail
    }
}

/// The message for an upload command that failed: what its exit code means, and what it wrote.
pub fn shell_upload_error(code: u32, stderr: &[u8], lang: Lang) -> (out: String)
    ensures
        out@ == upload_failure(code, stderr@, lang),
{
    let raw = utf8::decode_lossy(stderr);
    let detail = text::trim(raw.as_str());
    let digits = number::number_text(code as u64, 10);
    let mut out = text::join4(upload_code_text(code, lang), " (exit ", digits.as_str(), ")");
    if !detail.as_str().is_empty() {
        out.append(": ");
        out.append(detail.as_str());
    }
    out
}

// ---------------------------------------------------------------------------
// Laws
// ---------------------------------------------------------------------------

/// A failed listing is told with its path and its reason, whatever its class.
pub proof fn law_listing_failure_tells_path_and_reason(path: Seq<char>, raw: Seq<char>, lang: Lang)
    ensures
        text::has_text(listing_failure(path, raw, lang), path),
        text::has_text(listing_failure(path, raw, lang), raw),
{
    let head = lang.pick("无法访问"@, "Cannot open"@) + " "@;
    let class = listing_class(text::unicode_lower(raw));
    let tail = " ["@ + class + "]: "@ + raw;
    let whole = listing_failure(path, raw, lang);
    text_laws::law_text_is_found(head, path, tail, path);
    assert(whole =~= head + path + tail);
    let front = head + path + " ["@ + class + "]: "@;
    text_laws::law_text_is_found(front, raw, Seq::empty(), raw);
    assert(whole =~= front + raw + Seq::<char>::empty());
}

/// The class of a failed listing is the first of these that its text speaks of: a refusal, a
/// timeout, something missing, a refused channel, a lost connection.
pub proof fn law_listing_class_is_the_first_that_fits(low: Seq<char>)
    ensures
        ({
            let refused = text::has_text(low, "permission"@) || text::has_text(low, "denied"@);
            let late = text::has_text(low, "timeout"@) || text::has_text(low, "timed out"@);
            let missing = text::has_text(low, "no such"@) || text::has_text(low, "not found"@);
            let channel = text::has_text(low, "open exec channel"@) || text::has_text(
                low,
                "channel open"@,
            ) || text::has_text(low, "administratively prohibited"@);
            let lost = text::has_text(low, "connection"@) || text::has_text(low, "reset"@)
                || text::has_text(low, "closed"@);
            &&& refused ==> listing_class(low) == "Permission Denied"@
            &&& !refused && late ==> listing_class(low) == "Connection Timeout"@
            &&& !refused && !late && missing ==> listing_class(low) == "Not Found"@
            &&& !refused && !late && !missing && channel ==> listing_class(low)
                == "Exec Channel Refused"@
            &&& !refused && !late && !missing && !channel && lost ==> listing_class(low)
                == "Connection Closed"@
            &&& !refused && !late && !missing && !channel && !lost ==> listing_class(low)
                == "Open Failed"@
        }),
{
}

/// A failed connection is told with all its causes, unless the server refuses the file service.
pub proof fn law_connection_failure_tells_its_causes(chain: Seq<Seq<char>>, lang: Lang, i: int)
    requires
        0 <= i < chain.len(),
        !refusal(text::joined_with(lowered(chain), " | "@)),
    ensures
        text::has_text(connection_failure(chain, lang), chain[i]),
{
    let all = text::joined_with(chain, ": "@);
    lemma_joined_has(chain, ": "@, i);
    let head = lang.pick("SFTP 错误"@, "SFTP error"@) + ": "@;
    text_laws::law_text_is_found(Seq::empty(), chain[i], Seq::empty(), all);
    let (x, y) = choose|x: Seq<char>, y: Seq<char>| all == #[trigger] (x + chain[i] + y);
    text_laws::law_text_is_found(head + x, chain[i], y, chain[i]);
    assert(head + all =~= (head + x) + chain[i] + y);
}

/// A server that refuses the file service is told from others by any of these words.
pub proof fn law_refusal_is_recognised(low: Seq<char>)
    ensures
        text::has_text(low, "subsystem"@) ==> refusal(low),
        text::has_text(low, "sftp channel"@) ==> refusal(low),
        text::has_text(low, "sftp handshake"@) ==> refusal(low),
        text::has_text(low, "permission"@) ==> refusal(low),
        text::has_text(low, "denied"@) ==> refusal(low),
        text::has_text(low, "prohibited"@) ==> refusal(low),
        text::has_text(low, "not allowed"@) ==> refusal(low),
{
}

proof fn lemma_joined_has(list: Seq<Seq<char>>, sep: Seq<char>, i: int)
    requires
        0 <= i < list.len(),
    ensures
        text::has_text(text::joined_with(list, sep), list[i]),
    decreases list.len(),
{
    let all = text::joined_with(list, sep);
    let none = Seq::<char>::empty();
    if list.len() == 1 {
        text_laws::law_text_is_found(none, list[0], none, all);
        assert(none + list[0] + none =~= all);
    } else {
        let front = text::joined_with(list.drop_last(), sep);
        if i == list.len() - 1 {
            text_laws::law_text_is_found(front + sep, list[i], none, all);
            assert((front + sep) + list[i] + none =~= all);
        } else {
            assert(list.drop_last()[i] == list[i]);
            lemma_joined_has(list.drop_last(), sep, i);
            text_laws::law_text_is_found(none, list[i], none, front);
            let (x, y) = choose|x: Seq<char>, y: Seq<char>|
                front == #[trigger] (x + list[i] + y);
            let rest = y + sep + list.last();
            text_laws::law_text_is_found(x, list[i], rest, all);
            assert(x + list[i] + rest =~= all);
        }
    }
}

/// A failed upload is told with its exit code in decimal digits, and with what the command wrote.
pub proof fn law_upload_failure_tells_code_and_output(code: u32, stderr: Seq<u8>, lang: Lang)
    ensures
        text::has_text(
            upload_failure(code, stderr, lang),
            " (exit "@ + number::decimal(code as nat) + ")"@,
        ),
        text::has_text(upload_failure(code, stderr, lang), text::trimmed(utf8::lossy(stderr))),
{
    lemma_marked(
        upload_code_meaning(code, lang),
        number::decimal(code as nat),
        text::trimmed(utf8::lossy(stderr)),
    );
}

proof fn lemma_marked(what: Seq<char>, digits: Seq<char>, detail: Seq<char>)
    ensures
        ({
            let mark = " (exit "@ + digits + ")"@;
            let head = what + " (exit "@ + digits + ")"@;
            let whole = if detail.len() == 0 {
                head
            } else {
                head + ": "@ + detail
            };
            text::has_text(whole, mark) && text::has_text(whole, detail)
        }),
{
    let mark = " (exit "@ + digits + ")"@;
    let head = what + " (exit "@ + digits + ")"@;
    let none = Seq::<char>::empty();
    assert(head =~= what + mark);
    if detail.len() == 0 {
        text_laws::law_text_is_found(what, mark, none, mark);
        assert(what + mark + none =~= head);
        text_laws::law_text_is_found(head, detail, none, detail);
        assert(head + detail + none =~= head);
    } else {
        let whole = head + ": "@ + detail;
        text_laws::law_text_is_found(what, mark, ": "@ + detail, mark);
        assert(what + mark + (": "@ + detail) =~= whole);
        text_laws::law_text_is_found(head + ": "@, detail, none, detail);
        assert((head + ": "@) + detail + none =~= whole);
    }
}

/// An exit code of an upload command names the step that failed: from 21 on the steps for a file,
/// from 31 on those for a folder. Any other code tells of no step.
pub proof fn law_code_names_the_step(code: u32, lang: Lang)
    ensures
        ({
            let (zh, en) = match code {
                21 => ("远端目标目录不存在或不可访问"@, "Remote target directory is unavailable"@),
                22 => ("无法创建远端临时文件"@, "Cannot create the remote temporary file"@),
                23 => ("远端写入失败，可能空间不足"@, "Remote write failed; storage may be full"@),
                24 => ("无法校验远端文件大小"@, "Cannot verify the remote file size"@),
                25 => ("远端文件大小校验失败"@, "Remote file size verification failed"@),
                26 => ("无法原子替换目标文件"@, "Cannot atomically replace the target file"@),
                27 => ("目标路径是文件夹，不能用文件覆盖"@, "The target path is a folder"@),
                31 => (
                    "远端缺少 tar，无法上传文件夹"@,
                    "The remote host has no tar command for folder upload"@,
                ),
                32 => ("无法创建远端临时目录"@, "Cannot create the remote temporary directory"@),
                33 => (
                    "远端解包失败，可能空间不足"@,
                    "Remote extraction failed; storage may be full"@,
                ),
                34 => ("文件夹包结构校验失败"@, "Folder archive structure verification failed"@),
                35 => ("目标路径不是文件夹或不可写"@, "The target path is not a writable folder"@),
                36 => ("合并文件夹内容失败"@, "Failed to merge the uploaded folder"@),
                37 => ("远端文件夹收尾失败"@, "Failed to finalize the remote folder"@),
                _ => ("远端上传命令执行失败"@, "Remote upload command failed"@),
            };
            upload_code_meaning(code, lang) == if lang is En {
                en
            } else {
                zh
            }
        }),
{
}

} // verus!
