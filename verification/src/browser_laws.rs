//! What the commands of the file browser over a shell come to: for each command what is run on
//! the server, with what it names, and what is told at the end.
use crate::browser;
use crate::browser::{
    BrowserView, ExecView, RunView, ShellOpView, ShellPhaseView, ShellReplyView,
};
use crate::commands::CommandView;
use crate::events::{EventView, SftpSearchState};
use crate::listing;
use crate::number;
use crate::remote_path;
use crate::shell;
use crate::text;
use crate::text::CharSet;
use crate::tree;
use crate::tree_walk;
use crate::utf8;
use crate::worker_laws;
use vstd::prelude::*;

verus! {

/// The command that lists a directory, with its path as one word.
pub open spec fn lists(op: ShellOpView, dir: Seq<char>) -> bool {
    op == ShellOpView::Exec(listing::LIST_HEAD@ + remote_path::quoted(dir) + listing::LIST_TAIL@)
}

/// Every command leads to one operation, and that operation names exactly what the command
/// names, each path as one word of the shell: the same paths in the same roles, the permission
/// bits in octal digits that spell them, the whole text in its encoding, the identifier of the
/// transfer.
pub proof fn law_command_is_carried_out(b: BrowserView, c: CommandView, id: Seq<char>)
    ensures
        ({
            let op = b.command(c, id).1.op;
            match c {
                CommandView::ListDir(p) => lists(op, p),
                CommandView::RefreshDir(p) => lists(op, p),
                CommandView::ToggleTreeNode(p) => op is Idle || lists(op, p),
                CommandView::Search { search_id, root, query } => op == (
                ShellOpView::StartSearch { search_id, root, query: text::trimmed(query) }),
                CommandView::CancelSearch => if b.search is Some {
                    op is AbortSearch
                } else {
                    op is Idle
                },
                CommandView::Download { remote, local_dir } => op == ShellOpView::Exec(
                    "test -f "@ + remote_path::quoted(remote) + " || exit 3; base64 "@
                        + remote_path::quoted(remote),
                ),
                CommandView::DownloadArchive { remote_dir, names, local_dir } => op is Idle,
                CommandView::CancelTransfer(which) => op == ShellOpView::CancelTransfer(which),
                CommandView::Upload { local, remote_dir } => op == (ShellOpView::StartUpload {
                    id,
                    local,
                    remote_dir,
                }),
                CommandView::Delete(p) => if remote_path::forbidden(p) {
                    op is Idle
                } else {
                    op == ShellOpView::Exec(
                        "p="@ + remote_path::quoted(p) + shell::DELETE_TAIL@,
                    )
                },
                CommandView::OpenTemp { remote, edit } => op == ShellOpView::Exec(
                    "test -f "@ + remote_path::quoted(remote) + " || exit 3; base64 "@
                        + remote_path::quoted(remote),
                ),
                CommandView::Rename { from, to } => op == ShellOpView::Exec(
                    "mv "@ + remote_path::quoted(from) + " "@ + remote_path::quoted(to),
                ),
                CommandView::Chmod { path, mode } => {
                    let digits = number::octal((mode & 0o7777) as nat);
                    &&& op == ShellOpView::Exec(
                        "chmod "@ + digits + " "@ + remote_path::quoted(path),
                    )
                    &&& number::number_in(digits, 8, u32::MAX as nat) == Some(
                        (mode & 0o7777) as nat,
                    )
                },
                CommandView::MkDir(p) => op == ShellOpView::Exec(
                    "mkdir -p "@ + remote_path::quoted(p),
                ),
                CommandView::TouchFile(p) => op == ShellOpView::Exec(
                    "test -e "@ + remote_path::quoted(p) + " || : > "@ + remote_path::quoted(p),
                ),
                CommandView::ReadText { remote, edit } => op == ShellOpView::Exec(
                    "test -f "@ + remote_path::quoted(remote)
                        + " || exit 3; sz=$(stat -c %s "@ + remote_path::quoted(remote)
                        + " 2>/dev/null || echo 0); [ \"$sz\" -le 2097152 ] || exit 4; base64 "@
                        + remote_path::quoted(remote),
                ),
                CommandView::WriteText { remote, content } => op == ShellOpView::Exec(
                    "printf %s "@ + remote_path::quoted(
                        shell::base64_text(vstd::utf8::encode_utf8(content)),
                    ) + " | base64 -d > "@ + remote_path::quoted(remote),
                ),
                CommandView::Close => op is Halt,
            }
        }),
{
    match c {
        CommandView::Chmod { path, mode } => {
            number::law_number_round_trip((mode & 0o7777) as nat, 8, u32::MAX as nat);
            assert(number::octal((mode & 0o7777) as nat) == number::digits_of(
                (mode & 0o7777) as nat,
                8,
            ));
        },
        _ => {},
    }
}

/// No command changes the language or the cached listings, and only a search changes which
/// search is remembered.
pub proof fn law_command_keeps_the_rest(b: BrowserView, c: CommandView, id: Seq<char>)
    ensures
        b.command(c, id).0.lang == b.lang,
        b.command(c, id).0.tree.dirs == b.tree.dirs,
        !(c is ToggleTreeNode) ==> b.command(c, id).0.tree == b.tree,
        !(c is Search) && !(c is CancelSearch) ==> b.command(c, id).0.search == b.search,
        (c is DownloadArchive || c is Upload || c is CancelTransfer || c is Search) ==> b.command(
            c,
            id,
        ).0.phase is Idle,
{
}

/// The directory in which a command makes a change.
pub open spec fn changed_dir(c: CommandView) -> Seq<char> {
    match c {
        CommandView::Delete(p) => remote_path::parent_dir_of(p),
        CommandView::Rename { from, to } => remote_path::parent_dir_of(to),
        CommandView::Chmod { path, mode } => remote_path::parent_dir_of(path),
        CommandView::MkDir(p) => remote_path::parent_dir_of(p),
        CommandView::TouchFile(p) => remote_path::parent_dir_of(p),
        _ => Seq::empty(),
    }
}

/// A change on the server: a failure is told with its title and its reason, a success is not
/// told; either way the directory of the change is listed, and what the server lists is shown in
/// the end.
pub proof fn law_change_goes_as_asked(
    b: BrowserView,
    c: CommandView,
    id: Seq<char>,
    r: RunView,
    one: RunView,
    two: RunView,
)
    requires
        (c matches CommandView::Delete(p) && !remote_path::forbidden(p)) || c is Rename || c
            is Chmod || c is MkDir || c is TouchFile,
    ensures
        ({
            let dir = changed_dir(c);
            let title = match c {
                CommandView::Delete(_) => b.lang.pick("删除失败"@, "Delete failed"@),
                CommandView::Rename { .. } => b.lang.pick("重命名失败"@, "Rename failed"@),
                CommandView::Chmod { .. } => b.lang.pick("修改权限失败"@, "chmod failed"@),
                CommandView::MkDir(_) => b.lang.pick("新建文件夹失败"@, "Create folder failed"@),
                _ => b.lang.pick("新建文件失败"@, "Create file failed"@),
            };
            let (acting, first) = b.command(c, id);
            let (next, second) = acting.reply(ShellReplyView::Exec(r));
            let (after, third) = next.reply(ShellReplyView::Exec(one));
            &&& first.events.len() == 0
            &&& first.op is Exec
            &&& lists(second.op, dir)
            &&& match r {
                Ok(d) => d.code != 0 ==> second.events.len() > 0 && worker_laws::says(
                    second.events[0],
                    title,
                    text::trimmed(utf8::lossy(d.err)),
                ),
                Err(m) => second.events.len() > 0 && worker_laws::says(
                    second.events[0],
                    title,
                    m,
                ),
            }
            &&& r matches Ok(d) ==> d.code == 0 ==> forall|i: int|
                0 <= i < second.events.len() ==> #[trigger] second.events[i]
                    == EventView::SftpStatus(
                    b.lang.pick("加载"@, "Loading"@) + " "@ + dir + "..."@,
                )
            &&& next.phase == (ShellPhaseView::ShowAgain { dir }) || (after.phase == (
            ShellPhaseView::ShowAgain { dir }) && lists(third.op, dir))
        }),
{
}

/// A directory that is listed after a change is shown as the server lists it.
pub proof fn law_changed_directory_is_shown(b: BrowserView, dir: Seq<char>, d: ExecView)
    requires
        b.phase == (ShellPhaseView::ShowAgain { dir }),
    ensures
        ({
            let (after, turn) = b.reply(ShellReplyView::Exec(Ok(d)));
            &&& after.phase is Idle
            &&& after.tree == b.tree
            &&& turn.op is Idle
            &&& turn.events.len() > 0
            &&& if d.code == 0 {
                turn.events[0] == (EventView::SftpEntries {
                    path: dir,
                    entries: listing::shell_entries(dir, d.out),
                })
            } else {
                turn.events[0] is SftpError
            }
        }),
{
}

/// Listing a directory: what the command printed is shown, under the path that was asked for; a
/// failure is told. No cached listing is lost by it.
pub proof fn law_listing_is_shown(
    b: BrowserView,
    path: Seq<char>,
    refresh: bool,
    id: Seq<char>,
    r: RunView,
)
    ensures
        ({
            let c = if refresh {
                CommandView::RefreshDir(path)
            } else {
                CommandView::ListDir(path)
            };
            let (one, first) = b.command(c, id);
            let (two, second) = one.reply(ShellReplyView::Exec(r));
            &&& lists(first.op, path)
            &&& second.events.len() > 0
            &&& if (r matches Ok(d) && d.code == 0) {
                second.events[0] == (EventView::SftpEntries {
                    path,
                    entries: listing::shell_entries(path, r->Ok_0.out),
                })
            } else {
                second.events[0] is SftpError
            }
            &&& two.tree.dirs == b.tree.dirs
        }),
{
    tree_walk::lemma_start_keeps(b.tree, remote_path::tree_path(path), false);
}

/// Downloading a file: where the command printed the file, exactly its bytes are written, to a
/// plain name in exactly this local directory, its own name where that is plain; the outcome of
/// writing is told. Where the command failed nothing is written, and why is told.
pub proof fn law_download_goes_as_asked(
    b: BrowserView,
    remote: Seq<char>,
    local_dir: Seq<char>,
    id: Seq<char>,
    d: ExecView,
    local: Seq<char>,
    written: bool,
)
    ensures
        ({
            let (one, first) = b.command(CommandView::Download { remote, local_dir }, id);
            let (two, second) = one.reply(ShellReplyView::Exec(Ok(d)));
            let (three, third) = two.reply(ShellReplyView::Written { local, written });
            let base = remote_path::base_name_of(remote);
            let got = shell::base64_decoded(shell::one_line(d.out));
            if d.code == 0 && got is Ok {
                let name = second.op->WriteLocal_name;
                &&& second.op == (ShellOpView::WriteLocal {
                    dir: local_dir,
                    name,
                    bytes: got->Ok_0,
                })
                &&& remote_path::plain_name(name)
                &&& remote_path::plain_name(base) ==> name == base
                &&& third.op is Idle
                &&& third.events.len() == 1
                &&& written ==> worker_laws::says(
                    third.events[0],
                    b.lang.pick("下载完成"@, "Downloaded"@),
                    name,
                )
                &&& !written ==> worker_laws::says(
                    third.events[0],
                    b.lang.pick("下载失败"@, "Download failed"@),
                    "write local "@ + local,
                )
            } else {
                &&& second.op is Idle
                &&& second.events.len() == 1
                &&& second.events[0] is SftpStatus
            }
        }),
{
    let base = remote_path::base_name_of(remote);
    remote_path::law_safe_name_is_plain(base);
    if remote_path::plain_name(base) {
        remote_path::law_plain_names_pass(base);
    }
}

/// Opening a file with its application: exactly the bytes that the command printed are written
/// under a plain name among the temporary files, and what was written is opened, nothing else.
pub proof fn law_opening_goes_as_asked(
    b: BrowserView,
    remote: Seq<char>,
    edit: bool,
    id: Seq<char>,
    d: ExecView,
    local: Seq<char>,
    written: bool,
)
    requires
        d.code == 0,
        shell::base64_decoded(shell::one_line(d.out)) is Ok,
    ensures
        ({
            let (one, first) = b.command(CommandView::OpenTemp { remote, edit }, id);
            let (two, second) = one.reply(ShellReplyView::Exec(Ok(d)));
            let (three, third) = two.reply(ShellReplyView::Written { local, written });
            let (four, fourth) = three.reply(ShellReplyView::Ready);
            let base = remote_path::base_name_of(remote);
            let name = second.op->WriteTemp_name;
            &&& second.op == (ShellOpView::WriteTemp {
                name,
                bytes: shell::base64_decoded(shell::one_line(d.out))->Ok_0,
            })
            &&& remote_path::plain_name(name)
            &&& remote_path::plain_name(base) ==> name == base
            &&& third.op == if written {
                ShellOpView::OpenLocal(local)
            } else {
                ShellOpView::Idle
            }
            &&& !written ==> third.events.len() == 1 && worker_laws::says(
                third.events[0],
                b.lang.pick("打开失败"@, "Open failed"@),
                "write local "@ + local,
            )
            &&& written ==> fourth.op is Idle && (edit <==> fourth.events.len() == 1)
        }),
{
    let base = remote_path::base_name_of(remote);
    remote_path::law_safe_name_is_plain(base);
    if remote_path::plain_name(base) {
        remote_path::law_plain_names_pass(base);
    }
}

/// A file that could not be fetched, to be kept or to be opened, is not written anywhere. Why is
/// told: the reason of a command that could not be run, what a failed command complained of, and
/// of what is no regular file that only such files can be fetched.
pub proof fn law_failed_fetch_is_told(
    b: BrowserView,
    remote: Seq<char>,
    local_dir: Seq<char>,
    edit: bool,
    id: Seq<char>,
    r: RunView,
)
    requires
        r matches Ok(d) ==> d.code != 0,
    ensures
        ({
            let why = match r {
                Err(m) => m,
                Ok(d) => if d.code == 3 {
                    b.lang.pick(
                        "当前 SSH 文件浏览模式只支持下载普通文件"@,
                        "SSH file-browser mode can only download regular files"@,
                    )
                } else if text::trimmed(utf8::lossy(d.err)).len() == 0 {
                    "download failed"@
                } else {
                    text::trimmed(utf8::lossy(d.err))
                },
            };
            let kept = b.command(CommandView::Download { remote, local_dir }, id).0.reply(
                ShellReplyView::Exec(r),
            ).1;
            let opened = b.command(CommandView::OpenTemp { remote, edit }, id).0.reply(
                ShellReplyView::Exec(r),
            ).1;
            &&& kept.op is Idle
            &&& kept.events.len() == 1
            &&& worker_laws::says(
                kept.events[0],
                b.lang.pick("下载失败"@, "Download failed"@),
                why,
            )
            &&& opened.op is Idle
            &&& opened.events.len() == 1
            &&& worker_laws::says(opened.events[0], b.lang.pick("打开失败"@, "Open failed"@), why)
        }),
{
}

/// Reading a file into the editor: what is shown is told with the path that was asked for, its
/// name, and whether it is to be edited. What the command printed is shown as it is where it is
/// UTF-8 of printable characters, tabs, line feeds and carriage returns. A file that is no
/// regular one, or too large, or could not be read, gives no text but the reason.
pub proof fn law_reading_goes_as_asked(
    b: BrowserView,
    remote: Seq<char>,
    edit: bool,
    id: Seq<char>,
    r: RunView,
)
    ensures
        ({
            let (one, first) = b.command(CommandView::ReadText { remote, edit }, id);
            let (two, second) = one.reply(ShellReplyView::Exec(r));
            &&& second.op is Idle
            &&& second.events.len() == 1
            &&& second.events[0] matches EventView::SftpFileText {
                path,
                name,
                content,
                edit: shown_edit,
                error,
            } && {
                &&& path == remote
                &&& name == remote_path::base_name_of(remote)
                &&& shown_edit == edit
                &&& match r {
                    Err(m) => content.len() == 0 && error == m,
                    Ok(d) => {
                        &&& d.code == 0 ==> (shell::base64_decoded(
                            shell::one_line(d.out),
                        ) matches Ok(v) && vstd::utf8::valid_utf8(v) && (forall|i: int|
                            0 <= i < v.len() ==> 0x20 <= #[trigger] v[i] <= 0x7e || v[i] >= 0x80
                                || v[i] == 0x09 || v[i] == 0x0a || v[i] == 0x0d)) ==> content
                            == vstd::utf8::decode_utf8(
                            shell::base64_decoded(shell::one_line(d.out))->Ok_0,
                        ) && error.len() == 0
                        &&& d.code == 3 ==> content.len() == 0 && error == b.lang.pick(
                            "不是普通文件,无法打开"@,
                            "Not a regular file; cannot open"@,
                        )
                        &&& d.code == 4 ==> content.len() == 0 && error == b.lang.pick(
                            "文件过大,无法在内置编辑器中打开(上限 2 MB),请下载查看"@,
                            "Too large for the built-in editor (2 MB limit); download it instead"@,
                        )
                        &&& d.code != 0 && d.code != 3 && d.code != 4 ==> content.len() == 0
                            && error == text::trimmed(utf8::lossy(d.err))
                    },
                }
            }
        }),
{
}

/// Saving a text: a success is told with the name of the file, a failure with its reason; either
/// way the directory of the file is listed, to be shown.
pub proof fn law_saving_goes_as_asked(
    b: BrowserView,
    remote: Seq<char>,
    content: Seq<char>,
    id: Seq<char>,
    r: RunView,
)
    ensures
        ({
            let dir = remote_path::parent_dir_of(remote);
            let (one, first) = b.command(CommandView::WriteText { remote, content }, id);
            let (two, second) = one.reply(ShellReplyView::Exec(r));
            &&& first.events.len() == 0
            &&& second.events.len() > 0
            &&& lists(second.op, dir)
            &&& two.phase == (ShellPhaseView::ShowAgain { dir })
            &&& match r {
                Ok(d) => if d.code == 0 {
                    worker_laws::says(
                        second.events[0],
                        b.lang.pick("已保存"@, "Saved"@),
                        remote_path::base_name_of(remote),
                    )
                } else {
                    worker_laws::says(
                        second.events[0],
                        b.lang.pick("保存失败"@, "Save failed"@),
                        text::trimmed(utf8::lossy(d.err)),
                    )
                },
                Err(m) => worker_laws::says(
                    second.events[0],
                    b.lang.pick("保存失败"@, "Save failed"@),
                    m,
                ),
            }
        }),
{
}

/// Stopping a search stops the one that was started last, and tells that this one was cancelled.
/// After that there is none to stop, until another one is started.
pub proof fn law_search_is_stopped(
    b: BrowserView,
    search_id: Seq<char>,
    root: Seq<char>,
    query: Seq<char>,
    id: Seq<char>,
)
    ensures
        ({
            let (one, first) = b.command(CommandView::Search { search_id, root, query }, id);
            let (two, second) = one.command(CommandView::CancelSearch, id);
            let (three, third) = two.reply(ShellReplyView::Ready);
            let (four, fourth) = three.command(CommandView::CancelSearch, id);
            &&& second.op is AbortSearch
            &&& third.op is Idle
            &&& third.events == seq![
                EventView::SftpSearchStatus {
                    search_id,
                    root,
                    query: text::trimmed(query),
                    state: SftpSearchState::Cancelled,
                    found: 0,
                    scanned: 0,
                    elapsed_ms: 0,
                },
            ]
            &&& three.search is None
            &&& fourth.op is Idle
            &&& fourth.events == seq![
                EventView::SftpStatus(b.lang.pick("当前没有正在运行的搜索"@, "No active search"@)),
            ]
        }),
{
}

/// Ending: everything under way is asked to stop first, and then the connection is closed.
pub proof fn law_closing_stops_everything(b: BrowserView, id: Seq<char>)
    ensures
        ({
            let (one, first) = b.command(CommandView::Close, id);
            let (two, second) = one.reply(ShellReplyView::Ready);
            &&& first.op is Halt
            &&& second.op is Stop
            &&& second.events == seq![
                EventView::SftpStatus(
                    b.lang.pick("文件连接已断开"@, "File connection disconnected"@),
                ),
            ]
        }),
{
}

/// The browser opens in the working directory that the server tells, without the line end, and in
/// the root where it tells none; what is listed there is shown, and then the root is listed for
/// the tree.
pub proof fn law_home_is_shown(b: BrowserView, r: RunView, d: ExecView)
    requires
        b.phase is FindHome,
        d.code == 0,
    ensures
        ({
            let (one, first) = b.reply(ShellReplyView::Exec(r));
            let (two, second) = one.reply(ShellReplyView::Exec(Ok(d)));
            let home = if (r matches Ok(w) && w.code == 0) {
                text::trimmed(utf8::lossy(r->Ok_0.out))
            } else {
                "/"@
            };
            &&& lists(first.op, home)
            &&& second.events[0] == (EventView::SftpEntries {
                path: home,
                entries: listing::shell_entries(home, d.out),
            })
            &&& lists(second.op, "/"@)
        }),
{
}

/// A double click on a directory of the tree: an expanded one is collapsed, and so is all below
/// it; a collapsed one is expanded, once its listing is known. Everything else stays as it was,
/// and the tree is shown again. No cached listing is lost.
pub proof fn law_toggling_expands_and_collapses(
    b: BrowserView,
    path: Seq<char>,
    id: Seq<char>,
    r: RunView,
    p: Seq<char>,
)
    requires
        path != "/"@,
    ensures
        ({
            let (one, first) = b.command(CommandView::ToggleTreeNode(path), id);
            let (two, second) = one.reply(ShellReplyView::Exec(r));
            let below = p == path || text::begins(
                p,
                text::strip_end(path, CharSet::Only('/')) + "/"@,
            );
            &&& one.tree.dirs == b.tree.dirs
            &&& if b.tree.expanded.contains(path) {
                &&& first.op is Idle
                &&& first.events == seq![EventView::SftpTreeUpdate(tree::all_nodes(one.tree))]
                &&& one.tree.expanded.contains(p) <==> b.tree.expanded.contains(p) && !below
            } else if b.tree.dirs.contains_key(path) {
                &&& first.op is Idle
                &&& first.events == seq![EventView::SftpTreeUpdate(tree::all_nodes(one.tree))]
                &&& one.tree.expanded.contains(p) <==> b.tree.expanded.contains(p) || p == path
            } else {
                &&& lists(first.op, path)
                &&& first.events.len() == 0
                &&& one.tree == b.tree
                &&& second.op is Idle
                &&& second.events == seq![EventView::SftpTreeUpdate(tree::all_nodes(two.tree))]
                &&& two.tree.expanded.contains(p) <==> b.tree.expanded.contains(p) || p == path
                &&& p != path ==> two.tree.dirs.contains_key(p) == b.tree.dirs.contains_key(p)
                &&& two.tree.dirs.contains_key(path) <==> (r matches Ok(d) && d.code == 0)
            }
        }),
{
    tree_walk::lemma_expand_adds(b.tree, path, p);
    tree::lemma_collapse_drops(b.tree, path, p);
    match browser::run_listing(path, r) {
        Ok(entries) => {
            tree_walk::lemma_expand_adds(
                b.tree.cache(path, listing::dirs_among(entries)),
                path,
                p,
            );
        },
        Err(_) => {},
    }
}

} // verus!
