//! What the commands of the file browser come to: for each command the operations that follow,
//! with what they name, and what is told at the end.
use crate::commands::CommandView;
use crate::events::{EntryView, EventView, SftpSearchState};
use crate::listing;
use crate::number;
use crate::remote_path;
use crate::text;
use crate::text::CharSet;
use crate::tree;
use crate::tree_walk;
use crate::worker::{OpView, PhaseOf, PhaseView, ReadFaultOf, ReplyView, WalkEndOf, WorkerView};
use vstd::prelude::*;

verus! {

/// What became of an operation that tells nothing but its success.
pub type DoneView = Result<(), Seq<char>>;

/// What a directory holds, or why it could not be listed.
pub type ListedView = Result<Seq<EntryView>, Seq<char>>;

/// A message made of a title, a colon and a text.
pub open spec fn says(e: EventView, title: Seq<char>, what: Seq<char>) -> bool {
    e matches EventView::SftpStatus(m) && m == title + ": "@ + what
}

/// Every command leads to one operation, and that operation names exactly what the command
/// names: the same paths in the same roles, all bits of a mode, the whole text, the identifier of
/// the transfer. A deletion looks at its path first, or is refused without any operation.
pub proof fn law_command_is_carried_out(w: WorkerView, c: CommandView, id: Seq<char>)
    ensures
        ({
            let op = w.command(c, id).1.op;
            match c {
                CommandView::ListDir(p) => op == OpView::List(p),
                CommandView::RefreshDir(p) => op == OpView::List(p),
                CommandView::ToggleTreeNode(p) => op is Idle || op == OpView::List(p),
                CommandView::Search { search_id, root, query } => op is StartSearch
                    && op->StartSearch_search_id == search_id && op->StartSearch_root == root
                    && op->StartSearch_query == text::trimmed(query),
                CommandView::CancelSearch => if w.search is Some {
                    op is AbortSearch
                } else {
                    op is Idle
                },
                CommandView::Download { remote, local_dir } => op == (OpView::StartDownload {
                    id,
                    remote,
                    local_dir,
                }),
                CommandView::DownloadArchive { remote_dir, names, local_dir } => op == (
                OpView::StartArchive { id, remote_dir, names, local_dir }),
                CommandView::CancelTransfer(which) => op == OpView::CancelTransfer(which),
                CommandView::Upload { local, remote_dir } => op == (OpView::StartUpload {
                    id,
                    local,
                    remote_dir,
                }),
                CommandView::Delete(p) => if remote_path::forbidden(p) {
                    op is Idle
                } else {
                    op == OpView::Lstat(p)
                },
                CommandView::OpenTemp { remote, edit } => op is FetchTemp && op->FetchTemp_remote
                    == remote && op->FetchTemp_id == id,
                CommandView::Rename { from, to } => op == (OpView::Rename { from, to }),
                CommandView::Chmod { path, mode } => op == (OpView::SetMode { path, mode }),
                CommandView::MkDir(p) => op == OpView::MakeDir(p),
                CommandView::TouchFile(p) => op == OpView::Stat(p),
                CommandView::ReadText { remote, edit } => op == OpView::Size(remote),
                CommandView::WriteText { remote, content } => op == (OpView::WriteAll {
                    remote,
                    content,
                }),
                CommandView::Close => op is Halt,
            }
        }),
{
}

/// No command changes the language or the cached listings, and only a search changes which
/// search is remembered.
pub proof fn law_command_keeps_the_rest(w: WorkerView, c: CommandView, id: Seq<char>)
    ensures
        w.command(c, id).0.lang == w.lang,
        w.command(c, id).0.tree.dirs == w.tree.dirs,
        !(c is ToggleTreeNode) ==> w.command(c, id).0.tree == w.tree,
        !(c is Search) && !(c is CancelSearch) ==> w.command(c, id).0.search == w.search,
        (c is Download || c is DownloadArchive || c is Upload || c is CancelTransfer || c is Search)
            ==> w.command(c, id).0.phase is Idle,
{
}

/// Setting permission bits: the one operation sets exactly the mode that was asked for, on the
/// path that was asked for; the message of success shows the name of the entry and the same mode,
/// in octal digits that spell it; the message of a failure says why; and either way the directory
/// of the entry is listed again.
pub proof fn law_mode_is_set_as_asked(
    w: WorkerView,
    path: Seq<char>,
    mode: u32,
    id: Seq<char>,
    done: DoneView,
)
    ensures
        ({
            let (asked, first) = w.command(CommandView::Chmod { path, mode }, id);
            let (told, second) = asked.reply(ReplyView::Done(done));
            let digits = number::octal(mode as nat);
            &&& number::number_in(digits, 8, u32::MAX as nat) == Some(mode as nat)
            &&& forall|i: int| 0 <= i < digits.len() ==> '0' <= #[trigger] digits[i] <= '7'
            &&& first.events.len() == 0
            &&& first.op == (OpView::SetMode { path, mode })
            &&& second.op == OpView::List(remote_path::parent_dir_of(path))
            &&& second.events.len() == 1
            &&& match done {
                Ok(_) => says(
                    second.events[0],
                    w.lang.pick("已修改权限"@, "Permissions changed"@),
                    remote_path::base_name_of(path) + " → "@ + digits,
                ),
                Err(m) => says(second.events[0], w.lang.pick("修改权限失败"@, "chmod failed"@), m),
            }
        }),
{
    let digits = number::octal(mode as nat);
    number::law_number_round_trip(mode as nat, 8, u32::MAX as nat);
    assert(number::number_in(digits, 8, u32::MAX as nat) == Some(mode as nat));
    number::lemma_octal(mode as nat);
}

/// Where something has changed, the directory is listed and what the server lists is shown: the
/// same directory, the same entries.
pub proof fn law_changed_directory_is_shown(w: WorkerView, dir: Seq<char>, l: ListedView)
    requires
        w.phase == (PhaseView::Relist { dir }),
    ensures
        ({
            let (after, turn) = w.reply(ReplyView::Listing(l));
            &&& after.tree == w.tree
            &&& after.phase is Idle
            &&& turn.op is Idle
            &&& match l {
                Ok(entries) => turn.events == seq![EventView::SftpEntries { path: dir, entries }],
                Err(_) => turn.events.len() == 0,
            }
        }),
{
}

/// Deleting: what the server says is a directory is removed with all that is in it, anything else
/// as a file, at the path that was asked for and nowhere else. A failure is told and ends the
/// matter. After a success the parent directory is listed and shown, nothing is known any more of
/// what was deleted or of what was below it, everything else that is known stays, and the last
/// message names what was deleted.
pub proof fn law_deletion_goes_as_asked(
    w: WorkerView,
    path: Seq<char>,
    id: Seq<char>,
    mode: Option<Option<u32>>,
    done: DoneView,
    l: ListedView,
    again: ListedView,
)
    requires
        !remote_path::forbidden(path),
    ensures
        ({
            let parent = remote_path::parent_dir_of(path);
            let (looking, first) = w.command(CommandView::Delete(path), id);
            let (working, second) = looking.reply(ReplyView::Mode(mode));
            let (listing, third) = working.reply(ReplyView::Done(done));
            let (next, fourth) = listing.reply(ReplyView::Listing(l));
            let (last, fifth) = next.reply(ReplyView::Listing(again));
            let (end, told) = if next.phase is Idle {
                (next, fourth.events)
            } else {
                (last, fourth.events + fifth.events)
            };
            &&& first.op == OpView::Lstat(path)
            &&& second.op == if (mode matches Some(Some(p)) && p & 0o170_000 == 0o040_000) {
                OpView::RemoveTree(path)
            } else {
                OpView::RemoveFile(path)
            }
            &&& done matches Err(m) ==> third.op is Idle && listing.phase is Idle && listing.tree
                == w.tree && third.events.len() == 1 && says(
                third.events[0],
                w.lang.pick("删除失败"@, "Delete failed"@),
                m,
            )
            &&& done is Ok ==> {
                &&& third.op == OpView::List(parent)
                &&& third.events.len() == 0
                &&& l matches Ok(entries) ==> told[0] == (EventView::SftpEntries {
                    path: parent,
                    entries,
                })
                &&& end.phase is Idle
                &&& told.len() > 1
                &&& told[told.len() - 2] is SftpTreeUpdate
                &&& says(
                    told.last(),
                    w.lang.pick("已删除"@, "Deleted"@),
                    remote_path::base_name_of(path),
                )
                &&& !next.tree.dirs.contains_key(path)
                &&& forall|p: Seq<char>|
                    p != path && !text::begins(
                        p,
                        text::strip_end(path, CharSet::Only('/')) + "/"@,
                    ) ==> {
                        &&& #[trigger] next.tree.dirs.contains_key(p) == w.tree.dirs.contains_key(p)
                        &&& next.tree.dirs.contains_key(p) ==> next.tree.dirs[p] == w.tree.dirs[p]
                    }
            }
        }),
{
}

/// Renaming: the entry at the one path is moved to the other, and not the other way round. A
/// success is told with the new name, nothing is known any more of the old path or of what was
/// below it, and everything else that is known stays; a failure is told with its reason and
/// changes nothing that is known. Either way the directory of the old path is listed and shown
/// in the end.
pub proof fn law_renaming_goes_as_asked(
    w: WorkerView,
    from: Seq<char>,
    to: Seq<char>,
    id: Seq<char>,
    done: DoneView,
    l: ListedView,
    again: ListedView,
)
    ensures
        ({
            let source = remote_path::parent_dir_of(from);
            let target = remote_path::parent_dir_of(to);
            let (working, first) = w.command(CommandView::Rename { from, to }, id);
            let (one, second) = working.reply(ReplyView::Done(done));
            let (two, third) = one.reply(ReplyView::Listing(l));
            let (three, fourth) = two.reply(ReplyView::Listing(again));
            &&& first.op == (OpView::Rename { from, to })
            &&& first.events.len() == 0
            &&& second.events.len() > 0
            &&& second.op == OpView::List(source) || second.op == OpView::List(target)
            &&& match done {
                Ok(_) => {
                    &&& says(
                        second.events[0],
                        w.lang.pick("已重命名"@, "Renamed"@),
                        remote_path::base_name_of(to),
                    )
                    &&& !one.tree.dirs.contains_key(from)
                    &&& forall|p: Seq<char>|
                        p != from && !text::begins(
                            p,
                            text::strip_end(from, CharSet::Only('/')) + "/"@,
                        ) ==> {
                            &&& #[trigger] one.tree.dirs.contains_key(p)
                                == w.tree.dirs.contains_key(p)
                            &&& one.tree.dirs.contains_key(p) ==> one.tree.dirs[p]
                                == w.tree.dirs[p]
                        }
                    &&& one.phase == (PhaseView::Relist { dir: source }) || two.phase == (
                    PhaseView::Relist { dir: source }) || three.phase == (PhaseView::Relist {
                        dir: source,
                    })
                },
                Err(m) => second.events.len() == 1 && says(
                    second.events[0],
                    w.lang.pick("重命名失败"@, "Rename failed"@),
                    m,
                ) && one.tree == w.tree && one.phase == (PhaseView::Relist { dir: source }),
            }
        }),
{
}

/// Making a directory: it is made at the path that was asked for. A success is told with its
/// name and a failure with its reason; either way its parent directory is listed and shown in
/// the end, and nothing that is known gets lost.
pub proof fn law_directory_is_made_as_asked(
    w: WorkerView,
    path: Seq<char>,
    id: Seq<char>,
    done: DoneView,
    l: ListedView,
)
    ensures
        ({
            let parent = remote_path::parent_dir_of(path);
            let (working, first) = w.command(CommandView::MkDir(path), id);
            let (one, second) = working.reply(ReplyView::Done(done));
            let (two, third) = one.reply(ReplyView::Listing(l));
            &&& first.op == OpView::MakeDir(path)
            &&& first.events.len() == 0
            &&& second.op == OpView::List(parent)
            &&& second.events.len() > 0
            &&& one.tree == w.tree
            &&& one.phase == (PhaseView::Relist { dir: parent }) || (two.phase == (
            PhaseView::Relist { dir: parent }) && third.op == OpView::List(parent))
            &&& match done {
                Ok(_) => says(
                    second.events[0],
                    w.lang.pick("已新建文件夹"@, "Folder created"@),
                    remote_path::base_name_of(path),
                ),
                Err(m) => second.events.len() == 1 && says(
                    second.events[0],
                    w.lang.pick("新建文件夹失败"@, "Create folder failed"@),
                    m,
                ),
            }
        }),
{
}

/// Making a file: where something stands already it is left alone, and that is told; else an
/// empty file is made at the path that was asked for, and its success or failure is told. In each
/// case the parent directory is listed and shown.
pub proof fn law_file_is_made_as_asked(
    w: WorkerView,
    path: Seq<char>,
    id: Seq<char>,
    present: bool,
    done: DoneView,
)
    ensures
        ({
            let parent = remote_path::parent_dir_of(path);
            let name = remote_path::base_name_of(path);
            let (looking, first) = w.command(CommandView::TouchFile(path), id);
            let (one, second) = looking.reply(ReplyView::Present(present));
            let (two, third) = one.reply(ReplyView::Done(done));
            &&& first.op == OpView::Stat(path)
            &&& first.events.len() == 0
            &&& if present {
                &&& one.phase == (PhaseView::Relist { dir: parent })
                &&& second.op == OpView::List(parent)
                &&& second.events.len() == 1
                &&& says(second.events[0], w.lang.pick("文件已存在"@, "File already exists"@), name)
            } else {
                &&& second.op == OpView::Create(path)
                &&& second.events.len() == 0
                &&& two.phase == (PhaseView::Relist { dir: parent })
                &&& third.op == OpView::List(parent)
                &&& third.events.len() == 1
                &&& match done {
                    Ok(_) => says(
                        third.events[0],
                        w.lang.pick("已新建文件"@, "File created"@),
                        name,
                    ),
                    Err(m) => says(
                        third.events[0],
                        w.lang.pick("新建文件失败"@, "Create file failed"@),
                        m,
                    ),
                }
            }
        }),
{
}

/// Opening a file with its application: the remote file is fetched under a plain local name, its
/// own where that is plain; what was fetched whole is opened, and nothing else; what was only
/// fetched in part is removed. A file that is to be edited is watched for changes, which go to
/// the remote path that it came from; one that is only looked at is not.
pub proof fn law_opening_goes_as_asked(
    w: WorkerView,
    remote: Seq<char>,
    edit: bool,
    id: Seq<char>,
    local: Seq<char>,
    moved: Result<bool, Seq<char>>,
)
    ensures
        ({
            let (fetching, first) = w.command(CommandView::OpenTemp { remote, edit }, id);
            let (one, second) = fetching.reply(ReplyView::Fetched { local, moved });
            let (two, third) = one.reply(ReplyView::Ready);
            let name = first.op->FetchTemp_name;
            &&& first.op == (OpView::FetchTemp { remote, name, id })
            &&& remote_path::plain_name(name)
            &&& remote_path::plain_name(remote_path::base_name_of(remote)) ==> name
                == remote_path::base_name_of(remote)
            &&& second.op == match moved {
                Ok(whole) => if whole {
                    OpView::OpenLocal(local)
                } else {
                    OpView::RemoveLocal(local)
                },
                Err(_) => OpView::Idle,
            }
            &&& moved == Ok::<bool, Seq<char>>(true) ==> {
                &&& third.op == if edit {
                    OpView::Watch { local, remote, name }
                } else {
                    OpView::Idle
                }
                &&& third.events.len() == 1
                &&& says(
                    third.events[0],
                    if edit {
                        w.lang.pick("已打开编辑"@, "Opened for editing"@)
                    } else {
                        w.lang.pick("已打开"@, "Opened"@)
                    },
                    name,
                )
                &&& two.phase is Idle
            }
            &&& moved == Ok::<bool, Seq<char>>(false) ==> third.op is Idle && third.events.len() == 1
                && says(third.events[0], w.lang.pick("已取消"@, "Cancelled"@), name)
            &&& moved matches Err(m) ==> second.events.len() == 1 && says(
                second.events[0],
                w.lang.pick("打开失败"@, "Open failed"@),
                m,
            )
        }),
{
    remote_path::law_safe_name_is_plain(remote_path::base_name_of(remote));
    if remote_path::plain_name(remote_path::base_name_of(remote)) {
        remote_path::law_plain_names_pass(remote_path::base_name_of(remote));
    }
}

/// Reading a file into the editor: a file that the server tells to have more than two mebibytes
/// is not read; any other is. What is shown is told with the path that was asked for, its name,
/// and whether it is to be edited. A text of printable characters, tabs, line feeds and carriage
/// returns is shown as it is; bytes that could not be had give no text but the reason.
pub proof fn law_reading_goes_as_asked(
    w: WorkerView,
    remote: Seq<char>,
    edit: bool,
    id: Seq<char>,
    size: Option<u64>,
    bytes: Result<Seq<u8>, ReadFaultOf<Seq<char>>>,
)
    ensures
        ({
            let (measuring, first) = w.command(CommandView::ReadText { remote, edit }, id);
            let (one, second) = measuring.reply(ReplyView::Size(size));
            let (two, third) = one.reply(ReplyView::Bytes(bytes));
            let large = size matches Some(n) && n > 2 * 1024 * 1024;
            let last = if large {
                second
            } else {
                third
            };
            &&& first.op == OpView::Size(remote)
            &&& second.op == if large {
                OpView::Idle
            } else {
                OpView::ReadAll(remote)
            }
            &&& last.op is Idle
            &&& last.events.len() == 1
            &&& last.events[0] matches EventView::SftpFileText {
                path,
                name,
                content,
                edit: shown_edit,
                error,
            } && {
                &&& path == remote
                &&& name == remote_path::base_name_of(remote)
                &&& shown_edit == edit
                &&& large ==> content.len() == 0 && error == w.lang.pick(
                    "文件过大,无法在内置编辑器中打开(上限 2 MB),请下载查看"@,
                    "Too large for the built-in editor (2 MB limit); download it instead"@,
                )
                &&& !large ==> match bytes {
                    Ok(b) => (vstd::utf8::valid_utf8(b) && (forall|i: int|
                        0 <= i < b.len() ==> 0x20 <= #[trigger] b[i] <= 0x7e || b[i] >= 0x80
                            || b[i] == 0x09 || b[i] == 0x0a || b[i] == 0x0d)) ==> content
                        == vstd::utf8::decode_utf8(b) && error.len() == 0,
                    Err(ReadFaultOf::Open(m)) => content.len() == 0 && error == w.lang.pick(
                        "打开失败"@,
                        "Open failed"@,
                    ) + ": "@ + m,
                    Err(ReadFaultOf::Read(m)) => content.len() == 0 && error == w.lang.pick(
                        "读取失败"@,
                        "Read failed"@,
                    ) + ": "@ + m,
                }
            }
        }),
{
}

/// Saving a text: the whole text goes to the path that was asked for, and nothing else does; a
/// success is told with the name of the file and a failure with its reason.
pub proof fn law_saving_goes_as_asked(
    w: WorkerView,
    remote: Seq<char>,
    content: Seq<char>,
    id: Seq<char>,
    done: DoneView,
)
    ensures
        ({
            let (writing, first) = w.command(CommandView::WriteText { remote, content }, id);
            let (one, second) = writing.reply(ReplyView::Done(done));
            &&& first.op == (OpView::WriteAll { remote, content })
            &&& first.events.len() == 0
            &&& second.op is Idle
            &&& second.events.len() == 1
            &&& match done {
                Ok(_) => says(
                    second.events[0],
                    w.lang.pick("已保存"@, "Saved"@),
                    remote_path::base_name_of(remote),
                ),
                Err(m) => says(second.events[0], w.lang.pick("保存失败"@, "Save failed"@), m),
            }
        }),
{
}

/// Stopping a search stops the one that was started last, and tells that this one was cancelled:
/// its identifier, its root and its query. After that there is none to stop, until another one
/// is started.
pub proof fn law_search_is_stopped(
    w: WorkerView,
    search_id: Seq<char>,
    root: Seq<char>,
    query: Seq<char>,
    id: Seq<char>,
)
    ensures
        ({
            let (one, first) = w.command(CommandView::Search { search_id, root, query }, id);
            let (two, second) = one.command(CommandView::CancelSearch, id);
            let (three, third) = two.reply(ReplyView::Ready);
            let (four, fourth) = three.command(CommandView::CancelSearch, id);
            let q = text::trimmed(query);
            &&& first.op == (OpView::StartSearch { search_id, root, query: q })
            &&& first.events.len() == 0
            &&& second.op is AbortSearch
            &&& third.op is Idle
            &&& third.events == seq![
                EventView::SftpSearchStatus {
                    search_id,
                    root,
                    query: q,
                    state: SftpSearchState::Cancelled,
                    found: 0,
                    scanned: 0,
                    elapsed_ms: 0,
                },
            ]
            &&& three.search is None
            &&& fourth.op is Idle
            &&& fourth.events == seq![
                EventView::SftpStatus(w.lang.pick("当前没有正在运行的搜索"@, "No active search"@)),
            ]
        }),
{
}

/// Ending: everything under way is asked to stop first, and then the connection is closed.
pub proof fn law_closing_stops_everything(w: WorkerView, id: Seq<char>)
    ensures
        ({
            let (one, first) = w.command(CommandView::Close, id);
            let (two, second) = one.reply(ReplyView::Ready);
            &&& first.op is Halt
            &&& second.op is Stop
            &&& second.events == seq![
                EventView::SftpStatus(
                    w.lang.pick("文件连接已断开"@, "File connection disconnected"@),
                ),
            ]
        }),
{
}

/// The browser opens in the home directory that the server tells, in the root where it tells
/// none; what the server lists there is shown first.
pub proof fn law_home_is_shown(w: WorkerView, home: Option<Seq<char>>, l: ListedView)
    requires
        w.phase is FindHome,
    ensures
        ({
            let (one, first) = w.reply(ReplyView::Home(home));
            let (two, second) = one.reply(ReplyView::Listing(l));
            let dir = match home {
                Some(h) => h,
                None => "/"@,
            };
            &&& first.op == OpView::List(dir)
            &&& second.events.len() > 0
            &&& match l {
                Ok(entries) => second.events[0] == (EventView::SftpEntries { path: dir, entries }),
                Err(_) => second.events[0] is SftpError,
            }
            &&& second.op is Idle || second.op == OpView::List("/"@)
        }),
{
}

/// Listing a directory: what the server lists is shown, under the path that was asked for and
/// entry by entry as it came; a failure is told and changes nothing that is known.
pub proof fn law_listing_is_shown(w: WorkerView, path: Seq<char>, refresh: bool, id: Seq<char>, l: ListedView)
    ensures
        ({
            let c = if refresh {
                CommandView::RefreshDir(path)
            } else {
                CommandView::ListDir(path)
            };
            let (one, first) = w.command(c, id);
            let (two, second) = one.reply(ReplyView::Listing(l));
            &&& first.op == OpView::List(path)
            &&& second.events.len() > 0
            &&& match l {
                Ok(entries) => second.events[0] == (EventView::SftpEntries { path, entries }),
                Err(_) => second.events[0] is SftpError && two.tree == w.tree,
            }
            &&& l is Err && !refresh ==> second.op is Idle && second.events.len() == 1
            &&& two.tree.dirs == w.tree.dirs
        }),
{
    tree_walk::lemma_start_keeps(w.tree, remote_path::tree_path(path), false);
}

/// A double click on a directory of the tree: an expanded one is collapsed, and so is all below
/// it; a collapsed one is expanded, once its listing is known. Everything else stays as it was,
/// and the tree is shown again. No cached listing is lost.
pub proof fn law_toggling_expands_and_collapses(
    w: WorkerView,
    path: Seq<char>,
    id: Seq<char>,
    l: ListedView,
    p: Seq<char>,
)
    requires
        path != "/"@,
    ensures
        ({
            let (one, first) = w.command(CommandView::ToggleTreeNode(path), id);
            let (two, second) = one.reply(ReplyView::Listing(l));
            let below = p == path || text::begins(
                p,
                text::strip_end(path, CharSet::Only('/')) + "/"@,
            );
            &&& one.tree.dirs == w.tree.dirs
            &&& if w.tree.expanded.contains(path) {
                &&& first.op is Idle
                &&& first.events == seq![EventView::SftpTreeUpdate(tree::all_nodes(one.tree))]
                &&& one.tree.expanded.contains(p) <==> w.tree.expanded.contains(p) && !below
            } else if w.tree.dirs.contains_key(path) {
                &&& first.op is Idle
                &&& first.events == seq![EventView::SftpTreeUpdate(tree::all_nodes(one.tree))]
                &&& one.tree.expanded.contains(p) <==> w.tree.expanded.contains(p) || p == path
            } else {
                &&& first.op == OpView::List(path)
                &&& first.events.len() == 0
                &&& one.tree == w.tree
                &&& second.op is Idle
                &&& second.events == seq![EventView::SftpTreeUpdate(tree::all_nodes(two.tree))]
                &&& two.tree.expanded.contains(p) <==> w.tree.expanded.contains(p) || p == path
                &&& p != path ==> two.tree.dirs.contains_key(p) == w.tree.dirs.contains_key(p)
                &&& two.tree.dirs.contains_key(path) <==> l is Ok
            }
        }),
{
    tree_walk::lemma_expand_adds(w.tree, path, p);
    tree::lemma_collapse_drops(w.tree, path, p);
    match l {
        Ok(entries) => {
            tree_walk::lemma_expand_adds(
                w.tree.cache(path, crate::listing::dirs_among(entries)),
                path,
                p,
            );
        },
        Err(_) => {},
    }
}

/// A double click on the root collapses the whole tree, or expands the root again.
pub proof fn law_toggling_the_root(w: WorkerView, id: Seq<char>, l: ListedView)
    ensures
        ({
            let (one, first) = w.command(CommandView::ToggleTreeNode("/"@), id);
            let (two, second) = one.reply(ReplyView::Listing(l));
            &&& one.tree.dirs == w.tree.dirs
            &&& if w.tree.expanded.contains("/"@) {
                &&& first.op is Idle
                &&& one.tree.expanded.len() == 0
                &&& first.events == seq![EventView::SftpTreeUpdate(tree::all_nodes(one.tree))]
            } else {
                &&& first.op == OpView::List("/"@)
                &&& two.tree.expanded.contains("/"@)
                &&& second.events == seq![EventView::SftpTreeUpdate(tree::all_nodes(two.tree))]
            }
        }),
{
    let t = w.tree.keep("/"@, crate::worker::kids_of(l));
    tree_walk::lemma_expand_adds(t, "/"@, "/"@);
}

/// A listing that is made for the tree goes into it: what is cached of the directory are then the
/// subdirectories that the listing tells of, and what is cached of others stays. A listing that
/// fails changes nothing.
pub proof fn law_listing_goes_into_the_tree(w: WorkerView, dir: Seq<char>, l: ListedView)
    requires
        (w.phase matches PhaseOf::Walk { walk, dir: d, end } && d == dir) || (
        w.phase matches PhaseOf::RefreshTree { dir: d, rest } && d == dir) || (
        w.phase matches PhaseOf::Toggle { path } && path == dir),
    ensures
        ({
            let after = w.reply(ReplyView::Listing(l)).0.tree.dirs;
            &&& l matches Ok(entries) ==> after.contains_key(dir) && after[dir]
                == listing::dirs_among(entries)
            &&& l is Err ==> after == w.tree.dirs
            &&& forall|p: Seq<char>|
                p != dir ==> #[trigger] after.contains_key(p) == w.tree.dirs.contains_key(p)
            &&& forall|p: Seq<char>|
                p != dir && w.tree.dirs.contains_key(p) ==> #[trigger] after[p] == w.tree.dirs[p]
        }),
{
    match w.phase {
        PhaseOf::Walk { walk, dir: d, end } => {
            tree_walk::lemma_resume_keeps(w.tree.keep(dir, crate::worker::kids_of(l)), walk);
        },
        _ => {},
    }
}

/// After a directory was listed the tree is expanded on the way down to it, by its normal form,
/// and in the end its path is told; after the home directory was, on the way down to that one.
pub proof fn law_tree_opens_on_the_way_down(w: WorkerView, path: Seq<char>, entries: Seq<EntryView>)
    ensures
        ({
            let (after, turn) = w.at(PhaseOf::List { path }).reply(ReplyView::Listing(Ok(entries)));
            match after.phase {
                PhaseOf::Walk { walk, dir, end } => walk.target == remote_path::tree_path(path)
                    && turn.op == OpView::List(dir) && end == WalkEndOf::ShowPath(path),
                _ => turn.op is Idle && turn.events.last() == EventView::SftpStatus(path),
            }
        }),
        ({
            let (after, turn) = w.at(PhaseOf::ListHome { home: path }).reply(
                ReplyView::Listing(Ok(entries)),
            );
            match after.phase {
                PhaseOf::Walk { walk, dir, end } => walk.target == path && walk.eager && turn.op
                    == OpView::List(dir) && end == WalkEndOf::<Seq<char>>::Show,
                _ => turn.op is Idle && turn.events.last() is SftpTreeUpdate,
            }
        }),
{
    tree_walk::lemma_start_target(w.tree, remote_path::tree_path(path), false);
    tree_walk::lemma_start_target(w.tree, path, true);
}

} // verus!
