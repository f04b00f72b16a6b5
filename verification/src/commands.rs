//! What the user can ask of the file browser.
use crate::number;
use crate::operation_log;
use crate::operation_log::{LogEntry, LogView};
use crate::text;
use vstd::prelude::*;

verus! {

/// A command for the file browser.
#[derive(Debug)]
#[allow(inconsistent_fields)]
pub enum SftpCommand {
    /// List a directory.
    ListDir(String),
    /// List a directory again, and every directory that is expanded in the navigation tree, so
    /// that directories which came or went since then show up. Plain navigation uses `ListDir`,
    /// which does without those listings.
    RefreshDir(String),
    /// Expand a directory of the navigation tree, or collapse it.
    ToggleTreeNode(String),
    /// Search below directories, within bounds.
    Search { search_id: String, root: String, query: String },
    /// Stop the search that is running.
    CancelSearch,
    /// Download a file or a folder into a local directory.
    Download { remote: String, local_dir: String },
    /// Download several entries of a directory as one archive.
    DownloadArchive { remote_dir: String, names: Vec<String>, local_dir: String },
    /// Stop a transfer. What it has written so far goes.
    CancelTransfer(String),
    /// Upload a file or a folder into a remote directory.
    Upload { local: String, remote_dir: String },
    /// Delete a file or a directory.
    Delete(String),
    /// Download a file to a temporary directory and open it with its application; if it is to be
    /// edited, upload it again on every change.
    OpenTemp { remote: String, edit: bool },
    /// Rename or move a file or a directory.
    Rename { from: String, to: String },
    /// Set the permission bits of a file or a directory.
    Chmod { path: String, mode: u32 },
    /// Make an empty directory.
    MkDir(String),
    /// Make an empty file.
    TouchFile(String),
    /// Read the text of a file for the built-in editor.
    ReadText { remote: String, edit: bool },
    /// Write a text of the built-in editor to a file.
    WriteText { remote: String, content: String },
    /// End.
    Close,
}

/// The contents of a [`SftpCommand`].
#[verifier::ext_equal]
#[allow(inconsistent_fields)]
pub enum CommandView {
    ListDir(Seq<char>),
    RefreshDir(Seq<char>),
    ToggleTreeNode(Seq<char>),
    Search { search_id: Seq<char>, root: Seq<char>, query: Seq<char> },
    CancelSearch,
    Download { remote: Seq<char>, local_dir: Seq<char> },
    DownloadArchive { remote_dir: Seq<char>, names: Seq<Seq<char>>, local_dir: Seq<char> },
    CancelTransfer(Seq<char>),
    Upload { local: Seq<char>, remote_dir: Seq<char> },
    Delete(Seq<char>),
    OpenTemp { remote: Seq<char>, edit: bool },
    Rename { from: Seq<char>, to: Seq<char> },
    Chmod { path: Seq<char>, mode: u32 },
    MkDir(Seq<char>),
    TouchFile(Seq<char>),
    ReadText { remote: Seq<char>, edit: bool },
    WriteText { remote: Seq<char>, content: Seq<char> },
    Close,
}

impl View for SftpCommand {
    type V = CommandView;

    open spec fn view(&self) -> CommandView {
        match *self {
            SftpCommand::ListDir(p) => CommandView::ListDir(p@),
            SftpCommand::RefreshDir(p) => CommandView::RefreshDir(p@),
            SftpCommand::ToggleTreeNode(p) => CommandView::ToggleTreeNode(p@),
            SftpCommand::Search { search_id, root, query } => CommandView::Search {
                search_id: search_id@,
                root: root@,
                query: query@,
            },
            SftpCommand::CancelSearch => CommandView::CancelSearch,
            SftpCommand::Download { remote, local_dir } => CommandView::Download {
                remote: remote@,
                local_dir: local_dir@,
            },
            SftpCommand::DownloadArchive { remote_dir, names, local_dir } =>
                CommandView::DownloadArchive {
                remote_dir: remote_dir@,
                names: text::texts(names@),
                local_dir: local_dir@,
            },
            SftpCommand::CancelTransfer(id) => CommandView::CancelTransfer(id@),
            SftpCommand::Upload { local, remote_dir } => CommandView::Upload {
                local: local@,
                remote_dir: remote_dir@,
            },
            SftpCommand::Delete(p) => CommandView::Delete(p@),
            SftpCommand::OpenTemp { remote, edit } => CommandView::OpenTemp {
                remote: remote@,
                edit,
            },
            SftpCommand::Rename { from, to } => CommandView::Rename { from: from@, to: to@ },
            SftpCommand::Chmod { path, mode } => CommandView::Chmod { path: path@, mode },
            SftpCommand::MkDir(p) => CommandView::MkDir(p@),
            SftpCommand::TouchFile(p) => CommandView::TouchFile(p@),
            SftpCommand::ReadText { remote, edit } => CommandView::ReadText {
                remote: remote@,
                edit,
            },
            SftpCommand::WriteText { remote, content } => CommandView::WriteText {
                remote: remote@,
                content: content@,
            },
            SftpCommand::Close => CommandView::Close,
        }
    }
}

/// A command, and what is written to the operation log before it is handed over.
pub struct Request {
    pub log: Option<LogEntry>,
    pub command: SftpCommand,
}

/// The contents of an optional log entry.
pub open spec fn log_view(l: Option<LogEntry>) -> Option<LogView> {
    match l {
        Some(e) => Some(e@),
        None => None,
    }
}

/// What is written to the operation log for a command: what was asked and of what, but no
/// contents. Looking around is not logged.
pub open spec fn logged(c: CommandView) -> Option<LogView> {
    match c {
        CommandView::Download { remote, local_dir } => Some(
            operation_log::sftp_entry("下载"@, remote),
        ),
        CommandView::DownloadArchive { remote_dir, names, local_dir } => Some(
            operation_log::request_entry(
                "打包下载"@,
                remote_dir,
                number::decimal(names.len()) + " 项"@,
            ),
        ),
        CommandView::Upload { local, remote_dir } => Some(
            operation_log::request_entry("上传"@, remote_dir, local),
        ),
        CommandView::Search { search_id, root, query } => Some(
            operation_log::request_entry("搜索"@, root, query),
        ),
        CommandView::CancelSearch => Some(operation_log::request_entry("停止搜索"@, ""@, ""@)),
        CommandView::Delete(path) => Some(operation_log::sftp_entry("删除"@, path)),
        CommandView::OpenTemp { remote, edit } => Some(
            operation_log::sftp_entry(
                if edit {
                    "外部编辑"@
                } else {
                    "外部查看"@
                },
                remote,
            ),
        ),
        CommandView::Rename { from, to } => Some(
            operation_log::request_entry("重命名"@, from, "-> "@ + to),
        ),
        CommandView::Chmod { path, mode } => Some(
            operation_log::request_entry(
                "修改权限"@,
                path,
                number::octal((mode & 0o7777) as nat),
            ),
        ),
        CommandView::MkDir(path) => Some(operation_log::sftp_entry("新建文件夹"@, path)),
        CommandView::TouchFile(path) => Some(operation_log::sftp_entry("新建文件"@, path)),
        CommandView::ReadText { remote, edit } => Some(
            operation_log::sftp_entry(
                if edit {
                    "内置编辑"@
                } else {
                    "查看"@
                },
                remote,
            ),
        ),
        CommandView::WriteText { remote, content } => Some(
            operation_log::sftp_entry("保存编辑"@, remote),
        ),
        _ => None,
    }
}

/// The side of the file browser that the user interface holds: it turns what the user asks into
/// commands.
pub struct SftpHandle {
    /// How many milliseconds transfers get to clean up after the end was asked for, before they
    /// are stopped by force.
    pub grace_ms: u64,
}

impl SftpHandle {
    /// A handle.
    pub fn new() -> (out: SftpHandle)
        ensures
            out.grace_ms == 250,
    {
        SftpHandle { grace_ms: 250 }
    }

    /// Lists a directory.
    pub fn list_dir(&self, path: String) -> (out: Request)
        ensures
            out.command@ == CommandView::ListDir(path@),
            log_view(out.log) == logged(out.command@),
    {
        Request { log: None, command: SftpCommand::ListDir(path) }
    }

    /// Lists a directory again, and the expanded navigation tree.
    pub fn refresh_dir(&self, path: String) -> (out: Request)
        ensures
            out.command@ == CommandView::RefreshDir(path@),
            log_view(out.log) == logged(out.command@),
    {
        Request { log: None, command: SftpCommand::RefreshDir(path) }
    }

    /// Downloads a file or a folder.
    pub fn download(&self, remote: String, local_dir: String) -> (out: Request)
        ensures
            out.command@ == (CommandView::Download { remote: remote@, local_dir: local_dir@ }),
            log_view(out.log) == logged(out.command@),
    {
        let log = Some(operation_log::record_sftp("下载", remote.as_str()));
        Request { log, command: SftpCommand::Download { remote, local_dir } }
    }

    /// Downloads several entries of a directory as one archive.
    pub fn download_archive(&self, remote_dir: String, names: Vec<String>, local_dir: String) -> (out:
        Request)
        ensures
            out.command@ == (CommandView::DownloadArchive {
                remote_dir: remote_dir@,
                names: text::texts(names@),
                local_dir: local_dir@,
            }),
            log_view(out.log) == logged(out.command@),
    {
        let count = number::number_text(names.len() as u64, 10);
        let detail = text::join2(count.as_str(), " 项");
        let log = Some(
            operation_log::record("打包下载", remote_dir.as_str(), "请求", detail.as_str()),
        );
        assert(text::texts(names@).len() == names@.len());
        Request { log, command: SftpCommand::DownloadArchive { remote_dir, names, local_dir } }
    }

    /// Stops a transfer.
    pub fn cancel_transfer(&self, id: String) -> (out: Request)
        ensures
            out.command@ == CommandView::CancelTransfer(id@),
            log_view(out.log) == logged(out.command@),
    {
        Request { log: None, command: SftpCommand::CancelTransfer(id) }
    }

    /// Uploads a file or a folder.
    pub fn upload(&self, local: String, remote_dir: String) -> (out: Request)
        ensures
            out.command@ == (CommandView::Upload { local: local@, remote_dir: remote_dir@ }),
            log_view(out.log) == logged(out.command@),
    {
        let log = Some(
            operation_log::record("上传", remote_dir.as_str(), "请求", local.as_str()),
        );
        Request { log, command: SftpCommand::Upload { local, remote_dir } }
    }

    /// Expands a directory of the navigation tree, or collapses it.
    pub fn toggle_tree_node(&self, path: String) -> (out: Request)
        ensures
            out.command@ == CommandView::ToggleTreeNode(path@),
            log_view(out.log) == logged(out.command@),
    {
        Request { log: None, command: SftpCommand::ToggleTreeNode(path) }
    }

    /// Searches below directories.
    pub fn search(&self, search_id: String, root: String, query: String) -> (out: Request)
        ensures
            out.command@ == (CommandView::Search {
                search_id: search_id@,
                root: root@,
                query: query@,
            }),
            log_view(out.log) == logged(out.command@),
    {
        let log = Some(operation_log::record("搜索", root.as_str(), "请求", query.as_str()));
        Request { log, command: SftpCommand::Search { search_id, root, query } }
    }

    /// Stops the search that is running.
    pub fn cancel_search(&self) -> (out: Request)
        ensures
            out.command@ == CommandView::CancelSearch,
            log_view(out.log) == logged(out.command@),
    {
        let log = Some(operation_log::record("停止搜索", "", "请求", ""));
        Request { log, command: SftpCommand::CancelSearch }
    }

    /// Deletes a file or a directory.
    pub fn delete(&self, path: String) -> (out: Request)
        ensures
            out.command@ == CommandView::Delete(path@),
            log_view(out.log) == logged(out.command@),
    {
        let log = Some(operation_log::record_sftp("删除", path.as_str()));
        Request { log, command: SftpCommand::Delete(path) }
    }

    /// Opens a file with its application.
    pub fn open_temp(&self, remote: String, edit: bool) -> (out: Request)
        ensures
            out.command@ == (CommandView::OpenTemp { remote: remote@, edit }),
            log_view(out.log) == logged(out.command@),
    {
        let action = if edit {
            "外部编辑"
        } else {
            "外部查看"
        };
        let log = Some(operation_log::record_sftp(action, remote.as_str()));
        Request { log, command: SftpCommand::OpenTemp { remote, edit } }
    }

    /// Renames or moves a file or a directory.
    pub fn rename(&self, from: String, to: String) -> (out: Request)
        ensures
            out.command@ == (CommandView::Rename { from: from@, to: to@ }),
            log_view(out.log) == logged(out.command@),
    {
        let detail = text::join2("-> ", to.as_str());
        let log = Some(
            operation_log::record("重命名", from.as_str(), "请求", detail.as_str()),
        );
        Request { log, command: SftpCommand::Rename { from, to } }
    }

    /// Sets the permission bits of a file or a directory.
    pub fn chmod(&self, path: String, mode: u32) -> (out: Request)
        ensures
            out.command@ == (CommandView::Chmod { path: path@, mode }),
            log_view(out.log) == logged(out.command@),
    {
        let bits: u32 = mode & 0o7777;
        let detail = number::number_text(bits as u64, 8);
        let log = Some(
            operation_log::record("修改权限", path.as_str(), "请求", detail.as_str()),
        );
        Request { log, command: SftpCommand::Chmod { path, mode } }
    }

    /// Makes an empty directory.
    pub fn mkdir(&self, path: String) -> (out: Request)
        ensures
            out.command@ == CommandView::MkDir(path@),
            log_view(out.log) == logged(out.command@),
    {
        let log = Some(operation_log::record_sftp("新建文件夹", path.as_str()));
        Request { log, command: SftpCommand::MkDir(path) }
    }

    /// Makes an empty file.
    pub fn touch(&self, path: String) -> (out: Request)
        ensures
            out.command@ == CommandView::TouchFile(path@),
            log_view(out.log) == logged(out.command@),
    {
        let log = Some(operation_log::record_sftp("新建文件", path.as_str()));
        Request { log, command: SftpCommand::TouchFile(path) }
    }

    /// Reads the text of a file for the built-in editor.
    pub fn read_text(&self, remote: String, edit: bool) -> (out: Request)
        ensures
            out.command@ == (CommandView::ReadText { remote: remote@, edit }),
            log_view(out.log) == logged(out.command@),
    {
        let action = if edit {
            "内置编辑"
        } else {
            "查看"
        };
        let log = Some(operation_log::record_sftp(action, remote.as_str()));
        Request { log, command: SftpCommand::ReadText { remote, edit } }
    }

    /// Writes a text of the built-in editor to a file.
    pub fn write_text(&self, remote: String, content: String) -> (out: Request)
        ensures
            out.command@ == (CommandView::WriteText { remote: remote@, content: content@ }),
            log_view(out.log) == logged(out.command@),
    {
        let log = Some(operation_log::record_sftp("保存编辑", remote.as_str()));
        Request { log, command: SftpCommand::WriteText { remote, content } }
    }

    /// Ends the file browser.
    pub fn close(&self) -> (out: Request)
        ensures
            out.command@ == CommandView::Close,
            log_view(out.log) == logged(out.command@),
    {
        Request { log: None, command: SftpCommand::Close }
    }
}

/// The operation log never holds the contents of a file: what is logged for saving a text does
/// not depend on the text.
pub proof fn law_log_holds_no_contents(remote: Seq<char>, a: Seq<char>, b: Seq<char>)
    ensures
        logged(CommandView::WriteText { remote, content: a }) == logged(
            CommandView::WriteText { remote, content: b },
        ),
{
}

/// What a command is about, where it is about one thing that is logged.
pub open spec fn subject(c: CommandView) -> Option<Seq<char>> {
    match c {
        CommandView::Download { remote, local_dir } => Some(remote),
        CommandView::DownloadArchive { remote_dir, names, local_dir } => Some(remote_dir),
        CommandView::Upload { local, remote_dir } => Some(remote_dir),
        CommandView::Search { search_id, root, query } => Some(root),
        CommandView::Delete(path) => Some(path),
        CommandView::OpenTemp { remote, edit } => Some(remote),
        CommandView::Rename { from, to } => Some(from),
        CommandView::Chmod { path, mode } => Some(path),
        CommandView::MkDir(path) => Some(path),
        CommandView::TouchFile(path) => Some(path),
        CommandView::ReadText { remote, edit } => Some(remote),
        CommandView::WriteText { remote, content } => Some(remote),
        _ => None,
    }
}

/// The operation log names what each command is about, and how: where it goes for a renaming, the
/// bits for a change of permissions, in octal digits that spell them, what is uploaded, what is
/// searched for, and how many entries are packed. Looking around is not logged, nor is stopping
/// a transfer.
pub proof fn law_log_names_what_was_asked(c: CommandView)
    requires
        subject(c) matches Some(p) ==> operation_log::fits_field(p),
    ensures
        subject(c) matches Some(p) ==> (logged(c) matches Some(e) && e.target == p && e.status
            == "请求"@),
        logged(c) matches Some(e) ==> e.action == match c {
            CommandView::Download { .. } => "下载"@,
            CommandView::DownloadArchive { .. } => "打包下载"@,
            CommandView::Upload { .. } => "上传"@,
            CommandView::Search { .. } => "搜索"@,
            CommandView::CancelSearch => "停止搜索"@,
            CommandView::Delete(_) => "删除"@,
            CommandView::OpenTemp { remote, edit } => if edit {
                "外部编辑"@
            } else {
                "外部查看"@
            },
            CommandView::Rename { .. } => "重命名"@,
            CommandView::Chmod { .. } => "修改权限"@,
            CommandView::MkDir(_) => "新建文件夹"@,
            CommandView::TouchFile(_) => "新建文件"@,
            CommandView::ReadText { remote, edit } => if edit {
                "内置编辑"@
            } else {
                "查看"@
            },
            _ => "保存编辑"@,
        },
        c is ListDir || c is RefreshDir || c is ToggleTreeNode || c is CancelTransfer || c is Close
            ==> logged(c) is None,
        c is CancelSearch ==> logged(c) is Some,
        c matches CommandView::Rename { from, to } ==> logged(c)->0.detail
            == operation_log::field_text("-> "@ + to),
        c matches CommandView::Upload { local, remote_dir } ==> logged(c)->0.detail
            == operation_log::field_text(local),
        c matches CommandView::Search { search_id, root, query } ==> logged(c)->0.detail
            == operation_log::field_text(query),
        c matches CommandView::Chmod { path, mode } ==> number::number_in(
            logged(c)->0.detail,
            8,
            4095,
        ) == Some((mode & 0o7777) as nat),
        c matches CommandView::DownloadArchive { remote_dir, names, local_dir } ==> logged(
            c,
        )->0.detail == operation_log::field_text(number::decimal(names.len()) + " 项"@),
{
    match subject(c) {
        Some(p) => {
            operation_log::law_fields_fit(p);
        },
        None => {},
    }
    match c {
        CommandView::Chmod { path, mode } => {
            assert(mode & 0o7777 <= 4095) by (bit_vector);
            let digits = number::octal((mode & 0o7777) as nat);
            number::lemma_octal((mode & 0o7777) as nat);
            number::law_number_round_trip((mode & 0o7777) as nat, 8, 4095);
            assert(operation_log::fits_field(digits)) by {
                assert forall|i: int| 0 <= i < digits.len() implies digits[i] != '\t' && digits[i]
                    != '\n' && digits[i] != '\r' by {}
            }
            operation_log::law_fields_fit(digits);
        },
        _ => {},
    }
}

} // verus!
