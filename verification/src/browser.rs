//! The file browser over a plain shell, for servers without a file service: what it does with
//! each command, one operation at a time.
use crate::commands::{CommandView, SftpCommand};
use crate::events;
use crate::events::{EntryView, EventView, RemoteEntry, SessionEvent, SftpSearchState};
use crate::folder;
use crate::ids;
use crate::lang::Lang;
use crate::listing;
use crate::listing::ExecOutput;
use crate::messages;
use crate::number;
use crate::remote_path;
use crate::shell;
use crate::text;
use crate::tree;
use crate::tree::{TreeState, TreeView};
use crate::tree_walk;
use crate::tree_walk::{TreeWalk, WalkTurn, WalkView};
use crate::utf8;
use crate::worker;
use crate::worker::SearchKey;
use vstd::prelude::*;

verus! {

// ---------------------------------------------------------------------------
// Operations and answers
// ---------------------------------------------------------------------------

/// What the browser wants done; `S` holds texts and `B` bytes.
#[allow(inconsistent_fields)]
pub enum ShellOpOf<S, B> {
    /// Nothing: wait for the next command.
    Idle,
    /// Run a command on the server.
    Exec(S),
    /// Write bytes under a name to a local directory.
    WriteLocal { dir: S, name: S, bytes: B },
    /// Write bytes under a name to the temporary directory.
    WriteTemp { name: S, bytes: B },
    /// Open a local file with its application.
    OpenLocal(S),
    /// Start a search in place of the one before, and wait for the next command.
    StartSearch { search_id: S, root: S, query: S },
    /// Stop the search.
    AbortSearch,
    /// Start an upload, and wait for the next command.
    StartUpload { id: S, local: S, remote_dir: S },
    /// Ask a transfer to stop, and wait for the next command.
    CancelTransfer(S),
    /// Ask the search and all transfers to stop.
    Halt,
    /// Disconnect. Nothing follows.
    Stop,
}

pub type ShellOp = ShellOpOf<String, Vec<u8>>;

pub type ShellOpView = ShellOpOf<Seq<char>, Seq<u8>>;

impl View for ShellOpOf<String, Vec<u8>> {
    type V = ShellOpView;

    open spec fn view(&self) -> ShellOpView {
        match *self {
            ShellOpOf::Idle => ShellOpOf::Idle,
            ShellOpOf::Exec(c) => ShellOpOf::Exec(c@),
            ShellOpOf::WriteLocal { dir, name, bytes } => ShellOpOf::WriteLocal {
                dir: dir@,
                name: name@,
                bytes: bytes@,
            },
            ShellOpOf::WriteTemp { name, bytes } => ShellOpOf::WriteTemp {
                name: name@,
                bytes: bytes@,
            },
            ShellOpOf::OpenLocal(p) => ShellOpOf::OpenLocal(p@),
            ShellOpOf::StartSearch { search_id, root, query } => ShellOpOf::StartSearch {
                search_id: search_id@,
                root: root@,
                query: query@,
            },
            ShellOpOf::AbortSearch => ShellOpOf::AbortSearch,
            ShellOpOf::StartUpload { id, local, remote_dir } => ShellOpOf::StartUpload {
                id: id@,
                local: local@,
                remote_dir: remote_dir@,
            },
            ShellOpOf::CancelTransfer(id) => ShellOpOf::CancelTransfer(id@),
            ShellOpOf::Halt => ShellOpOf::Halt,
            ShellOpOf::Stop => ShellOpOf::Stop,
        }
    }
}

/// What became of an operation.
pub enum ShellReply {
    /// What the command came to, or why it could not be run.
    Exec(Result<ExecOutput, String>),
    /// The path of the local file, and whether it was written.
    Written { local: String, written: bool },
    Ready,
}

/// The contents of an [`ExecOutput`].
#[verifier::ext_equal]
pub struct ExecView {
    pub code: u32,
    pub out: Seq<u8>,
    pub err: Seq<u8>,
}

/// What a command came to, or why it could not be run.
pub type RunView = Result<ExecView, Seq<char>>;

/// The contents of what a command came to.
pub open spec fn run_view(r: Result<ExecOutput, String>) -> RunView {
    match r {
        Ok(d) => Ok(ExecView { code: d.code, out: d.out@, err: d.err@ }),
        Err(m) => Err(m@),
    }
}

/// The contents of a [`ShellReply`].
#[verifier::ext_equal]
pub enum ShellReplyView {
    Exec(RunView),
    Written { local: Seq<char>, written: bool },
    Ready,
}

impl View for ShellReply {
    type V = ShellReplyView;

    open spec fn view(&self) -> ShellReplyView {
        match *self {
            ShellReply::Exec(r) => ShellReplyView::Exec(run_view(r)),
            ShellReply::Written { local, written } => ShellReplyView::Written {
                local: local@,
                written,
            },
            ShellReply::Ready => ShellReplyView::Ready,
        }
    }
}

/// What is reported, and what is to be done next.
pub struct ShellTurn {
    pub events: Vec<SessionEvent>,
    pub op: ShellOp,
}

/// The contents of a [`ShellTurn`].
#[verifier::ext_equal]
pub struct ShellTurnView {
    pub events: Seq<EventView>,
    pub op: ShellOpView,
}

impl View for ShellTurn {
    type V = ShellTurnView;

    open spec fn view(&self) -> ShellTurnView {
        ShellTurnView { events: events::events_view(self.events@), op: self.op@ }
    }
}

/// A change that a command makes, for the message when it fails.
#[derive(Debug, Clone, Copy, PartialEq, Eq, Structural)]
pub enum Change {
    MakeDir,
    Touch,
    Delete,
    Rename,
    Mode,
}

impl Change {
    /// The title of the message when the change fails.
    pub open spec fn title(self, lang: Lang) -> Seq<char> {
        match self {
            Change::MakeDir => lang.pick("新建文件夹失败"@, "Create folder failed"@),
            Change::Touch => lang.pick("新建文件失败"@, "Create file failed"@),
            Change::Delete => lang.pick("删除失败"@, "Delete failed"@),
            Change::Rename => lang.pick("重命名失败"@, "Rename failed"@),
            Change::Mode => lang.pick("修改权限失败"@, "chmod failed"@),
        }
    }

    /// Whether the change may concern the navigation tree.
    pub open spec fn touches_tree(self) -> bool {
        self == Change::MakeDir || self == Change::Delete
    }

    fn fail_title(self, lang: Lang) -> (out: &'static str)
        ensures
            out@ == self.title(lang),
    {
        match self {
            Change::MakeDir => lang.t("新建文件夹失败", "Create folder failed"),
            Change::Touch => lang.t("新建文件失败", "Create file failed"),
            Change::Delete => lang.t("删除失败", "Delete failed"),
            Change::Rename => lang.t("重命名失败", "Rename failed"),
            Change::Mode => lang.t("修改权限失败", "chmod failed"),
        }
    }
}

// ---------------------------------------------------------------------------
// State
// ---------------------------------------------------------------------------

/// What the browser waits for; `S` holds texts, `L` lists of texts and `W` a walk through the
/// tree.
#[allow(inconsistent_fields)]
pub enum ShellPhaseOf<S, L, W> {
    /// The next command.
    Idle,
    FindHome,
    /// The listing of the home directory.
    ShowHome { home: S },
    /// The first listing of the root.
    ListRoot { home: S },
    /// The listing of a directory on the way through the tree; after a refresh, the expanded
    /// directories follow.
    Walk { walk: W, dir: S, refresh: bool },
    /// The listing of a directory that is shown.
    Show { path: S, refresh: bool },
    /// The listing of an expanded directory; `rest` holds those to come, the next one last.
    RefreshTree { dir: S, rest: L },
    Toggle { path: S },
    /// A change in a directory.
    Act { change: Change, dir: S },
    /// The listing of that directory for the tree.
    Sync { dir: S },
    /// The listing of that directory, which is shown.
    ShowAgain { dir: S },
    Read { remote: S, edit: bool },
    Write { remote: S },
    Fetch { remote: S, local_dir: S },
    FetchWrite { name: S },
    TempFetch { remote: S, edit: bool },
    TempWrite { edit: bool },
    TempOpen { edit: bool },
    SearchStop { search_id: S, root: S, query: S },
    Closing,
}

pub type ShellPhase = ShellPhaseOf<String, Vec<String>, TreeWalk>;

pub type ShellPhaseView = ShellPhaseOf<Seq<char>, Seq<Seq<char>>, WalkView>;

impl View for ShellPhaseOf<String, Vec<String>, TreeWalk> {
    type V = ShellPhaseView;

    open spec fn view(&self) -> ShellPhaseView {
        match *self {
            ShellPhaseOf::Idle => ShellPhaseOf::Idle,
            ShellPhaseOf::FindHome => ShellPhaseOf::FindHome,
            ShellPhaseOf::ShowHome { home } => ShellPhaseOf::ShowHome { home: home@ },
            ShellPhaseOf::ListRoot { home } => ShellPhaseOf::ListRoot { home: home@ },
            ShellPhaseOf::Walk { walk, dir, refresh } => ShellPhaseOf::Walk {
                walk: walk@,
                dir: dir@,
                refresh,
            },
            ShellPhaseOf::Show { path, refresh } => ShellPhaseOf::Show { path: path@, refresh },
            ShellPhaseOf::RefreshTree { dir, rest } => ShellPhaseOf::RefreshTree {
                dir: dir@,
                rest: text::texts(rest@),
            },
            ShellPhaseOf::Toggle { path } => ShellPhaseOf::Toggle { path: path@ },
            ShellPhaseOf::Act { change, dir } => ShellPhaseOf::Act { change, dir: dir@ },
            ShellPhaseOf::Sync { dir } => ShellPhaseOf::Sync { dir: dir@ },
            ShellPhaseOf::ShowAgain { dir } => ShellPhaseOf::ShowAgain { dir: dir@ },
            ShellPhaseOf::Read { remote, edit } => ShellPhaseOf::Read { remote: remote@, edit },
            ShellPhaseOf::Write { remote } => ShellPhaseOf::Write { remote: remote@ },
            ShellPhaseOf::Fetch { remote, local_dir } => ShellPhaseOf::Fetch {
                remote: remote@,
                local_dir: local_dir@,
            },
            ShellPhaseOf::FetchWrite { name } => ShellPhaseOf::FetchWrite { name: name@ },
            ShellPhaseOf::TempFetch { remote, edit } => ShellPhaseOf::TempFetch {
                remote: remote@,
                edit,
            },
            ShellPhaseOf::TempWrite { edit } => ShellPhaseOf::TempWrite { edit },
            ShellPhaseOf::TempOpen { edit } => ShellPhaseOf::TempOpen { edit },
            ShellPhaseOf::SearchStop { search_id, root, query } => ShellPhaseOf::SearchStop {
                search_id: search_id@,
                root: root@,
                query: query@,
            },
            ShellPhaseOf::Closing => ShellPhaseOf::Closing,
        }
    }
}

/// The file browser over a shell.
pub struct ShellBrowser {
    pub lang: Lang,
    pub tree: TreeState,
    /// The search that was started last, unless it was stopped.
    pub search: Option<SearchKey>,
    pub phase: ShellPhase,
}

/// The contents of a [`ShellBrowser`].
#[verifier::ext_equal]
pub struct BrowserView {
    pub lang: Lang,
    pub tree: TreeView,
    pub search: Option<(Seq<char>, Seq<char>, Seq<char>)>,
    pub phase: ShellPhaseView,
}

impl View for ShellBrowser {
    type V = BrowserView;

    open spec fn view(&self) -> BrowserView {
        BrowserView {
            lang: self.lang,
            tree: self.tree@,
            search: worker::search_view(self.search),
            phase: self.phase@,
        }
    }
}

// ---------------------------------------------------------------------------
// What follows what
// ---------------------------------------------------------------------------

/// The entries that a listing command tells of, or the message where there are none.
pub open spec fn run_listing(path: Seq<char>, r: RunView) -> Result<Seq<EntryView>, Seq<char>> {
    match r {
        Ok(d) => if d.code == 0 {
            Ok(listing::shell_entries(path, d.out))
        } else {
            Err(listing::shell_list_failure(path, d.err))
        },
        Err(m) => Err(m),
    }
}

/// The reports on a listing that is shown.
pub open spec fn show_reports(path: Seq<char>, r: RunView, lang: Lang) -> Seq<EventView> {
    match run_listing(path, r) {
        Ok(entries) => seq![
            EventView::SftpEntries { path, entries },
            EventView::SftpStatus(path + " · "@ + lang.pick("SSH 文件浏览"@, "SSH browser"@)),
        ],
        Err(m) => seq![EventView::SftpError(messages::listing_failure(path, m, lang))],
    }
}

/// The report on a command that made a change, where it failed.
pub open spec fn act_reports(change: Change, r: RunView, lang: Lang) -> Seq<EventView> {
    match r {
        Ok(d) => if d.code == 0 {
            Seq::empty()
        } else {
            seq![worker::titled_event(change.title(lang), listing::complaint(d.err))]
        },
        Err(m) => seq![worker::titled_event(change.title(lang), m)],
    }
}

/// The text of a file for the built-in editor, or the message why there is none.
pub open spec fn run_text(r: RunView, lang: Lang) -> Result<Seq<char>, Seq<char>> {
    match r {
        Ok(d) => shell::shell_text(d.code, d.out, d.err, lang),
        Err(m) => Err(m),
    }
}

/// The bytes of a downloaded file, or the message why there are none.
pub open spec fn run_file(r: RunView, lang: Lang) -> Result<Seq<u8>, Seq<char>> {
    match r {
        Ok(d) => shell::shell_file(d.code, d.out, d.err, lang),
        Err(m) => Err(m),
    }
}

/// The home directory that the working directory command told.
pub open spec fn run_home(r: RunView) -> Seq<char> {
    match r {
        Ok(d) => if d.code == 0 {
            text::trimmed(utf8::lossy(d.out))
        } else {
            "/"@
        },
        Err(_) => "/"@,
    }
}

impl BrowserView {
    pub open spec fn at(self, phase: ShellPhaseView) -> BrowserView {
        BrowserView { phase, ..self }
    }

    pub open spec fn with_tree(self, tree: TreeView) -> BrowserView {
        BrowserView { tree, ..self }
    }

    /// Reports, and then an operation that is waited for.
    pub open spec fn ask(self, phase: ShellPhaseView, reports: Seq<EventView>, op: ShellOpView) -> (
        BrowserView,
        ShellTurnView,
    ) {
        (self.at(phase), ShellTurnView { events: reports, op })
    }

    /// Reports, and then the next command.
    pub open spec fn rest(self, reports: Seq<EventView>) -> (BrowserView, ShellTurnView) {
        self.ask(ShellPhaseOf::Idle, reports, ShellOpOf::Idle)
    }

    /// The rows of the navigation tree.
    pub open spec fn rows(self) -> EventView {
        EventView::SftpTreeUpdate(tree::all_nodes(self.tree))
    }

    /// Reports, and then the listing of a directory.
    pub open spec fn list(self, phase: ShellPhaseView, reports: Seq<EventView>, dir: Seq<char>) -> (
        BrowserView,
        ShellTurnView,
    ) {
        self.ask(phase, reports, ShellOpOf::Exec(listing::list_command_text(dir)))
    }

    /// Reports, and then the listing of a directory that is shown.
    pub open spec fn show(self, phase: ShellPhaseView, reports: Seq<EventView>, path: Seq<char>) -> (
        BrowserView,
        ShellTurnView,
    ) {
        self.list(
            phase,
            reports.push(events::loading(path, self.lang)),
            path,
        )
    }

    /// The expanded directories are listed again, one after the other.
    pub open spec fn refreshing(self, reports: Seq<EventView>, rest: Seq<Seq<char>>) -> (
        BrowserView,
        ShellTurnView,
    ) {
        if rest.len() == 0 {
            self.rest(reports.push(self.rows()))
        } else {
            self.list(
                ShellPhaseOf::RefreshTree { dir: rest.last(), rest: rest.drop_last() },
                reports,
                rest.last(),
            )
        }
    }

    /// On the way through the tree, after some reports.
    pub open spec fn walking(self, reports: Seq<EventView>, turn: WalkTurn, refresh: bool) -> (
        BrowserView,
        ShellTurnView,
    ) {
        let there = self.with_tree(turn.0);
        match turn.2 {
            Some(dir) => there.list(
                ShellPhaseOf::Walk { walk: turn.1, dir, refresh },
                reports,
                dir,
            ),
            None => if refresh {
                there.refreshing(reports, worker::next_last(there.tree.expanded))
            } else {
                there.rest(reports.push(there.rows()))
            },
        }
    }

    /// A change, by a command.
    pub open spec fn act(self, change: Change, dir: Seq<char>, cmd: Seq<char>) -> (
        BrowserView,
        ShellTurnView,
    ) {
        self.ask(ShellPhaseOf::Act { change, dir }, Seq::empty(), ShellOpOf::Exec(cmd))
    }

    /// What a command leads to; `id` is the identifier of an upload that it starts.
    pub open spec fn command(self, c: CommandView, id: Seq<char>) -> (BrowserView, ShellTurnView) {
        let none = Seq::<EventView>::empty();
        match c {
            CommandView::ListDir(path) => self.show(
                ShellPhaseOf::Show { path, refresh: false },
                none,
                path,
            ),
            CommandView::RefreshDir(path) => self.show(
                ShellPhaseOf::Show { path, refresh: true },
                none,
                path,
            ),
            CommandView::ToggleTreeNode(path) => {
                let (t, dir) = tree_walk::toggled(self.tree, path);
                let there = self.with_tree(t);
                match dir {
                    Some(d) => there.list(ShellPhaseOf::Toggle { path: d }, none, d),
                    None => there.rest(seq![there.rows()]),
                }
            },
            CommandView::Search { search_id, root, query } => {
                let q = text::trimmed(query);
                BrowserView { search: Some((search_id, root, q)), ..self }.ask(
                    ShellPhaseOf::Idle,
                    none,
                    ShellOpOf::StartSearch { search_id, root, query: q },
                )
            },
            CommandView::CancelSearch => match self.search {
                Some((search_id, root, query)) => BrowserView { search: None, ..self }.ask(
                    ShellPhaseOf::SearchStop { search_id, root, query },
                    none,
                    ShellOpOf::AbortSearch,
                ),
                None => self.rest(
                    seq![
                        EventView::SftpStatus(
                            self.lang.pick("当前没有正在运行的搜索"@, "No active search"@),
                        ),
                    ],
                ),
            },
            CommandView::Download { remote, local_dir } => self.ask(
                ShellPhaseOf::Fetch { remote, local_dir },
                none,
                ShellOpOf::Exec(shell::fetch_command_text(remote)),
            ),
            CommandView::DownloadArchive { remote_dir, names, local_dir } => self.rest(
                seq![
                    EventView::SftpStatus(
                        self.lang.pick(
                            "SSH 兼容模式暂不支持批量打包下载"@,
                            "SSH-compatible mode does not support archive downloads yet"@,
                        ),
                    ),
                ],
            ),
            CommandView::CancelTransfer(which) => self.ask(
                ShellPhaseOf::Idle,
                none,
                ShellOpOf::CancelTransfer(which),
            ),
            CommandView::Upload { local, remote_dir } => self.ask(
                ShellPhaseOf::Idle,
                none,
                ShellOpOf::StartUpload { id, local, remote_dir },
            ),
            CommandView::Delete(path) => if remote_path::forbidden(path) {
                self.rest(
                    seq![
                        worker::titled_event(
                            self.lang.pick("鍒犻櫎澶辫触"@, "Delete failed"@),
                            self.lang.pick(
                                "拒绝删除危险路径"@,
                                "Refusing to delete a dangerous path"@,
                            ),
                        ),
                    ],
                )
            } else {
                self.act(
                    Change::Delete,
                    remote_path::parent_dir_of(path),
                    "p="@ + remote_path::quoted(path) + shell::DELETE_TAIL@,
                )
            },
            CommandView::OpenTemp { remote, edit } => self.ask(
                ShellPhaseOf::TempFetch { remote, edit },
                none,
                ShellOpOf::Exec(shell::fetch_command_text(remote)),
            ),
            CommandView::Rename { from, to } => self.act(
                Change::Rename,
                remote_path::parent_dir_of(to),
                "mv "@ + remote_path::quoted(from) + " "@ + remote_path::quoted(to),
            ),
            CommandView::Chmod { path, mode } => self.act(
                Change::Mode,
                remote_path::parent_dir_of(path),
                "chmod "@ + number::octal((mode & 0o7777) as nat) + " "@ + remote_path::quoted(
                    path,
                ),
            ),
            CommandView::MkDir(path) => self.act(
                Change::MakeDir,
                remote_path::parent_dir_of(path),
                "mkdir -p "@ + remote_path::quoted(path),
            ),
            CommandView::TouchFile(path) => self.act(
                Change::Touch,
                remote_path::parent_dir_of(path),
                "test -e "@ + remote_path::quoted(path) + " || : > "@ + remote_path::quoted(path),
            ),
            CommandView::ReadText { remote, edit } => self.ask(
                ShellPhaseOf::Read { remote, edit },
                none,
                ShellOpOf::Exec(shell::read_text_command_text(remote)),
            ),
            CommandView::WriteText { remote, content } => self.ask(
                ShellPhaseOf::Write { remote },
                none,
                ShellOpOf::Exec(
                    shell::write_command_text(
                        shell::base64_text(vstd::utf8::encode_utf8(content)),
                        remote,
                    ),
                ),
            ),
            CommandView::Close => self.ask(ShellPhaseOf::Closing, none, ShellOpOf::Halt),
        }
    }

    /// After a change: the tree follows where the change concerns it.
    pub open spec fn acted(self, change: Change, dir: Seq<char>, r: RunView) -> (
        BrowserView,
        ShellTurnView,
    ) {
        let told = act_reports(change, r, self.lang);
        if change.touches_tree() && self.tree.dirs.contains_key(dir) {
            self.list(ShellPhaseOf::Sync { dir }, told, dir)
        } else {
            self.show(ShellPhaseOf::ShowAgain { dir }, told, dir)
        }
    }

    /// After the directory of a change was listed for the tree.
    pub open spec fn synced(self, dir: Seq<char>, r: RunView) -> (BrowserView, ShellTurnView) {
        match run_listing(dir, r) {
            Ok(entries) => {
                let there = self.with_tree(
                    self.tree.keep(dir, Some(listing::dirs_among(entries))),
                );
                there.show(ShellPhaseOf::ShowAgain { dir }, seq![there.rows()], dir)
            },
            Err(_) => self.show(ShellPhaseOf::ShowAgain { dir }, Seq::empty(), dir),
        }
    }

    /// The text of a file for the built-in editor, or why there is none.
    pub open spec fn file_text(
        self,
        remote: Seq<char>,
        edit: bool,
        r: Result<Seq<char>, Seq<char>>,
    ) -> (BrowserView, ShellTurnView) {
        self.rest(
            seq![
                EventView::SftpFileText {
                    path: remote,
                    name: remote_path::base_name_of(remote),
                    content: match r {
                        Ok(s) => s,
                        Err(_) => Seq::empty(),
                    },
                    edit,
                    error: match r {
                        Ok(_) => Seq::empty(),
                        Err(m) => m,
                    },
                },
            ],
        )
    }

    /// After a text was written.
    pub open spec fn saved(self, remote: Seq<char>, r: RunView) -> (BrowserView, ShellTurnView) {
        let told = match r {
            Ok(d) => if d.code == 0 {
                worker::titled_event(
                    self.lang.pick("已保存"@, "Saved"@),
                    remote_path::base_name_of(remote),
                )
            } else {
                worker::titled_event(
                    self.lang.pick("保存失败"@, "Save failed"@),
                    listing::complaint(d.err),
                )
            },
            Err(m) => worker::titled_event(self.lang.pick("保存失败"@, "Save failed"@), m),
        };
        let dir = remote_path::parent_dir_of(remote);
        self.show(ShellPhaseOf::ShowAgain { dir }, seq![told], dir)
    }

    /// After the bytes of a download were asked for.
    pub open spec fn fetched(self, remote: Seq<char>, local_dir: Seq<char>, r: RunView) -> (
        BrowserView,
        ShellTurnView,
    ) {
        match run_file(r, self.lang) {
            Ok(bytes) => {
                let name = remote_path::safe_name(remote_path::base_name_of(remote));
                self.ask(
                    ShellPhaseOf::FetchWrite { name },
                    Seq::empty(),
                    ShellOpOf::WriteLocal { dir: local_dir, name, bytes },
                )
            },
            Err(m) => self.rest(
                seq![worker::titled_event(self.lang.pick("下载失败"@, "Download failed"@), m)],
            ),
        }
    }

    /// After the bytes of a file that is to be opened were asked for.
    pub open spec fn temp_fetched(self, remote: Seq<char>, edit: bool, r: RunView) -> (
        BrowserView,
        ShellTurnView,
    ) {
        match run_file(r, self.lang) {
            Ok(bytes) => self.ask(
                ShellPhaseOf::TempWrite { edit },
                Seq::empty(),
                ShellOpOf::WriteTemp {
                    name: remote_path::safe_name(remote_path::base_name_of(remote)),
                    bytes,
                },
            ),
            Err(m) => self.rest(
                seq![worker::titled_event(self.lang.pick("打开失败"@, "Open failed"@), m)],
            ),
        }
    }

    /// What follows when a command on the server is done.
    pub open spec fn executed(self, r: RunView) -> (BrowserView, ShellTurnView) {
        let none = Seq::<EventView>::empty();
        match self.phase {
            ShellPhaseOf::FindHome => self.show(
                ShellPhaseOf::ShowHome { home: run_home(r) },
                seq![
                    EventView::SftpStatus(
                        self.lang.pick(
                            "标准 SFTP 不可用，已切换为 SSH 兼容传输"@,
                            "Standard SFTP unavailable; using SSH-compatible transfer"@,
                        ),
                    ),
                ],
                run_home(r),
            ),
            ShellPhaseOf::ShowHome { home } => self.list(
                ShellPhaseOf::ListRoot { home },
                show_reports(home, r, self.lang),
                "/"@,
            ),
            ShellPhaseOf::ListRoot { home } => {
                let there = self.with_tree(
                    self.tree.keep("/"@, worker::kids_of(run_listing("/"@, r))).expand("/"@),
                );
                there.walking(
                    none,
                    tree_walk::walk_start(there.tree, remote_path::tree_path(home), false),
                    false,
                )
            },
            ShellPhaseOf::Walk { walk, dir, refresh } => {
                let there = self.with_tree(
                    self.tree.keep(dir, worker::kids_of(run_listing(dir, r))),
                );
                there.walking(none, tree_walk::walk_resume(there.tree, walk), refresh)
            },
            ShellPhaseOf::Show { path, refresh } => self.walking(
                show_reports(path, r, self.lang),
                tree_walk::walk_start(self.tree, remote_path::tree_path(path), false),
                refresh,
            ),
            ShellPhaseOf::RefreshTree { dir, rest } => self.with_tree(
                self.tree.keep(dir, worker::kids_of(run_listing(dir, r))),
            ).refreshing(none, rest),
            ShellPhaseOf::Toggle { path } => {
                let there = self.with_tree(
                    self.tree.keep(path, worker::kids_of(run_listing(path, r))).expand(path),
                );
                there.rest(seq![there.rows()])
            },
            ShellPhaseOf::Act { change, dir } => self.acted(change, dir, r),
            ShellPhaseOf::Sync { dir } => self.synced(dir, r),
            ShellPhaseOf::ShowAgain { dir } => self.rest(show_reports(dir, r, self.lang)),
            ShellPhaseOf::Read { remote, edit } => self.file_text(
                remote,
                edit,
                run_text(r, self.lang),
            ),
            ShellPhaseOf::Write { remote } => self.saved(remote, r),
            ShellPhaseOf::Fetch { remote, local_dir } => self.fetched(remote, local_dir, r),
            ShellPhaseOf::TempFetch { remote, edit } => self.temp_fetched(remote, edit, r),
            _ => self.rest(none),
        }
    }

    /// What follows when a local file was to be written.
    pub open spec fn written(self, local: Seq<char>, written: bool) -> (
        BrowserView,
        ShellTurnView,
    ) {
        match self.phase {
            ShellPhaseOf::FetchWrite { name } => self.rest(
                seq![
                    if written {
                        worker::titled_event(self.lang.pick("下载完成"@, "Downloaded"@), name)
                    } else {
                        worker::titled_event(
                            self.lang.pick("下载失败"@, "Download failed"@),
                            "write local "@ + local,
                        )
                    },
                ],
            ),
            ShellPhaseOf::TempWrite { edit } => if written {
                self.ask(
                    ShellPhaseOf::TempOpen { edit },
                    Seq::empty(),
                    ShellOpOf::OpenLocal(local),
                )
            } else {
                self.rest(
                    seq![
                        worker::titled_event(
                            self.lang.pick("打开失败"@, "Open failed"@),
                            "write local "@ + local,
                        ),
                    ],
                )
            },
            _ => self.rest(Seq::empty()),
        }
    }

    /// What follows when something without an answer was done.
    pub open spec fn ready(self) -> (BrowserView, ShellTurnView) {
        match self.phase {
            ShellPhaseOf::TempOpen { edit } => self.rest(
                if edit {
                    seq![
                        EventView::SftpStatus(
                            self.lang.pick(
                                "SSH 文件浏览模式暂不支持外部编辑后自动回传"@,
                                "SSH file-browser mode does not auto-upload external edits yet"@,
                            ),
                        ),
                    ]
                } else {
                    Seq::empty()
                },
            ),
            ShellPhaseOf::SearchStop { search_id, root, query } => self.rest(
                seq![
                    EventView::SftpSearchStatus {
                        search_id,
                        root,
                        query,
                        state: SftpSearchState::Cancelled,
                        found: 0,
                        scanned: 0,
                        elapsed_ms: 0,
                    },
                ],
            ),
            ShellPhaseOf::Closing => self.ask(
                ShellPhaseOf::Idle,
                seq![
                    EventView::SftpStatus(
                        self.lang.pick("文件连接已断开"@, "File connection disconnected"@),
                    ),
                ],
                ShellOpOf::Stop,
            ),
            _ => self.rest(Seq::empty()),
        }
    }

    /// What follows when an operation is done. After an answer to something else the browser
    /// waits for the next command.
    pub open spec fn reply(self, r: ShellReplyView) -> (BrowserView, ShellTurnView) {
        match r {
            ShellReplyView::Exec(run) => self.executed(run),
            ShellReplyView::Written { local, written } => self.written(local, written),
            ShellReplyView::Ready => self.ready(),
        }
    }
}

// ---------------------------------------------------------------------------
// Doing it
// ---------------------------------------------------------------------------

/// The entries that a listing command tells of, or the message where there are none.
pub fn listing_of(path: &str, r: Result<ExecOutput, String>) -> (out: Result<
    Vec<RemoteEntry>,
    String,
>)
    ensures
        folder::listing_view(out) == run_listing(path@, run_view(r)),
{
    match r {
        Ok(done) => listing::shell_list_dir(path, &done),
        Err(m) => Err(m),
    }
}

/// The reports on a listing that is shown.
pub fn emit_shell_dir(path: &str, r: Result<ExecOutput, String>, lang: Lang) -> (out: Vec<
    SessionEvent,
>)
    ensures
        events::events_view(out@) == show_reports(path@, run_view(r), lang),
{
    match listing_of(path, r) {
        Ok(entries) => {
            let line = text::join3(path, " · ", lang.t("SSH 文件浏览", "SSH browser"));
            worker::two_events(
                SessionEvent::SftpEntries { path: path.to_string(), entries },
                SessionEvent::SftpStatus(line),
            )
        },
        Err(m) => worker::one_event(
            SessionEvent::SftpError(messages::list_error_msg(path, m.as_str(), lang)),
        ),
    }
}

/// The message where a command that made a change failed.
fn emit_shell_action(change: Change, r: &Result<ExecOutput, String>, lang: Lang) -> (out: Vec<
    SessionEvent,
>)
    ensures
        events::events_view(out@) == act_reports(change, run_view(*r), lang),
{
    match r {
        Ok(done) => {
            if done.code == 0 {
                worker::no_events()
            } else {
                let m = listing::complaint_of(done.err.as_slice());
                worker::one_event(events::titled_status(change.fail_title(lang), m.as_str()))
            }
        },
        Err(m) => worker::one_event(events::titled_status(change.fail_title(lang), m.as_str())),
    }
}

impl ShellBrowser {
    /// The navigation tree is sound, and so is a walk through it.
    pub open spec fn wf(&self) -> bool {
        self.tree.wf() && (self.phase matches ShellPhaseOf::Walk { walk, dir, refresh }
            ==> walk.wf())
    }

    /// The browser at its start, and its first step: to find the working directory.
    pub fn start(lang: Lang) -> (out: (ShellBrowser, ShellTurn))
        ensures
            out.0.wf(),
            out.0@.lang == lang,
            out.0@.tree.dirs == Map::<Seq<char>, Seq<(Seq<char>, Seq<char>)>>::empty(),
            out.0@.tree.expanded == Seq::<Seq<char>>::empty(),
            out.0@.search is None,
            out.0@.phase is FindHome,
            out.1@ == (ShellTurnView {
                events: Seq::empty(),
                op: ShellOpOf::Exec(shell::PWD_COMMAND@),
            }),
    {
        let b = ShellBrowser {
            lang,
            tree: TreeState::new(),
            search: None,
            phase: ShellPhaseOf::FindHome,
        };
        (
            b,
            ShellTurn {
                events: worker::no_events(),
                op: ShellOpOf::Exec(shell::PWD_COMMAND.to_string()),
            },
        )
    }

    fn ask(&mut self, phase: ShellPhase, events: Vec<SessionEvent>, op: ShellOp) -> (out: ShellTurn)
        requires
            old(self).tree.wf(),
            phase matches ShellPhaseOf::Walk { walk, dir, refresh } ==> walk.wf(),
        ensures
            final(self).wf(),
            (final(self)@, out@) == old(self)@.ask(phase@, events::events_view(events@), op@),
    {
        self.phase = phase;
        ShellTurn { events, op }
    }

    fn rest(&mut self, events: Vec<SessionEvent>) -> (out: ShellTurn)
        requires
            old(self).tree.wf(),
        ensures
            final(self).wf(),
            (final(self)@, out@) == old(self)@.rest(events::events_view(events@)),
    {
        self.ask(ShellPhaseOf::Idle, events, ShellOpOf::Idle)
    }

    fn rows(&self) -> (out: SessionEvent)
        requires
            self.tree.wf(),
        ensures
            out@ == self@.rows(),
    {
        SessionEvent::SftpTreeUpdate(self.tree.nodes())
    }

    fn list(&mut self, phase: ShellPhase, events: Vec<SessionEvent>, dir: &str) -> (out: ShellTurn)
        requires
            old(self).tree.wf(),
            phase matches ShellPhaseOf::Walk { walk, dir: d, refresh } ==> walk.wf(),
        ensures
            final(self).wf(),
            (final(self)@, out@) == old(self)@.list(
                phase@,
                events::events_view(events@),
                dir@,
            ),
    {
        let cmd = listing::list_command(dir);
        self.ask(phase, events, ShellOpOf::Exec(cmd))
    }

    fn show(&mut self, phase: ShellPhase, events: Vec<SessionEvent>, path: &str) -> (out: ShellTurn)
        requires
            old(self).tree.wf(),
            phase matches ShellPhaseOf::Walk { walk, dir, refresh } ==> walk.wf(),
        ensures
            final(self).wf(),
            (final(self)@, out@) == old(self)@.show(
                phase@,
                events::events_view(events@),
                path@,
            ),
    {
        let mut events = events;
        let e = events::loading_status(path, self.lang);
        worker::add_event(&mut events, e);
        self.list(phase, events, path)
    }

    fn show_again(&mut self, events: Vec<SessionEvent>, dir: String) -> (out: ShellTurn)
        requires
            old(self).tree.wf(),
        ensures
            final(self).wf(),
            (final(self)@, out@) == old(self)@.show(
                ShellPhaseOf::ShowAgain { dir: dir@ },
                events::events_view(events@),
                dir@,
            ),
    {
        let path = dir.clone();
        self.show(ShellPhaseOf::ShowAgain { dir }, events, path.as_str())
    }

    fn refreshing(&mut self, events: Vec<SessionEvent>, rest: Vec<String>) -> (out: ShellTurn)
        requires
            old(self).tree.wf(),
        ensures
            final(self).wf(),
            (final(self)@, out@) == old(self)@.refreshing(
                events::events_view(events@),
                text::texts(rest@),
            ),
    {
        let ghost all = text::texts(rest@);
        let mut rest = rest;
        match rest.pop() {
            None => {
                let mut events = events;
                let rows = self.rows();
                worker::add_event(&mut events, rows);
                self.rest(events)
            },
            Some(dir) => {
                assert(text::texts(rest@) =~= all.drop_last());
                assert(all.last() == dir@);
                let there = dir.clone();
                self.list(ShellPhaseOf::RefreshTree { dir, rest }, events, there.as_str())
            },
        }
    }

    fn walking(
        &mut self,
        events: Vec<SessionEvent>,
        walk: TreeWalk,
        ask: Option<String>,
        refresh: bool,
    ) -> (out: ShellTurn)
        requires
            old(self).tree.wf(),
            walk.wf(),
        ensures
            final(self).wf(),
            (final(self)@, out@) == old(self)@.walking(
                events::events_view(events@),
                (old(self)@.tree, walk@, tree_walk::maybe(ask)),
                refresh,
            ),
    {
        match ask {
            Some(dir) => {
                let there = dir.clone();
                self.list(ShellPhaseOf::Walk { walk, dir, refresh }, events, there.as_str())
            },
            None => {
                if refresh {
                    let rest = worker::turned_list(&self.tree.expanded);
                    self.refreshing(events, rest)
                } else {
                    let mut events = events;
                    let rows = self.rows();
                    worker::add_event(&mut events, rows);
                    self.rest(events)
                }
            },
        }
    }

    fn keep(&mut self, dir: &str, r: Result<ExecOutput, String>)
        requires
            old(self).tree.wf(),
        ensures
            final(self).tree.wf(),
            final(self)@ == old(self)@.with_tree(
                old(self)@.tree.keep(dir@, worker::kids_of(run_listing(dir@, run_view(r)))),
            ),
            final(self).phase == old(self).phase,
    {
        let l = listing_of(dir, r);
        let kids = worker::kids_in(&l);
        self.tree.keep(dir, kids);
    }

    fn act(&mut self, change: Change, dir: String, cmd: String) -> (out: ShellTurn)
        requires
            old(self).tree.wf(),
        ensures
            final(self).wf(),
            (final(self)@, out@) == old(self)@.act(change, dir@, cmd@),
    {
        self.ask(ShellPhaseOf::Act { change, dir }, worker::no_events(), ShellOpOf::Exec(cmd))
    }

    fn toggle(&mut self, path: &str) -> (out: ShellTurn)
        requires
            old(self).tree.wf(),
        ensures
            final(self).wf(),
            (final(self)@, out@) == old(self)@.command(
                CommandView::ToggleTreeNode(path@),
                Seq::empty(),
            ),
    {
        match tree_walk::toggle(&mut self.tree, path) {
            Some(d) => {
                let there = d.clone();
                self.list(ShellPhaseOf::Toggle { path: d }, worker::no_events(), there.as_str())
            },
            None => {
                let rows = self.rows();
                self.rest(worker::one_event(rows))
            },
        }
    }

    fn cancel_search(&mut self) -> (out: ShellTurn)
        requires
            old(self).tree.wf(),
        ensures
            final(self).wf(),
            (final(self)@, out@) == old(self)@.command(CommandView::CancelSearch, Seq::empty()),
    {
        let mut taken: Option<SearchKey> = None;
        std::mem::swap(&mut taken, &mut self.search);
        match taken {
            Some((search_id, root, query)) => self.ask(
                ShellPhaseOf::SearchStop { search_id, root, query },
                worker::no_events(),
                ShellOpOf::AbortSearch,
            ),
            None => {
                let e = events::plain_status(
                    self.lang.t("当前没有正在运行的搜索", "No active search"),
                );
                self.rest(worker::one_event(e))
            },
        }
    }

    fn delete(&mut self, path: &str) -> (out: ShellTurn)
        requires
            old(self).tree.wf(),
        ensures
            final(self).wf(),
            (final(self)@, out@) == old(self)@.command(CommandView::Delete(path@), Seq::empty()),
    {
        if remote_path::is_forbidden_remote_path(path) {
            let e = events::titled_status(
                self.lang.t("鍒犻櫎澶辫触", "Delete failed"),
                self.lang.t("拒绝删除危险路径", "Refusing to delete a dangerous path"),
            );
            self.rest(worker::one_event(e))
        } else {
            let dir = remote_path::parent_dir(path);
            self.act(Change::Delete, dir, shell::delete_command(path))
        }
    }

    /// What a command leads to; `id` is the identifier of an upload that it starts.
    pub fn on_command(&mut self, command: SftpCommand, id: String) -> (out: ShellTurn)
        requires
            old(self).wf(),
            command matches SftpCommand::WriteText { remote, content } ==> shell::encodable(
                vstd::utf8::encode_utf8(content@),
            ),
        ensures
            final(self).wf(),
            (final(self)@, out@) == old(self)@.command(command@, id@),
    {
        match command {
            SftpCommand::ListDir(path) => {
                let there = path.clone();
                self.show(
                    ShellPhaseOf::Show { path, refresh: false },
                    worker::no_events(),
                    there.as_str(),
                )
            },
            SftpCommand::RefreshDir(path) => {
                let there = path.clone();
                self.show(
                    ShellPhaseOf::Show { path, refresh: true },
                    worker::no_events(),
                    there.as_str(),
                )
            },
            SftpCommand::ToggleTreeNode(path) => self.toggle(path.as_str()),
            SftpCommand::Search { search_id, root, query } => {
                let q = text::trim(query.as_str());
                self.search = Some((search_id.clone(), root.clone(), q.clone()));
                self.ask(
                    ShellPhaseOf::Idle,
                    worker::no_events(),
                    ShellOpOf::StartSearch { search_id, root, query: q },
                )
            },
            SftpCommand::CancelSearch => self.cancel_search(),
            SftpCommand::Download { remote, local_dir } => {
                let cmd = shell::fetch_command(remote.as_str());
                self.ask(
                    ShellPhaseOf::Fetch { remote, local_dir },
                    worker::no_events(),
                    ShellOpOf::Exec(cmd),
                )
            },
            SftpCommand::DownloadArchive { remote_dir, names, local_dir } => {
                let e = events::plain_status(
                    self.lang.t(
                        "SSH 兼容模式暂不支持批量打包下载",
                        "SSH-compatible mode does not support archive downloads yet",
                    ),
                );
                self.rest(worker::one_event(e))
            },
            SftpCommand::CancelTransfer(which) => self.ask(
                ShellPhaseOf::Idle,
                worker::no_events(),
                ShellOpOf::CancelTransfer(which),
            ),
            SftpCommand::Upload { local, remote_dir } => self.ask(
                ShellPhaseOf::Idle,
                worker::no_events(),
                ShellOpOf::StartUpload { id, local, remote_dir },
            ),
            SftpCommand::Delete(path) => self.delete(path.as_str()),
            SftpCommand::OpenTemp { remote, edit } => {
                let cmd = shell::fetch_command(remote.as_str());
                self.ask(
                    ShellPhaseOf::TempFetch { remote, edit },
                    worker::no_events(),
                    ShellOpOf::Exec(cmd),
                )
            },
            SftpCommand::Rename { from, to } => {
                let dir = remote_path::parent_dir(to.as_str());
                let cmd = shell::move_command(from.as_str(), to.as_str());
                self.act(Change::Rename, dir, cmd)
            },
            SftpCommand::Chmod { path, mode } => {
                let dir = remote_path::parent_dir(path.as_str());
                let cmd = shell::chmod_command(path.as_str(), mode);
                self.act(Change::Mode, dir, cmd)
            },
            SftpCommand::MkDir(path) => {
                let dir = remote_path::parent_dir(path.as_str());
                let cmd = shell::mkdir_command(path.as_str());
                self.act(Change::MakeDir, dir, cmd)
            },
            SftpCommand::TouchFile(path) => {
                let dir = remote_path::parent_dir(path.as_str());
                let cmd = shell::touch_command(path.as_str());
                self.act(Change::Touch, dir, cmd)
            },
            SftpCommand::ReadText { remote, edit } => {
                let cmd = shell::read_text_command(remote.as_str());
                self.ask(
                    ShellPhaseOf::Read { remote, edit },
                    worker::no_events(),
                    ShellOpOf::Exec(cmd),
                )
            },
            SftpCommand::WriteText { remote, content } => {
                let cmd = shell::shell_write_text(remote.as_str(), content.as_str());
                self.ask(
                    ShellPhaseOf::Write { remote },
                    worker::no_events(),
                    ShellOpOf::Exec(cmd),
                )
            },
            SftpCommand::Close => self.ask(
                ShellPhaseOf::Closing,
                worker::no_events(),
                ShellOpOf::Halt,
            ),
        }
    }

    /// Takes a command. An upload that it starts gets a random identifier.
    pub fn accept(&mut self, command: SftpCommand) -> (out: ShellTurn)
        requires
            old(self).wf(),
            command matches SftpCommand::WriteText { remote, content } ==> shell::encodable(
                vstd::utf8::encode_utf8(content@),
            ),
        ensures
            final(self).wf(),
            exists|id: Seq<char>| #[trigger]
                ids::id_text(id) && (final(self)@, out@) == old(self)@.command(command@, id),
    {
        let id = ids::fresh_id();
        assert(ids::id_text(id@));
        self.on_command(command, id)
    }

    fn acted(&mut self, change: Change, dir: String, r: Result<ExecOutput, String>) -> (out:
        ShellTurn)
        requires
            old(self).tree.wf(),
        ensures
            final(self).wf(),
            (final(self)@, out@) == old(self)@.acted(change, dir@, run_view(r)),
    {
        let events = emit_shell_action(change, &r, self.lang);
        if (change == Change::MakeDir || change == Change::Delete) && self.tree.dirs.contains_key(
            dir.as_str(),
        ) {
            let there = dir.clone();
            self.list(ShellPhaseOf::Sync { dir }, events, there.as_str())
        } else {
            self.show_again(events, dir)
        }
    }

    fn synced(&mut self, dir: String, r: Result<ExecOutput, String>) -> (out: ShellTurn)
        requires
            old(self).tree.wf(),
        ensures
            final(self).wf(),
            (final(self)@, out@) == old(self)@.synced(dir@, run_view(r)),
    {
        match listing_of(dir.as_str(), r) {
            Ok(entries) => {
                let kids = listing::child_dirs(&entries);
                self.tree.keep(dir.as_str(), Some(kids));
                let rows = self.rows();
                self.show_again(worker::one_event(rows), dir)
            },
            Err(_) => self.show_again(worker::no_events(), dir),
        }
    }

    fn file_text(&mut self, remote: String, edit: bool, r: Result<ExecOutput, String>) -> (out:
        ShellTurn)
        requires
            old(self).tree.wf(),
        ensures
            final(self).wf(),
            (final(self)@, out@) == old(self)@.file_text(
                remote@,
                edit,
                run_text(run_view(r), old(self)@.lang),
            ),
    {
        let got = match r {
            Ok(done) => shell::shell_read_text(&done, self.lang),
            Err(m) => Err(m),
        };
        let name = remote_path::base_name(remote.as_str());
        let ghost gv = shell::text_view(got);
        let (content, error) = match got {
            Ok(s) => (s, String::new()),
            Err(m) => (String::new(), m),
        };
        let e = SessionEvent::SftpFileText { path: remote, name, content, edit, error };
        assert(e@ == old(self)@.file_text(remote@, edit, gv).1.events[0]);
        self.rest(worker::one_event(e))
    }

    fn saved(&mut self, remote: String, r: Result<ExecOutput, String>) -> (out: ShellTurn)
        requires
            old(self).tree.wf(),
        ensures
            final(self).wf(),
            (final(self)@, out@) == old(self)@.saved(remote@, run_view(r)),
    {
        let done = match &r {
            Ok(d) => shell::exec_outcome(d),
            Err(m) => Err(m.clone()),
        };
        let e = match done {
            Ok(_) => {
                let name = remote_path::base_name(remote.as_str());
                events::titled_status(self.lang.t("已保存", "Saved"), name.as_str())
            },
            Err(m) => events::titled_status(self.lang.t("保存失败", "Save failed"), m.as_str()),
        };
        let dir = remote_path::parent_dir(remote.as_str());
        self.show_again(worker::one_event(e), dir)
    }

    fn fetched(&mut self, remote: String, local_dir: String, r: Result<ExecOutput, String>) -> (out:
        ShellTurn)
        requires
            old(self).tree.wf(),
        ensures
            final(self).wf(),
            (final(self)@, out@) == old(self)@.fetched(remote@, local_dir@, run_view(r)),
    {
        let got = match r {
            Ok(done) => shell::shell_download_file(&done, self.lang),
            Err(m) => Err(m),
        };
        match got {
            Ok(bytes) => {
                let base = remote_path::base_name(remote.as_str());
                let name = remote_path::sanitize_filename(base.as_str());
                let op = ShellOpOf::WriteLocal { dir: local_dir, name: name.clone(), bytes };
                self.ask(ShellPhaseOf::FetchWrite { name }, worker::no_events(), op)
            },
            Err(m) => {
                let e = events::titled_status(
                    self.lang.t("下载失败", "Download failed"),
                    m.as_str(),
                );
                self.rest(worker::one_event(e))
            },
        }
    }

    fn temp_fetched(&mut self, remote: String, edit: bool, r: Result<ExecOutput, String>) -> (out:
        ShellTurn)
        requires
            old(self).tree.wf(),
        ensures
            final(self).wf(),
            (final(self)@, out@) == old(self)@.temp_fetched(remote@, edit, run_view(r)),
    {
        let got = match r {
            Ok(done) => shell::shell_download_file(&done, self.lang),
            Err(m) => Err(m),
        };
        match got {
            Ok(bytes) => {
                let base = remote_path::base_name(remote.as_str());
                let name = remote_path::sanitize_filename(base.as_str());
                self.ask(
                    ShellPhaseOf::TempWrite { edit },
                    worker::no_events(),
                    ShellOpOf::WriteTemp { name, bytes },
                )
            },
            Err(m) => {
                let e = events::titled_status(self.lang.t("打开失败", "Open failed"), m.as_str());
                self.rest(worker::one_event(e))
            },
        }
    }

    fn executed(&mut self, phase: ShellPhase, r: Result<ExecOutput, String>) -> (out: ShellTurn)
        requires
            old(self).tree.wf(),
            phase matches ShellPhaseOf::Walk { walk, dir, refresh } ==> walk.wf(),
        ensures
            final(self).wf(),
            (final(self)@, out@) == old(self)@.at(phase@).executed(run_view(r)),
    {
        match phase {
            ShellPhaseOf::FindHome => {
                let found = match r {
                    Ok(done) => shell::shell_pwd(&done),
                    Err(m) => Err(m),
                };
                let home = match found {
                    Ok(dir) => dir,
                    Err(_) => "/".to_string(),
                };
                let e = events::plain_status(
                    self.lang.t(
                        "标准 SFTP 不可用，已切换为 SSH 兼容传输",
                        "Standard SFTP unavailable; using SSH-compatible transfer",
                    ),
                );
                let there = home.clone();
                self.show(ShellPhaseOf::ShowHome { home }, worker::one_event(e), there.as_str())
            },
            ShellPhaseOf::ShowHome { home } => {
                let events = emit_shell_dir(home.as_str(), r, self.lang);
                self.list(ShellPhaseOf::ListRoot { home }, events, "/")
            },
            ShellPhaseOf::ListRoot { home } => {
                self.keep("/", r);
                self.tree.expand("/");
                let target = remote_path::normalize_tree_path(home.as_str());
                let (walk, ask) = TreeWalk::start(&mut self.tree, target.as_str(), false);
                self.walking(worker::no_events(), walk, ask, false)
            },
            ShellPhaseOf::Walk { walk, dir, refresh } => {
                let mut walk = walk;
                self.keep(dir.as_str(), r);
                let ask = walk.resume(&mut self.tree);
                self.walking(worker::no_events(), walk, ask, refresh)
            },
            ShellPhaseOf::Show { path, refresh } => {
                let events = emit_shell_dir(path.as_str(), r, self.lang);
                let target = remote_path::normalize_tree_path(path.as_str());
                let (walk, ask) = TreeWalk::start(&mut self.tree, target.as_str(), false);
                self.walking(events, walk, ask, refresh)
            },
            ShellPhaseOf::RefreshTree { dir, rest } => {
                self.keep(dir.as_str(), r);
                self.refreshing(worker::no_events(), rest)
            },
            ShellPhaseOf::Toggle { path } => {
                self.keep(path.as_str(), r);
                self.tree.expand(path.as_str());
                let rows = self.rows();
                self.rest(worker::one_event(rows))
            },
            ShellPhaseOf::Act { change, dir } => self.acted(change, dir, r),
            ShellPhaseOf::Sync { dir } => self.synced(dir, r),
            ShellPhaseOf::ShowAgain { dir } => {
                let events = emit_shell_dir(dir.as_str(), r, self.lang);
                self.rest(events)
            },
            ShellPhaseOf::Read { remote, edit } => self.file_text(remote, edit, r),
            ShellPhaseOf::Write { remote } => self.saved(remote, r),
            ShellPhaseOf::Fetch { remote, local_dir } => self.fetched(remote, local_dir, r),
            ShellPhaseOf::TempFetch { remote, edit } => self.temp_fetched(remote, edit, r),
            _ => self.rest(worker::no_events()),
        }
    }

    fn written(&mut self, phase: ShellPhase, local: String, written: bool) -> (out: ShellTurn)
        requires
            old(self).tree.wf(),
        ensures
            final(self).wf(),
            (final(self)@, out@) == old(self)@.at(phase@).written(local@, written),
    {
        match phase {
            ShellPhaseOf::FetchWrite { name } => {
                let e = if written {
                    events::titled_status(self.lang.t("下载完成", "Downloaded"), name.as_str())
                } else {
                    let m = text::join2("write local ", local.as_str());
                    events::titled_status(self.lang.t("下载失败", "Download failed"), m.as_str())
                };
                self.rest(worker::one_event(e))
            },
            ShellPhaseOf::TempWrite { edit } => {
                if written {
                    self.ask(
                        ShellPhaseOf::TempOpen { edit },
                        worker::no_events(),
                        ShellOpOf::OpenLocal(local),
                    )
                } else {
                    let m = text::join2("write local ", local.as_str());
                    let e = events::titled_status(
                        self.lang.t("打开失败", "Open failed"),
                        m.as_str(),
                    );
                    self.rest(worker::one_event(e))
                }
            },
            _ => self.rest(worker::no_events()),
        }
    }

    fn ready(&mut self, phase: ShellPhase) -> (out: ShellTurn)
        requires
            old(self).tree.wf(),
        ensures
            final(self).wf(),
            (final(self)@, out@) == old(self)@.at(phase@).ready(),
    {
        match phase {
            ShellPhaseOf::TempOpen { edit } => {
                if edit {
                    let e = events::plain_status(
                        self.lang.t(
                            "SSH 文件浏览模式暂不支持外部编辑后自动回传",
                            "SSH file-browser mode does not auto-upload external edits yet",
                        ),
                    );
                    self.rest(worker::one_event(e))
                } else {
                    self.rest(worker::no_events())
                }
            },
            ShellPhaseOf::SearchStop { search_id, root, query } => {
                let e = SessionEvent::SftpSearchStatus {
                    search_id,
                    root,
                    query,
                    state: SftpSearchState::Cancelled,
                    found: 0,
                    scanned: 0,
                    elapsed_ms: 0,
                };
                self.rest(worker::one_event(e))
            },
            ShellPhaseOf::Closing => {
                let e = events::plain_status(
                    self.lang.t("文件连接已断开", "File connection disconnected"),
                );
                self.ask(ShellPhaseOf::Idle, worker::one_event(e), ShellOpOf::Stop)
            },
            _ => self.rest(worker::no_events()),
        }
    }

    /// What follows when an operation is done.
    pub fn on_reply(&mut self, reply: ShellReply) -> (out: ShellTurn)
        requires
            old(self).wf(),
        ensures
            final(self).wf(),
            (final(self)@, out@) == old(self)@.reply(reply@),
    {
        let mut phase: ShellPhase = ShellPhaseOf::Idle;
        std::mem::swap(&mut phase, &mut self.phase);
        assert(self@.at(phase@) == old(self)@);
        match reply {
            ShellReply::Exec(r) => self.executed(phase, r),
            ShellReply::Written { local, written } => self.written(phase, local, written),
            ShellReply::Ready => self.ready(phase),
        }
    }
}

// ---------------------------------------------------------------------------
// Laws
// ---------------------------------------------------------------------------

/// A dangerous path is never deleted: the command is refused, and nothing is run on the server.
pub proof fn law_dangerous_delete_is_refused(b: BrowserView, path: Seq<char>, id: Seq<char>)
    requires
        remote_path::forbidden(path),
    ensures
        b.command(CommandView::Delete(path), id).1.op == ShellOpOf::<Seq<char>, Seq<u8>>::Idle,
{
}

/// What a download writes is the file as the server printed it, under a plain local name.
pub proof fn law_download_is_plain(b: BrowserView, r: RunView)
    requires
        b.phase is Fetch,
    ensures
        b.executed(r).1.op matches ShellOpOf::WriteLocal { dir, name, bytes } ==> (
        remote_path::plain_name(name) && dir == b.phase->Fetch_local_dir && run_file(r, b.lang)
            == Ok::<Seq<u8>, Seq<char>>(bytes)),
{
    remote_path::law_safe_name_is_plain(remote_path::base_name_of(b.phase->Fetch_remote));
}

/// Whether a directory that is listed for the tree alone is one that the tree knows.
pub open spec fn resync_is_known(b: BrowserView) -> bool {
    b.phase matches ShellPhaseOf::Sync { dir } ==> b.tree.dirs.contains_key(dir)
}

/// A change on the server grafts nothing onto the tree: only a directory that is cached is listed
/// again, its fresh listing takes the place of the cached one, and every other listing stays. A
/// listing that fails changes none.
pub proof fn law_resync_keeps_to_known_dirs(
    b: BrowserView,
    c: CommandView,
    id: Seq<char>,
    r: ShellReplyView,
    run: RunView,
)
    requires
        resync_is_known(b),
    ensures
        resync_is_known(b.command(c, id).0),
        resync_is_known(b.reply(r).0),
        b.phase is Sync ==> ({
            let dir = b.phase->Sync_dir;
            let after = b.executed(run).0.tree.dirs;
            &&& after.dom() == b.tree.dirs.dom()
            &&& forall|p: Seq<char>|
                p != dir && b.tree.dirs.contains_key(p) ==> #[trigger] after[p] == b.tree.dirs[p]
            &&& after[dir] == match run_listing(dir, run) {
                Ok(entries) => listing::dirs_among(entries),
                Err(_) => b.tree.dirs[dir],
            }
        }),
{
    if b.phase is Sync {
        assert(b.executed(run).0.tree.dirs.dom() =~= b.tree.dirs.dom());
    }
}

/// A refresh under way: how the browser stands, the commands that it ran, and all that it
/// reported.
pub struct ShellRefreshRun {
    pub state: BrowserView,
    pub ran: Seq<Seq<char>>,
    pub reports: Seq<EventView>,
}

/// The command that an operation runs.
pub open spec fn run_by(op: ShellOpView) -> Seq<Seq<char>> {
    match op {
        ShellOpOf::Exec(cmd) => seq![cmd],
        _ => Seq::empty(),
    }
}

/// A refresh after so many of its commands were run; nothing follows once the browser is ready.
pub open spec fn refresh_after(
    b: BrowserView,
    path: Seq<char>,
    id: Seq<char>,
    runs: Seq<RunView>,
) -> ShellRefreshRun
    decreases runs.len(),
{
    if runs.len() == 0 {
        let (state, turn) = b.command(CommandView::RefreshDir(path), id);
        ShellRefreshRun { state, ran: run_by(turn.op), reports: turn.events }
    } else {
        let s = refresh_after(b, path, id, runs.drop_last());
        if s.state.phase is Idle {
            s
        } else {
            let (state, turn) = s.state.executed(runs.last());
            ShellRefreshRun {
                state,
                ran: s.ran + run_by(turn.op),
                reports: s.reports + turn.events,
            }
        }
    }
}

/// A refresh lists every directory that is expanded at its start: nothing is collapsed meanwhile,
/// and the tree is shown again only when each of the directories that are expanded by then was
/// asked for.
pub proof fn law_refresh_lists_the_expanded(
    b: BrowserView,
    path: Seq<char>,
    id: Seq<char>,
    runs: Seq<RunView>,
)
    ensures
        ({
            let s = refresh_after(b, path, id, runs);
            &&& forall|d: Seq<char>| #[trigger]
                b.tree.expanded.contains(d) ==> s.state.tree.expanded.contains(d)
            &&& s.ran.contains(listing::list_command_text(path))
            &&& if s.state.phase is Idle {
                &&& forall|d: Seq<char>| #[trigger]
                    s.state.tree.expanded.contains(d) ==> s.ran.contains(
                        listing::list_command_text(d),
                    )
                &&& worker::no_rows(s.reports.drop_last())
                &&& s.reports.len() > 0
                &&& s.reports.last() == s.state.rows()
            } else {
                worker::no_rows(s.reports)
            }
        }),
{
    lemma_refresh(b, path, id, runs);
}

/// What holds of a refresh all the time.
spec fn refresh_ok(b: BrowserView, path: Seq<char>, s: ShellRefreshRun) -> bool {
    &&& forall|d: Seq<char>| #[trigger]
        b.tree.expanded.contains(d) ==> s.state.tree.expanded.contains(d)
    &&& s.ran.contains(listing::list_command_text(path))
    &&& match s.state.phase {
        ShellPhaseOf::Show { path: p, refresh } => refresh && worker::no_rows(s.reports),
        ShellPhaseOf::Walk { walk, dir, refresh } => refresh && worker::no_rows(s.reports),
        ShellPhaseOf::RefreshTree { dir, rest } => worker::no_rows(s.reports) && forall|
            d: Seq<char>,
        | #[trigger]
            s.state.tree.expanded.contains(d) ==> rest.contains(d) || s.ran.contains(
                listing::list_command_text(d),
            ),
        ShellPhaseOf::Idle => worker::no_rows(s.reports.drop_last()) && s.reports.len() > 0
            && s.reports.last() == s.state.rows() && forall|d: Seq<char>| #[trigger]
            s.state.tree.expanded.contains(d) ==> s.ran.contains(listing::list_command_text(d)),
        _ => false,
    }
}

proof fn lemma_refresh(b: BrowserView, path: Seq<char>, id: Seq<char>, runs: Seq<RunView>)
    ensures
        refresh_ok(b, path, refresh_after(b, path, id, runs)),
    decreases runs.len(),
{
    let s = refresh_after(b, path, id, runs);
    if runs.len() == 0 {
        assert(s.ran[0] == listing::list_command_text(path));
    } else {
        let before = refresh_after(b, path, id, runs.drop_last());
        lemma_refresh(b, path, id, runs.drop_last());
        if !(before.state.phase is Idle) {
            let r = runs.last();
            let (state, turn) = before.state.executed(r);
            assert forall|c: Seq<char>| #[trigger] before.ran.contains(c) implies s.ran.contains(
                c,
            ) by {
                let i = before.ran.index_of(c);
                assert(s.ran[i] == c);
            }
            if turn.op is Exec {
                assert(s.ran[before.ran.len() as int] == turn.op->Exec_0);
            }
            match before.state.phase {
                ShellPhaseOf::Show { path: p, refresh } => {
                    tree_walk::lemma_start_keeps(
                        before.state.tree,
                        remote_path::tree_path(p),
                        false,
                    );
                    lemma_refreshing(state.tree.expanded);
                },
                ShellPhaseOf::Walk { walk, dir, refresh } => {
                    let t = before.state.tree.keep(dir, worker::kids_of(run_listing(dir, r)));
                    tree_walk::lemma_resume_keeps(t, walk);
                    lemma_refreshing(state.tree.expanded);
                },
                ShellPhaseOf::RefreshTree { dir, rest } => {
                    if rest.len() > 0 {
                        assert forall|d: Seq<char>| #[trigger] rest.contains(d) implies d
                            == rest.last() || rest.drop_last().contains(d) by {
                            if d != rest.last() {
                                let i = rest.index_of(d);
                                assert(rest.drop_last()[i] == d);
                            }
                        }
                    }
                },
                _ => {},
            }
            if state.phase is Idle {
                assert(s.reports.drop_last() =~= before.reports + turn.events.drop_last());
            }
        }
    }
}

/// What is expanded is what is to be listed when the listing of the tree begins.
proof fn lemma_refreshing(expanded: Seq<Seq<char>>)
    ensures
        expanded.len() > 0 ==> forall|d: Seq<char>| #[trigger]
            expanded.contains(d) ==> d == worker::next_last(expanded).last() || worker::next_last(
                expanded,
            ).drop_last().contains(d),
{
    let rest = worker::next_last(expanded);
    if expanded.len() > 0 {
        assert forall|d: Seq<char>| #[trigger] expanded.contains(d) implies d == rest.last()
            || rest.drop_last().contains(d) by {
            let i = expanded.index_of(d);
            if i > 0 {
                assert(rest.drop_last()[expanded.len() - 1 - i] == d);
            }
        }
    }
}

/// Where the browser wants nothing done, it waits for the next command, and for nothing else.
pub proof fn law_idle_means_ready(b: BrowserView, c: CommandView, id: Seq<char>, r: ShellReplyView)
    ensures
        b.command(c, id).1.op is Idle ==> b.command(c, id).0.phase is Idle,
        b.reply(r).1.op is Idle ==> b.reply(r).0.phase is Idle,
{
}

} // verus!
