//! The file browser over the file service: what it does with each command, one operation at a
//! time.
use crate::commands::{CommandView, SftpCommand};
use crate::events;
use crate::events::{EntryView, EventView, RemoteEntry, SessionEvent, SftpSearchState};
use crate::folder;
use crate::ids;
use crate::lang::Lang;
use crate::listing;
use crate::messages;
use crate::number;
use crate::remote_path;
use crate::shell;
use crate::text;
use crate::tree;
use crate::tree::{Kid, TreeState, TreeView};
use crate::tree_walk;
use crate::tree_walk::{TreeWalk, WalkTurn, WalkView};
use vstd::prelude::*;

verus! {

// ---------------------------------------------------------------------------
// Operations and answers
// ---------------------------------------------------------------------------

/// What the browser wants done; `S` holds texts and `L` lists of texts.
#[allow(inconsistent_fields)]
pub enum OpOf<S, L> {
    /// Nothing: wait for the next command.
    Idle,
    /// Find the home directory.
    Home,
    /// List a directory.
    List(S),
    /// Look at a path, without following a symbolic link.
    Lstat(S),
    /// Remove a directory with all that is in it.
    RemoveTree(S),
    RemoveFile(S),
    Rename { from: S, to: S },
    SetMode { path: S, mode: u32 },
    MakeDir(S),
    /// Find out whether something stands at a path.
    Stat(S),
    /// Make an empty file.
    Create(S),
    /// Download a file under a name to the temporary directory.
    FetchTemp { remote: S, name: S, id: S },
    /// Open a local file with its application.
    OpenLocal(S),
    RemoveLocal(S),
    /// Upload a local file again whenever it changes, and wait for the next command.
    Watch { local: S, remote: S, name: S },
    /// Find out the size of a file.
    Size(S),
    /// Read a file.
    ReadAll(S),
    /// Write a file.
    WriteAll { remote: S, content: S },
    /// Start a search in place of the one before, and wait for the next command.
    StartSearch { search_id: S, root: S, query: S },
    /// Stop the search.
    AbortSearch,
    /// Start a download, and wait for the next command.
    StartDownload { id: S, remote: S, local_dir: S },
    /// Start a download of several entries, and wait for the next command.
    StartArchive { id: S, remote_dir: S, names: L, local_dir: S },
    /// Start an upload, and wait for the next command.
    StartUpload { id: S, local: S, remote_dir: S },
    /// Ask a transfer to stop, and wait for the next command.
    CancelTransfer(S),
    /// Ask the search and all transfers to stop.
    Halt,
    /// Disconnect. Nothing follows.
    Stop,
}

pub type Op = OpOf<String, Vec<String>>;

pub type OpView = OpOf<Seq<char>, Seq<Seq<char>>>;

impl View for OpOf<String, Vec<String>> {
    type V = OpView;

    open spec fn view(&self) -> OpView {
        match *self {
            OpOf::Idle => OpOf::Idle,
            OpOf::Home => OpOf::Home,
            OpOf::List(p) => OpOf::List(p@),
            OpOf::Lstat(p) => OpOf::Lstat(p@),
            OpOf::RemoveTree(p) => OpOf::RemoveTree(p@),
            OpOf::RemoveFile(p) => OpOf::RemoveFile(p@),
            OpOf::Rename { from, to } => OpOf::Rename { from: from@, to: to@ },
            OpOf::SetMode { path, mode } => OpOf::SetMode { path: path@, mode },
            OpOf::MakeDir(p) => OpOf::MakeDir(p@),
            OpOf::Stat(p) => OpOf::Stat(p@),
            OpOf::Create(p) => OpOf::Create(p@),
            OpOf::FetchTemp { remote, name, id } => OpOf::FetchTemp {
                remote: remote@,
                name: name@,
                id: id@,
            },
            OpOf::OpenLocal(p) => OpOf::OpenLocal(p@),
            OpOf::RemoveLocal(p) => OpOf::RemoveLocal(p@),
            OpOf::Watch { local, remote, name } => OpOf::Watch {
                local: local@,
                remote: remote@,
                name: name@,
            },
            OpOf::Size(p) => OpOf::Size(p@),
            OpOf::ReadAll(p) => OpOf::ReadAll(p@),
            OpOf::WriteAll { remote, content } => OpOf::WriteAll {
                remote: remote@,
                content: content@,
            },
            OpOf::StartSearch { search_id, root, query } => OpOf::StartSearch {
                search_id: search_id@,
                root: root@,
                query: query@,
            },
            OpOf::AbortSearch => OpOf::AbortSearch,
            OpOf::StartDownload { id, remote, local_dir } => OpOf::StartDownload {
                id: id@,
                remote: remote@,
                local_dir: local_dir@,
            },
            OpOf::StartArchive { id, remote_dir, names, local_dir } => OpOf::StartArchive {
                id: id@,
                remote_dir: remote_dir@,
                names: text::texts(names@),
                local_dir: local_dir@,
            },
            OpOf::StartUpload { id, local, remote_dir } => OpOf::StartUpload {
                id: id@,
                local: local@,
                remote_dir: remote_dir@,
            },
            OpOf::CancelTransfer(id) => OpOf::CancelTransfer(id@),
            OpOf::Halt => OpOf::Halt,
            OpOf::Stop => OpOf::Stop,
        }
    }
}

/// Why a file could not be read; `S` holds texts.
pub enum ReadFaultOf<S> {
    Open(S),
    Read(S),
}

pub type ReadFault = ReadFaultOf<String>;

/// What became of an operation.
pub enum Reply {
    /// The home directory, if the server told one.
    Home(Option<String>),
    Listing(Result<Vec<RemoteEntry>, String>),
    /// The mode of a path, if the server told one; the outer `None` says that the path could not
    /// be looked at.
    Mode(Option<Option<u32>>),
    Done(Result<(), String>),
    Present(bool),
    /// Where the file was put, and whether the download was completed rather than cancelled.
    Fetched { local: String, moved: Result<bool, String> },
    /// The size of a file, if the server told one.
    Size(Option<u64>),
    Bytes(Result<Vec<u8>, ReadFault>),
    Ready,
}

/// The contents of a [`Reply`].
#[verifier::ext_equal]
pub enum ReplyView {
    Home(Option<Seq<char>>),
    Listing(Result<Seq<EntryView>, Seq<char>>),
    Mode(Option<Option<u32>>),
    Done(Result<(), Seq<char>>),
    Present(bool),
    Fetched { local: Seq<char>, moved: Result<bool, Seq<char>> },
    Size(Option<u64>),
    Bytes(Result<Seq<u8>, ReadFaultOf<Seq<char>>>),
    Ready,
}

impl View for Reply {
    type V = ReplyView;

    open spec fn view(&self) -> ReplyView {
        match *self {
            Reply::Home(h) => ReplyView::Home(
                match h {
                    Some(s) => Some(s@),
                    None => None,
                },
            ),
            Reply::Listing(l) => ReplyView::Listing(folder::listing_view(l)),
            Reply::Mode(m) => ReplyView::Mode(m),
            Reply::Done(d) => ReplyView::Done(folder::done_view(d)),
            Reply::Present(p) => ReplyView::Present(p),
            Reply::Fetched { local, moved } => ReplyView::Fetched {
                local: local@,
                moved: folder::moved_view(moved),
            },
            Reply::Size(s) => ReplyView::Size(s),
            Reply::Bytes(b) => ReplyView::Bytes(
                match b {
                    Ok(v) => Ok(v@),
                    Err(ReadFaultOf::Open(m)) => Err(ReadFaultOf::Open(m@)),
                    Err(ReadFaultOf::Read(m)) => Err(ReadFaultOf::Read(m@)),
                },
            ),
            Reply::Ready => ReplyView::Ready,
        }
    }
}

/// What is reported, and what is to be done next.
pub struct Turn {
    pub events: Vec<SessionEvent>,
    pub op: Op,
}

/// The contents of a [`Turn`].
#[verifier::ext_equal]
pub struct TurnView {
    pub events: Seq<EventView>,
    pub op: OpView,
}

impl View for Turn {
    type V = TurnView;

    open spec fn view(&self) -> TurnView {
        TurnView { events: events::events_view(self.events@), op: self.op@ }
    }
}

// ---------------------------------------------------------------------------
// State
// ---------------------------------------------------------------------------

/// What follows when the navigation tree is expanded down to a directory.
pub enum WalkEndOf<S> {
    /// The tree is shown.
    Show,
    /// The tree is shown, and then the path.
    ShowPath(S),
}

/// What the browser waits for; `S` holds texts, `L` lists of texts and `W` a walk through the
/// tree.
#[allow(inconsistent_fields)]
pub enum PhaseOf<S, L, W> {
    /// The next command.
    Idle,
    FindHome,
    ListHome { home: S },
    /// The listing of a directory on the way through the tree.
    Walk { walk: W, dir: S, end: WalkEndOf<S> },
    List { path: S },
    RefreshList { path: S },
    /// The listing of an expanded directory; `rest` holds those to come, the next one last.
    RefreshTree { dir: S, rest: L },
    Toggle { path: S },
    DeleteLook { path: S },
    DeleteWork { path: S },
    DeleteList { path: S },
    DeleteSync { path: S },
    RenameWork { from: S, to: S },
    RenameSync { from: S, to: S },
    RenameSyncTarget { from: S, to: S },
    ModeWork { path: S, mode: u32 },
    MakeDirWork { path: S },
    MakeDirSync { path: S },
    TouchLook { path: S },
    TouchWork { path: S },
    /// The listing of the directory in which something has changed.
    Relist { dir: S },
    TempFetch { remote: S, name: S, edit: bool },
    TempOpen { local: S, remote: S, name: S, edit: bool },
    TempDrop { name: S },
    ReadSize { remote: S, edit: bool },
    ReadBytes { remote: S, edit: bool },
    WriteWork { name: S },
    SearchStop { search_id: S, root: S, query: S },
    Closing,
}

pub type Phase = PhaseOf<String, Vec<String>, TreeWalk>;

pub type PhaseView = PhaseOf<Seq<char>, Seq<Seq<char>>, WalkView>;

impl View for PhaseOf<String, Vec<String>, TreeWalk> {
    type V = PhaseView;

    open spec fn view(&self) -> PhaseView {
        match *self {
            PhaseOf::Idle => PhaseOf::Idle,
            PhaseOf::FindHome => PhaseOf::FindHome,
            PhaseOf::ListHome { home } => PhaseOf::ListHome { home: home@ },
            PhaseOf::Walk { walk, dir, end } => PhaseOf::Walk {
                walk: walk@,
                dir: dir@,
                end: match end {
                    WalkEndOf::Show => WalkEndOf::Show,
                    WalkEndOf::ShowPath(p) => WalkEndOf::ShowPath(p@),
                },
            },
            PhaseOf::List { path } => PhaseOf::List { path: path@ },
            PhaseOf::RefreshList { path } => PhaseOf::RefreshList { path: path@ },
            PhaseOf::RefreshTree { dir, rest } => PhaseOf::RefreshTree {
                dir: dir@,
                rest: text::texts(rest@),
            },
            PhaseOf::Toggle { path } => PhaseOf::Toggle { path: path@ },
            PhaseOf::DeleteLook { path } => PhaseOf::DeleteLook { path: path@ },
            PhaseOf::DeleteWork { path } => PhaseOf::DeleteWork { path: path@ },
            PhaseOf::DeleteList { path } => PhaseOf::DeleteList { path: path@ },
            PhaseOf::DeleteSync { path } => PhaseOf::DeleteSync { path: path@ },
            PhaseOf::RenameWork { from, to } => PhaseOf::RenameWork { from: from@, to: to@ },
            PhaseOf::RenameSync { from, to } => PhaseOf::RenameSync { from: from@, to: to@ },
            PhaseOf::RenameSyncTarget { from, to } => PhaseOf::RenameSyncTarget {
                from: from@,
                to: to@,
            },
            PhaseOf::ModeWork { path, mode } => PhaseOf::ModeWork { path: path@, mode },
            PhaseOf::MakeDirWork { path } => PhaseOf::MakeDirWork { path: path@ },
            PhaseOf::MakeDirSync { path } => PhaseOf::MakeDirSync { path: path@ },
            PhaseOf::TouchLook { path } => PhaseOf::TouchLook { path: path@ },
            PhaseOf::TouchWork { path } => PhaseOf::TouchWork { path: path@ },
            PhaseOf::Relist { dir } => PhaseOf::Relist { dir: dir@ },
            PhaseOf::TempFetch { remote, name, edit } => PhaseOf::TempFetch {
                remote: remote@,
                name: name@,
                edit,
            },
            PhaseOf::TempOpen { local, remote, name, edit } => PhaseOf::TempOpen {
                local: local@,
                remote: remote@,
                name: name@,
                edit,
            },
            PhaseOf::TempDrop { name } => PhaseOf::TempDrop { name: name@ },
            PhaseOf::ReadSize { remote, edit } => PhaseOf::ReadSize { remote: remote@, edit },
            PhaseOf::ReadBytes { remote, edit } => PhaseOf::ReadBytes { remote: remote@, edit },
            PhaseOf::WriteWork { name } => PhaseOf::WriteWork { name: name@ },
            PhaseOf::SearchStop { search_id, root, query } => PhaseOf::SearchStop {
                search_id: search_id@,
                root: root@,
                query: query@,
            },
            PhaseOf::Closing => PhaseOf::Closing,
        }
    }
}

/// A search that was started: its identifier, its root and its query.
pub type SearchKey = (String, String, String);

/// The contents of an optional search.
pub open spec fn search_view(s: Option<SearchKey>) -> Option<(Seq<char>, Seq<char>, Seq<char>)> {
    match s {
        Some(k) => Some((k.0@, k.1@, k.2@)),
        None => None,
    }
}

/// The file browser.
pub struct SftpWorker {
    pub lang: Lang,
    pub tree: TreeState,
    /// The search that was started last, unless it was stopped.
    pub search: Option<SearchKey>,
    pub phase: Phase,
}

/// The contents of a [`SftpWorker`].
#[verifier::ext_equal]
pub struct WorkerView {
    pub lang: Lang,
    pub tree: TreeView,
    pub search: Option<(Seq<char>, Seq<char>, Seq<char>)>,
    pub phase: PhaseView,
}

impl View for SftpWorker {
    type V = WorkerView;

    open spec fn view(&self) -> WorkerView {
        WorkerView {
            lang: self.lang,
            tree: self.tree@,
            search: search_view(self.search),
            phase: self.phase@,
        }
    }
}

// ---------------------------------------------------------------------------
// What follows what
// ---------------------------------------------------------------------------

/// A message of the browser.
pub open spec fn status(m: Seq<char>) -> EventView {
    EventView::SftpStatus(m)
}

/// A message made of a title and a text.
pub open spec fn titled_event(title: Seq<char>, what: Seq<char>) -> EventView {
    EventView::SftpStatus(events::titled(title, what))
}

/// The subdirectories of a listing, where there is one.
pub open spec fn kids_of(l: Result<Seq<EntryView>, Seq<char>>) -> Option<
    Seq<(Seq<char>, Seq<char>)>,
> {
    match l {
        Ok(entries) => Some(listing::dirs_among(entries)),
        Err(_) => None,
    }
}

/// A listing that is shown, where there is one.
pub open spec fn shown(path: Seq<char>, l: Result<Seq<EntryView>, Seq<char>>) -> Seq<EventView> {
    match l {
        Ok(entries) => seq![EventView::SftpEntries { path, entries }],
        Err(_) => Seq::empty(),
    }
}

/// A list of directories with the next one last.
pub open spec fn next_last(s: Seq<Seq<char>>) -> Seq<Seq<char>> {
    s.reverse()
}

impl WorkerView {
    pub open spec fn at(self, phase: PhaseView) -> WorkerView {
        WorkerView { phase, ..self }
    }

    pub open spec fn with_tree(self, tree: TreeView) -> WorkerView {
        WorkerView { tree, ..self }
    }

    /// Reports, and then an operation that is waited for.
    pub open spec fn ask(self, phase: PhaseView, reports: Seq<EventView>, op: OpView) -> (
        WorkerView,
        TurnView,
    ) {
        (self.at(phase), TurnView { events: reports, op })
    }

    /// Reports, and then the next command.
    pub open spec fn rest(self, reports: Seq<EventView>) -> (WorkerView, TurnView) {
        self.ask(PhaseOf::Idle, reports, OpOf::Idle)
    }

    /// The rows of the navigation tree.
    pub open spec fn rows(self) -> EventView {
        EventView::SftpTreeUpdate(tree::all_nodes(self.tree))
    }

    /// On the way through the tree, after some reports.
    pub open spec fn walking(
        self,
        reports: Seq<EventView>,
        turn: WalkTurn,
        end: WalkEndOf<Seq<char>>,
    ) -> (WorkerView, TurnView) {
        let there = self.with_tree(turn.0);
        match turn.2 {
            Some(dir) => there.ask(
                PhaseOf::Walk { walk: turn.1, dir, end },
                reports,
                OpOf::List(dir),
            ),
            None => match end {
                WalkEndOf::Show => there.rest(reports.push(there.rows())),
                WalkEndOf::ShowPath(p) => there.rest(reports.push(there.rows()).push(status(p))),
            },
        }
    }

    /// The expanded directories are listed again, one after the other.
    pub open spec fn refreshing(self, reports: Seq<EventView>, rest: Seq<Seq<char>>) -> (
        WorkerView,
        TurnView,
    ) {
        if rest.len() == 0 {
            self.rest(reports.push(self.rows()))
        } else {
            self.ask(
                PhaseOf::RefreshTree { dir: rest.last(), rest: rest.drop_last() },
                reports,
                OpOf::List(rest.last()),
            )
        }
    }

    /// The directory in which something has changed is listed again.
    pub open spec fn relisting(self, reports: Seq<EventView>, dir: Seq<char>) -> (
        WorkerView,
        TurnView,
    ) {
        self.ask(PhaseOf::Relist { dir }, reports, OpOf::List(dir))
    }

    /// What a command leads to; `id` is the identifier of a transfer that it starts.
    pub open spec fn command(self, c: CommandView, id: Seq<char>) -> (WorkerView, TurnView) {
        let none = Seq::<EventView>::empty();
        match c {
            CommandView::ListDir(path) => self.ask(
                PhaseOf::List { path },
                seq![events::loading(path, self.lang)],
                OpOf::List(path),
            ),
            CommandView::RefreshDir(path) => self.ask(
                PhaseOf::RefreshList { path },
                seq![events::loading(path, self.lang)],
                OpOf::List(path),
            ),
            CommandView::ToggleTreeNode(path) => {
                let (t, dir) = tree_walk::toggled(self.tree, path);
                let there = self.with_tree(t);
                match dir {
                    Some(d) => there.ask(PhaseOf::Toggle { path: d }, none, OpOf::List(d)),
                    None => there.rest(seq![there.rows()]),
                }
            },
            CommandView::Search { search_id, root, query } => {
                let q = text::trimmed(query);
                WorkerView { search: Some((search_id, root, q)), ..self }.ask(
                    PhaseOf::Idle,
                    none,
                    OpOf::StartSearch { search_id, root, query: q },
                )
            },
            CommandView::CancelSearch => match self.search {
                Some((search_id, root, query)) => WorkerView { search: None, ..self }.ask(
                    PhaseOf::SearchStop { search_id, root, query },
                    none,
                    OpOf::AbortSearch,
                ),
                None => self.rest(
                    seq![status(self.lang.pick("当前没有正在运行的搜索"@, "No active search"@))],
                ),
            },
            CommandView::Download { remote, local_dir } => self.ask(
                PhaseOf::Idle,
                none,
                OpOf::StartDownload { id, remote, local_dir },
            ),
            CommandView::DownloadArchive { remote_dir, names, local_dir } => self.ask(
                PhaseOf::Idle,
                none,
                OpOf::StartArchive { id, remote_dir, names, local_dir },
            ),
            CommandView::CancelTransfer(which) => self.ask(
                PhaseOf::Idle,
                none,
                OpOf::CancelTransfer(which),
            ),
            CommandView::Upload { local, remote_dir } => self.ask(
                PhaseOf::Idle,
                none,
                OpOf::StartUpload { id, local, remote_dir },
            ),
            CommandView::Delete(path) => {
                let begun = status(
                    events::doing(
                        self.lang.pick("删除"@, "Deleting"@),
                        remote_path::base_name_of(path),
                    ),
                );
                if remote_path::forbidden(path) {
                    self.rest(
                        seq![
                            begun,
                            titled_event(
                                self.lang.pick("鍒犻櫎澶辫触"@, "Delete failed"@),
                                self.lang.pick(
                                    "拒绝删除危险路径"@,
                                    "Refusing to delete a dangerous path"@,
                                ),
                            ),
                        ],
                    )
                } else {
                    self.ask(PhaseOf::DeleteLook { path }, seq![begun], OpOf::Lstat(path))
                }
            },
            CommandView::OpenTemp { remote, edit } => {
                let name = remote_path::safe_name(remote_path::base_name_of(remote));
                self.ask(
                    PhaseOf::TempFetch { remote, name, edit },
                    seq![status(events::doing(self.lang.pick("打开"@, "Opening"@), name))],
                    OpOf::FetchTemp { remote, name, id },
                )
            },
            CommandView::Rename { from, to } => self.ask(
                PhaseOf::RenameWork { from, to },
                none,
                OpOf::Rename { from, to },
            ),
            CommandView::Chmod { path, mode } => self.ask(
                PhaseOf::ModeWork { path, mode },
                none,
                OpOf::SetMode { path, mode },
            ),
            CommandView::MkDir(path) => self.ask(
                PhaseOf::MakeDirWork { path },
                none,
                OpOf::MakeDir(path),
            ),
            CommandView::TouchFile(path) => self.ask(
                PhaseOf::TouchLook { path },
                none,
                OpOf::Stat(path),
            ),
            CommandView::ReadText { remote, edit } => self.ask(
                PhaseOf::ReadSize { remote, edit },
                seq![
                    status(
                        events::doing(
                            self.lang.pick("打开"@, "Opening"@),
                            remote_path::base_name_of(remote),
                        ),
                    ),
                ],
                OpOf::Size(remote),
            ),
            CommandView::WriteText { remote, content } => self.ask(
                PhaseOf::WriteWork { name: remote_path::base_name_of(remote) },
                none,
                OpOf::WriteAll { remote, content },
            ),
            CommandView::Close => self.ask(PhaseOf::Closing, none, OpOf::Halt),
        }
    }

    /// After the home directory was listed: the tree is expanded down to it.
    pub open spec fn home_listed(self, home: Seq<char>, l: Result<Seq<EntryView>, Seq<char>>) -> (
        WorkerView,
        TurnView,
    ) {
        let told = match l {
            Ok(entries) => seq![
                EventView::SftpEntries { path: home, entries },
                status(home),
            ],
            Err(m) => seq![
                EventView::SftpError(messages::listing_failure(home, m, self.lang)),
            ],
        };
        self.walking(told, tree_walk::walk_start(self.tree, home, true), WalkEndOf::Show)
    }

    /// After a directory was listed: the tree is expanded down to it.
    pub open spec fn dir_listed(self, path: Seq<char>, l: Result<Seq<EntryView>, Seq<char>>) -> (
        WorkerView,
        TurnView,
    ) {
        match l {
            Ok(entries) => self.walking(
                seq![EventView::SftpEntries { path, entries }],
                tree_walk::walk_start(self.tree, remote_path::tree_path(path), false),
                WalkEndOf::ShowPath(path),
            ),
            Err(m) => self.rest(
                seq![EventView::SftpError(messages::listing_failure(path, m, self.lang))],
            ),
        }
    }

    /// After a directory was listed again: the expanded directories follow.
    pub open spec fn refresh_listed(self, path: Seq<char>, l: Result<Seq<EntryView>, Seq<char>>) -> (
        WorkerView,
        TurnView,
    ) {
        let told = match l {
            Ok(entries) => seq![EventView::SftpEntries { path, entries }, status(path)],
            Err(m) => seq![
                EventView::SftpError(messages::listing_failure(path, m, self.lang)),
            ],
        };
        self.refreshing(told, next_last(self.tree.expanded))
    }

    /// The last reports on a deletion.
    pub open spec fn deleted(self, told: Seq<EventView>, path: Seq<char>) -> (
        WorkerView,
        TurnView,
    ) {
        self.rest(
            told.push(self.rows()).push(
                titled_event(
                    self.lang.pick("已删除"@, "Deleted"@),
                    remote_path::base_name_of(path),
                ),
            ),
        )
    }

    /// After a deletion, when the parent directory was listed: the tree forgets what is gone.
    pub open spec fn delete_listed(self, path: Seq<char>, l: Result<Seq<EntryView>, Seq<char>>) -> (
        WorkerView,
        TurnView,
    ) {
        let parent = remote_path::parent_dir_of(path);
        let there = self.with_tree(self.tree.forget(path));
        if there.tree.dirs.contains_key(parent) {
            there.ask(PhaseOf::DeleteSync { path }, shown(parent, l), OpOf::List(parent))
        } else {
            there.deleted(shown(parent, l), path)
        }
    }

    /// After a renaming, when the tree knows the source directory as it is now.
    pub open spec fn rename_target(self, told: Seq<EventView>, from: Seq<char>, to: Seq<char>) -> (
        WorkerView,
        TurnView,
    ) {
        let source = remote_path::parent_dir_of(from);
        let target = remote_path::parent_dir_of(to);
        if target != source && self.tree.dirs.contains_key(target) {
            self.ask(PhaseOf::RenameSyncTarget { from, to }, told, OpOf::List(target))
        } else {
            self.relisting(told.push(self.rows()), source)
        }
    }

    /// After a renaming, or after it failed.
    pub open spec fn renamed(
        self,
        from: Seq<char>,
        to: Seq<char>,
        done: Result<(), Seq<char>>,
    ) -> (WorkerView, TurnView) {
        let source = remote_path::parent_dir_of(from);
        match done {
            Ok(_) => {
                let told = seq![
                    titled_event(
                        self.lang.pick("已重命名"@, "Renamed"@),
                        remote_path::base_name_of(to),
                    ),
                ];
                let there = self.with_tree(self.tree.forget(from));
                if there.tree.dirs.contains_key(source) {
                    there.ask(PhaseOf::RenameSync { from, to }, told, OpOf::List(source))
                } else {
                    there.rename_target(told, from, to)
                }
            },
            Err(m) => self.relisting(
                seq![titled_event(self.lang.pick("重命名失败"@, "Rename failed"@), m)],
                source,
            ),
        }
    }

    /// After a directory was made, or could not be.
    pub open spec fn dir_made(self, path: Seq<char>, done: Result<(), Seq<char>>) -> (
        WorkerView,
        TurnView,
    ) {
        let parent = remote_path::parent_dir_of(path);
        match done {
            Ok(_) => {
                let told = seq![
                    titled_event(
                        self.lang.pick("已新建文件夹"@, "Folder created"@),
                        remote_path::base_name_of(path),
                    ),
                ];
                if self.tree.dirs.contains_key(parent) {
                    self.ask(PhaseOf::MakeDirSync { path }, told, OpOf::List(parent))
                } else {
                    self.relisting(told.push(self.rows()), parent)
                }
            },
            Err(m) => self.relisting(
                seq![titled_event(self.lang.pick("新建文件夹失败"@, "Create folder failed"@), m)],
                parent,
            ),
        }
    }

    /// After permission bits were set, or could not be.
    pub open spec fn mode_set(self, path: Seq<char>, mode: u32, done: Result<(), Seq<char>>) -> (
        WorkerView,
        TurnView,
    ) {
        self.relisting(
            seq![
                match done {
                    Ok(_) => titled_event(
                        self.lang.pick("已修改权限"@, "Permissions changed"@),
                        remote_path::base_name_of(path) + " → "@ + number::octal(mode as nat),
                    ),
                    Err(m) => titled_event(self.lang.pick("修改权限失败"@, "chmod failed"@), m),
                },
            ],
            remote_path::parent_dir_of(path),
        )
    }

    /// After a file was made, or could not be.
    pub open spec fn file_made(self, path: Seq<char>, done: Result<(), Seq<char>>) -> (
        WorkerView,
        TurnView,
    ) {
        self.relisting(
            seq![
                match done {
                    Ok(_) => titled_event(
                        self.lang.pick("已新建文件"@, "File created"@),
                        remote_path::base_name_of(path),
                    ),
                    Err(m) => titled_event(self.lang.pick("新建文件失败"@, "Create file failed"@), m),
                },
            ],
            remote_path::parent_dir_of(path),
        )
    }

    /// After a file was downloaded to be opened.
    pub open spec fn temp_fetched(
        self,
        remote: Seq<char>,
        name: Seq<char>,
        edit: bool,
        local: Seq<char>,
        moved: Result<bool, Seq<char>>,
    ) -> (WorkerView, TurnView) {
        match moved {
            Ok(whole) => if whole {
                self.ask(
                    PhaseOf::TempOpen { local, remote, name, edit },
                    Seq::empty(),
                    OpOf::OpenLocal(local),
                )
            } else {
                self.ask(PhaseOf::TempDrop { name }, Seq::empty(), OpOf::RemoveLocal(local))
            },
            Err(m) => self.rest(seq![titled_event(self.lang.pick("打开失败"@, "Open failed"@), m)]),
        }
    }

    /// After a file was opened with its application.
    pub open spec fn temp_opened(
        self,
        local: Seq<char>,
        remote: Seq<char>,
        name: Seq<char>,
        edit: bool,
    ) -> (WorkerView, TurnView) {
        let told = seq![
            titled_event(
                if edit {
                    self.lang.pick("已打开编辑"@, "Opened for editing"@)
                } else {
                    self.lang.pick("已打开"@, "Opened"@)
                },
                name,
            ),
        ];
        self.ask(
            PhaseOf::Idle,
            told,
            if edit {
                OpOf::Watch { local, remote, name }
            } else {
                OpOf::Idle
            },
        )
    }

    /// The text of a file for the built-in editor, or why there is none.
    pub open spec fn file_text(
        self,
        remote: Seq<char>,
        edit: bool,
        r: Result<Seq<char>, Seq<char>>,
    ) -> (WorkerView, TurnView) {
        self.rest(
            seq![
                EventView::SftpFileText {
                    path: remote,
                    name: remote_path::base_name_of(remote),
                    content: match r {
                        Ok(s) => s,
                        Err(_) => Seq::empty(),
                    },
                    edit,
                    error: match r {
                        Ok(_) => Seq::empty(),
                        Err(m) => m,
                    },
                },
            ],
        )
    }

    /// What follows the bytes of a file for the built-in editor.
    pub open spec fn read_result(self, b: Result<Seq<u8>, ReadFaultOf<Seq<char>>>) -> Result<
        Seq<char>,
        Seq<char>,
    > {
        match b {
            Ok(bytes) => shell::edit_text(bytes, self.lang),
            Err(ReadFaultOf::Open(m)) => Err(
                events::titled(self.lang.pick("打开失败"@, "Open failed"@), m),
            ),
            Err(ReadFaultOf::Read(m)) => Err(
                events::titled(self.lang.pick("读取失败"@, "Read failed"@), m),
            ),
        }
    }

    /// What follows when an operation is done. After an answer to something else the browser
    /// waits for the next command.
    pub open spec fn reply(self, r: ReplyView) -> (WorkerView, TurnView) {
        let none = Seq::<EventView>::empty();
        match (self.phase, r) {
            (PhaseOf::FindHome, ReplyView::Home(h)) => {
                let home = match h {
                    Some(s) => s,
                    None => "/"@,
                };
                self.ask(
                    PhaseOf::ListHome { home },
                    seq![status(events::doing(self.lang.pick("SFTP 加载"@, "SFTP loading"@), home))],
                    OpOf::List(home),
                )
            },
            (PhaseOf::ListHome { home }, ReplyView::Listing(l)) => self.home_listed(home, l),
            (PhaseOf::Walk { walk, dir, end }, ReplyView::Listing(l)) => {
                let there = self.with_tree(self.tree.keep(dir, kids_of(l)));
                there.walking(none, tree_walk::walk_resume(there.tree, walk), end)
            },
            (PhaseOf::List { path }, ReplyView::Listing(l)) => self.dir_listed(path, l),
            (PhaseOf::RefreshList { path }, ReplyView::Listing(l)) => self.refresh_listed(path, l),
            (PhaseOf::RefreshTree { dir, rest }, ReplyView::Listing(l)) => self.with_tree(
                self.tree.keep(dir, kids_of(l)),
            ).refreshing(none, rest),
            (PhaseOf::Toggle { path }, ReplyView::Listing(l)) => {
                let there = self.with_tree(self.tree.keep(path, kids_of(l)).expand(path));
                there.rest(seq![there.rows()])
            },
            (PhaseOf::DeleteLook { path }, ReplyView::Mode(m)) => self.ask(
                PhaseOf::DeleteWork { path },
                none,
                if (m matches Some(p) && remote_path::dir_mode(p)) {
                    OpOf::RemoveTree(path)
                } else {
                    OpOf::RemoveFile(path)
                },
            ),
            (PhaseOf::DeleteWork { path }, ReplyView::Done(d)) => match d {
                Ok(_) => self.ask(
                    PhaseOf::DeleteList { path },
                    none,
                    OpOf::List(remote_path::parent_dir_of(path)),
                ),
                Err(m) => self.rest(
                    seq![titled_event(self.lang.pick("删除失败"@, "Delete failed"@), m)],
                ),
            },
            (PhaseOf::DeleteList { path }, ReplyView::Listing(l)) => self.delete_listed(path, l),
            (PhaseOf::DeleteSync { path }, ReplyView::Listing(l)) => self.with_tree(
                self.tree.keep(remote_path::parent_dir_of(path), kids_of(l)),
            ).deleted(none, path),
            (PhaseOf::RenameWork { from, to }, ReplyView::Done(d)) => self.renamed(from, to, d),
            (PhaseOf::RenameSync { from, to }, ReplyView::Listing(l)) => self.with_tree(
                self.tree.keep(remote_path::parent_dir_of(from), kids_of(l)),
            ).rename_target(none, from, to),
            (PhaseOf::RenameSyncTarget { from, to }, ReplyView::Listing(l)) => {
                let there = self.with_tree(
                    self.tree.keep(remote_path::parent_dir_of(to), kids_of(l)),
                );
                there.relisting(seq![there.rows()], remote_path::parent_dir_of(from))
            },
            (PhaseOf::ModeWork { path, mode }, ReplyView::Done(d)) => self.mode_set(path, mode, d),
            (PhaseOf::MakeDirWork { path }, ReplyView::Done(d)) => self.dir_made(path, d),
            (PhaseOf::MakeDirSync { path }, ReplyView::Listing(l)) => {
                let parent = remote_path::parent_dir_of(path);
                let there = self.with_tree(self.tree.keep(parent, kids_of(l)));
                there.relisting(seq![there.rows()], parent)
            },
            (PhaseOf::TouchLook { path }, ReplyView::Present(there)) => if there {
                self.relisting(
                    seq![
                        titled_event(
                            self.lang.pick("文件已存在"@, "File already exists"@),
                            remote_path::base_name_of(path),
                        ),
                    ],
                    remote_path::parent_dir_of(path),
                )
            } else {
                self.ask(PhaseOf::TouchWork { path }, none, OpOf::Create(path))
            },
            (PhaseOf::TouchWork { path }, ReplyView::Done(d)) => self.file_made(path, d),
            (PhaseOf::Relist { dir }, ReplyView::Listing(l)) => self.rest(shown(dir, l)),
            (
                PhaseOf::TempFetch { remote, name, edit },
                ReplyView::Fetched { local, moved },
            ) => self.temp_fetched(remote, name, edit, local, moved),
            (PhaseOf::TempOpen { local, remote, name, edit }, ReplyView::Ready) =>
                self.temp_opened(local, remote, name, edit),
            (PhaseOf::TempDrop { name }, ReplyView::Ready) => self.rest(
                seq![titled_event(self.lang.pick("已取消"@, "Cancelled"@), name)],
            ),
            (PhaseOf::ReadSize { remote, edit }, ReplyView::Size(s)) => if listing::or_zero_u64(s)
                > shell::MAX_EDIT_BYTES {
                self.file_text(remote, edit, Err(shell::too_large_text(self.lang)))
            } else {
                self.ask(PhaseOf::ReadBytes { remote, edit }, none, OpOf::ReadAll(remote))
            },
            (PhaseOf::ReadBytes { remote, edit }, ReplyView::Bytes(b)) => self.file_text(
                remote,
                edit,
                self.read_result(b),
            ),
            (PhaseOf::WriteWork { name }, ReplyView::Done(d)) => self.rest(
                seq![
                    match d {
                        Ok(_) => titled_event(self.lang.pick("已保存"@, "Saved"@), name),
                        Err(m) => titled_event(self.lang.pick("保存失败"@, "Save failed"@), m),
                    },
                ],
            ),
            (PhaseOf::SearchStop { search_id, root, query }, ReplyView::Ready) => self.rest(
                seq![
                    EventView::SftpSearchStatus {
                        search_id,
                        root,
                        query,
                        state: SftpSearchState::Cancelled,
                        found: 0,
                        scanned: 0,
                        elapsed_ms: 0,
                    },
                ],
            ),
            (PhaseOf::Closing, ReplyView::Ready) => self.ask(
                PhaseOf::Idle,
                seq![
                    status(self.lang.pick("文件连接已断开"@, "File connection disconnected"@)),
                ],
                OpOf::Stop,
            ),
            _ => self.rest(none),
        }
    }
}

// ---------------------------------------------------------------------------
// Doing it
// ---------------------------------------------------------------------------

pub(crate) fn no_events() -> (out: Vec<SessionEvent>)
    ensures
        events::events_view(out@) == Seq::<EventView>::empty(),
{
    let out: Vec<SessionEvent> = Vec::new();
    assert(events::events_view(out@) =~= Seq::<EventView>::empty());
    out
}

pub(crate) fn one_event(e: SessionEvent) -> (out: Vec<SessionEvent>)
    ensures
        events::events_view(out@) == seq![e@],
{
    let mut out: Vec<SessionEvent> = Vec::new();
    out.push(e);
    assert(events::events_view(out@) =~= seq![e@]);
    out
}

pub(crate) fn two_events(a: SessionEvent, b: SessionEvent) -> (out: Vec<SessionEvent>)
    ensures
        events::events_view(out@) == seq![a@, b@],
{
    let mut out: Vec<SessionEvent> = Vec::new();
    out.push(a);
    out.push(b);
    assert(events::events_view(out@) =~= seq![a@, b@]);
    out
}

pub(crate) fn add_event(list: &mut Vec<SessionEvent>, e: SessionEvent)
    ensures
        events::events_view(final(list)@) == events::events_view(old(list)@).push(e@),
{
    proof {
        events::lemma_events_push(list@, e);
    }
    list.push(e);
}

fn shown_events(path: String, l: Result<Vec<RemoteEntry>, String>) -> (out: Vec<SessionEvent>)
    ensures
        events::events_view(out@) == shown(path@, folder::listing_view(l)),
{
    match l {
        Ok(entries) => one_event(SessionEvent::SftpEntries { path, entries }),
        Err(_) => no_events(),
    }
}

/// The subdirectories of a listing, where there is one.
pub fn kids_in(l: &Result<Vec<RemoteEntry>, String>) -> (out: Option<Vec<Kid>>)
    ensures
        (match out {
            Some(k) => Some(tree::kids_view(k@)),
            None => None,
        }) == kids_of(folder::listing_view(*l)),
{
    match l {
        Ok(entries) => Some(listing::child_dirs(entries)),
        Err(_) => None,
    }
}

pub(crate) fn turned_list(list: &Vec<String>) -> (out: Vec<String>)
    ensures
        text::texts(out@) == next_last(text::texts(list@)),
{
    let ghost all = text::texts(list@);
    let mut out: Vec<String> = Vec::new();
    let mut i: usize = list.len();
    while i > 0
        invariant
            i <= list@.len(),
            all == text::texts(list@),
            text::texts(out@) == all.skip(i as int).reverse(),
        decreases i,
    {
        i = i - 1;
        let ghost before = text::texts(out@);
        assert(all[i as int] == list@[i as int]@);
        out.push(list[i].clone());
        assert(text::texts(out@) =~= before.push(all[i as int]));
        assert(all.skip(i as int).reverse() =~= before.push(all[i as int]));
    }
    assert(all.skip(0) == all);
    out
}

impl SftpWorker {
    /// The navigation tree is sound, and so is a walk through it.
    pub open spec fn wf(&self) -> bool {
        self.tree.wf() && (self.phase matches PhaseOf::Walk { walk, dir, end } ==> walk.wf())
    }

    /// The browser at its start, and its first step: to find the home directory.
    pub fn start(lang: Lang) -> (out: (SftpWorker, Turn))
        ensures
            out.0.wf(),
            out.0@.lang == lang,
            out.0@.tree.dirs == Map::<Seq<char>, Seq<(Seq<char>, Seq<char>)>>::empty(),
            out.0@.tree.expanded == Seq::<Seq<char>>::empty(),
            out.0@.search is None,
            out.0@.phase is FindHome,
            out.1@ == (TurnView {
                events: seq![status(lang.pick("SFTP 模式"@, "SFTP mode"@))],
                op: OpOf::Home,
            }),
    {
        let w = SftpWorker {
            lang,
            tree: TreeState::new(),
            search: None,
            phase: PhaseOf::FindHome,
        };
        let e = events::plain_status(lang.t("SFTP 模式", "SFTP mode"));
        (w, Turn { events: one_event(e), op: OpOf::Home })
    }

    fn ask(&mut self, phase: Phase, events: Vec<SessionEvent>, op: Op) -> (out: Turn)
        requires
            old(self).tree.wf(),
            phase matches PhaseOf::Walk { walk, dir, end } ==> walk.wf(),
        ensures
            final(self).wf(),
            (final(self)@, out@) == old(self)@.ask(phase@, events::events_view(events@), op@),
    {
        self.phase = phase;
        Turn { events, op }
    }

    fn rest(&mut self, events: Vec<SessionEvent>) -> (out: Turn)
        requires
            old(self).tree.wf(),
        ensures
            final(self).wf(),
            (final(self)@, out@) == old(self)@.rest(events::events_view(events@)),
    {
        self.ask(PhaseOf::Idle, events, OpOf::Idle)
    }

    fn rows(&self) -> (out: SessionEvent)
        requires
            self.tree.wf(),
        ensures
            out@ == self@.rows(),
    {
        SessionEvent::SftpTreeUpdate(self.tree.nodes())
    }

    fn walking(
        &mut self,
        events: Vec<SessionEvent>,
        walk: TreeWalk,
        ask: Option<String>,
        end: WalkEndOf<String>,
    ) -> (out: Turn)
        requires
            old(self).tree.wf(),
            walk.wf(),
        ensures
            final(self).wf(),
            (final(self)@, out@) == old(self)@.walking(
                events::events_view(events@),
                (old(self)@.tree, walk@, tree_walk::maybe(ask)),
                match end {
                    WalkEndOf::Show => WalkEndOf::Show,
                    WalkEndOf::ShowPath(p) => WalkEndOf::ShowPath(p@),
                },
            ),
    {
        match ask {
            Some(dir) => {
                let op = OpOf::List(dir.clone());
                self.ask(PhaseOf::Walk { walk, dir, end }, events, op)
            },
            None => {
                let mut events = events;
                let rows = self.rows();
                add_event(&mut events, rows);
                match end {
                    WalkEndOf::Show => {},
                    WalkEndOf::ShowPath(p) => {
                        add_event(&mut events, SessionEvent::SftpStatus(p));
                    },
                }
                self.rest(events)
            },
        }
    }

    fn refreshing(&mut self, events: Vec<SessionEvent>, rest: Vec<String>) -> (out: Turn)
        requires
            old(self).tree.wf(),
        ensures
            final(self).wf(),
            (final(self)@, out@) == old(self)@.refreshing(
                events::events_view(events@),
                text::texts(rest@),
            ),
    {
        let ghost all = text::texts(rest@);
        let mut rest = rest;
        match rest.pop() {
            None => {
                let mut events = events;
                let rows = self.rows();
                add_event(&mut events, rows);
                self.rest(events)
            },
            Some(dir) => {
                assert(text::texts(rest@) =~= all.drop_last());
                assert(all.last() == dir@);
                let op = OpOf::List(dir.clone());
                self.ask(PhaseOf::RefreshTree { dir, rest }, events, op)
            },
        }
    }

    fn relisting(&mut self, events: Vec<SessionEvent>, dir: String) -> (out: Turn)
        requires
            old(self).tree.wf(),
        ensures
            final(self).wf(),
            (final(self)@, out@) == old(self)@.relisting(events::events_view(events@), dir@),
    {
        let op = OpOf::List(dir.clone());
        self.ask(PhaseOf::Relist { dir }, events, op)
    }

    fn keep(&mut self, dir: &str, l: &Result<Vec<RemoteEntry>, String>)
        requires
            old(self).tree.wf(),
        ensures
            final(self).tree.wf(),
            final(self)@ == old(self)@.with_tree(
                old(self)@.tree.keep(dir@, kids_of(folder::listing_view(*l))),
            ),
            final(self).phase == old(self).phase,
    {
        let kids = kids_in(l);
        self.tree.keep(dir, kids);
    }

    fn delete(&mut self, path: String) -> (out: Turn)
        requires
            old(self).tree.wf(),
        ensures
            final(self).wf(),
            (final(self)@, out@) == old(self)@.command(CommandView::Delete(path@), Seq::empty()),
    {
        let name = remote_path::base_name(path.as_str());
        let begun = events::doing_status(self.lang.t("删除", "Deleting"), name.as_str());
        if remote_path::is_forbidden_remote_path(path.as_str()) {
            let refused = events::titled_status(
                self.lang.t("鍒犻櫎澶辫触", "Delete failed"),
                self.lang.t("拒绝删除危险路径", "Refusing to delete a dangerous path"),
            );
            self.rest(two_events(begun, refused))
        } else {
            let op = OpOf::Lstat(path.clone());
            self.ask(PhaseOf::DeleteLook { path }, one_event(begun), op)
        }
    }

    fn toggle(&mut self, path: &str) -> (out: Turn)
        requires
            old(self).tree.wf(),
        ensures
            final(self).wf(),
            (final(self)@, out@) == old(self)@.command(
                CommandView::ToggleTreeNode(path@),
                Seq::empty(),
            ),
    {
        match tree_walk::toggle(&mut self.tree, path) {
            Some(d) => {
                let op = OpOf::List(d.clone());
                self.ask(PhaseOf::Toggle { path: d }, no_events(), op)
            },
            None => {
                let rows = self.rows();
                self.rest(one_event(rows))
            },
        }
    }

    fn cancel_search(&mut self) -> (out: Turn)
        requires
            old(self).tree.wf(),
        ensures
            final(self).wf(),
            (final(self)@, out@) == old(self)@.command(CommandView::CancelSearch, Seq::empty()),
    {
        let mut taken: Option<SearchKey> = None;
        std::mem::swap(&mut taken, &mut self.search);
        match taken {
            Some((search_id, root, query)) => self.ask(
                PhaseOf::SearchStop { search_id, root, query },
                no_events(),
                OpOf::AbortSearch,
            ),
            None => {
                let e = events::plain_status(
                    self.lang.t("当前没有正在运行的搜索", "No active search"),
                );
                self.rest(one_event(e))
            },
        }
    }

    /// What a command leads to; `id` is the identifier of a transfer that it starts.
    pub fn on_command(&mut self, command: SftpCommand, id: String) -> (out: Turn)
        requires
            old(self).wf(),
        ensures
            final(self).wf(),
            (final(self)@, out@) == old(self)@.command(command@, id@),
            command@ matches CommandView::Chmod { path, mode } ==> out@.op == (OpView::SetMode {
                path,
                mode,
            }),
            command@ matches CommandView::Rename { from, to } ==> out@.op == (OpView::Rename {
                from,
                to,
            }),
            command@ matches CommandView::WriteText { remote, content } ==> out@.op == (
            OpView::WriteAll { remote, content }),
            command@ matches CommandView::Upload { local, remote_dir } ==> out@.op == (
            OpView::StartUpload { id: id@, local, remote_dir }),
            command@ matches CommandView::Download { remote, local_dir } ==> out@.op == (
            OpView::StartDownload { id: id@, remote, local_dir }),
    {
        match command {
            SftpCommand::ListDir(path) => {
                let e = events::loading_status(path.as_str(), self.lang);
                let op = OpOf::List(path.clone());
                self.ask(PhaseOf::List { path }, one_event(e), op)
            },
            SftpCommand::RefreshDir(path) => {
                let e = events::loading_status(path.as_str(), self.lang);
                let op = OpOf::List(path.clone());
                self.ask(PhaseOf::RefreshList { path }, one_event(e), op)
            },
            SftpCommand::ToggleTreeNode(path) => self.toggle(path.as_str()),
            SftpCommand::Search { search_id, root, query } => {
                let q = text::trim(query.as_str());
                self.search = Some((search_id.clone(), root.clone(), q.clone()));
                self.ask(
                    PhaseOf::Idle,
                    no_events(),
                    OpOf::StartSearch { search_id, root, query: q },
                )
            },
            SftpCommand::CancelSearch => self.cancel_search(),
            SftpCommand::Download { remote, local_dir } => self.ask(
                PhaseOf::Idle,
                no_events(),
                OpOf::StartDownload { id, remote, local_dir },
            ),
            SftpCommand::DownloadArchive { remote_dir, names, local_dir } => self.ask(
                PhaseOf::Idle,
                no_events(),
                OpOf::StartArchive { id, remote_dir, names, local_dir },
            ),
            SftpCommand::CancelTransfer(which) => self.ask(
                PhaseOf::Idle,
                no_events(),
                OpOf::CancelTransfer(which),
            ),
            SftpCommand::Upload { local, remote_dir } => self.ask(
                PhaseOf::Idle,
                no_events(),
                OpOf::StartUpload { id, local, remote_dir },
            ),
            SftpCommand::Delete(path) => self.delete(path),
            SftpCommand::OpenTemp { remote, edit } => {
                let base = remote_path::base_name(remote.as_str());
                let name = remote_path::sanitize_filename(base.as_str());
                let e = events::doing_status(self.lang.t("打开", "Opening"), name.as_str());
                let op = OpOf::FetchTemp { remote: remote.clone(), name: name.clone(), id };
                self.ask(PhaseOf::TempFetch { remote, name, edit }, one_event(e), op)
            },
            SftpCommand::Rename { from, to } => {
                let op = OpOf::Rename { from: from.clone(), to: to.clone() };
                self.ask(PhaseOf::RenameWork { from, to }, no_events(), op)
            },
            SftpCommand::Chmod { path, mode } => {
                let op = OpOf::SetMode { path: path.clone(), mode };
                self.ask(PhaseOf::ModeWork { path, mode }, no_events(), op)
            },
            SftpCommand::MkDir(path) => {
                let op = OpOf::MakeDir(path.clone());
                self.ask(PhaseOf::MakeDirWork { path }, no_events(), op)
            },
            SftpCommand::TouchFile(path) => {
                let op = OpOf::Stat(path.clone());
                self.ask(PhaseOf::TouchLook { path }, no_events(), op)
            },
            SftpCommand::ReadText { remote, edit } => {
                let name = remote_path::base_name(remote.as_str());
                let e = events::doing_status(self.lang.t("打开", "Opening"), name.as_str());
                let op = OpOf::Size(remote.clone());
                self.ask(PhaseOf::ReadSize { remote, edit }, one_event(e), op)
            },
            SftpCommand::WriteText { remote, content } => {
                let name = remote_path::base_name(remote.as_str());
                self.ask(
                    PhaseOf::WriteWork { name },
                    no_events(),
                    OpOf::WriteAll { remote, content },
                )
            },
            SftpCommand::Close => self.ask(PhaseOf::Closing, no_events(), OpOf::Halt),
        }
    }

    /// Takes a command. A transfer that it starts gets a random identifier.
    pub fn accept(&mut self, command: SftpCommand) -> (out: Turn)
        requires
            old(self).wf(),
        ensures
            final(self).wf(),
            exists|id: Seq<char>| #[trigger]
                ids::id_text(id) && (final(self)@, out@) == old(self)@.command(command@, id),
            command@ matches CommandView::Chmod { path, mode } ==> out@.op == (OpView::SetMode {
                path,
                mode,
            }),
    {
        let id = ids::fresh_id();
        assert(ids::id_text(id@));
        self.on_command(command, id)
    }

    fn home_listed(&mut self, home: String, l: Result<Vec<RemoteEntry>, String>) -> (out: Turn)
        requires
            old(self).tree.wf(),
        ensures
            final(self).wf(),
            (final(self)@, out@) == old(self)@.home_listed(home@, folder::listing_view(l)),
    {
        let (walk, ask) = TreeWalk::start(&mut self.tree, home.as_str(), true);
        let events = match l {
            Ok(entries) => two_events(
                SessionEvent::SftpEntries { path: home.clone(), entries },
                SessionEvent::SftpStatus(home),
            ),
            Err(m) => one_event(
                SessionEvent::SftpError(
                    messages::list_error_msg(home.as_str(), m.as_str(), self.lang),
                ),
            ),
        };
        self.walking(events, walk, ask, WalkEndOf::Show)
    }

    fn dir_listed(&mut self, path: String, l: Result<Vec<RemoteEntry>, String>) -> (out: Turn)
        requires
            old(self).tree.wf(),
        ensures
            final(self).wf(),
            (final(self)@, out@) == old(self)@.dir_listed(path@, folder::listing_view(l)),
    {
        match l {
            Ok(entries) => {
                let target = remote_path::normalize_tree_path(path.as_str());
                let (walk, ask) = TreeWalk::start(&mut self.tree, target.as_str(), false);
                let e = SessionEvent::SftpEntries { path: path.clone(), entries };
                self.walking(one_event(e), walk, ask, WalkEndOf::ShowPath(path))
            },
            Err(m) => {
                let msg = messages::list_error_msg(path.as_str(), m.as_str(), self.lang);
                self.rest(one_event(SessionEvent::SftpError(msg)))
            },
        }
    }

    fn refresh_listed(&mut self, path: String, l: Result<Vec<RemoteEntry>, String>) -> (out: Turn)
        requires
            old(self).tree.wf(),
        ensures
            final(self).wf(),
            (final(self)@, out@) == old(self)@.refresh_listed(path@, folder::listing_view(l)),
    {
        let events = match l {
            Ok(entries) => two_events(
                SessionEvent::SftpEntries { path: path.clone(), entries },
                SessionEvent::SftpStatus(path),
            ),
            Err(m) => one_event(
                SessionEvent::SftpError(
                    messages::list_error_msg(path.as_str(), m.as_str(), self.lang),
                ),
            ),
        };
        let rest = turned_list(&self.tree.expanded);
        self.refreshing(events, rest)
    }

    fn deleted(&mut self, events: Vec<SessionEvent>, path: &str) -> (out: Turn)
        requires
            old(self).tree.wf(),
        ensures
            final(self).wf(),
            (final(self)@, out@) == old(self)@.deleted(events::events_view(events@), path@),
    {
        let mut events = events;
        let rows = self.rows();
        add_event(&mut events, rows);
        let name = remote_path::base_name(path);
        add_event(
            &mut events,
            events::titled_status(self.lang.t("已删除", "Deleted"), name.as_str()),
        );
        self.rest(events)
    }

    fn delete_listed(&mut self, path: String, l: Result<Vec<RemoteEntry>, String>) -> (out: Turn)
        requires
            old(self).tree.wf(),
        ensures
            final(self).wf(),
            (final(self)@, out@) == old(self)@.delete_listed(path@, folder::listing_view(l)),
    {
        let parent = remote_path::parent_dir(path.as_str());
        self.tree.forget(path.as_str());
        let known = self.tree.dirs.contains_key(parent.as_str());
        let events = shown_events(parent.clone(), l);
        if known {
            self.ask(PhaseOf::DeleteSync { path }, events, OpOf::List(parent))
        } else {
            self.deleted(events, path.as_str())
        }
    }

    fn rename_target(&mut self, events: Vec<SessionEvent>, from: String, to: String) -> (out: Turn)
        requires
            old(self).tree.wf(),
        ensures
            final(self).wf(),
            (final(self)@, out@) == old(self)@.rename_target(
                events::events_view(events@),
                from@,
                to@,
            ),
    {
        let source = remote_path::parent_dir(from.as_str());
        let target = remote_path::parent_dir(to.as_str());
        if !text::same_text(target.as_str(), source.as_str()) && self.tree.dirs.contains_key(
            target.as_str(),
        ) {
            self.ask(PhaseOf::RenameSyncTarget { from, to }, events, OpOf::List(target))
        } else {
            let mut events = events;
            let rows = self.rows();
            add_event(&mut events, rows);
            self.relisting(events, source)
        }
    }

    fn renamed(&mut self, from: String, to: String, done: Result<(), String>) -> (out: Turn)
        requires
            old(self).tree.wf(),
        ensures
            final(self).wf(),
            (final(self)@, out@) == old(self)@.renamed(from@, to@, folder::done_view(done)),
    {
        let source = remote_path::parent_dir(from.as_str());
        match done {
            Ok(_) => {
                let name = remote_path::base_name(to.as_str());
                let e = events::titled_status(self.lang.t("已重命名", "Renamed"), name.as_str());
                self.tree.forget(from.as_str());
                if self.tree.dirs.contains_key(source.as_str()) {
                    self.ask(PhaseOf::RenameSync { from, to }, one_event(e), OpOf::List(source))
                } else {
                    self.rename_target(one_event(e), from, to)
                }
            },
            Err(m) => {
                let e = events::titled_status(
                    self.lang.t("重命名失败", "Rename failed"),
                    m.as_str(),
                );
                self.relisting(one_event(e), source)
            },
        }
    }

    fn dir_made(&mut self, path: String, done: Result<(), String>) -> (out: Turn)
        requires
            old(self).tree.wf(),
        ensures
            final(self).wf(),
            (final(self)@, out@) == old(self)@.dir_made(path@, folder::done_view(done)),
    {
        let parent = remote_path::parent_dir(path.as_str());
        match done {
            Ok(_) => {
                let name = remote_path::base_name(path.as_str());
                let e = events::titled_status(
                    self.lang.t("已新建文件夹", "Folder created"),
                    name.as_str(),
                );
                if self.tree.dirs.contains_key(parent.as_str()) {
                    self.ask(PhaseOf::MakeDirSync { path }, one_event(e), OpOf::List(parent))
                } else {
                    let mut events = one_event(e);
                    let rows = self.rows();
                    add_event(&mut events, rows);
                    self.relisting(events, parent)
                }
            },
            Err(m) => {
                let e = events::titled_status(
                    self.lang.t("新建文件夹失败", "Create folder failed"),
                    m.as_str(),
                );
                self.relisting(one_event(e), parent)
            },
        }
    }

    fn mode_set(&mut self, path: String, mode: u32, done: Result<(), String>) -> (out: Turn)
        requires
            old(self).tree.wf(),
        ensures
            final(self).wf(),
            (final(self)@, out@) == old(self)@.mode_set(path@, mode, folder::done_view(done)),
    {
        let parent = remote_path::parent_dir(path.as_str());
        let e = match done {
            Ok(_) => {
                let name = remote_path::base_name(path.as_str());
                let digits = number::number_text(mode as u64, 8);
                let what = text::join3(name.as_str(), " → ", digits.as_str());
                events::titled_status(
                    self.lang.t("已修改权限", "Permissions changed"),
                    what.as_str(),
                )
            },
            Err(m) => events::titled_status(
                self.lang.t("修改权限失败", "chmod failed"),
                m.as_str(),
            ),
        };
        self.relisting(one_event(e), parent)
    }

    fn file_made(&mut self, path: String, done: Result<(), String>) -> (out: Turn)
        requires
            old(self).tree.wf(),
        ensures
            final(self).wf(),
            (final(self)@, out@) == old(self)@.file_made(path@, folder::done_view(done)),
    {
        let parent = remote_path::parent_dir(path.as_str());
        let e = match done {
            Ok(_) => {
                let name = remote_path::base_name(path.as_str());
                events::titled_status(self.lang.t("已新建文件", "File created"), name.as_str())
            },
            Err(m) => events::titled_status(
                self.lang.t("新建文件失败", "Create file failed"),
                m.as_str(),
            ),
        };
        self.relisting(one_event(e), parent)
    }

    fn temp_fetched(
        &mut self,
        remote: String,
        name: String,
        edit: bool,
        local: String,
        moved: Result<bool, String>,
    ) -> (out: Turn)
        requires
            old(self).tree.wf(),
        ensures
            final(self).wf(),
            (final(self)@, out@) == old(self)@.temp_fetched(
                remote@,
                name@,
                edit,
                local@,
                folder::moved_view(moved),
            ),
    {
        match moved {
            Ok(whole) => {
                if whole {
                    let op = OpOf::OpenLocal(local.clone());
                    self.ask(PhaseOf::TempOpen { local, remote, name, edit }, no_events(), op)
                } else {
                    self.ask(PhaseOf::TempDrop { name }, no_events(), OpOf::RemoveLocal(local))
                }
            },
            Err(m) => {
                let e = events::titled_status(self.lang.t("打开失败", "Open failed"), m.as_str());
                self.rest(one_event(e))
            },
        }
    }

    fn temp_opened(&mut self, local: String, remote: String, name: String, edit: bool) -> (out: Turn)
        requires
            old(self).tree.wf(),
        ensures
            final(self).wf(),
            (final(self)@, out@) == old(self)@.temp_opened(local@, remote@, name@, edit),
    {
        let title = if edit {
            self.lang.t("已打开编辑", "Opened for editing")
        } else {
            self.lang.t("已打开", "Opened")
        };
        let e = events::titled_status(title, name.as_str());
        let op = if edit {
            OpOf::Watch { local, remote, name }
        } else {
            OpOf::Idle
        };
        self.ask(PhaseOf::Idle, one_event(e), op)
    }

    fn file_text(&mut self, remote: String, edit: bool, r: Result<String, String>) -> (out: Turn)
        requires
            old(self).tree.wf(),
        ensures
            final(self).wf(),
            (final(self)@, out@) == old(self)@.file_text(remote@, edit, shell::text_view(r)),
    {
        let name = remote_path::base_name(remote.as_str());
        let (content, error) = match r {
            Ok(s) => (s, String::new()),
            Err(m) => (String::new(), m),
        };
        let e = SessionEvent::SftpFileText { path: remote, name, content, edit, error };
        assert(e@ == old(self)@.file_text(remote@, edit, shell::text_view(r)).1.events[0]);
        self.rest(one_event(e))
    }

    fn read_done(&mut self, remote: String, edit: bool, b: Result<Vec<u8>, ReadFault>) -> (out:
        Turn)
        requires
            old(self).tree.wf(),
        ensures
            final(self).wf(),
            (final(self)@, out@) == old(self)@.file_text(
                remote@,
                edit,
                old(self)@.read_result(
                    match b {
                        Ok(v) => Ok(v@),
                        Err(ReadFaultOf::Open(m)) => Err(ReadFaultOf::Open(m@)),
                        Err(ReadFaultOf::Read(m)) => Err(ReadFaultOf::Read(m@)),
                    },
                ),
            ),
    {
        let r = match b {
            Ok(bytes) => shell::editor_text(bytes.as_slice(), self.lang),
            Err(ReadFaultOf::Open(m)) => Err(
                text::join3(self.lang.t("打开失败", "Open failed"), ": ", m.as_str()),
            ),
            Err(ReadFaultOf::Read(m)) => Err(
                text::join3(self.lang.t("读取失败", "Read failed"), ": ", m.as_str()),
            ),
        };
        self.file_text(remote, edit, r)
    }

    fn saved(&mut self, name: &str, done: Result<(), String>) -> (out: Turn)
        requires
            old(self).tree.wf(),
        ensures
            final(self).wf(),
            (final(self)@, out@) == old(self)@.rest(
                seq![
                    match folder::done_view(done) {
                        Ok(_) => titled_event(old(self)@.lang.pick("已保存"@, "Saved"@), name@),
                        Err(m) => titled_event(
                            old(self)@.lang.pick("保存失败"@, "Save failed"@),
                            m,
                        ),
                    },
                ],
            ),
    {
        let e = match done {
            Ok(_) => events::titled_status(self.lang.t("已保存", "Saved"), name),
            Err(m) => events::titled_status(self.lang.t("保存失败", "Save failed"), m.as_str()),
        };
        self.rest(one_event(e))
    }

    fn on_listing(&mut self, phase: Phase, l: Result<Vec<RemoteEntry>, String>) -> (out: Turn)
        requires
            old(self).tree.wf(),
            phase matches PhaseOf::Walk { walk, dir, end } ==> walk.wf(),
        ensures
            final(self).wf(),
            (final(self)@, out@) == old(self)@.at(phase@).reply(
                ReplyView::Listing(folder::listing_view(l)),
            ),
    {
        match phase {
            PhaseOf::ListHome { home } => self.home_listed(home, l),
            PhaseOf::Walk { walk, dir, end } => {
                let mut walk = walk;
                self.keep(dir.as_str(), &l);
                let ask = walk.resume(&mut self.tree);
                self.walking(no_events(), walk, ask, end)
            },
            PhaseOf::List { path } => self.dir_listed(path, l),
            PhaseOf::RefreshList { path } => self.refresh_listed(path, l),
            PhaseOf::RefreshTree { dir, rest } => {
                self.keep(dir.as_str(), &l);
                self.refreshing(no_events(), rest)
            },
            PhaseOf::Toggle { path } => {
                self.keep(path.as_str(), &l);
                self.tree.expand(path.as_str());
                let rows = self.rows();
                self.rest(one_event(rows))
            },
            PhaseOf::DeleteList { path } => self.delete_listed(path, l),
            PhaseOf::DeleteSync { path } => {
                let parent = remote_path::parent_dir(path.as_str());
                self.keep(parent.as_str(), &l);
                self.deleted(no_events(), path.as_str())
            },
            PhaseOf::RenameSync { from, to } => {
                let source = remote_path::parent_dir(from.as_str());
                self.keep(source.as_str(), &l);
                self.rename_target(no_events(), from, to)
            },
            PhaseOf::RenameSyncTarget { from, to } => {
                let target = remote_path::parent_dir(to.as_str());
                self.keep(target.as_str(), &l);
                let source = remote_path::parent_dir(from.as_str());
                let rows = self.rows();
                self.relisting(one_event(rows), source)
            },
            PhaseOf::MakeDirSync { path } => {
                let parent = remote_path::parent_dir(path.as_str());
                self.keep(parent.as_str(), &l);
                let rows = self.rows();
                self.relisting(one_event(rows), parent)
            },
            PhaseOf::Relist { dir } => {
                let events = shown_events(dir, l);
                self.rest(events)
            },
            _ => self.rest(no_events()),
        }
    }

    fn on_done(&mut self, phase: Phase, d: Result<(), String>) -> (out: Turn)
        requires
            old(self).tree.wf(),
        ensures
            final(self).wf(),
            (final(self)@, out@) == old(self)@.at(phase@).reply(
                ReplyView::Done(folder::done_view(d)),
            ),
    {
        match phase {
            PhaseOf::DeleteWork { path } => {
                match d {
                    Ok(_) => {
                        let parent = remote_path::parent_dir(path.as_str());
                        self.ask(PhaseOf::DeleteList { path }, no_events(), OpOf::List(parent))
                    },
                    Err(m) => {
                        let e = events::titled_status(
                            self.lang.t("删除失败", "Delete failed"),
                            m.as_str(),
                        );
                        self.rest(one_event(e))
                    },
                }
            },
            PhaseOf::RenameWork { from, to } => self.renamed(from, to, d),
            PhaseOf::ModeWork { path, mode } => self.mode_set(path, mode, d),
            PhaseOf::MakeDirWork { path } => self.dir_made(path, d),
            PhaseOf::TouchWork { path } => self.file_made(path, d),
            PhaseOf::WriteWork { name } => self.saved(name.as_str(), d),
            _ => self.rest(no_events()),
        }
    }

    fn on_ready(&mut self, phase: Phase) -> (out: Turn)
        requires
            old(self).tree.wf(),
        ensures
            final(self).wf(),
            (final(self)@, out@) == old(self)@.at(phase@).reply(ReplyView::Ready),
    {
        match phase {
            PhaseOf::TempOpen { local, remote, name, edit } => self.temp_opened(
                local,
                remote,
                name,
                edit,
            ),
            PhaseOf::TempDrop { name } => {
                let e = events::titled_status(self.lang.t("已取消", "Cancelled"), name.as_str());
                self.rest(one_event(e))
            },
            PhaseOf::SearchStop { search_id, root, query } => {
                let e = SessionEvent::SftpSearchStatus {
                    search_id,
                    root,
                    query,
                    state: SftpSearchState::Cancelled,
                    found: 0,
                    scanned: 0,
                    elapsed_ms: 0,
                };
                self.rest(one_event(e))
            },
            PhaseOf::Closing => {
                let e = events::plain_status(
                    self.lang.t("文件连接已断开", "File connection disconnected"),
                );
                self.ask(PhaseOf::Idle, one_event(e), OpOf::Stop)
            },
            _ => self.rest(no_events()),
        }
    }

    /// What follows when an operation is done.
    pub fn on_reply(&mut self, reply: Reply) -> (out: Turn)
        requires
            old(self).wf(),
        ensures
            final(self).wf(),
            (final(self)@, out@) == old(self)@.reply(reply@),
    {
        let mut phase: Phase = PhaseOf::Idle;
        std::mem::swap(&mut phase, &mut self.phase);
        assert(self@.at(phase@) == old(self)@);
        match reply {
            Reply::Listing(l) => self.on_listing(phase, l),
            Reply::Done(d) => self.on_done(phase, d),
            Reply::Ready => self.on_ready(phase),
            Reply::Home(h) => match phase {
                PhaseOf::FindHome => {
                    let home = match h {
                        Some(s) => s,
                        None => "/".to_string(),
                    };
                    let e = events::doing_status(
                        self.lang.t("SFTP 加载", "SFTP loading"),
                        home.as_str(),
                    );
                    let op = OpOf::List(home.clone());
                    self.ask(PhaseOf::ListHome { home }, one_event(e), op)
                },
                _ => self.rest(no_events()),
            },
            Reply::Mode(m) => match phase {
                PhaseOf::DeleteLook { path } => {
                    let is_dir = match m {
                        Some(p) => remote_path::mode_is_dir(p),
                        None => false,
                    };
                    let target = path.clone();
                    let op = if is_dir {
                        OpOf::RemoveTree(target)
                    } else {
                        OpOf::RemoveFile(target)
                    };
                    self.ask(PhaseOf::DeleteWork { path }, no_events(), op)
                },
                _ => self.rest(no_events()),
            },
            Reply::Present(there) => match phase {
                PhaseOf::TouchLook { path } => {
                    if there {
                        let name = remote_path::base_name(path.as_str());
                        let e = events::titled_status(
                            self.lang.t("文件已存在", "File already exists"),
                            name.as_str(),
                        );
                        let parent = remote_path::parent_dir(path.as_str());
                        self.relisting(one_event(e), parent)
                    } else {
                        let op = OpOf::Create(path.clone());
                        self.ask(PhaseOf::TouchWork { path }, no_events(), op)
                    }
                },
                _ => self.rest(no_events()),
            },
            Reply::Fetched { local, moved } => match phase {
                PhaseOf::TempFetch { remote, name, edit } => self.temp_fetched(
                    remote,
                    name,
                    edit,
                    local,
                    moved,
                ),
                _ => self.rest(no_events()),
            },
            Reply::Size(size) => match phase {
                PhaseOf::ReadSize { remote, edit } => {
                    let bytes: u64 = match size {
                        Some(n) => n,
                        None => 0,
                    };
                    match shell::size_guard(bytes, self.lang) {
                        Some(m) => self.file_text(remote, edit, Err(m)),
                        None => {
                            let op = OpOf::ReadAll(remote.clone());
                            self.ask(PhaseOf::ReadBytes { remote, edit }, no_events(), op)
                        },
                    }
                },
                _ => self.rest(no_events()),
            },
            Reply::Bytes(b) => match phase {
                PhaseOf::ReadBytes { remote, edit } => self.read_done(remote, edit, b),
                _ => self.rest(no_events()),
            },
        }
    }
}

// ---------------------------------------------------------------------------
// Laws
// ---------------------------------------------------------------------------

/// Whether no dangerous path is about to be removed.
pub open spec fn removal_is_safe(w: WorkerView) -> bool {
    match w.phase {
        PhaseOf::DeleteLook { path } => !remote_path::forbidden(path),
        PhaseOf::DeleteWork { path } => !remote_path::forbidden(path),
        _ => true,
    }
}

/// Whether an operation removes nothing at a dangerous path.
pub open spec fn removes_safely(op: OpView) -> bool {
    match op {
        OpOf::RemoveTree(p) => !remote_path::forbidden(p),
        OpOf::RemoveFile(p) => !remote_path::forbidden(p),
        _ => true,
    }
}

/// Nothing is ever removed at a dangerous path, whatever commands and answers come.
pub proof fn law_nothing_dangerous_is_removed(
    w: WorkerView,
    c: CommandView,
    id: Seq<char>,
    r: ReplyView,
)
    requires
        removal_is_safe(w),
    ensures
        removal_is_safe(w.command(c, id).0),
        removes_safely(w.command(c, id).1.op),
        removal_is_safe(w.reply(r).0),
        removes_safely(w.reply(r).1.op),
{
}

/// A deleted directory is forgotten: when its parent has been listed again, nothing is cached or
/// expanded of it or of what was below it.
pub proof fn law_deleted_is_forgotten(
    w: WorkerView,
    path: Seq<char>,
    l: Result<Seq<EntryView>, Seq<char>>,
    p: Seq<char>,
)
    requires
        w.phase == (PhaseOf::<Seq<char>, Seq<Seq<char>>, WalkView>::DeleteList { path }),
        tree::within(p, path),
    ensures
        !w.reply(ReplyView::Listing(l)).0.tree.dirs.contains_key(p),
        !w.reply(ReplyView::Listing(l)).0.tree.expanded.contains(p),
{
    let keep = |q: Seq<char>| !tree::within(q, path);
    let kept = w.tree.expanded.filter(keep);
    if kept.contains(p) {
        let i = kept.index_of(p);
        w.tree.expanded.lemma_filter_pred(keep, i);
    }
}

/// A directory that cannot be listed keeps what was known of it: the cached listings change by
/// no failed listing, but for what was deleted or renamed.
pub proof fn law_failed_listing_keeps_cache(w: WorkerView, m: Seq<char>)
    requires
        w.phase is Walk || w.phase is RefreshTree || w.phase is Toggle || w.phase is List
            || w.phase is RefreshList || w.phase is ListHome || w.phase is Relist || w.phase
            is DeleteSync || w.phase is RenameSync || w.phase is RenameSyncTarget || w.phase
            is MakeDirSync,
    ensures
        w.reply(ReplyView::Listing(Err(m))).0.tree.dirs == w.tree.dirs,
{
    match w.phase {
        PhaseOf::Walk { walk, dir, end } => {
            tree_walk::lemma_resume_keeps(w.tree, walk);
        },
        PhaseOf::ListHome { home } => {
            tree_walk::lemma_start_keeps(w.tree, home, true);
        },
        _ => {},
    }
}

/// The directory that is listed for the tree alone, after a change below it.
pub open spec fn resynced(phase: PhaseView) -> Option<Seq<char>> {
    match phase {
        PhaseOf::DeleteSync { path } => Some(remote_path::parent_dir_of(path)),
        PhaseOf::RenameSync { from, to } => Some(remote_path::parent_dir_of(from)),
        PhaseOf::RenameSyncTarget { from, to } => Some(remote_path::parent_dir_of(to)),
        PhaseOf::MakeDirSync { path } => Some(remote_path::parent_dir_of(path)),
        _ => None,
    }
}

/// Whether a directory that is listed for the tree alone is one that the tree knows.
pub open spec fn resync_is_known(w: WorkerView) -> bool {
    resynced(w.phase) matches Some(dir) ==> w.tree.dirs.contains_key(dir)
}

/// A change on the server grafts nothing onto the tree: only a directory that is cached is listed
/// again, its fresh listing takes the place of the cached one, and every other listing stays. A
/// listing that fails changes none.
pub proof fn law_resync_keeps_to_known_dirs(
    w: WorkerView,
    c: CommandView,
    id: Seq<char>,
    r: ReplyView,
)
    requires
        resync_is_known(w),
    ensures
        resync_is_known(w.command(c, id).0),
        resync_is_known(w.reply(r).0),
        (resynced(w.phase) is Some && r is Listing) ==> ({
            let dir = resynced(w.phase)->0;
            let after = w.reply(r).0.tree.dirs;
            &&& after.dom() == w.tree.dirs.dom()
            &&& forall|p: Seq<char>|
                p != dir && w.tree.dirs.contains_key(p) ==> #[trigger] after[p] == w.tree.dirs[p]
            &&& after[dir] == match r->Listing_0 {
                Ok(entries) => listing::dirs_among(entries),
                Err(_) => w.tree.dirs[dir],
            }
        }),
{
    if resynced(w.phase) is Some && r is Listing {
        assert(w.reply(r).0.tree.dirs.dom() =~= w.tree.dirs.dom());
    }
}

/// A refresh under way: how the browser stands, the directories whose listings it asked for, and
/// all that it reported.
pub struct RefreshRun {
    pub state: WorkerView,
    pub asked: Seq<Seq<char>>,
    pub reports: Seq<EventView>,
}

/// The directory whose listing an operation asks for.
pub open spec fn listed_by(op: OpView) -> Seq<Seq<char>> {
    match op {
        OpOf::List(dir) => seq![dir],
        _ => Seq::empty(),
    }
}

/// A refresh after so many of the listings that it asked for came or failed.
pub open spec fn refresh_after(
    w: WorkerView,
    path: Seq<char>,
    id: Seq<char>,
    listings: Seq<Result<Seq<EntryView>, Seq<char>>>,
) -> RefreshRun
    decreases listings.len(),
{
    if listings.len() == 0 {
        let (state, turn) = w.command(CommandView::RefreshDir(path), id);
        RefreshRun { state, asked: listed_by(turn.op), reports: turn.events }
    } else {
        let s = refresh_after(w, path, id, listings.drop_last());
        let (state, turn) = s.state.reply(ReplyView::Listing(listings.last()));
        RefreshRun {
            state,
            asked: s.asked + listed_by(turn.op),
            reports: s.reports + turn.events,
        }
    }
}

/// The tree with what became of the listings of some directories.
pub open spec fn tree_with(
    t: TreeView,
    dirs: Seq<Seq<char>>,
    listings: Seq<Result<Seq<EntryView>, Seq<char>>>,
) -> TreeView
    decreases dirs.len(),
{
    if dirs.len() == 0 {
        t
    } else {
        tree_with(t, dirs.drop_last(), listings).keep(
            dirs.last(),
            kids_of(listings[dirs.len() - 1]),
        )
    }
}

/// Whether the navigation tree is not among reports.
pub open spec fn no_rows(reports: Seq<EventView>) -> bool {
    forall|i: int| 0 <= i < reports.len() ==> !((#[trigger] reports[i]) is SftpTreeUpdate)
}

/// A refresh lists the directory and then every directory that is expanded at its start, one
/// after the other and nothing else. The tree is shown again only after the last of them, with
/// every listing that came, and then the browser is ready.
pub proof fn law_refresh_lists_the_expanded(
    w: WorkerView,
    path: Seq<char>,
    id: Seq<char>,
    listings: Seq<Result<Seq<EntryView>, Seq<char>>>,
)
    requires
        listings.len() <= w.tree.expanded.len() + 1,
    ensures
        ({
            let s = refresh_after(w, path, id, listings);
            let dirs = w.tree.expanded;
            let all = seq![path] + dirs;
            if listings.len() <= dirs.len() {
                &&& s.asked == all.take((listings.len() + 1) as int)
                &&& no_rows(s.reports)
            } else {
                &&& s.asked == all
                &&& s.state.phase is Idle
                &&& s.state.tree == tree_with(w.tree, dirs, listings.skip(1))
                &&& no_rows(s.reports.drop_last())
                &&& s.reports.len() > 0
                &&& s.reports.last() == s.state.rows()
            }
        }),
{
    lemma_refresh(w, path, id, listings);
}

proof fn lemma_refresh(
    w: WorkerView,
    path: Seq<char>,
    id: Seq<char>,
    listings: Seq<Result<Seq<EntryView>, Seq<char>>>,
)
    requires
        listings.len() <= w.tree.expanded.len() + 1,
    ensures
        ({
            let s = refresh_after(w, path, id, listings);
            let dirs = w.tree.expanded;
            let all = seq![path] + dirs;
            let m = listings.len() as int;
            &&& m == 0 ==> s.state == w.at(PhaseOf::RefreshList { path })
            &&& 0 < m <= dirs.len() ==> s.state == w.with_tree(
                tree_with(w.tree, dirs.take(m - 1), listings.skip(1)),
            ).at(PhaseOf::RefreshTree { dir: dirs[m - 1], rest: next_last(dirs.skip(m)) })
            &&& m <= dirs.len() ==> s.asked == all.take(m + 1) && no_rows(s.reports)
            &&& m == dirs.len() + 1 ==> s.asked == all && s.state == w.with_tree(
                tree_with(w.tree, dirs, listings.skip(1)),
            ).at(PhaseOf::Idle) && s.reports.len() > 0 && no_rows(s.reports.drop_last())
                && s.reports.last() == s.state.rows()
        }),
    decreases listings.len(),
{
    let s = refresh_after(w, path, id, listings);
    let dirs = w.tree.expanded;
    let all = seq![path] + dirs;
    let m = listings.len() as int;
    if m == 0 {
        assert(all.take(1) =~= seq![path]);
    } else {
        let front = listings.drop_last();
        let b = refresh_after(w, path, id, front);
        let turn = b.state.reply(ReplyView::Listing(listings.last())).1;
        lemma_refresh(w, path, id, front);
        let rest = next_last(dirs.skip(m - 1));
        if m <= dirs.len() {
            assert(rest.last() == dirs[m - 1]);
            assert(rest.drop_last() =~= next_last(dirs.skip(m)));
            assert(all.take(m + 1) =~= all.take(m).push(dirs[m - 1]));
            assert(s.asked =~= all.take(m + 1));
        } else {
            assert(rest.len() == 0);
            assert(all.take(m) =~= all);
            assert(s.asked =~= all);
            assert(s.reports.drop_last() =~= b.reports + turn.events.drop_last());
        }
        if m == 1 {
            assert(dirs.skip(0) =~= dirs);
            assert(dirs.take(0) =~= Seq::empty());
        } else {
            let before = front.skip(1);
            let now = listings.skip(1);
            assert(dirs.take(m - 1).drop_last() =~= dirs.take(m - 2));
            lemma_tree_with(w.tree, dirs.take(m - 2), before, now);
            assert(now[m - 2] == listings.last());
            if m == dirs.len() + 1 {
                assert(dirs.take(m - 1) =~= dirs);
            }
        }
    }
}

/// Only the listings of the directories count.
proof fn lemma_tree_with(
    t: TreeView,
    dirs: Seq<Seq<char>>,
    a: Seq<Result<Seq<EntryView>, Seq<char>>>,
    b: Seq<Result<Seq<EntryView>, Seq<char>>>,
)
    requires
        forall|i: int| 0 <= i < dirs.len() ==> #[trigger] a[i] == b[i],
    ensures
        tree_with(t, dirs, a) == tree_with(t, dirs, b),
    decreases dirs.len(),
{
    if dirs.len() > 0 {
        lemma_tree_with(t, dirs.drop_last(), a, b);
        assert(a[dirs.len() - 1] == b[dirs.len() - 1]);
    }
}

/// A file is only made where nothing stands: no command and no answer but the one that the place
/// is free leads to it.
pub proof fn law_touch_never_overwrites(w: WorkerView, c: CommandView, id: Seq<char>, r: ReplyView)
    ensures
        !(w.command(c, id).1.op is Create),
        w.reply(r).1.op matches OpOf::Create(p) ==> w.phase == (PhaseOf::<
            Seq<char>,
            Seq<Seq<char>>,
            WalkView,
        >::TouchLook { path: p }) && r == ReplyView::Present(false),
{
}

/// A file is only read into the editor when the server did not tell a size beyond the bound.
pub proof fn law_editor_reads_are_bounded(
    w: WorkerView,
    c: CommandView,
    id: Seq<char>,
    r: ReplyView,
)
    ensures
        !(w.command(c, id).1.op is ReadAll),
        w.reply(r).1.op is ReadAll ==> (r matches ReplyView::Size(s) && listing::or_zero_u64(s)
            <= shell::MAX_EDIT_BYTES),
{
}

} // verus!
