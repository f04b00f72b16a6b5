//! What the file browser and the local terminal report to the user interface.
use crate::lang::Lang;
use crate::text;
use vstd::prelude::*;

verus! {

/// What a directory entry is.
#[derive(Debug, Clone, Copy, PartialEq, Eq, Structural)]
pub enum EntryKind {
    /// A directory.
    Dir,
    /// A symbolic link to a directory.
    SymlinkDir,
    /// A symbolic link to something else.
    SymlinkFile,
    /// A symbolic link whose target cannot be reached.
    DeadLink,
    /// Anything else.
    File,
}

impl EntryKind {
    /// The name of the kind.
    pub open spec fn label(self) -> Seq<char> {
        match self {
            EntryKind::Dir => "dir"@,
            EntryKind::SymlinkDir => "symlink-dir"@,
            EntryKind::SymlinkFile => "symlink-file"@,
            EntryKind::DeadLink => "dead-link"@,
            EntryKind::File => "file"@,
        }
    }

    /// The name of the kind.
    pub fn name(self) -> (out: &'static str)
        ensures
            out@ == self.label(),
    {
        match self {
            EntryKind::Dir => "dir",
            EntryKind::SymlinkDir => "symlink-dir",
            EntryKind::SymlinkFile => "symlink-file",
            EntryKind::DeadLink => "dead-link",
            EntryKind::File => "file",
        }
    }
}

/// One entry of a remote directory.
#[derive(Debug)]
pub struct RemoteEntry {
    pub name: String,
    pub full_path: String,
    pub is_dir: bool,
    pub kind: EntryKind,
    pub size: u64,
    pub modified: u32,
    pub mode: u32,
}

/// The contents of a [`RemoteEntry`].
#[verifier::ext_equal]
pub struct EntryView {
    pub name: Seq<char>,
    pub full_path: Seq<char>,
    pub is_dir: bool,
    pub kind: EntryKind,
    pub size: u64,
    pub modified: u32,
    pub mode: u32,
}

impl View for RemoteEntry {
    type V = EntryView;

    open spec fn view(&self) -> EntryView {
        EntryView {
            name: self.name@,
            full_path: self.full_path@,
            is_dir: self.is_dir,
            kind: self.kind,
            size: self.size,
            modified: self.modified,
            mode: self.mode,
        }
    }
}

impl RemoteEntry {
    /// An entry with the same contents.
    pub fn copy(&self) -> (out: RemoteEntry)
        ensures
            out@ == self@,
    {
        RemoteEntry {
            name: self.name.clone(),
            full_path: self.full_path.clone(),
            is_dir: self.is_dir,
            kind: self.kind,
            size: self.size,
            modified: self.modified,
            mode: self.mode,
        }
    }
}

/// The contents of entries.
pub open spec fn entries_view(s: Seq<RemoteEntry>) -> Seq<EntryView> {
    s.map_values(|e: RemoteEntry| e@)
}

/// One row of the navigation tree.
#[derive(Debug)]
pub struct RemoteTreeNode {
    pub path: String,
    pub name: String,
    pub depth: u32,
    pub expanded: bool,
    pub has_children: bool,
}

/// The contents of a [`RemoteTreeNode`].
#[verifier::ext_equal]
pub struct NodeView {
    pub path: Seq<char>,
    pub name: Seq<char>,
    pub depth: nat,
    pub expanded: bool,
    pub has_children: bool,
}

impl View for RemoteTreeNode {
    type V = NodeView;

    open spec fn view(&self) -> NodeView {
        NodeView {
            path: self.path@,
            name: self.name@,
            depth: self.depth as nat,
            expanded: self.expanded,
            has_children: self.has_children,
        }
    }
}

/// The contents of tree rows.
pub open spec fn nodes_view(s: Seq<RemoteTreeNode>) -> Seq<NodeView> {
    s.map_values(|n: RemoteTreeNode| n@)
}

/// How far a search has come.
#[derive(Debug, Clone, Copy, PartialEq, Eq, Structural)]
pub enum SftpSearchState {
    Started,
    Progress,
    Completed,
    Cancelled,
}

/// How a transfer stands.
#[derive(Debug, Clone, Copy, PartialEq, Eq, Structural)]
pub enum TransferState {
    /// Bytes are flowing.
    Running,
    /// All bytes have arrived.
    Done,
    /// The transfer has failed.
    Failed,
    /// The transfer is being prepared.
    Preparing,
    /// The transfer was cancelled.
    Cancelled,
}

impl TransferState {
    /// The number by which the user interface knows the state.
    pub open spec fn number(self) -> u8 {
        match self {
            TransferState::Running => 0,
            TransferState::Done => 1,
            TransferState::Failed => 2,
            TransferState::Preparing => 3,
            TransferState::Cancelled => 4,
        }
    }

    /// The number by which the user interface knows the state.
    pub fn code(self) -> (out: u8)
        ensures
            out == self.number(),
    {
        match self {
            TransferState::Running => 0,
            TransferState::Done => 1,
            TransferState::Failed => 2,
            TransferState::Preparing => 3,
            TransferState::Cancelled => 4,
        }
    }
}

/// A report to the user interface.
#[derive(Debug)]
#[allow(inconsistent_fields)]
pub enum SessionEvent {
    /// A terminal is ready.
    Connected,
    /// A message of a terminal.
    Status(String),
    /// Text that a terminal printed.
    Output(String),
    /// A terminal has ended, and why.
    Closed(String),
    /// A message of the file browser.
    SftpStatus(String),
    /// A failure of the file browser.
    SftpError(String),
    /// The contents of a directory.
    SftpEntries { path: String, entries: Vec<RemoteEntry> },
    /// The rows of the navigation tree.
    SftpTreeUpdate(Vec<RemoteTreeNode>),
    /// How far a search has come.
    SftpSearchStatus {
        search_id: String,
        root: String,
        query: String,
        state: SftpSearchState,
        found: usize,
        scanned: usize,
        elapsed_ms: u128,
    },
    /// What a search has found since the last batch.
    SftpSearchBatch {
        search_id: String,
        root: String,
        query: String,
        entries: Vec<RemoteEntry>,
    },
    /// How a transfer stands.
    SftpTransfer {
        id: String,
        name: String,
        is_upload: bool,
        transferred: u64,
        total: u64,
        state: TransferState,
        msg: String,
    },
    /// The text of a file for the built-in editor, or why there is none.
    SftpFileText {
        path: String,
        name: String,
        content: String,
        edit: bool,
        error: String,
    },
}

/// The contents of a [`SessionEvent`].
#[verifier::ext_equal]
#[allow(inconsistent_fields)]
pub enum EventView {
    Connected,
    Status(Seq<char>),
    Output(Seq<char>),
    Closed(Seq<char>),
    SftpStatus(Seq<char>),
    SftpError(Seq<char>),
    SftpEntries { path: Seq<char>, entries: Seq<EntryView> },
    SftpTreeUpdate(Seq<NodeView>),
    SftpSearchStatus {
        search_id: Seq<char>,
        root: Seq<char>,
        query: Seq<char>,
        state: SftpSearchState,
        found: usize,
        scanned: usize,
        elapsed_ms: u128,
    },
    SftpSearchBatch {
        search_id: Seq<char>,
        root: Seq<char>,
        query: Seq<char>,
        entries: Seq<EntryView>,
    },
    SftpTransfer {
        id: Seq<char>,
        name: Seq<char>,
        is_upload: bool,
        transferred: u64,
        total: u64,
        state: TransferState,
        msg: Seq<char>,
    },
    SftpFileText {
        path: Seq<char>,
        name: Seq<char>,
        content: Seq<char>,
        edit: bool,
        error: Seq<char>,
    },
}

impl View for SessionEvent {
    type V = EventView;

    open spec fn view(&self) -> EventView {
        match *self {
            SessionEvent::Connected => EventView::Connected,
            SessionEvent::Status(s) => EventView::Status(s@),
            SessionEvent::Output(s) => EventView::Output(s@),
            SessionEvent::Closed(s) => EventView::Closed(s@),
            SessionEvent::SftpStatus(s) => EventView::SftpStatus(s@),
            SessionEvent::SftpError(s) => EventView::SftpError(s@),
            SessionEvent::SftpEntries { path, entries } => EventView::SftpEntries {
                path: path@,
                entries: entries_view(entries@),
            },
            SessionEvent::SftpTreeUpdate(nodes) => EventView::SftpTreeUpdate(nodes_view(nodes@)),
            SessionEvent::SftpSearchStatus {
                search_id,
                root,
                query,
                state,
                found,
                scanned,
                elapsed_ms,
            } => EventView::SftpSearchStatus {
                search_id: search_id@,
                root: root@,
                query: query@,
                state,
                found,
                scanned,
                elapsed_ms,
            },
            SessionEvent::SftpSearchBatch { search_id, root, query, entries } =>
                EventView::SftpSearchBatch {
                search_id: search_id@,
                root: root@,
                query: query@,
                entries: entries_view(entries@),
            },
            SessionEvent::SftpTransfer { id, name, is_upload, transferred, total, state, msg } =>
                EventView::SftpTransfer {
                id: id@,
                name: name@,
                is_upload,
                transferred,
                total,
                state,
                msg: msg@,
            },
            SessionEvent::SftpFileText { path, name, content, edit, error } =>
                EventView::SftpFileText {
                path: path@,
                name: name@,
                content: content@,
                edit,
                error: error@,
            },
        }
    }
}

/// The contents of reports.
pub open spec fn events_view(s: Seq<SessionEvent>) -> Seq<EventView> {
    s.map_values(|e: SessionEvent| e@)
}

/// Appending a report appends its contents.
pub broadcast proof fn lemma_events_push(s: Seq<SessionEvent>, e: SessionEvent)
    ensures
        #[trigger] events_view(s.push(e)) == events_view(s).push(e@),
{
    assert(events_view(s.push(e)) =~= events_view(s).push(e@));
}

/// Appending a row appends its contents.
pub broadcast proof fn lemma_nodes_push(s: Seq<RemoteTreeNode>, n: RemoteTreeNode)
    ensures
        #[trigger] nodes_view(s.push(n)) == nodes_view(s).push(n@),
{
    assert(nodes_view(s.push(n)) =~= nodes_view(s).push(n@));
}

/// A report on a transfer.
pub open spec fn transfer_view(
    id: Seq<char>,
    name: Seq<char>,
    is_upload: bool,
    transferred: u64,
    total: u64,
    state: TransferState,
    msg: Seq<char>,
) -> EventView {
    EventView::SftpTransfer { id, name, is_upload, transferred, total, state, msg }
}

/// A report on a transfer.
pub fn emit_transfer(
    id: &str,
    name: &str,
    is_upload: bool,
    transferred: u64,
    total: u64,
    state: TransferState,
    msg: &str,
) -> (out: SessionEvent)
    ensures
        out@ == transfer_view(id@, name@, is_upload, transferred, total, state, msg@),
{
    SessionEvent::SftpTransfer {
        id: id.to_string(),
        name: name.to_string(),
        is_upload,
        transferred,
        total,
        state,
        msg: msg.to_string(),
    }
}

/// A message of the file browser made of a title, a colon and a text.
pub open spec fn titled(title: Seq<char>, what: Seq<char>) -> Seq<char> {
    title + ": "@ + what
}

/// A message of the file browser made of a title, a colon and a text.
pub fn titled_status(title: &str, what: &str) -> (out: SessionEvent)
    ensures
        out@ == EventView::SftpStatus(titled(title@, what@)),
{
    SessionEvent::SftpStatus(text::join3(title, ": ", what))
}

/// A message of the file browser.
pub fn plain_status(what: &str) -> (out: SessionEvent)
    ensures
        out@ == EventView::SftpStatus(what@),
{
    SessionEvent::SftpStatus(what.to_string())
}

/// A message about work in progress: what is done, to what, and three dots.
pub open spec fn doing(what: Seq<char>, to: Seq<char>) -> Seq<char> {
    what + " "@ + to + "..."@
}

/// A message about work in progress: what is done, to what, and three dots.
pub fn doing_status(what: &str, to: &str) -> (out: SessionEvent)
    ensures
        out@ == EventView::SftpStatus(doing(what@, to@)),
{
    SessionEvent::SftpStatus(text::join4(what, " ", to, "..."))
}

/// The message that a directory is being loaded.
pub open spec fn loading(path: Seq<char>, lang: Lang) -> EventView {
    EventView::SftpStatus(doing(lang.pick("加载"@, "Loading"@), path))
}

/// The message that a directory is being loaded.
pub fn loading_status(path: &str, lang: Lang) -> (out: SessionEvent)
    ensures
        out@ == loading(path@, lang),
{
    doing_status(lang.t("加载", "Loading"), path)
}

/// The user interface knows every state by a number of its own, from zero on in this order:
/// running, done, failed, preparing, cancelled.
pub proof fn law_states_have_numbers_of_their_own(a: TransferState, b: TransferState)
    ensures
        a.number() == b.number() ==> a == b,
        a.number() < 5,
        a == TransferState::Running ==> a.number() == 0,
        a == TransferState::Done ==> a.number() == 1,
        a == TransferState::Failed ==> a.number() == 2,
        a == TransferState::Preparing ==> a.number() == 3,
        a == TransferState::Cancelled ==> a.number() == 4,
{
}

/// Every kind of entry has a name of its own.
pub proof fn law_kinds_have_names_of_their_own(a: EntryKind, b: EntryKind)
    ensures
        a.label() == b.label() ==> a == b,
        a == EntryKind::Dir ==> a.label() == "dir"@,
        a == EntryKind::File ==> a.label() == "file"@,
        a == EntryKind::SymlinkDir ==> a.label() == "symlink-dir"@,
        a == EntryKind::SymlinkFile ==> a.label() == "symlink-file"@,
        a == EntryKind::DeadLink ==> a.label() == "dead-link"@,
{
    reveal_strlit("dir");
    reveal_strlit("file");
    reveal_strlit("symlink-dir");
    reveal_strlit("symlink-file");
    reveal_strlit("dead-link");
    assert("dir"@.len() == 3 && "file"@.len() == 4 && "symlink-dir"@.len() == 11);
    assert("symlink-file"@.len() == 12 && "dead-link"@.len() == 9);
}

/// Messages are put together of their parts in this order: a title, a colon and what it is about;
/// what is done, what it is done to, and three dots.
pub proof fn law_messages_hold_their_parts(title: Seq<char>, what: Seq<char>)
    ensures
        titled(title, what) == title + ": "@ + what,
        doing(title, what) == title + " "@ + what + "..."@,
        loading(what, Lang::En) == EventView::SftpStatus("Loading"@ + " "@ + what + "..."@),
        loading(what, Lang::Zh) == EventView::SftpStatus("加载"@ + " "@ + what + "..."@),
{
}

} // verus!
