//! Uploading whole folders, one step at a time.
use crate::folder;
use crate::folder::{PathPair, MAX_NODES};
use crate::remote_path;
use crate::text;
use vstd::prelude::*;

verus! {

/// What a local path is.
#[derive(Debug, Clone, Copy, PartialEq, Eq, Structural)]
pub enum LocalKind {
    /// A symbolic link; it is not followed.
    Symlink,
    Dir,
    File,
    Other,
}

/// An entry of a local directory.
#[derive(Debug)]
pub struct LocalEntry {
    pub name: String,
    pub path: String,
    /// What it is, if that could be found out.
    pub kind: Option<LocalKind>,
}

/// The contents of a [`LocalEntry`].
#[verifier::ext_equal]
pub struct LocalView {
    pub name: Seq<char>,
    pub path: Seq<char>,
    pub kind: Option<LocalKind>,
}

impl View for LocalEntry {
    type V = LocalView;

    open spec fn view(&self) -> LocalView {
        LocalView { name: self.name@, path: self.path@, kind: self.kind }
    }
}

/// What reading on in a local directory came to.
#[derive(Debug)]
pub enum DirStep {
    Entry(LocalEntry),
    End,
    Failed,
}

/// The message when too many nodes were met on an upload.
pub const UPLOAD_LIMIT: &'static str = "recursive upload exceeded node limit";

// ---------------------------------------------------------------------------
// Over the file service
// ---------------------------------------------------------------------------

/// An upload of a folder that is under way.
pub struct DirUpload {
    /// The local directories still to mirror and where, the next one last.
    pub stack: Vec<PathPair>,
    /// The resolved paths of the local directories that were entered.
    pub visited: Vec<String>,
    pub created_files: Vec<String>,
    pub created_dirs: Vec<String>,
    pub nodes: usize,
    /// The directory that is mirrored, and where.
    pub ldir: String,
    pub rdir: String,
}

/// The contents of a [`DirUpload`].
#[verifier::ext_equal]
pub struct DirUploadView {
    pub stack: Seq<(Seq<char>, Seq<char>)>,
    pub visited: Seq<Seq<char>>,
    pub created_files: Seq<Seq<char>>,
    pub created_dirs: Seq<Seq<char>>,
    pub nodes: nat,
    pub ldir: Seq<char>,
    pub rdir: Seq<char>,
}

impl View for DirUpload {
    type V = DirUploadView;

    open spec fn view(&self) -> DirUploadView {
        DirUploadView {
            stack: folder::pairs_view(self.stack@),
            visited: text::texts(self.visited@),
            created_files: text::texts(self.created_files@),
            created_dirs: text::texts(self.created_dirs@),
            nodes: self.nodes as nat,
            ldir: self.ldir@,
            rdir: self.rdir@,
        }
    }
}

/// What an upload of a folder wants done.
#[derive(Debug)]
pub enum SendStep {
    /// Find out where a local directory really is.
    Resolve(String),
    /// Make a remote directory.
    MakeDir(String),
    /// Begin to read a local directory.
    OpenDir(String),
    /// Read on in it.
    NextEntry,
    /// Upload a file.
    Send { local: String, remote: String, name: String },
    /// The upload was cancelled: remove these files and then these directories, each in this
    /// order. Nothing follows.
    Undo { files: Vec<String>, dirs: Vec<String> },
    /// The whole folder was sent. Nothing follows.
    Complete,
    /// The upload failed. Nothing follows.
    Fail(String),
}

/// The contents of a [`SendStep`].
#[verifier::ext_equal]
pub enum SendView {
    Resolve(Seq<char>),
    MakeDir(Seq<char>),
    OpenDir(Seq<char>),
    NextEntry,
    Send { local: Seq<char>, remote: Seq<char>, name: Seq<char> },
    Undo { files: Seq<Seq<char>>, dirs: Seq<Seq<char>> },
    Complete,
    Fail(Seq<char>),
}

impl View for SendStep {
    type V = SendView;

    open spec fn view(&self) -> SendView {
        match *self {
            SendStep::Resolve(d) => SendView::Resolve(d@),
            SendStep::MakeDir(d) => SendView::MakeDir(d@),
            SendStep::OpenDir(d) => SendView::OpenDir(d@),
            SendStep::NextEntry => SendView::NextEntry,
            SendStep::Send { local, remote, name } => SendView::Send {
                local: local@,
                remote: remote@,
                name: name@,
            },
            SendStep::Undo { files, dirs } => SendView::Undo {
                files: text::texts(files@),
                dirs: text::texts(dirs@),
            },
            SendStep::Complete => SendView::Complete,
            SendStep::Fail(m) => SendView::Fail(m@),
        }
    }
}

impl DirUploadView {
    /// An upload of which nothing was sent. The folder keeps its name.
    pub open spec fn fresh(local_root: Seq<char>, remote_parent: Seq<char>) -> DirUploadView {
        DirUploadView {
            stack: seq![
                (
                    local_root,
                    remote_path::joined(remote_parent, remote_path::base_name_of(local_root)),
                ),
            ],
            visited: Seq::empty(),
            created_files: Seq::empty(),
            created_dirs: Seq::empty(),
            nodes: 0,
            ldir: Seq::empty(),
            rdir: Seq::empty(),
        }
    }

    /// What undoes the upload: all that was created goes, the newest first, files before
    /// directories.
    pub open spec fn undo(self) -> SendView {
        SendView::Undo {
            files: self.created_files.reverse(),
            dirs: self.created_dirs.reverse(),
        }
    }

    /// The next directory.
    pub open spec fn next(self, cancelled: bool) -> (DirUploadView, SendView) {
        if self.stack.len() == 0 {
            (self, SendView::Complete)
        } else if cancelled {
            (self, self.undo())
        } else {
            let (ldir, rdir) = self.stack.last();
            (
                DirUploadView { stack: self.stack.drop_last(), ldir, rdir, ..self },
                SendView::Resolve(ldir),
            )
        }
    }

    /// With one more node.
    pub open spec fn counted(self) -> DirUploadView {
        DirUploadView { nodes: self.nodes + 1, ..self }
    }

    /// After the real place of the directory was found: it is entered, unless it was before.
    pub open spec fn resolved(self, key: Seq<char>, cancelled: bool) -> (DirUploadView, SendView) {
        if self.visited.contains(key) {
            self.next(cancelled)
        } else {
            let after = DirUploadView { visited: self.visited.push(key), ..self.counted() };
            if after.nodes > MAX_NODES {
                (after, SendView::Fail(UPLOAD_LIMIT@))
            } else {
                (after, SendView::MakeDir(self.rdir))
            }
        }
    }

    /// After the remote directory was wanted. That it could not be made mostly means that it is
    /// there.
    pub open spec fn made(self, made: bool) -> (DirUploadView, SendView) {
        (
            if made {
                DirUploadView { created_dirs: self.created_dirs.push(self.rdir), ..self }
            } else {
                self
            },
            SendView::OpenDir(self.ldir),
        )
    }

    /// After the local directory was to be opened.
    pub open spec fn opened(self, opened: bool) -> SendView {
        if opened {
            SendView::NextEntry
        } else {
            SendView::Fail("read local dir "@ + self.ldir)
        }
    }

    /// After an entry of the local directory: directories are left for later, files are sent,
    /// all else is passed over.
    pub open spec fn met(self, e: LocalView, cancelled: bool) -> (DirUploadView, SendView) {
        let after = self.counted();
        if cancelled {
            (self, self.undo())
        } else {
            match e.kind {
                None => (self, SendView::Fail("file type"@)),
                Some(kind) => if after.nodes > MAX_NODES {
                    (after, SendView::Fail(UPLOAD_LIMIT@))
                } else {
                    match kind {
                        LocalKind::Dir => (
                            DirUploadView {
                                stack: after.stack.push((e.path, folder::below(self.rdir, e.name))),
                                ..after
                            },
                            SendView::NextEntry,
                        ),
                        LocalKind::File => (
                            after,
                            SendView::Send {
                                local: e.path,
                                remote: folder::below(self.rdir, e.name),
                                name: e.name,
                            },
                        ),
                        _ => (after, SendView::NextEntry),
                    }
                },
            }
        }
    }

    /// After the local directory could not be read on.
    pub open spec fn unread(self) -> (DirUploadView, SendView) {
        (self, SendView::Fail("read dir entry"@))
    }

    /// After a file was to be sent.
    pub open spec fn sent(self, remote: Seq<char>, moved: Result<bool, Seq<char>>) -> (
        DirUploadView,
        SendView,
    ) {
        match moved {
            Ok(whole) => if whole {
                (
                    DirUploadView { created_files: self.created_files.push(remote), ..self },
                    SendView::NextEntry,
                )
            } else {
                (self, self.undo())
            },
            Err(m) => (self, SendView::Fail(m)),
        }
    }
}

fn newest_first(list: &Vec<String>) -> (out: Vec<String>)
    ensures
        text::texts(out@) == text::texts(list@).reverse(),
{
    let ghost all = text::texts(list@);
    let mut out: Vec<String> = Vec::new();
    let mut i: usize = list.len();
    while i > 0
        invariant
            i <= list@.len(),
            all == text::texts(list@),
            text::texts(out@) == all.skip(i as int).reverse(),
        decreases i,
    {
        i = i - 1;
        let ghost before = text::texts(out@);
        assert(all[i as int] == list@[i as int]@);
        out.push(list[i].clone());
        assert(text::texts(out@) =~= before.push(all[i as int]));
        assert(all.skip(i as int).reverse() =~= before.push(all[i as int]));
    }
    assert(all.skip(0) == all);
    out
}

impl DirUpload {
    /// An upload of which nothing was sent.
    pub fn new(local_root: &str, remote_parent: &str) -> (out: DirUpload)
        ensures
            out@ == DirUploadView::fresh(local_root@, remote_parent@),
    {
        let name = remote_path::base_name(local_root);
        let mut stack: Vec<PathPair> = Vec::new();
        stack.push(
            (local_root.to_string(), remote_path::join_path(remote_parent, name.as_str())),
        );
        let out = DirUpload {
            stack,
            visited: Vec::new(),
            created_files: Vec::new(),
            created_dirs: Vec::new(),
            nodes: 0,
            ldir: String::new(),
            rdir: String::new(),
        };
        assert(out@ =~= DirUploadView::fresh(local_root@, remote_parent@)) by {
            assert(out@.stack =~= DirUploadView::fresh(local_root@, remote_parent@).stack);
            assert(out@.visited =~= Seq::<Seq<char>>::empty());
            assert(out@.created_files =~= Seq::<Seq<char>>::empty());
            assert(out@.created_dirs =~= Seq::<Seq<char>>::empty());
            assert(out@.rdir =~= Seq::<char>::empty());
            assert(out@.ldir =~= Seq::<char>::empty());
        }
        out
    }

    fn undo(&self) -> (out: SendStep)
        ensures
            out@ == self@.undo(),
    {
        SendStep::Undo {
            files: newest_first(&self.created_files),
            dirs: newest_first(&self.created_dirs),
        }
    }

    /// The next directory.
    pub fn next(&mut self, cancelled: bool) -> (out: SendStep)
        ensures
            (final(self)@, out@) == old(self)@.next(cancelled),
    {
        let ghost start = self@;
        if self.stack.len() == 0 {
            return SendStep::Complete;
        }
        if cancelled {
            return self.undo();
        }
        let top = self.stack.pop();
        match top {
            None => SendStep::Complete,
            Some(pair) => {
                assert(self@.stack =~= start.stack.drop_last());
                assert(start.stack.last() == (pair.0@, pair.1@));
                let (ldir, rdir) = pair;
                let there = ldir.clone();
                self.ldir = ldir;
                self.rdir = rdir;
                SendStep::Resolve(there)
            },
        }
    }

    /// After the real place of a directory was wanted.
    pub fn resolved(&mut self, key: String, cancelled: bool) -> (out: SendStep)
        requires
            old(self)@.nodes <= MAX_NODES,
        ensures
            (final(self)@, out@) == old(self)@.resolved(key@, cancelled),
            !(out is Fail) ==> final(self)@.nodes <= MAX_NODES,
    {
        if text::list_has(&self.visited, key.as_str()) {
            return self.next(cancelled);
        }
        proof {
            text::lemma_texts_push(self.visited@, key);
        }
        self.visited.push(key);
        self.nodes = self.nodes + 1;
        if self.nodes > MAX_NODES {
            SendStep::Fail(UPLOAD_LIMIT.to_string())
        } else {
            SendStep::MakeDir(self.rdir.clone())
        }
    }

    /// After a remote directory was wanted.
    pub fn made(&mut self, made: bool) -> (out: SendStep)
        ensures
            (final(self)@, out@) == old(self)@.made(made),
    {
        if made {
            let dir = self.rdir.clone();
            proof {
                text::lemma_texts_push(self.created_dirs@, dir);
            }
            self.created_dirs.push(dir);
        }
        SendStep::OpenDir(self.ldir.clone())
    }

    /// After the local directory was to be opened.
    pub fn opened(&self, opened: bool) -> (out: SendStep)
        ensures
            out@ == self@.opened(opened),
    {
        if opened {
            SendStep::NextEntry
        } else {
            SendStep::Fail(text::join2("read local dir ", self.ldir.as_str()))
        }
    }

    /// After the next entry of the local directory was wanted.
    pub fn read(&mut self, step: DirStep, cancelled: bool) -> (out: SendStep)
        requires
            old(self)@.nodes <= MAX_NODES,
        ensures
            (final(self)@, out@) == (match step {
                DirStep::Entry(e) => old(self)@.met(e@, cancelled),
                DirStep::End => old(self)@.next(cancelled),
                DirStep::Failed => old(self)@.unread(),
            }),
            !(out is Fail) ==> final(self)@.nodes <= MAX_NODES,
    {
        match step {
            DirStep::Entry(e) => {
                if cancelled {
                    return self.undo();
                }
                let kind = match e.kind {
                    None => {
                        return SendStep::Fail("file type".to_string());
                    },
                    Some(k) => k,
                };
                self.nodes = self.nodes + 1;
                if self.nodes > MAX_NODES {
                    return SendStep::Fail(UPLOAD_LIMIT.to_string());
                }
                let remote = text::join3(self.rdir.as_str(), "/", e.name.as_str());
                match kind {
                    LocalKind::Dir => {
                        let ghost before = self@.stack;
                        let ghost pair = (e.path@, remote@);
                        self.stack.push((e.path, remote));
                        assert(self@.stack =~= before.push(pair));
                        SendStep::NextEntry
                    },
                    LocalKind::File => SendStep::Send { local: e.path, remote, name: e.name },
                    _ => SendStep::NextEntry,
                }
            },
            DirStep::End => self.next(cancelled),
            DirStep::Failed => SendStep::Fail("read dir entry".to_string()),
        }
    }

    /// After a file was to be sent.
    pub fn sent(&mut self, remote: String, moved: Result<bool, String>) -> (out: SendStep)
        requires
            old(self)@.nodes <= MAX_NODES,
        ensures
            (final(self)@, out@) == old(self)@.sent(remote@, folder::moved_view(moved)),
            !(out is Fail) ==> final(self)@.nodes <= MAX_NODES,
    {
        match moved {
            Ok(whole) => {
                if whole {
                    proof {
                        text::lemma_texts_push(self.created_files@, remote);
                    }
                    self.created_files.push(remote);
                    SendStep::NextEntry
                } else {
                    self.undo()
                }
            },
            Err(m) => SendStep::Fail(m),
        }
    }
}

/// One step of an upload of a folder and what became of it.
pub enum SendAnswer {
    Start,
    Resolved(Seq<char>),
    Made(bool),
    Opened(bool),
    Met(LocalView),
    DirEnd,
    DirFailed,
    Sent(Seq<char>, Result<bool, Seq<char>>),
}

/// The upload after an answer.
pub open spec fn upload_step(u: DirUploadView, a: SendAnswer, cancelled: bool) -> (
    DirUploadView,
    SendView,
) {
    match a {
        SendAnswer::Start => u.next(cancelled),
        SendAnswer::Resolved(key) => u.resolved(key, cancelled),
        SendAnswer::Made(made) => u.made(made),
        SendAnswer::Opened(opened) => (u, u.opened(opened)),
        SendAnswer::Met(e) => u.met(e, cancelled),
        SendAnswer::DirEnd => u.next(cancelled),
        SendAnswer::DirFailed => u.unread(),
        SendAnswer::Sent(remote, moved) => u.sent(remote, moved),
    }
}

/// Nothing that an upload created is forgotten, so a cancelled upload leaves nothing behind:
/// whatever happens, what was created stays on record, a directory that was made and a file
/// that was sent are put on record, and what undoes the upload removes all that is on record.
pub proof fn law_undo_is_complete(u: DirUploadView, a: SendAnswer, cancelled: bool)
    ensures
        ({
            let (end, step) = upload_step(u, a, cancelled);
            &&& u.created_files.is_prefix_of(end.created_files)
            &&& u.created_dirs.is_prefix_of(end.created_dirs)
            &&& a == SendAnswer::Made(true) ==> end.created_dirs == u.created_dirs.push(u.rdir)
            &&& a matches SendAnswer::Sent(remote, moved) ==> moved == Ok::<bool, Seq<char>>(true)
                ==> end.created_files == u.created_files.push(remote)
            &&& step matches SendView::Undo { files, dirs } ==> files.reverse()
                == end.created_files && dirs.reverse() == end.created_dirs
        }),
{
    let (end, step) = upload_step(u, a, cancelled);
    assert(end.created_files.reverse().reverse() =~= end.created_files);
    assert(end.created_dirs.reverse().reverse() =~= end.created_dirs);
    assert(u.created_files.reverse().reverse() =~= u.created_files);
    assert(u.created_dirs.reverse().reverse() =~= u.created_dirs);
}

// ---------------------------------------------------------------------------
// As an archive
// ---------------------------------------------------------------------------

/// The message when too many nodes were met while a folder was archived.
pub const ARCHIVE_LIMIT: &'static str = "folder upload exceeded node limit";

/// The message when archiving a folder was stopped.
pub const ARCHIVE_CANCELLED: &'static str = "upload cancelled";

/// What to do with an entry of a folder that is archived.
#[derive(Debug, Clone, Copy, PartialEq, Eq, Structural)]
pub enum ArchiveAction {
    /// Put the file into the archive.
    AppendFile,
    /// Go on.
    Skip,
}

/// The walk through a folder that is archived. Paths stay with the caller, who gives each a
/// number.
pub struct ArchiveWalk {
    /// The directories still to archive, the next one last.
    pub stack: Vec<u64>,
    pub nodes: usize,
}

/// The contents of an [`ArchiveWalk`].
#[verifier::ext_equal]
pub struct ArchiveView {
    pub stack: Seq<u64>,
    pub nodes: nat,
}

impl View for ArchiveWalk {
    type V = ArchiveView;

    open spec fn view(&self) -> ArchiveView {
        ArchiveView { stack: self.stack@, nodes: self.nodes as nat }
    }
}

impl ArchiveView {
    /// A walk that has not begun.
    pub open spec fn fresh(root: u64) -> ArchiveView {
        ArchiveView { stack: seq![root], nodes: 0 }
    }

    /// After the next directory was taken.
    pub open spec fn past_dir(self) -> ArchiveView {
        ArchiveView { stack: self.stack.drop_last(), nodes: self.nodes + 1 }
    }

    /// After an entry: a directory is left for later.
    pub open spec fn met(self, kind: LocalKind, number: u64) -> ArchiveView {
        ArchiveView {
            stack: if kind == LocalKind::Dir {
                self.stack.push(number)
            } else {
                self.stack
            },
            nodes: self.nodes + 1,
        }
    }
}

impl ArchiveWalk {
    /// The walk through the folder with the given number.
    pub fn new(root: u64) -> (out: ArchiveWalk)
        ensures
            out@ == ArchiveView::fresh(root),
    {
        let mut stack: Vec<u64> = Vec::new();
        stack.push(root);
        let out = ArchiveWalk { stack, nodes: 0 };
        assert(out@.stack =~= seq![root]);
        out
    }

    /// The next directory to put into the archive; `None` when there is none.
    pub fn next_dir(&mut self, cancelled: bool) -> (out: Result<Option<u64>, String>)
        requires
            old(self)@.nodes <= MAX_NODES,
        ensures
            old(self)@.stack.len() == 0 ==> out == Ok::<Option<u64>, String>(None) && final(self)@
                == old(self)@,
            old(self)@.stack.len() > 0 && cancelled ==> (out matches Err(m) && m@ == ARCHIVE_CANCELLED@),
            old(self)@.stack.len() > 0 && !cancelled && old(self)@.nodes + 1 > MAX_NODES ==> (out matches Err(m) && m@ == ARCHIVE_LIMIT@),
            old(self)@.stack.len() > 0 && !cancelled && old(self)@.nodes + 1 <= MAX_NODES ==> out
                == Ok::<Option<u64>, String>(Some(old(self)@.stack.last())) && final(self)@
                == old(self)@.past_dir(),
            out is Ok ==> final(self)@.nodes <= MAX_NODES,
    {
        let top = self.stack.pop();
        match top {
            None => {
                assert(self@.stack =~= old(self)@.stack);
                Ok(None)
            },
            Some(dir) => {
                if cancelled {
                    return Err(ARCHIVE_CANCELLED.to_string());
                }
                self.nodes = self.nodes + 1;
                if self.nodes > MAX_NODES {
                    return Err(ARCHIVE_LIMIT.to_string());
                }
                Ok(Some(dir))
            },
        }
    }

    /// Takes an entry of the directory that is archived. A symbolic link is passed over, a
    /// directory is left for later.
    pub fn entry(&mut self, kind: LocalKind, number: u64) -> (out: Result<ArchiveAction, String>)
        requires
            old(self)@.nodes <= MAX_NODES,
        ensures
            old(self)@.nodes + 1 > MAX_NODES ==> (out matches Err(m) && m@ == ARCHIVE_LIMIT@),
            old(self)@.nodes + 1 <= MAX_NODES ==> out == Ok::<ArchiveAction, String>(
                if kind == LocalKind::File {
                    ArchiveAction::AppendFile
                } else {
                    ArchiveAction::Skip
                },
            ) && final(self)@ == old(self)@.met(kind, number),
            out is Ok ==> final(self)@.nodes <= MAX_NODES,
    {
        self.nodes = self.nodes + 1;
        if self.nodes > MAX_NODES {
            return Err(ARCHIVE_LIMIT.to_string());
        }
        match kind {
            LocalKind::Dir => {
                self.stack.push(number);
                Ok(ArchiveAction::Skip)
            },
            LocalKind::File => Ok(ArchiveAction::AppendFile),
            _ => Ok(ArchiveAction::Skip),
        }
    }
}

/// An upload of a folder stops at the first failure, and gives its reason: a local directory that
/// cannot be opened is named, and the reason of a file that failed is passed on. That a remote
/// directory could not be made is no failure, as it may be there already.
pub proof fn law_upload_stops_at_a_failure(
    u: DirUploadView,
    e: LocalView,
    remote: Seq<char>,
    m: Seq<char>,
)
    ensures
        u.made(true).1 == SendView::OpenDir(u.ldir),
        u.made(false).1 == SendView::OpenDir(u.ldir),
        u.opened(true) == SendView::NextEntry,
        u.opened(false) == SendView::Fail("read local dir "@ + u.ldir),
        u.unread().1 == SendView::Fail("read dir entry"@),
        e.kind is None ==> u.met(e, false).1 == SendView::Fail("file type"@),
        u.sent(remote, Err(m)).1 == SendView::Fail(m),
        u.sent(remote, Ok(true)).1 == SendView::NextEntry,
{
}

} // verus!
