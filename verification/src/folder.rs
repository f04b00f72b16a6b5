//! Moving and removing whole folders, one step at a time.
//!
//! Each job says which step it wants done, and takes what became of it. A job never forgets the
//! bound on the number of nodes that it visits.
use crate::events;
use crate::events::{EntryKind, EntryView, RemoteEntry};
use crate::remote_path;
use crate::text;
use crate::text::CharSet;
use vstd::prelude::*;

verus! {

/// How many nodes a job on a folder visits at most.
pub const MAX_NODES: usize = 20_000;

/// A pair of paths.
pub type PathPair = (String, String);

/// The contents of pairs of paths.
pub open spec fn pairs_view(s: Seq<PathPair>) -> Seq<(Seq<char>, Seq<char>)> {
    s.map_values(|p: PathPair| (p.0@, p.1@))
}

/// Whether a job goes into an entry: a directory, but not through a symbolic link.
pub open spec fn enters(e: EntryView) -> bool {
    e.is_dir && e.kind != EntryKind::SymlinkDir
}

/// A name below a directory, with one slash between.
pub open spec fn below(dir: Seq<char>, name: Seq<char>) -> Seq<char> {
    dir + "/"@ + name
}

/// The contents of what became of a listing.
pub open spec fn listing_view(r: Result<Vec<RemoteEntry>, String>) -> Result<
    Seq<EntryView>,
    Seq<char>,
> {
    match r {
        Ok(v) => Ok(events::entries_view(v@)),
        Err(m) => Err(m@),
    }
}

/// The contents of what became of a transfer: whether it was completed, or why it failed.
pub open spec fn moved_view(r: Result<bool, String>) -> Result<bool, Seq<char>> {
    match r {
        Ok(b) => Ok(b),
        Err(m) => Err(m@),
    }
}

/// The contents of what became of a step.
pub open spec fn done_view(r: Result<(), String>) -> Result<(), Seq<char>> {
    match r {
        Ok(_) => Ok(()),
        Err(m) => Err(m@),
    }
}

/// Turns entries round, so that the next one stands last.
fn turned(list: Vec<RemoteEntry>) -> (out: Vec<RemoteEntry>)
    ensures
        events::entries_view(out@) == events::entries_view(list@).reverse(),
{
    let mut rest = list;
    let mut out: Vec<RemoteEntry> = Vec::new();
    while rest.len() > 0
        invariant
            rest@.len() + out@.len() == list@.len(),
            rest@ == list@.take(rest@.len() as int),
            forall|i: int| 0 <= i < out@.len() ==> #[trigger] out@[i] == list@[list@.len() - 1 - i],
        decreases rest@.len(),
    {
        if let Some(e) = rest.pop() {
            out.push(e);
        }
    }
    assert(events::entries_view(out@) =~= events::entries_view(list@).reverse());
    out
}

// ---------------------------------------------------------------------------
// Downloading a folder
// ---------------------------------------------------------------------------

/// The message when too many nodes were met on a download.
pub const DOWNLOAD_LIMIT: &'static str = "recursive download exceeded node limit";

/// A download of a folder that is under way.
pub struct DirDownload {
    /// Where the folder comes to stand.
    pub root_local: String,
    /// The remote directories still to mirror and where, the next one last.
    pub stack: Vec<PathPair>,
    pub visited: Vec<String>,
    pub nodes: usize,
    /// The directory that is mirrored, and where.
    pub rdir: String,
    pub ldir: String,
    /// The entries of that directory that are still to come, the next one last.
    pub rest: Vec<RemoteEntry>,
}

/// The contents of a [`DirDownload`].
#[verifier::ext_equal]
pub struct DirDownloadView {
    pub root_local: Seq<char>,
    pub stack: Seq<(Seq<char>, Seq<char>)>,
    pub visited: Seq<Seq<char>>,
    pub nodes: nat,
    pub rdir: Seq<char>,
    pub ldir: Seq<char>,
    pub rest: Seq<EntryView>,
}

impl View for DirDownload {
    type V = DirDownloadView;

    open spec fn view(&self) -> DirDownloadView {
        DirDownloadView {
            root_local: self.root_local@,
            stack: pairs_view(self.stack@),
            visited: text::texts(self.visited@),
            nodes: self.nodes as nat,
            rdir: self.rdir@,
            ldir: self.ldir@,
            rest: events::entries_view(self.rest@),
        }
    }
}

/// What a download of a folder wants done.
#[derive(Debug)]
pub enum FetchStep {
    /// Make a local directory, with those above it.
    MakeLocalDir(String),
    /// List a remote directory.
    List(String),
    /// Download a file.
    Fetch { remote: String, local: String, name: String },
    /// The download was cancelled: remove the local folder with all that is in it. Nothing
    /// follows.
    DropLocal(String),
    /// The whole folder has come. Nothing follows.
    Complete,
    /// The download failed. Nothing follows.
    Fail(String),
}

/// The contents of a [`FetchStep`].
#[verifier::ext_equal]
pub enum FetchView {
    MakeLocalDir(Seq<char>),
    List(Seq<char>),
    Fetch { remote: Seq<char>, local: Seq<char>, name: Seq<char> },
    DropLocal(Seq<char>),
    Complete,
    Fail(Seq<char>),
}

impl View for FetchStep {
    type V = FetchView;

    open spec fn view(&self) -> FetchView {
        match *self {
            FetchStep::MakeLocalDir(d) => FetchView::MakeLocalDir(d@),
            FetchStep::List(d) => FetchView::List(d@),
            FetchStep::Fetch { remote, local, name } => FetchView::Fetch {
                remote: remote@,
                local: local@,
                name: name@,
            },
            FetchStep::DropLocal(d) => FetchView::DropLocal(d@),
            FetchStep::Complete => FetchView::Complete,
            FetchStep::Fail(m) => FetchView::Fail(m@),
        }
    }
}

impl DirDownloadView {
    /// Where the next entry comes to stand: its name is made safe first.
    pub open spec fn local_of(self, e: EntryView) -> Seq<char> {
        below(self.ldir, remote_path::safe_name(e.name))
    }

    /// Without the next entry, which counts as a node.
    pub open spec fn past_entry(self) -> DirDownloadView {
        DirDownloadView { rest: self.rest.drop_last(), nodes: self.nodes + 1, ..self }
    }

    /// Without the next directory.
    pub open spec fn past_dir(self) -> DirDownloadView {
        DirDownloadView { stack: self.stack.drop_last(), ..self }
    }

    /// With the next directory entered.
    pub open spec fn entered(self) -> DirDownloadView {
        let (rdir, ldir) = self.stack.last();
        DirDownloadView {
            visited: self.visited.push(remote_path::remote_dir(rdir)),
            nodes: self.nodes + 1,
            rdir,
            ldir,
            ..self.past_dir()
        }
    }

    /// The next step: first the entries of the directory in their order, then the directories
    /// that were met. No directory is entered twice, and none through a symbolic link.
    pub open spec fn next(self, cancelled: bool) -> (DirDownloadView, FetchView)
        decreases self.rest.len(), self.stack.len(),
    {
        if self.rest.len() > 0 {
            let e = self.rest.last();
            let after = self.past_entry();
            if cancelled {
                (self, FetchView::DropLocal(self.root_local))
            } else if after.nodes > MAX_NODES {
                (after, FetchView::Fail(DOWNLOAD_LIMIT@))
            } else if enters(e) {
                DirDownloadView {
                    stack: after.stack.push((e.full_path, self.local_of(e))),
                    ..after
                }.next(cancelled)
            } else if !e.is_dir {
                (
                    after,
                    FetchView::Fetch {
                        remote: e.full_path,
                        local: self.local_of(e),
                        name: remote_path::safe_name(e.name),
                    },
                )
            } else {
                after.next(cancelled)
            }
        } else if self.stack.len() == 0 {
            (self, FetchView::Complete)
        } else if cancelled {
            (self, FetchView::DropLocal(self.root_local))
        } else if self.visited.contains(remote_path::remote_dir(self.stack.last().0)) {
            self.past_dir().next(cancelled)
        } else if self.entered().nodes > MAX_NODES {
            (self.entered(), FetchView::Fail(DOWNLOAD_LIMIT@))
        } else {
            (self.entered(), FetchView::MakeLocalDir(self.entered().ldir))
        }
    }

    /// After the local directory was wanted: its remote counterpart is listed.
    pub open spec fn on_made(self, made: bool) -> FetchView {
        if made {
            FetchView::List(self.rdir)
        } else {
            FetchView::Fail("create local dir "@ + self.ldir)
        }
    }

    /// After a listing was wanted.
    pub open spec fn on_listing(
        self,
        l: Result<Seq<EntryView>, Seq<char>>,
        cancelled: bool,
    ) -> (DirDownloadView, FetchView) {
        match l {
            Ok(s) => (DirDownloadView { rest: s.reverse(), ..self }).next(cancelled),
            Err(m) => (self, FetchView::Fail(m)),
        }
    }

    /// After a file was wanted.
    pub open spec fn on_fetched(self, moved: Result<bool, Seq<char>>, cancelled: bool) -> (
        DirDownloadView,
        FetchView,
    ) {
        match moved {
            Ok(whole) => if whole {
                self.next(cancelled)
            } else {
                (self, FetchView::DropLocal(self.root_local))
            },
            Err(m) => (self, FetchView::Fail(m)),
        }
    }

    /// A download of which nothing has come.
    pub open spec fn fresh(remote_root: Seq<char>, local_parent: Seq<char>) -> DirDownloadView {
        let root_local = remote_path::joined(
            local_parent,
            remote_path::safe_name(remote_path::base_name_of(remote_root)),
        );
        DirDownloadView {
            root_local,
            stack: seq![(text::strip_end(remote_root, CharSet::Only('/')), root_local)],
            visited: Seq::empty(),
            nodes: 0,
            rdir: Seq::empty(),
            ldir: Seq::empty(),
            rest: Seq::empty(),
        }
    }

    /// No more nodes were met than allowed, but for the one that stopped the download.
    pub open spec fn ok(self) -> bool {
        self.nodes <= MAX_NODES + 1
    }
}

impl DirDownload {
    /// A download of which nothing has come. The folder keeps its name, made safe.
    pub fn new(remote_root: &str, local_parent: &str) -> (out: DirDownload)
        ensures
            out@ == DirDownloadView::fresh(remote_root@, local_parent@),
            out@.ok(),
    {
        let base = remote_path::base_name(remote_root);
        let root_name = remote_path::sanitize_filename(base.as_str());
        let root_local = remote_path::join_path(local_parent, root_name.as_str());
        let bare = text::trim_end(remote_root, CharSet::Only('/'));
        let mut stack: Vec<PathPair> = Vec::new();
        stack.push((bare, root_local.clone()));
        let out = DirDownload {
            root_local,
            stack,
            visited: Vec::new(),
            nodes: 0,
            rdir: String::new(),
            ldir: String::new(),
            rest: Vec::new(),
        };
        assert(out@.stack =~= DirDownloadView::fresh(remote_root@, local_parent@).stack);
        assert(out@.visited =~= Seq::<Seq<char>>::empty());
        assert(out@.rest =~= Seq::<EntryView>::empty());
        assert(out@.rdir =~= Seq::<char>::empty());
        assert(out@.ldir =~= Seq::<char>::empty());
        out
    }

    /// The next step.
    pub fn next(&mut self, cancelled: bool) -> (out: FetchStep)
        requires
            old(self)@.nodes <= MAX_NODES,
        ensures
            (final(self)@, out@) == old(self)@.next(cancelled),
            final(self)@.ok(),
            !(out is Fail) ==> final(self)@.nodes <= MAX_NODES,
    {
        loop
            invariant
                self@.nodes <= MAX_NODES,
                self@.next(cancelled) == old(self)@.next(cancelled),
            decreases self@.rest.len(), self@.stack.len(),
        {
            let ghost start = self@;
            if self.rest.len() > 0 && cancelled {
                return FetchStep::DropLocal(self.root_local.clone());
            }
            if let Some(e) = self.rest.pop() {
                self.nodes = self.nodes + 1;
                assert(self@.rest =~= start.rest.drop_last());
                assert(start.rest.last() == e@);
                assert(self@ =~= start.past_entry());
                if self.nodes > MAX_NODES {
                    return FetchStep::Fail(DOWNLOAD_LIMIT.to_string());
                }
                let name = remote_path::sanitize_filename(e.name.as_str());
                let local = text::join3(self.ldir.as_str(), "/", name.as_str());
                if e.is_dir && e.kind != EntryKind::SymlinkDir {
                    let ghost before = self@.stack;
                    self.stack.push((e.full_path, local));
                    assert(self@.stack =~= before.push((e.full_path@, local@)));
                } else if !e.is_dir {
                    return FetchStep::Fetch { remote: e.full_path, local, name };
                }
            } else {
                assert(self@.rest =~= start.rest);
                match self.stack.pop() {
                    None => {
                        assert(self@.stack =~= start.stack);
                        return FetchStep::Complete;
                    },
                    Some(pair) => {
                        assert(self@.stack =~= start.stack.drop_last());
                        assert(start.stack.last() == (pair.0@, pair.1@));
                        if cancelled {
                            self.stack.push(pair);
                            assert(self@.stack =~= start.stack);
                            return FetchStep::DropLocal(self.root_local.clone());
                        }
                        assert(self@ =~= start.past_dir());
                        let (rdir, ldir) = pair;
                        let key = remote_path::normalise_remote_dir(rdir.as_str());
                        if !text::list_has(&self.visited, key.as_str()) {
                            proof {
                                text::lemma_texts_push(self.visited@, key);
                            }
                            self.visited.push(key);
                            self.nodes = self.nodes + 1;
                            let there = ldir.clone();
                            self.rdir = rdir;
                            self.ldir = ldir;
                            assert(self@ =~= start.entered());
                            if self.nodes > MAX_NODES {
                                return FetchStep::Fail(DOWNLOAD_LIMIT.to_string());
                            }
                            return FetchStep::MakeLocalDir(there);
                        }
                    },
                }
            }
        }
    }

    /// After the local directory was wanted: its remote counterpart is listed.
    pub fn made(&self, made: bool) -> (out: FetchStep)
        ensures
            out@ == self@.on_made(made),
    {
        if made {
            FetchStep::List(self.rdir.clone())
        } else {
            FetchStep::Fail(text::join2("create local dir ", self.ldir.as_str()))
        }
    }

    /// After a listing was wanted.
    pub fn listed(&mut self, listing: Result<Vec<RemoteEntry>, String>, cancelled: bool) -> (out:
        FetchStep)
        requires
            old(self)@.nodes <= MAX_NODES,
        ensures
            (final(self)@, out@) == old(self)@.on_listing(listing_view(listing), cancelled),
            final(self)@.ok(),
            !(out is Fail) ==> final(self)@.nodes <= MAX_NODES,
    {
        match listing {
            Ok(list) => {
                self.rest = turned(list);
                self.next(cancelled)
            },
            Err(m) => FetchStep::Fail(m),
        }
    }

    /// After a file was wanted.
    pub fn fetched(&mut self, moved: Result<bool, String>, cancelled: bool) -> (out: FetchStep)
        requires
            old(self)@.nodes <= MAX_NODES,
        ensures
            (final(self)@, out@) == old(self)@.on_fetched(moved_view(moved), cancelled),
            final(self)@.ok(),
            !(out is Fail) ==> final(self)@.nodes <= MAX_NODES,
    {
        match moved {
            Ok(whole) => {
                if whole {
                    self.next(cancelled)
                } else {
                    FetchStep::DropLocal(self.root_local.clone())
                }
            },
            Err(m) => FetchStep::Fail(m),
        }
    }
}

/// Whether a path lies below a directory with one plain name more: no server-made name leads out
/// of it.
pub open spec fn plainly_below(path: Seq<char>, dir: Seq<char>) -> bool {
    exists|name: Seq<char>| remote_path::plain_name(name) && path == below(dir, name)
}

/// Whatever names a server sends, a file of a folder download comes to stand directly in the
/// local directory of its own directory, under a plain name.
pub proof fn law_download_stays_inside(d: DirDownloadView, cancelled: bool)
    ensures
        d.next(cancelled).1 matches FetchView::Fetch { remote, local, name } ==> plainly_below(
            local,
            d.ldir,
        ) && remote_path::plain_name(name),
        d.next(cancelled).1 is DropLocal ==> d.next(cancelled).1->DropLocal_0 == d.root_local,
    decreases d.rest.len(), d.stack.len(),
{
    if d.rest.len() > 0 {
        let e = d.rest.last();
        let after = d.past_entry();
        remote_path::law_safe_name_is_plain(e.name);
        assert(d.local_of(e) == below(d.ldir, remote_path::safe_name(e.name)));
        assert(plainly_below(d.local_of(e), d.ldir));
        if !cancelled && after.nodes <= MAX_NODES {
            if enters(e) {
                law_download_stays_inside(
                    DirDownloadView {
                        stack: after.stack.push((e.full_path, d.local_of(e))),
                        ..after
                    },
                    cancelled,
                );
            } else if e.is_dir {
                law_download_stays_inside(after, cancelled);
            }
        }
    } else if d.stack.len() > 0 && !cancelled {
        if d.visited.contains(remote_path::remote_dir(d.stack.last().0)) {
            law_download_stays_inside(d.past_dir(), cancelled);
        }
    }
}

// ---------------------------------------------------------------------------
// Removing a folder
// ---------------------------------------------------------------------------

/// The message when too many nodes were met on a removal.
pub const REMOVAL_LIMIT: &'static str = "recursive delete exceeded node limit";

/// The message when a path may not be removed.
pub const REMOVAL_REFUSED: &'static str = "refusing to delete dangerous path";

/// A removal of a remote folder that is under way.
pub struct DirRemoval {
    /// The directories found so far, each behind the one in which it was found.
    pub dirs: Vec<String>,
    pub visited: Vec<String>,
    pub nodes: usize,
    /// How many of the directories were listed.
    pub listed: usize,
    /// The entries that are still to come, the next one last.
    pub rest: Vec<RemoteEntry>,
}

/// The contents of a [`DirRemoval`].
#[verifier::ext_equal]
pub struct DirRemovalView {
    pub dirs: Seq<Seq<char>>,
    pub visited: Seq<Seq<char>>,
    pub nodes: nat,
    pub listed: nat,
    pub rest: Seq<EntryView>,
}

impl View for DirRemoval {
    type V = DirRemovalView;

    open spec fn view(&self) -> DirRemovalView {
        DirRemovalView {
            dirs: text::texts(self.dirs@),
            visited: text::texts(self.visited@),
            nodes: self.nodes as nat,
            listed: self.listed as nat,
            rest: events::entries_view(self.rest@),
        }
    }
}

/// What a removal wants done.
#[derive(Debug)]
pub enum RemovalStep {
    /// List a directory.
    List(String),
    /// Remove a file.
    RemoveFile(String),
    /// Remove these empty directories, in this order. Nothing follows but the answer.
    RemoveDirs(Vec<String>),
    /// The removal failed. Nothing follows.
    Fail(String),
}

/// The contents of a [`RemovalStep`].
#[verifier::ext_equal]
pub enum RemovalView {
    List(Seq<char>),
    RemoveFile(Seq<char>),
    RemoveDirs(Seq<Seq<char>>),
    Fail(Seq<char>),
}

impl View for RemovalStep {
    type V = RemovalView;

    open spec fn view(&self) -> RemovalView {
        match *self {
            RemovalStep::List(d) => RemovalView::List(d@),
            RemovalStep::RemoveFile(p) => RemovalView::RemoveFile(p@),
            RemovalStep::RemoveDirs(v) => RemovalView::RemoveDirs(text::texts(v@)),
            RemovalStep::Fail(m) => RemovalView::Fail(m@),
        }
    }
}

impl DirRemovalView {
    /// Without the next entry, which counts as a node.
    pub open spec fn past_entry(self) -> DirRemovalView {
        DirRemovalView { rest: self.rest.drop_last(), nodes: self.nodes + 1, ..self }
    }

    /// With a directory that was found, unless it was found before.
    pub open spec fn with_dir(self, path: Seq<char>) -> DirRemovalView {
        let key = remote_path::remote_dir(path);
        if self.visited.contains(key) {
            self
        } else {
            DirRemovalView {
                dirs: self.dirs.push(path),
                visited: self.visited.push(key),
                ..self
            }
        }
    }

    /// The next step: first the entries of a directory, of which all but directories are
    /// removed, then the next directory, and when all are listed the removal of the directories,
    /// the one found last first.
    pub open spec fn next(self) -> (DirRemovalView, RemovalView)
        decreases self.rest.len(),
    {
        if self.rest.len() > 0 {
            let e = self.rest.last();
            let after = self.past_entry();
            if after.nodes > MAX_NODES {
                (after, RemovalView::Fail(REMOVAL_LIMIT@))
            } else if enters(e) {
                after.with_dir(e.full_path).next()
            } else {
                (after, RemovalView::RemoveFile(e.full_path))
            }
        } else if self.listed < self.dirs.len() {
            (
                DirRemovalView { listed: self.listed + 1, ..self },
                RemovalView::List(self.dirs[self.listed as int]),
            )
        } else {
            (self, RemovalView::RemoveDirs(self.dirs.reverse()))
        }
    }

    /// After a listing was wanted.
    pub open spec fn on_listing(self, l: Result<Seq<EntryView>, Seq<char>>) -> (
        DirRemovalView,
        RemovalView,
    ) {
        match l {
            Ok(s) => (DirRemovalView { rest: s.reverse(), ..self }).next(),
            Err(m) => (self, RemovalView::Fail(m)),
        }
    }

    /// After a file was to be removed.
    pub open spec fn on_file(self, path: Seq<char>, removed: Result<(), Seq<char>>) -> (
        DirRemovalView,
        RemovalView,
    ) {
        match removed {
            Ok(_) => self.next(),
            Err(m) => (self, RemovalView::Fail("remove file "@ + path + ": "@ + m)),
        }
    }

    /// A removal of which nothing is known but the folder.
    pub open spec fn fresh(root: Seq<char>) -> DirRemovalView {
        DirRemovalView {
            dirs: seq![text::strip_end(root, CharSet::Only('/'))],
            visited: seq![remote_path::remote_dir(root)],
            nodes: 1,
            listed: 0,
            rest: Seq::empty(),
        }
    }

    /// No more directories were listed than found.
    pub open spec fn ok(self) -> bool {
        self.listed <= self.dirs.len() && self.nodes <= MAX_NODES + 1
    }
}

impl DirRemoval {
    /// A removal of which nothing is known but the folder. A dangerous path is refused.
    pub fn new(root: &str) -> (out: Result<DirRemoval, String>)
        ensures
            out is Err <==> remote_path::forbidden(root@),
            out matches Ok(r) ==> r@ == DirRemovalView::fresh(root@) && r@.ok() && r@.nodes
                <= MAX_NODES,
            out matches Err(m) ==> m@ == REMOVAL_REFUSED@,
    {
        if remote_path::is_forbidden_remote_path(root) {
            return Err(REMOVAL_REFUSED.to_string());
        }
        let mut dirs: Vec<String> = Vec::new();
        dirs.push(text::trim_end(root, CharSet::Only('/')));
        let mut visited: Vec<String> = Vec::new();
        visited.push(remote_path::normalise_remote_dir(root));
        let out = DirRemoval { dirs, visited, nodes: 1, listed: 0, rest: Vec::new() };
        assert(out@.dirs =~= DirRemovalView::fresh(root@).dirs);
        assert(out@.visited =~= DirRemovalView::fresh(root@).visited);
        assert(out@.rest =~= Seq::<EntryView>::empty());
        Ok(out)
    }

    /// The next step.
    pub fn next(&mut self) -> (out: RemovalStep)
        requires
            old(self)@.ok(),
            old(self)@.nodes <= MAX_NODES,
        ensures
            (final(self)@, out@) == old(self)@.next(),
            final(self)@.ok(),
            !(out is Fail) ==> final(self)@.nodes <= MAX_NODES,
    {
        loop
            invariant
                self@.ok(),
                self@.nodes <= MAX_NODES,
                self@.next() == old(self)@.next(),
            decreases self@.rest.len(),
        {
            let ghost start = self@;
            if let Some(e) = self.rest.pop() {
                self.nodes = self.nodes + 1;
                assert(self@.rest =~= start.rest.drop_last());
                assert(start.rest.last() == e@);
                assert(self@ =~= start.past_entry());
                if self.nodes > MAX_NODES {
                    return RemovalStep::Fail(REMOVAL_LIMIT.to_string());
                }
                if e.is_dir && e.kind != EntryKind::SymlinkDir {
                    let key = remote_path::normalise_remote_dir(e.full_path.as_str());
                    if !text::list_has(&self.visited, key.as_str()) {
                        proof {
                            text::lemma_texts_push(self.visited@, key);
                            text::lemma_texts_push(self.dirs@, e.full_path);
                        }
                        self.visited.push(key);
                        self.dirs.push(e.full_path);
                    }
                    assert(self@ =~= start.past_entry().with_dir(e@.full_path));
                } else {
                    return RemovalStep::RemoveFile(e.full_path);
                }
            } else {
                assert(self@.rest =~= start.rest);
                if self.listed < self.dirs.len() {
                    let at: usize = self.listed;
                    self.listed = at + 1;
                    return RemovalStep::List(self.dirs[at].clone());
                }
                return RemovalStep::RemoveDirs(self.dirs_upwards());
            }
        }
    }

    /// The directories that were found, the last one first.
    fn dirs_upwards(&self) -> (out: Vec<String>)
        ensures
            text::texts(out@) == self@.dirs.reverse(),
    {
        let ghost all = text::texts(self.dirs@);
        let mut out: Vec<String> = Vec::new();
        let mut i: usize = self.dirs.len();
        while i > 0
            invariant
                i <= self.dirs@.len(),
                all == text::texts(self.dirs@),
                text::texts(out@) == all.skip(i as int).reverse(),
            decreases i,
        {
            i = i - 1;
            let ghost before = text::texts(out@);
            assert(all[i as int] == self.dirs@[i as int]@);
            out.push(self.dirs[i].clone());
            assert(text::texts(out@) =~= before.push(all[i as int]));
            assert(all.skip(i as int).reverse() =~= before.push(all[i as int]));
        }
        assert(all.skip(0) == all);
        out
    }

    /// After a listing was wanted.
    pub fn on_listing(&mut self, listing: Result<Vec<RemoteEntry>, String>) -> (out: RemovalStep)
        requires
            old(self)@.ok(),
            old(self)@.nodes <= MAX_NODES,
        ensures
            (final(self)@, out@) == old(self)@.on_listing(listing_view(listing)),
            final(self)@.ok(),
            !(out is Fail) ==> final(self)@.nodes <= MAX_NODES,
    {
        match listing {
            Ok(list) => {
                self.rest = turned(list);
                self.next()
            },
            Err(m) => RemovalStep::Fail(m),
        }
    }

    /// After a file was to be removed.
    pub fn on_file(&mut self, path: &str, removed: Result<(), String>) -> (out: RemovalStep)
        requires
            old(self)@.ok(),
            old(self)@.nodes <= MAX_NODES,
        ensures
            (final(self)@, out@) == old(self)@.on_file(path@, done_view(removed)),
            final(self)@.ok(),
            !(out is Fail) ==> final(self)@.nodes <= MAX_NODES,
    {
        match removed {
            Ok(_) => self.next(),
            Err(m) => RemovalStep::Fail(text::join4("remove file ", path, ": ", m.as_str())),
        }
    }
}

/// The message for a directory that could not be removed.
pub open spec fn rmdir_failure(dir: Seq<char>, m: Seq<char>) -> Seq<char> {
    "remove dir "@ + dir + ": "@ + m
}

/// The message for a directory that could not be removed.
pub fn rmdir_error(dir: &str, m: &str) -> (out: String)
    ensures
        out@ == rmdir_failure(dir@, m@),
{
    text::join4("remove dir ", dir, ": ", m)
}

/// A directory is removed after all that was found in it: a step only adds directories behind
/// those that are known, so what is found in a directory stands behind it; and the directories
/// are removed from the last to the first.
pub proof fn law_removal_goes_up(r: DirRemovalView)
    requires
        r.ok(),
    ensures
        r.next().0.dirs.len() >= r.dirs.len(),
        r.next().0.dirs.take(r.dirs.len() as int) == r.dirs,
        r.next().1 matches RemovalView::List(d) ==> r.next().0.listed <= r.next().0.dirs.len(),
        r.next().1 matches RemovalView::RemoveDirs(v) ==> v == r.next().0.dirs.reverse() && r.next().0.listed
            == v.len(),
    decreases r.rest.len(),
{
    assert(r.dirs.take(r.dirs.len() as int) =~= r.dirs);
    if r.rest.len() > 0 {
        let e = r.rest.last();
        let after = r.past_entry();
        if after.nodes <= MAX_NODES && enters(e) {
            let with = after.with_dir(e.full_path);
            assert(with.dirs.take(r.dirs.len() as int) =~= r.dirs);
            law_removal_goes_up(with);
            let end = with.next().0.dirs;
            assert(end.take(with.dirs.len() as int) == with.dirs);
            assert(end.take(r.dirs.len() as int) =~= end.take(with.dirs.len() as int).take(
                r.dirs.len() as int,
            ));
        }
    }
}

/// No symbolic link is ever followed into a folder, and every real directory is: a download
/// passes a link to a directory over, and a removal takes away the link itself and nothing behind
/// it.
pub proof fn law_links_are_not_followed(d: DirDownloadView, r: DirRemovalView, e: EntryView)
    requires
        d.rest.len() > 0,
        d.rest.last() == e,
        r.rest.len() > 0,
        r.rest.last() == e,
        d.nodes < 20000,
        r.nodes < 20000,
        e.is_dir,
    ensures
        e.kind == EntryKind::SymlinkDir ==> {
            &&& !enters(e)
            &&& d.next(false) == (DirDownloadView {
                rest: d.rest.drop_last(),
                nodes: d.nodes + 1,
                ..d
            }).next(false)
            &&& r.next().1 == RemovalView::RemoveFile(e.full_path)
            &&& r.next().0.dirs == r.dirs
        },
        e.kind != EntryKind::SymlinkDir ==> enters(e),
{
}

/// Everything that is no directory is removed as a file, at its own path, and a folder of more
/// than twenty thousand nodes is not removed.
pub proof fn law_files_are_removed_where_they_stand(r: DirRemovalView, e: EntryView)
    requires
        r.rest.len() > 0,
        r.rest.last() == e,
        !e.is_dir,
    ensures
        r.nodes < 20000 ==> r.next().1 == RemovalView::RemoveFile(e.full_path),
        r.nodes >= 20000 ==> r.next().1 is Fail,
{
}

/// A download of a folder stops at the first failure, and gives its reason: a local directory that
/// cannot be made is named, and the reason of a listing or a file that failed is passed on.
pub proof fn law_download_stops_at_a_failure(d: DirDownloadView, m: Seq<char>, cancelled: bool)
    ensures
        d.on_made(true) == FetchView::List(d.rdir),
        d.on_made(false) == FetchView::Fail("create local dir "@ + d.ldir),
        d.on_listing(Err(m), cancelled).1 == FetchView::Fail(m),
        d.on_fetched(Err(m), cancelled).1 == FetchView::Fail(m),
        d.on_fetched(Ok(false), cancelled).1 == FetchView::DropLocal(d.root_local),
{
}

/// A removal of a folder stops at the first failure, and gives its reason: that of a listing is
/// passed on, and a file or a directory that cannot be removed is named before it.
pub proof fn law_removal_stops_at_a_failure(r: DirRemovalView, path: Seq<char>, m: Seq<char>)
    ensures
        r.on_listing(Err(m)).1 == RemovalView::Fail(m),
        r.on_file(path, Err(m)).1 == RemovalView::Fail("remove file "@ + path + ": "@ + m),
        rmdir_failure(path, m) == "remove dir "@ + path + ": "@ + m,
{
}

} // verus!
