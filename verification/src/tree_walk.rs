//! Expanding the navigation tree down to a directory, one listing at a time.
use crate::remote_path;
use crate::text;
use crate::text::CharSet;
use crate::tree;
use crate::tree::{TreeState, TreeView};
use vstd::prelude::*;

verus! {

/// The components of a path.
pub open spec fn segments(path: Seq<char>) -> Seq<Seq<char>> {
    text::pieces(path, CharSet::Only('/')).filter(|s: Seq<char>| s.len() > 0)
}

fn split_segments(path: &str) -> (out: Vec<String>)
    ensures
        text::texts(out@) == segments(path@),
{
    let parts = text::split(path, CharSet::Only('/'));
    let ghost all = text::texts(parts@);
    let ghost keep = |s: Seq<char>| s.len() > 0;
    let mut out: Vec<String> = Vec::new();
    let mut i: usize = 0;
    proof {
        reveal(Seq::filter);
    }
    assert(text::texts(out@) =~= all.take(0).filter(keep));
    while i < parts.len()
        invariant
            i <= parts@.len(),
            all == text::texts(parts@),
            keep == (|s: Seq<char>| s.len() > 0),
            text::texts(out@) == all.take(i as int).filter(keep),
        decreases parts@.len() - i,
    {
        assert(all[i as int] == parts@[i as int]@);
        let ghost before = text::texts(out@);
        if !parts[i].as_str().is_empty() {
            out.push(parts[i].clone());
            assert(text::texts(out@) == before.push(all[i as int]));
        }
        i = i + 1;
        proof {
            reveal(Seq::filter);
            assert(all.take(i as int).drop_last() == all.take(i - 1));
            assert(all.take(i as int).last() == all[i - 1]);
        }
    }
    assert(all.take(all.len() as int) == all);
    out
}

/// What a walk waits for.
#[derive(Debug, Clone, Copy, PartialEq, Eq, Structural)]
pub enum WalkStage {
    /// The listing of the root.
    Root,
    /// The listing of the directory that the walk has reached.
    Parent,
    /// The listing of the next directory.
    Child,
    /// Nothing: the walk has ended.
    Done,
}

/// A walk from the root of the tree towards a directory.
pub struct TreeWalk {
    target: String,
    current: String,
    segs: Vec<String>,
    at: usize,
    eager: bool,
    stage: WalkStage,
}

/// The contents of a [`TreeWalk`].
#[verifier::ext_equal]
pub struct WalkView {
    /// The directory that the walk goes to.
    pub target: Seq<char>,
    /// The directory that it has reached.
    pub current: Seq<char>,
    /// The components that are left.
    pub rest: Seq<Seq<char>>,
    /// Whether every directory on the way is listed, the target too, even where a listing of it
    /// is cached. Otherwise only what is needed and missing is listed.
    pub eager: bool,
    pub stage: WalkStage,
}

impl WalkView {
    /// The walk at another stage.
    pub open spec fn at(self, stage: WalkStage) -> WalkView {
        WalkView { stage, ..self }
    }

    /// The directory that the next component leads to.
    pub open spec fn child(self) -> Seq<char> {
        remote_path::joined(self.current, self.rest[0])
    }

    /// The walk one component further.
    pub open spec fn entered(self) -> WalkView {
        WalkView { current: self.child(), rest: self.rest.drop_first(), ..self }
    }
}

impl View for TreeWalk {
    type V = WalkView;

    closed spec fn view(&self) -> WalkView {
        WalkView {
            target: self.target@,
            current: self.current@,
            rest: text::texts(self.segs@).skip(self.at as int),
            eager: self.eager,
            stage: self.stage,
        }
    }
}

/// A turn of a walk: the tree and the walk after it, and the directory to list next.
pub type WalkTurn = (TreeView, WalkView, Option<Seq<char>>);

/// The walk goes on from the directory that it has reached.
pub open spec fn walk_seek(t: TreeView, w: WalkView) -> WalkTurn
    decreases w.rest.len(), 1nat,
{
    if w.rest.len() == 0 {
        (t, w.at(WalkStage::Done), None)
    } else if !w.eager && !t.dirs.contains_key(w.current) {
        (t, w.at(WalkStage::Parent), Some(w.current))
    } else {
        walk_check(t, w)
    }
}

/// The walk ends where the next directory is not listed; it enters a listed one, which is listed
/// itself first where that is needed.
pub open spec fn walk_check(t: TreeView, w: WalkView) -> WalkTurn
    decreases w.rest.len(), 0nat,
{
    if w.rest.len() == 0 || !t.lists(w.current, w.child()) {
        (t, w.at(WalkStage::Done), None)
    } else if w.eager || (w.child() != w.target && !t.dirs.contains_key(w.child())) {
        (t, w.at(WalkStage::Child), Some(w.child()))
    } else {
        walk_seek(t.expand(w.child()), w.entered())
    }
}

/// The walk goes on once the listing that it waited for was tried.
pub open spec fn walk_resume(t: TreeView, w: WalkView) -> WalkTurn {
    match w.stage {
        WalkStage::Root => {
            let t1 = t.expand("/"@);
            if w.target == "/"@ {
                (t1, w.at(WalkStage::Done), None)
            } else {
                walk_seek(t1, w)
            }
        },
        WalkStage::Parent => walk_check(t, w),
        WalkStage::Child => if w.rest.len() == 0 {
            (t, w.at(WalkStage::Done), None)
        } else {
            walk_seek(t.expand(w.child()), w.entered())
        },
        WalkStage::Done => (t, w, None),
    }
}

/// A walk that has not begun.
pub open spec fn walk_to(target: Seq<char>, eager: bool) -> WalkView {
    WalkView {
        target,
        current: "/"@,
        rest: segments(target),
        eager,
        stage: WalkStage::Root,
    }
}

/// The beginning of a walk: the root is listed first, unless a listing of it is cached that
/// will do.
pub open spec fn walk_start(t: TreeView, target: Seq<char>, eager: bool) -> WalkTurn {
    let w = walk_to(target, eager);
    if eager || !t.dirs.contains_key("/"@) {
        (t, w, Some("/"@))
    } else {
        walk_resume(t, w)
    }
}

/// The contents of an optional text.
pub open spec fn maybe(s: Option<String>) -> Option<Seq<char>> {
    match s {
        Some(x) => Some(x@),
        None => None,
    }
}

impl TreeWalk {
    /// The components that are left are a part of those of the path.
    pub closed spec fn wf(&self) -> bool {
        self.at <= self.segs@.len()
    }

    /// Begins a walk; gives the directory to list first, if one is needed.
    pub fn start(tree: &mut TreeState, target: &str, eager: bool) -> (out: (
        TreeWalk,
        Option<String>,
    ))
        requires
            old(tree).wf(),
        ensures
            final(tree).wf(),
            out.0.wf(),
            (final(tree)@, out.0@, maybe(out.1)) == walk_start(old(tree)@, target@, eager),
    {
        let segs = split_segments(target);
        let mut walk = TreeWalk {
            target: target.to_string(),
            current: "/".to_string(),
            segs,
            at: 0,
            eager,
            stage: WalkStage::Root,
        };
        assert(walk@.rest =~= segments(target@));
        assert(walk@ == walk_to(target@, eager));
        if eager || !tree.dirs.contains_key("/") {
            (walk, Some("/".to_string()))
        } else {
            let ask = walk.resume(tree);
            (walk, ask)
        }
    }

    /// Expands the next directory and goes there.
    fn enter(&mut self, tree: &mut TreeState)
        requires
            old(self).wf(),
            old(tree).wf(),
            old(self)@.rest.len() > 0,
        ensures
            final(self).wf(),
            final(tree).wf(),
            final(tree)@ == old(tree)@.expand(old(self)@.child()),
            final(self)@ == old(self)@.entered(),
    {
        let ghost w = self@;
        let ghost all = text::texts(self.segs@);
        let size: usize = self.segs.len();
        assert(self.at < size);
        assert(w.rest[0] == all[self.at as int]);
        assert(all[self.at as int] == self.segs@[self.at as int]@);
        let child = remote_path::join_path(self.current.as_str(), self.segs[self.at].as_str());
        tree.expand(child.as_str());
        self.current = child;
        self.at = self.at + 1;
        assert(self@.rest =~= w.rest.drop_first());
        assert(self@ == w.entered());
    }

    /// Goes on from the directory that the walk has reached.
    fn seek(&mut self, tree: &mut TreeState) -> (out: Option<String>)
        requires
            old(self).wf(),
            old(tree).wf(),
        ensures
            final(self).wf(),
            final(tree).wf(),
            (final(tree)@, final(self)@, maybe(out)) == walk_seek(old(tree)@, old(self)@),
    {
        loop
            invariant
                self.wf(),
                tree.wf(),
                walk_seek(tree@, self@) == walk_seek(old(tree)@, old(self)@),
            decreases self@.rest.len(),
        {
            let ghost w = self@;
            if self.at < self.segs.len() && !self.eager && !tree.dirs.contains_key(
                self.current.as_str(),
            ) {
                self.stage = WalkStage::Parent;
                assert(self@ == w.at(WalkStage::Parent));
                return Some(self.current.clone());
            }
            let (on, ask) = self.check(tree);
            if !on {
                return ask;
            }
            self.enter(tree);
        }
    }

    /// Whether the walk enters the next directory at once; otherwise the directory to list
    /// before, if the walk has not ended.
    fn check(&mut self, tree: &TreeState) -> (out: (bool, Option<String>))
        requires
            old(self).wf(),
            tree.wf(),
        ensures
            final(self).wf(),
            !out.0 ==> (tree@, final(self)@, maybe(out.1)) == walk_check(tree@, old(self)@),
            out.0 ==> final(self)@ == old(self)@ && final(self)@.rest.len() > 0 && walk_check(
                tree@,
                old(self)@,
            ) == walk_seek(tree@.expand(old(self)@.child()), old(self)@.entered()),
    {
        let ghost w = self@;
        if self.at >= self.segs.len() {
            self.stage = WalkStage::Done;
            assert(self@ == w.at(WalkStage::Done));
            return (false, None);
        }
        let ghost all = text::texts(self.segs@);
        assert(w.rest[0] == all[self.at as int]);
        assert(all[self.at as int] == self.segs@[self.at as int]@);
        let child = remote_path::join_path(self.current.as_str(), self.segs[self.at].as_str());
        if !tree.lists(self.current.as_str(), child.as_str()) {
            self.stage = WalkStage::Done;
            assert(self@ == w.at(WalkStage::Done));
            return (false, None);
        }
        if self.eager || (!text::same_text(child.as_str(), self.target.as_str())
            && !tree.dirs.contains_key(child.as_str())) {
            self.stage = WalkStage::Child;
            assert(self@ == w.at(WalkStage::Child));
            return (false, Some(child));
        }
        (true, None)
    }

    /// Goes on once the listing that the walk waited for was tried; gives the next directory to
    /// list, if one is needed.
    pub fn resume(&mut self, tree: &mut TreeState) -> (out: Option<String>)
        requires
            old(self).wf(),
            old(tree).wf(),
        ensures
            final(self).wf(),
            final(tree).wf(),
            (final(tree)@, final(self)@, maybe(out)) == walk_resume(old(tree)@, old(self)@),
    {
        let ghost w = self@;
        match self.stage {
            WalkStage::Root => {
                tree.expand("/");
                if text::same_text(self.target.as_str(), "/") {
                    self.stage = WalkStage::Done;
                    assert(self@ == w.at(WalkStage::Done));
                    None
                } else {
                    self.seek(tree)
                }
            },
            WalkStage::Parent => {
                let (on, ask) = self.check(tree);
                if !on {
                    return ask;
                }
                self.enter(tree);
                self.seek(tree)
            },
            WalkStage::Child => {
                if self.at >= self.segs.len() {
                    self.stage = WalkStage::Done;
                    assert(self@ == w.at(WalkStage::Done));
                    None
                } else {
                    self.enter(tree);
                    self.seek(tree)
                }
            },
            WalkStage::Done => None,
        }
    }
}

// ---------------------------------------------------------------------------
// Toggling
// ---------------------------------------------------------------------------

/// A double click on a directory of the tree: the tree after it, and the directory whose listing
/// is fetched before the clicked one is expanded.
pub open spec fn toggled(t: TreeView, path: Seq<char>) -> (TreeView, Option<Seq<char>>) {
    if path == "/"@ {
        if t.expanded.contains("/"@) {
            (TreeView { dirs: t.dirs, expanded: Seq::empty() }, None)
        } else {
            (t, Some("/"@))
        }
    } else if t.expanded.contains(path) {
        (t.collapse(path), None)
    } else if t.dirs.contains_key(path) {
        (t.expand(path), None)
    } else {
        (t, Some(path))
    }
}

/// A double click on a directory of the tree: collapses an expanded directory with all below it,
/// and the whole tree where it is the root. Expands a collapsed one whose listing is cached.
/// Otherwise gives the directory, which is to be expanded once its listing was fetched.
pub fn toggle(tree: &mut TreeState, path: &str) -> (out: Option<String>)
    requires
        old(tree).wf(),
    ensures
        final(tree).wf(),
        (final(tree)@, maybe(out)) == toggled(old(tree)@, path@),
{
    if text::same_text(path, "/") {
        if tree.is_expanded("/") {
            tree.collapse_all();
            None
        } else {
            Some("/".to_string())
        }
    } else if tree.is_expanded(path) {
        tree.collapse(path);
        None
    } else if tree.dirs.contains_key(path) {
        tree.expand(path);
        None
    } else {
        Some(path.to_string())
    }
}

// ---------------------------------------------------------------------------
// Laws
// ---------------------------------------------------------------------------

/// A turn of a walk changes no listing, collapses nothing, and leaves the directory that the walk
/// has reached expanded and shown: so after a walk the tree shows the way down to it.
pub proof fn law_walk_shows_the_way(t: TreeView, w: WalkView)
    requires
        tree::few_listings(t),
        w.stage == WalkStage::Root ==> w.current == "/"@,
        w.stage != WalkStage::Root ==> t.expanded.contains(w.current) && tree::visible(
            t,
            w.current,
        ),
        w.stage == WalkStage::Child && w.rest.len() > 0 ==> t.lists(w.current, w.child()),
    ensures
        walk_resume(t, w).0.dirs == t.dirs,
        forall|p: Seq<char>| #[trigger]
            t.expanded.contains(p) ==> walk_resume(t, w).0.expanded.contains(p),
        walk_resume(t, w).0.expanded.contains(walk_resume(t, w).1.current),
        tree::visible(walk_resume(t, w).0, walk_resume(t, w).1.current),
{
    lemma_expand(t, "/"@);
    match w.stage {
        WalkStage::Root => {
            lemma_root_is_shown(t.expand("/"@));
            lemma_seek_expands(t.expand("/"@), w);
        },
        WalkStage::Parent => {
            lemma_check_expands(t, w);
        },
        WalkStage::Child => {
            if w.rest.len() > 0 {
                lemma_entering(t, w);
                lemma_seek_expands(t.expand(w.child()), w.entered());
            }
        },
        WalkStage::Done => {},
    }
}

proof fn lemma_expand(t: TreeView, dir: Seq<char>)
    ensures
        t.expand(dir).expanded.contains(dir),
        forall|p: Seq<char>| #[trigger]
            t.expanded.contains(p) ==> t.expand(dir).expanded.contains(p),
{
    let e = t.expand(dir).expanded;
    if !t.expanded.contains(dir) {
        assert(e[t.expanded.len() as int] == dir);
        assert forall|p: Seq<char>| #[trigger] t.expanded.contains(p) implies e.contains(p) by {
            let i = choose|i: int| 0 <= i < t.expanded.len() && t.expanded[i] == p;
            assert(e[i] == p);
        }
    }
}

/// Expanding a directory expands it and no other.
pub proof fn lemma_expand_adds(t: TreeView, dir: Seq<char>, p: Seq<char>)
    ensures
        t.expand(dir).expanded.contains(p) <==> t.expanded.contains(p) || p == dir,
        t.expand(dir).dirs == t.dirs,
{
    lemma_expand(t, dir);
    let e = t.expand(dir).expanded;
    if e.contains(p) && p != dir {
        let i = e.index_of(p);
        assert(e[i] == p);
        assert(t.expanded[i] == p);
    }
}

proof fn lemma_root_is_shown(t: TreeView)
    ensures
        tree::visible(t, "/"@),
{
    let rows = tree::all_nodes(t);
    assert(rows[0] == tree::node_of(t, "/"@, 0));
}

/// A directory that is listed by one that is expanded and shown is shown, once it is expanded too.
proof fn lemma_entering(t: TreeView, w: WalkView)
    requires
        tree::few_listings(t),
        t.expanded.contains(w.current),
        tree::visible(t, w.current),
        t.lists(w.current, w.child()),
    ensures
        ({
            let e = t.expand(w.child());
            &&& e.dirs == t.dirs
            &&& e.expanded.contains(w.child())
            &&& tree::visible(e, w.child())
            &&& forall|p: Seq<char>| #[trigger]
                t.expanded.contains(p) ==> e.expanded.contains(p)
        }),
{
    let kids = t.dirs[w.current];
    let k = choose|k: int| 0 <= k < kids.len() && (#[trigger] kids[k]).1 == w.child();
    tree::law_listed_are_shown(t, w.current, k);
    tree::law_expanding_keeps_rows(t, w.child(), w.child());
    lemma_expand(t, w.child());
}

proof fn lemma_seek_expands(t: TreeView, w: WalkView)
    requires
        tree::few_listings(t),
        t.expanded.contains(w.current),
        tree::visible(t, w.current),
    ensures
        walk_seek(t, w).0.dirs == t.dirs,
        forall|p: Seq<char>| #[trigger]
            t.expanded.contains(p) ==> walk_seek(t, w).0.expanded.contains(p),
        walk_seek(t, w).0.expanded.contains(walk_seek(t, w).1.current),
        tree::visible(walk_seek(t, w).0, walk_seek(t, w).1.current),
    decreases w.rest.len(), 1nat,
{
    if w.rest.len() > 0 && (w.eager || t.dirs.contains_key(w.current)) {
        lemma_check_expands(t, w);
    }
}

proof fn lemma_check_expands(t: TreeView, w: WalkView)
    requires
        tree::few_listings(t),
        t.expanded.contains(w.current),
        tree::visible(t, w.current),
    ensures
        walk_check(t, w).0.dirs == t.dirs,
        forall|p: Seq<char>| #[trigger]
            t.expanded.contains(p) ==> walk_check(t, w).0.expanded.contains(p),
        walk_check(t, w).0.expanded.contains(walk_check(t, w).1.current),
        tree::visible(walk_check(t, w).0, walk_check(t, w).1.current),
    decreases w.rest.len(), 0nat,
{
    if w.rest.len() > 0 && t.lists(w.current, w.child()) && !(w.eager || (w.child() != w.target
        && !t.dirs.contains_key(w.child()))) {
        lemma_entering(t, w);
        lemma_seek_expands(t.expand(w.child()), w.entered());
    }
}

proof fn lemma_seek_keeps(t: TreeView, w: WalkView)
    ensures
        walk_seek(t, w).0.dirs == t.dirs,
        walk_check(t, w).0.dirs == t.dirs,
        forall|p: Seq<char>| #[trigger]
            t.expanded.contains(p) ==> walk_seek(t, w).0.expanded.contains(p),
        forall|p: Seq<char>| #[trigger]
            t.expanded.contains(p) ==> walk_check(t, w).0.expanded.contains(p),
    decreases w.rest.len(),
{
    if w.rest.len() > 0 {
        lemma_expand(t, w.child());
        lemma_seek_keeps(t.expand(w.child()), w.entered());
    }
}

/// A walk changes no listing that is cached, and collapses nothing.
pub proof fn lemma_resume_keeps(t: TreeView, w: WalkView)
    ensures
        walk_resume(t, w).0.dirs == t.dirs,
        forall|p: Seq<char>| #[trigger]
            t.expanded.contains(p) ==> walk_resume(t, w).0.expanded.contains(p),
{
    lemma_expand(t, "/"@);
    lemma_seek_keeps(t, w);
    lemma_seek_keeps(t.expand("/"@), w);
    if w.rest.len() > 0 {
        lemma_expand(t, w.child());
        lemma_seek_keeps(t.expand(w.child()), w.entered());
    }
}

/// The beginning of a walk changes no listing that is cached, and collapses nothing.
pub proof fn lemma_start_keeps(t: TreeView, target: Seq<char>, eager: bool)
    ensures
        walk_start(t, target, eager).0.dirs == t.dirs,
        forall|p: Seq<char>| #[trigger]
            t.expanded.contains(p) ==> walk_start(t, target, eager).0.expanded.contains(p),
{
    lemma_resume_keeps(t, walk_to(target, eager));
}

/// A walk goes down as far as it can: it keeps its target, and ends only where no component is
/// left, or where the directory that it has reached does not list the next one. The directory
/// that it wants listed is the one that it has reached or the next one.
pub proof fn law_walk_goes_on_to_the_target(t: TreeView, w: WalkView)
    requires
        w.stage != WalkStage::Done,
        w.stage == WalkStage::Root ==> w.current == "/"@,
        w.target == "/"@ ==> w.rest.len() == 0,
    ensures
        ({
            let (after, next, dir) = walk_resume(t, w);
            &&& next.target == w.target
            &&& next.eager == w.eager
            &&& dir is None ==> next.stage == WalkStage::Done && (next.rest.len() == 0
                || !after.lists(next.current, next.child()))
            &&& dir matches Some(d) ==> next.rest.len() > 0 && (d == next.current || d
                == next.child())
        }),
{
    match w.stage {
        WalkStage::Root => {
            lemma_seek_goes_on(t.expand("/"@), w);
        },
        WalkStage::Parent => {
            lemma_check_goes_on(t, w);
        },
        WalkStage::Child => {
            if w.rest.len() > 0 {
                lemma_seek_goes_on(t.expand(w.child()), w.entered());
            }
        },
        WalkStage::Done => {},
    }
}

proof fn lemma_seek_goes_on(t: TreeView, w: WalkView)
    ensures
        ({
            let (after, next, dir) = walk_seek(t, w);
            &&& next.target == w.target
            &&& next.eager == w.eager
            &&& dir is None ==> next.stage == WalkStage::Done && (next.rest.len() == 0
                || !after.lists(next.current, next.child()))
            &&& dir matches Some(d) ==> next.rest.len() > 0 && (d == next.current || d
                == next.child())
        }),
    decreases w.rest.len(), 1nat,
{
    if w.rest.len() > 0 && (w.eager || t.dirs.contains_key(w.current)) {
        lemma_check_goes_on(t, w);
    }
}

proof fn lemma_check_goes_on(t: TreeView, w: WalkView)
    ensures
        ({
            let (after, next, dir) = walk_check(t, w);
            &&& next.target == w.target
            &&& next.eager == w.eager
            &&& dir is None ==> next.stage == WalkStage::Done && (next.rest.len() == 0
                || !after.lists(next.current, next.child()))
            &&& dir matches Some(d) ==> next.rest.len() > 0 && (d == next.current || d
                == next.child())
        }),
    decreases w.rest.len(), 0nat,
{
    if w.rest.len() > 0 && t.lists(w.current, w.child()) && !(w.eager || (w.child() != w.target
        && !t.dirs.contains_key(w.child()))) {
        lemma_seek_goes_on(t.expand(w.child()), w.entered());
    }
}

/// A walk that begins keeps its target.
pub proof fn lemma_start_target(t: TreeView, target: Seq<char>, eager: bool)
    ensures
        ({
            let (after, w, dir) = walk_start(t, target, eager);
            w.target == target && w.eager == eager
        }),
{
    lemma_seek_goes_on(t.expand("/"@), walk_to(target, eager));
}

/// The components of a path are those of its directory, and its name; the root has none.
pub proof fn law_components_follow_the_path(dir: Seq<char>, name: Seq<char>)
    requires
        name.len() > 0,
        !name.contains('/'),
    ensures
        segments(dir + seq!['/'] + name) == segments(dir).push(name),
        segments("/"@) == Seq::<Seq<char>>::empty(),
{
    let set = CharSet::Only('/');
    let keep = |s: Seq<char>| s.len() > 0;
    assert forall|i: int| 0 <= i < name.len() implies !set.contains(#[trigger] name[i]) by {
        assert(name.contains(name[i]));
    }
    text::lemma_whole_piece(name, set);
    text::lemma_pieces_cut(dir, '/', name, set);
    let parts = text::pieces(dir, set);
    assert(parts + seq![name] =~= parts.push(name));
    reveal(Seq::filter);
    assert(parts.push(name).drop_last() =~= parts);
    reveal_strlit("/");
    let none = Seq::<char>::empty();
    assert("/"@ =~= none + seq!['/'] + none);
    text::lemma_pieces_cut(none, '/', none, set);
    let two = text::pieces("/"@, set);
    assert(text::pieces(none, set) =~= seq![none]);
    assert(two =~= seq![none, none]);
    assert(two.drop_last() =~= seq![none]);
    assert(two.drop_last().drop_last() =~= Seq::<Seq<char>>::empty());
    reveal_with_fuel(Seq::filter, 3);
}

} // verus!
