//! The navigation tree: cached directory listings, expanded directories, and the rows shown.
use crate::events;
use crate::events::{NodeView, RemoteTreeNode};
use crate::text;
use crate::text::CharSet;
use vstd::prelude::*;

verus! {

/// A subdirectory: its name and its full path.
pub type Kid = (String, String);

/// The contents of a list of subdirectories.
pub open spec fn kids_view(s: Seq<Kid>) -> Seq<(Seq<char>, Seq<char>)> {
    s.map_values(|k: Kid| (k.0@, k.1@))
}

/// The cached listings, by directory.
pub type DirMap = Map<Seq<char>, Seq<(Seq<char>, Seq<char>)>>;

/// Whether a path is a directory or, by its spelling, lies below it.
pub open spec fn within(p: Seq<char>, dir: Seq<char>) -> bool {
    p == dir || text::begins(p, text::strip_end(dir, CharSet::Only('/')) + "/"@)
}

/// Whether a path is a directory or, by its spelling, lies below it.
fn is_within(p: &str, dir: &str) -> (r: bool)
    ensures
        r == within(p@, dir@),
{
    let bare = text::trim_end(dir, CharSet::Only('/'));
    let prefix = text::join2(bare.as_str(), "/");
    text::same_text(p, dir) || text::starts_with(p, prefix.as_str())
}

// ---------------------------------------------------------------------------
// Cached listings
// ---------------------------------------------------------------------------

/// Listings of directories, of which only the subdirectories are kept.
pub struct DirCache {
    keys: Vec<String>,
    kids: Vec<Vec<Kid>>,
}

impl View for DirCache {
    type V = DirMap;

    closed spec fn view(&self) -> DirMap {
        Map::new(
            |p: Seq<char>| text::texts(self.keys@).contains(p),
            |p: Seq<char>| kids_view(self.kids@[text::texts(self.keys@).index_of(p)]@),
        )
    }
}

impl DirCache {
    /// No directory is listed twice.
    pub closed spec fn wf(&self) -> bool {
        &&& self.keys@.len() == self.kids@.len()
        &&& text::texts(self.keys@).no_duplicates()
    }

    /// A cache without listings.
    pub fn new() -> (out: DirCache)
        ensures
            out.wf(),
            out@ == Map::<Seq<char>, Seq<(Seq<char>, Seq<char>)>>::empty(),
    {
        let out = DirCache { keys: Vec::new(), kids: Vec::new() };
        assert(out@ =~= Map::<Seq<char>, Seq<(Seq<char>, Seq<char>)>>::empty());
        out
    }

    proof fn lemma_slot(&self, i: int)
        requires
            self.wf(),
            0 <= i < self.keys@.len(),
        ensures
            self@.contains_key(self.keys@[i]@),
            self@[self.keys@[i]@] == kids_view(self.kids@[i]@),
            text::texts(self.keys@).index_of(self.keys@[i]@) == i,
    {
        let all = text::texts(self.keys@);
        assert(all[i] == self.keys@[i]@);
        assert(all.contains(all[i]));
        let j = all.index_of(all[i]);
        assert(all[j] == all[i]);
    }

    /// There are finitely many listings.
    pub proof fn law_listings_are_finite(&self)
        ensures
            self@.dom().finite(),
    {
        let all = text::texts(self.keys@);
        assert(self@.dom() =~= all.to_set());
        vstd::seq_lib::seq_to_set_is_finite(all);
    }

    fn find(&self, dir: &str) -> (at: Option<usize>)
        requires
            self.wf(),
        ensures
            match at {
                Some(i) => i < self.keys@.len() && self.keys@[i as int]@ == dir@,
                None => !self@.contains_key(dir@),
            },
    {
        let ghost all = text::texts(self.keys@);
        let mut i: usize = 0;
        while i < self.keys.len()
            invariant
                i <= self.keys@.len(),
                all == text::texts(self.keys@),
                forall|k: int| 0 <= k < i ==> #[trigger] all[k] != dir@,
            decreases self.keys@.len() - i,
        {
            assert(all[i as int] == self.keys@[i as int]@);
            if text::same_text(self.keys[i].as_str(), dir) {
                return Some(i);
            }
            i = i + 1;
        }
        None
    }

    /// Whether a directory is listed.
    pub fn contains_key(&self, dir: &str) -> (r: bool)
        requires
            self.wf(),
        ensures
            r == self@.contains_key(dir@),
    {
        match self.find(dir) {
            Some(i) => {
                proof {
                    self.lemma_slot(i as int);
                }
                true
            },
            None => false,
        }
    }

    /// The subdirectories of a directory, if it is listed.
    pub fn get(&self, dir: &str) -> (out: Option<&Vec<Kid>>)
        requires
            self.wf(),
        ensures
            out is Some <==> self@.contains_key(dir@),
            out matches Some(v) ==> kids_view(v@) == self@[dir@],
    {
        match self.find(dir) {
            Some(i) => {
                proof {
                    self.lemma_slot(i as int);
                }
                Some(&self.kids[i])
            },
            None => None,
        }
    }

    /// Puts the listing of a directory in place of an earlier one.
    pub fn insert(&mut self, dir: &str, kids: Vec<Kid>)
        requires
            old(self).wf(),
        ensures
            final(self).wf(),
            final(self)@ == old(self)@.insert(dir@, kids_view(kids@)),
    {
        let ghost before = *self;
        let ghost all = text::texts(self.keys@);
        match self.find(dir) {
            Some(i) => {
                proof {
                    self.lemma_slot(i as int);
                }
                self.kids.set(i, kids);
                assert(self.keys@ == before.keys@);
                assert forall|p: Seq<char>| self@.contains_key(p) implies self@[p]
                    == before@.insert(dir@, kids_view(kids@))[p] by {
                    let j = all.index_of(p);
                    assert(all[j] == p);
                    self.lemma_slot(j);
                    before.lemma_slot(j);
                }
                assert(self@ =~= before@.insert(dir@, kids_view(kids@)));
            },
            None => {
                let key = dir.to_string();
                self.keys.push(key);
                self.kids.push(kids);
                let ghost now = text::texts(self.keys@);
                assert(now == all.push(dir@));
                assert(now.no_duplicates()) by {
                    assert forall|i: int, j: int|
                        0 <= i < now.len() && 0 <= j < now.len() && i != j implies now[i]
                        != now[j] by {
                        if i < all.len() && j < all.len() {
                            assert(all[i] != all[j]);
                        } else if i < all.len() {
                            assert(all.contains(all[i]));
                        } else {
                            assert(all.contains(all[j]));
                        }
                    }
                }
                assert forall|p: Seq<char>|
                    self@.contains_key(p) <==> before@.insert(
                        dir@,
                        kids_view(kids@),
                    ).contains_key(p) by {
                    if all.contains(p) {
                        let j = all.index_of(p);
                        assert(now[j] == p);
                    }
                    assert(now[all.len() as int] == dir@);
                }
                assert forall|p: Seq<char>| self@.contains_key(p) implies self@[p]
                    == before@.insert(dir@, kids_view(kids@))[p] by {
                    let j = now.index_of(p);
                    assert(now[j] == p);
                    self.lemma_slot(j);
                    if j < all.len() {
                        before.lemma_slot(j);
                    }
                }
                assert(self@ =~= before@.insert(dir@, kids_view(kids@)));
            },
        }
    }

    /// Drops the listings of a directory and of those below it.
    pub fn forget(&mut self, dir: &str)
        requires
            old(self).wf(),
        ensures
            final(self).wf(),
            final(self)@ == forget_dirs(old(self)@, dir@),
    {
        let ghost before = *self;
        let ghost all = text::texts(self.keys@);
        let mut keys: Vec<String> = Vec::new();
        let mut kids: Vec<Vec<Kid>> = Vec::new();
        let mut old_keys: Vec<String> = Vec::new();
        let mut old_kids: Vec<Vec<Kid>> = Vec::new();
        old_keys.append(&mut self.keys);
        old_kids.append(&mut self.kids);
        let ghost n = before.keys@.len() as int;
        assert(old_keys@ == before.keys@);
        assert(old_kids@ == before.kids@);
        let ghost mut from: Seq<int> = Seq::empty();
        let ghost mut i: int = 0;
        while old_keys.len() > 0
            invariant
                before.wf(),
                n == before.keys@.len(),
                all == text::texts(before.keys@),
                0 <= i <= n,
                old_keys@.len() == n - i,
                old_keys@ == before.keys@.take(n - i),
                old_kids@ == before.kids@.take(n - i),
                keys@.len() == kids@.len(),
                keys@.len() == from.len(),
                forall|k: int|
                    0 <= k < from.len() ==> n - i <= #[trigger] from[k] < n && keys@[k]
                        == before.keys@[from[k]] && kids@[k] == before.kids@[from[k]] && !within(
                        all[from[k]],
                        dir@,
                    ),
                forall|k: int, m: int| 0 <= k < m < from.len() ==> from[k] > from[m],
                forall|j: int|
                    #![trigger all[j]]
                    n - i <= j < n && !within(all[j], dir@) ==> exists|k: int|
                        0 <= k < from.len() && #[trigger] from[k] == j,
            decreases old_keys@.len(),
        {
            let key = old_keys.pop();
            let kid = old_kids.pop();
            match (key, kid) {
                (Some(key), Some(kid)) => {
                    let ghost j = n - i - 1;
                    assert(key == before.keys@[j]);
                    assert(kid == before.kids@[j]);
                    assert(all[j] == key@);
                    let ghost from0 = from;
                    if !is_within(key.as_str(), dir) {
                        keys.push(key);
                        kids.push(kid);
                        proof {
                            from = from.push(j);
                            assert forall|j2: int|
                                #![trigger all[j2]]
                                n - i - 1 <= j2 < n && !within(all[j2], dir@) implies exists|k: int|
                                0 <= k < from.len() && #[trigger] from[k] == j2 by {
                                if j2 == j {
                                    assert(from[from0.len() as int] == j);
                                } else {
                                    let k = choose|k: int|
                                        0 <= k < from0.len() && #[trigger] from0[k] == j2;
                                    assert(from[k] == j2);
                                }
                            }
                        }
                    }
                    proof {
                        i = i + 1;
                    }
                    assert(old_keys@ == before.keys@.take(n - i));
                    assert(old_kids@ == before.kids@.take(n - i));
                },
                _ => {
                    assert(false);
                },
            }
        }
        self.keys = keys;
        self.kids = kids;
        let ghost now = text::texts(self.keys@);
        assert(now.no_duplicates()) by {
            assert forall|a: int, b: int|
                0 <= a < now.len() && 0 <= b < now.len() && a != b implies now[a] != now[b] by {
                assert(now[a] == all[from[a]]);
                assert(now[b] == all[from[b]]);
                assert(from[a] != from[b]);
            }
        }
        let ghost want = forget_dirs(before@, dir@);
        assert forall|p: Seq<char>| self@.contains_key(p) <==> want.contains_key(p) by {
            if now.contains(p) {
                let k = now.index_of(p);
                assert(now[k] == p);
                assert(all[from[k]] == p);
                before.lemma_slot(from[k]);
            }
            if all.contains(p) && !within(p, dir@) {
                let j = all.index_of(p);
                assert(all[j] == p);
                let k = choose|k: int| 0 <= k < from.len() && #[trigger] from[k] == j;
                assert(now[k] == p);
            }
        }
        assert forall|p: Seq<char>| self@.contains_key(p) implies self@[p] == want[p] by {
            let k = now.index_of(p);
            assert(now[k] == p);
            self.lemma_slot(k);
            assert(all[from[k]] == p);
            before.lemma_slot(from[k]);
        }
        assert(self@ =~= want);
    }
}

/// The listings without those of a directory and of what lies below it.
pub open spec fn forget_dirs(dirs: DirMap, dir: Seq<char>) -> DirMap {
    Map::new(|p: Seq<char>| dirs.contains_key(p) && !within(p, dir), |p: Seq<char>| dirs[p])
}

// ---------------------------------------------------------------------------
// Tree state
// ---------------------------------------------------------------------------

/// The state of the navigation tree.
pub struct TreeState {
    pub dirs: DirCache,
    /// The expanded directories, in the order of their expansion.
    pub expanded: Vec<String>,
}

/// The contents of a [`TreeState`].
#[verifier::ext_equal]
pub struct TreeView {
    pub dirs: DirMap,
    pub expanded: Seq<Seq<char>>,
}

impl View for TreeState {
    type V = TreeView;

    open spec fn view(&self) -> TreeView {
        TreeView { dirs: self.dirs@, expanded: text::texts(self.expanded@) }
    }
}

impl TreeView {
    /// The tree with a directory expanded.
    pub open spec fn expand(self, dir: Seq<char>) -> TreeView {
        if self.expanded.contains(dir) {
            self
        } else {
            TreeView { dirs: self.dirs, expanded: self.expanded.push(dir) }
        }
    }

    /// The tree with a listing.
    pub open spec fn cache(self, dir: Seq<char>, kids: Seq<(Seq<char>, Seq<char>)>) -> TreeView {
        TreeView { dirs: self.dirs.insert(dir, kids), expanded: self.expanded }
    }

    /// The tree after a directory was listed, or was not.
    pub open spec fn keep(
        self,
        dir: Seq<char>,
        kids: Option<Seq<(Seq<char>, Seq<char>)>>,
    ) -> TreeView {
        match kids {
            Some(k) => self.cache(dir, k),
            None => self,
        }
    }

    /// The tree with a directory and all below it collapsed.
    pub open spec fn collapse(self, dir: Seq<char>) -> TreeView {
        TreeView {
            dirs: self.dirs,
            expanded: self.expanded.filter(|p: Seq<char>| !within(p, dir)),
        }
    }

    /// The tree without a directory and all below it.
    pub open spec fn forget(self, dir: Seq<char>) -> TreeView {
        TreeView {
            dirs: forget_dirs(self.dirs, dir),
            expanded: self.expanded.filter(|p: Seq<char>| !within(p, dir)),
        }
    }

    /// Whether a directory is expanded and listed, so that its subdirectories are shown below it.
    pub open spec fn opens(self, dir: Seq<char>) -> bool {
        self.expanded.contains(dir) && self.dirs.contains_key(dir)
    }

    /// Whether a listed directory has the given subdirectory.
    pub open spec fn lists(self, dir: Seq<char>, child: Seq<char>) -> bool {
        self.dirs.contains_key(dir) && exists|i: int|
            0 <= i < self.dirs[dir].len() && (#[trigger] self.dirs[dir][i]).1 == child
    }
}

/// Collapsing a directory collapses it and what is below it, and nothing else.
pub proof fn lemma_collapse_drops(t: TreeView, dir: Seq<char>, p: Seq<char>)
    ensures
        t.collapse(dir).expanded.contains(p) <==> t.expanded.contains(p) && !within(p, dir),
{
    let keep = |q: Seq<char>| !within(q, dir);
    let kept = t.expanded.filter(keep);
    if kept.contains(p) {
        let i = kept.index_of(p);
        t.expanded.lemma_filter_pred(keep, i);
        t.expanded.lemma_filter_contains_rev(keep, p);
    }
    if t.expanded.contains(p) && !within(p, dir) {
        t.expanded.lemma_filter_contains(keep, t.expanded.index_of(p));
    }
}

/// The last component of a tree path; the root names itself.
pub open spec fn node_name(path: Seq<char>) -> Seq<char> {
    if path == "/"@ {
        "/"@
    } else {
        text::pieces(path, CharSet::Only('/')).last()
    }
}

/// The row of one directory.
pub open spec fn node_of(t: TreeView, path: Seq<char>, depth: nat) -> NodeView {
    NodeView {
        path,
        name: node_name(path),
        depth,
        expanded: t.expanded.contains(path),
        has_children: t.dirs.contains_key(path) && t.dirs[path].len() > 0,
    }
}

/// The rows of a directory that `trail` leads down to, and of all that is shown below it: each
/// directory before its subdirectories, these in the order of the listing. A directory that the
/// trail has passed already has its row, but is not opened a second time. Neither is one as deep
/// as the depth can count.
pub open spec fn rows_below(
    t: TreeView,
    path: Seq<char>,
    depth: nat,
    trail: Seq<Seq<char>>,
) -> Seq<NodeView>
    decreases u32::MAX - depth, 0nat,
{
    let own = seq![node_of(t, path, depth)];
    if t.opens(path) && !trail.contains(path) && depth < u32::MAX {
        own + forest_below(t, t.dirs[path], depth + 1, trail.push(path))
    } else {
        own
    }
}

/// The rows of subdirectories that `trail` leads down to, and of all that is shown below them.
pub open spec fn forest_below(
    t: TreeView,
    kids: Seq<(Seq<char>, Seq<char>)>,
    depth: nat,
    trail: Seq<Seq<char>>,
) -> Seq<NodeView>
    decreases u32::MAX - depth, kids.len(),
{
    if kids.len() == 0 {
        Seq::empty()
    } else {
        forest_below(t, kids.drop_last(), depth, trail) + rows_below(
            t,
            kids.last().1,
            depth,
            trail,
        )
    }
}

/// The rows of a directory and of all that is shown below it.
pub open spec fn tree_nodes(t: TreeView, path: Seq<char>, depth: nat) -> Seq<NodeView> {
    rows_below(t, path, depth, Seq::empty())
}

/// The rows of the whole tree.
pub open spec fn all_nodes(t: TreeView) -> Seq<NodeView> {
    tree_nodes(t, "/"@, 0)
}

/// Appends the rows of a directory and of all that is shown below it, each directory before its
/// subdirectories.
pub fn build_tree_nodes(
    path: &str,
    depth: u32,
    tree: &TreeState,
    nodes: &mut Vec<RemoteTreeNode>,
)
    requires
        tree.wf(),
    ensures
        events::nodes_view(final(nodes)@) == events::nodes_view(old(nodes)@) + tree_nodes(
            tree@,
            path@,
            depth as nat,
        ),
{
    let mut trail: Vec<String> = Vec::new();
    assert(text::texts(trail@) =~= Seq::<Seq<char>>::empty());
    add_rows(path, depth, tree, &mut trail, nodes);
}

fn add_rows(
    path: &str,
    depth: u32,
    tree: &TreeState,
    trail: &mut Vec<String>,
    nodes: &mut Vec<RemoteTreeNode>,
)
    requires
        tree.wf(),
    ensures
        final(trail)@ == old(trail)@,
        events::nodes_view(final(nodes)@) == events::nodes_view(old(nodes)@) + rows_below(
            tree@,
            path@,
            depth as nat,
            text::texts(old(trail)@),
        ),
    decreases u32::MAX - depth,
{
    let name = if text::same_text(path, "/") {
        "/".to_string()
    } else {
        let parts = text::split(path, CharSet::Only('/'));
        let n: usize = parts.len();
        assert(text::texts(parts@)[n - 1] == parts@[n - 1]@);
        parts[n - 1].clone()
    };
    let kids = tree.dirs.get(path);
    let has_children = match kids {
        Some(v) => v.len() > 0,
        None => false,
    };
    let is_expanded = tree.is_expanded(path);
    let node = RemoteTreeNode {
        path: path.to_string(),
        name,
        depth,
        expanded: is_expanded,
        has_children,
    };
    let ghost start = events::nodes_view(nodes@);
    let ghost own = node@;
    let ghost above = text::texts(trail@);
    proof {
        broadcast use events::lemma_nodes_push;

        if kids is Some {
            assert(kids_view(kids->0@).len() == kids->0@.len());
        }
        assert(own == node_of(tree@, path@, depth as nat));
    }
    nodes.push(node);
    assert(events::nodes_view(nodes@) == start + seq![own]) by {
        broadcast use events::lemma_nodes_push;

    }
    if !is_expanded || depth == u32::MAX || text::list_has(trail, path) {
        return;
    }
    if let Some(v) = kids {
        let ghost all = kids_view(v@);
        let ghost base = start + seq![own];
        let ghost way = above.push(path@);
        trail.push(path.to_string());
        assert(text::texts(trail@) =~= way);
        let ghost here = trail@;
        let mut i: usize = 0;
        assert(base + forest_below(tree@, all.take(0), (depth + 1) as nat, way) =~= base);
        while i < v.len()
            invariant
                i <= v@.len(),
                tree.wf(),
                depth < u32::MAX,
                all == kids_view(v@),
                trail@ == here,
                text::texts(here) == way,
                events::nodes_view(nodes@) == base + forest_below(
                    tree@,
                    all.take(i as int),
                    (depth + 1) as nat,
                    way,
                ),
            decreases v@.len() - i,
        {
            assert(all[i as int] == (v@[i as int].0@, v@[i as int].1@));
            assert(all.take(i + 1).drop_last() == all.take(i as int));
            add_rows(v[i].1.as_str(), depth + 1, tree, trail, nodes);
            i = i + 1;
            assert(events::nodes_view(nodes@) =~= base + forest_below(
                tree@,
                all.take(i as int),
                (depth + 1) as nat,
                way,
            ));
        }
        assert(all.take(all.len() as int) == all);
        trail.pop();
        assert(trail@ =~= old(trail)@);
        assert(events::nodes_view(nodes@) =~= start + rows_below(
            tree@,
            path@,
            depth as nat,
            above,
        ));
    }
}

impl TreeState {
    /// The listings are sound.
    pub open spec fn wf(&self) -> bool {
        self.dirs.wf()
    }

    /// A tree of which nothing is known.
    pub fn new() -> (out: TreeState)
        ensures
            out.wf(),
            out@.dirs == Map::<Seq<char>, Seq<(Seq<char>, Seq<char>)>>::empty(),
            out@.expanded == Seq::<Seq<char>>::empty(),
    {
        let out = TreeState { dirs: DirCache::new(), expanded: Vec::new() };
        assert(out@.expanded =~= Seq::<Seq<char>>::empty());
        out
    }

    /// Whether a directory is expanded.
    pub fn is_expanded(&self, dir: &str) -> (r: bool)
        ensures
            r == self@.expanded.contains(dir@),
    {
        let ghost all = self@.expanded;
        let mut i: usize = 0;
        while i < self.expanded.len()
            invariant
                i <= self.expanded@.len(),
                all == text::texts(self.expanded@),
                forall|k: int| 0 <= k < i ==> #[trigger] all[k] != dir@,
            decreases self.expanded@.len() - i,
        {
            assert(all[i as int] == self.expanded@[i as int]@);
            if text::same_text(self.expanded[i].as_str(), dir) {
                assert(all.contains(dir@));
                return true;
            }
            i = i + 1;
        }
        false
    }

    /// Expands a directory.
    pub fn expand(&mut self, dir: &str)
        requires
            old(self).wf(),
        ensures
            final(self).wf(),
            final(self)@ == old(self)@.expand(dir@),
    {
        if !self.is_expanded(dir) {
            let ghost before = self@;
            self.expanded.push(dir.to_string());
            assert(self@.expanded =~= before.expanded.push(dir@));
        }
    }

    /// Keeps the listing of a directory.
    pub fn cache(&mut self, dir: &str, kids: Vec<Kid>)
        requires
            old(self).wf(),
        ensures
            final(self).wf(),
            final(self)@ == old(self)@.cache(dir@, kids_view(kids@)),
    {
        self.dirs.insert(dir, kids);
    }

    /// Keeps the listing of a directory, where there is one.
    pub fn keep(&mut self, dir: &str, kids: Option<Vec<Kid>>)
        requires
            old(self).wf(),
        ensures
            final(self).wf(),
            final(self)@ == old(self)@.keep(
                dir@,
                match kids {
                    Some(k) => Some(kids_view(k@)),
                    None => None,
                },
            ),
    {
        if let Some(k) = kids {
            self.cache(dir, k);
        }
    }

    fn drop_expanded(&mut self, dir: &str)
        requires
            old(self).wf(),
        ensures
            final(self).wf(),
            final(self)@ == old(self)@.collapse(dir@),
    {
        let ghost before = self@;
        let ghost all = self@.expanded;
        let ghost keep = |p: Seq<char>| !within(p, dir@);
        let mut kept: Vec<String> = Vec::new();
        let mut i: usize = 0;
        proof {
            reveal(Seq::filter);
        }
        assert(text::texts(kept@) =~= all.take(0).filter(keep));
        while i < self.expanded.len()
            invariant
                i <= self.expanded@.len(),
                all == text::texts(self.expanded@),
                keep == (|p: Seq<char>| !within(p, dir@)),
                text::texts(kept@) == all.take(i as int).filter(keep),
            decreases self.expanded@.len() - i,
        {
            assert(all[i as int] == self.expanded@[i as int]@);
            let ghost so_far = text::texts(kept@);
            if !is_within(self.expanded[i].as_str(), dir) {
                kept.push(self.expanded[i].clone());
                assert(text::texts(kept@) == so_far.push(all[i as int]));
            }
            i = i + 1;
            proof {
                reveal(Seq::filter);
                assert(all.take(i as int).drop_last() == all.take(i - 1));
                assert(all.take(i as int).last() == all[i - 1]);
            }
        }
        assert(all.take(all.len() as int) == all);
        self.expanded = kept;
        assert(self@ == before.collapse(dir@));
    }

    /// Collapses a directory and all below it.
    pub fn collapse(&mut self, dir: &str)
        requires
            old(self).wf(),
        ensures
            final(self).wf(),
            final(self)@ == old(self)@.collapse(dir@),
    {
        self.drop_expanded(dir);
    }

    /// Forgets a directory and all below it.
    pub fn forget(&mut self, dir: &str)
        requires
            old(self).wf(),
        ensures
            final(self).wf(),
            final(self)@ == old(self)@.forget(dir@),
    {
        self.dirs.forget(dir);
        self.drop_expanded(dir);
    }

    /// Collapses every directory.
    pub fn collapse_all(&mut self)
        requires
            old(self).wf(),
        ensures
            final(self).wf(),
            final(self)@ == (TreeView { dirs: old(self)@.dirs, expanded: Seq::empty() }),
    {
        self.expanded = Vec::new();
        assert(self@.expanded =~= Seq::<Seq<char>>::empty());
    }

    /// Whether a listed directory has the given subdirectory.
    pub fn lists(&self, dir: &str, child: &str) -> (r: bool)
        requires
            self.wf(),
        ensures
            r == self@.lists(dir@, child@),
    {
        match self.dirs.get(dir) {
            None => false,
            Some(v) => {
                let ghost all = kids_view(v@);
                let mut i: usize = 0;
                while i < v.len()
                    invariant
                        i <= v@.len(),
                        all == kids_view(v@),
                        self@.dirs.contains_key(dir@),
                        all == self@.dirs[dir@],
                        forall|k: int| 0 <= k < i ==> (#[trigger] all[k]).1 != child@,
                    decreases v@.len() - i,
                {
                    assert(all[i as int] == (v@[i as int].0@, v@[i as int].1@));
                    if text::same_text(v[i].1.as_str(), child) {
                        return true;
                    }
                    i = i + 1;
                }
                false
            },
        }
    }

    /// The rows of the whole tree.
    pub fn nodes(&self) -> (out: Vec<RemoteTreeNode>)
        requires
            self.wf(),
        ensures
            events::nodes_view(out@) == all_nodes(self@),
    {
        let mut out: Vec<RemoteTreeNode> = Vec::new();
        build_tree_nodes("/", 0, self, &mut out);
        assert(events::nodes_view(out@) =~= all_nodes(self@));
        out
    }
}

// ---------------------------------------------------------------------------
// Laws
// ---------------------------------------------------------------------------

/// A way down the tree: each directory on it is expanded and lists the next.
pub open spec fn is_way(t: TreeView, way: Seq<Seq<char>>) -> bool
    decreases way.len(),
{
    way.len() > 0 && (way.len() > 1 ==> t.opens(way[0]) && t.lists(way[0], way[1]) && is_way(
        t,
        way.drop_first(),
    ))
}

/// Whether no way down from a directory comes back to a directory that it has passed.
pub open spec fn never_returns(t: TreeView, path: Seq<char>) -> bool {
    forall|way: Seq<Seq<char>>| #[trigger]
        is_way(t, way) && way[0] == path ==> way.no_duplicates()
}

/// Whether the depth of every row below a directory, itself at `depth`, can be counted.
pub open spec fn countable(t: TreeView, path: Seq<char>, depth: nat) -> bool {
    forall|way: Seq<Seq<char>>| #[trigger]
        is_way(t, way) && way[0] == path ==> depth + way.len() - 1 <= u32::MAX
}

/// The rows of one directory after another, each with all that is shown below it.
pub open spec fn rows_of_each(
    t: TreeView,
    kids: Seq<(Seq<char>, Seq<char>)>,
    depth: nat,
) -> Seq<NodeView>
    decreases kids.len(),
{
    if kids.len() == 0 {
        Seq::empty()
    } else {
        rows_of_each(t, kids.drop_last(), depth) + tree_nodes(t, kids.last().1, depth)
    }
}

/// Where no way down comes back to where it was, the rows of a directory are its own and, if it
/// is expanded and listed, those of each of its subdirectories in turn, one step deeper, as if
/// each was asked for by itself. Nothing else is shown, and nothing is left out.
pub proof fn law_rows_in_preorder(t: TreeView, path: Seq<char>, depth: nat)
    requires
        never_returns(t, path),
        countable(t, path, depth),
    ensures
        tree_nodes(t, path, depth) == seq![node_of(t, path, depth)] + if t.opens(path) {
            rows_of_each(t, t.dirs[path], depth + 1)
        } else {
            Seq::empty()
        },
{
    assert(is_way(t, seq![path]));
    if t.opens(path) {
        let kids = t.dirs[path];
        let trail = Seq::<Seq<char>>::empty().push(path);
        if kids.len() > 0 {
            let child = kids[0].1;
            assert(t.lists(path, child));
            assert(is_way(t, seq![child]));
            lemma_longer_way(t, path, seq![child]);
        }
        assert forall|k: int| 0 <= k < kids.len() implies never_returns(t, (#[trigger] kids[k]).1)
            && avoids(t, kids[k].1, trail) by {
            lemma_step_down(t, path, kids[k].1, Seq::empty());
        }
        lemma_trail_is_idle_below(t, kids, depth + 1, trail);
    }
}

/// Whether no way down from a directory meets a trail.
spec fn avoids(t: TreeView, path: Seq<char>, trail: Seq<Seq<char>>) -> bool {
    forall|way: Seq<Seq<char>>, i: int|
        #![trigger is_way(t, way), way[i]]
        is_way(t, way) && way[0] == path && 0 <= i < way.len() ==> !trail.contains(way[i])
}

proof fn lemma_longer_way(t: TreeView, path: Seq<char>, way: Seq<Seq<char>>)
    requires
        is_way(t, way),
        t.opens(path),
        t.lists(path, way[0]),
    ensures
        is_way(t, seq![path] + way),
{
    assert((seq![path] + way).drop_first() =~= way);
}

proof fn lemma_step_down(t: TreeView, path: Seq<char>, child: Seq<char>, trail: Seq<Seq<char>>)
    requires
        never_returns(t, path),
        avoids(t, path, trail),
        t.opens(path),
        t.lists(path, child),
    ensures
        never_returns(t, child),
        avoids(t, child, trail.push(path)),
{
    assert forall|way: Seq<Seq<char>>| #[trigger]
        is_way(t, way) && way[0] == child implies way.no_duplicates() by {
        let longer = seq![path] + way;
        lemma_longer_way(t, path, way);
        assert forall|i: int, j: int|
            0 <= i < way.len() && 0 <= j < way.len() && i != j implies way[i] != way[j] by {
            assert(longer[i + 1] == way[i] && longer[j + 1] == way[j]);
        }
    }
    assert forall|way: Seq<Seq<char>>, i: int|
        #![trigger is_way(t, way), way[i]]
        is_way(t, way) && way[0] == child && 0 <= i < way.len() implies !trail.push(path).contains(
        way[i],
    ) by {
        let longer = seq![path] + way;
        lemma_longer_way(t, path, way);
        assert(longer[0] == path && longer[i + 1] == way[i]);
        assert(!trail.contains(longer[i + 1]));
    }
}

proof fn lemma_trail_is_idle(t: TreeView, path: Seq<char>, depth: nat, trail: Seq<Seq<char>>)
    requires
        never_returns(t, path),
        avoids(t, path, trail),
    ensures
        rows_below(t, path, depth, trail) == tree_nodes(t, path, depth),
    decreases u32::MAX - depth, 0nat,
{
    assert(is_way(t, seq![path]));
    assert(seq![path][0] == path);
    if t.opens(path) && depth < u32::MAX {
        let kids = t.dirs[path];
        let alone = Seq::<Seq<char>>::empty().push(path);
        assert forall|k: int| 0 <= k < kids.len() implies never_returns(t, (#[trigger] kids[k]).1)
            && avoids(t, kids[k].1, trail.push(path)) && avoids(t, kids[k].1, alone) by {
            assert(t.lists(path, kids[k].1));
            lemma_step_down(t, path, kids[k].1, trail);
            lemma_step_down(t, path, kids[k].1, Seq::empty());
        }
        lemma_trail_is_idle_below(t, kids, depth + 1, trail.push(path));
        lemma_trail_is_idle_below(t, kids, depth + 1, alone);
    }
}

proof fn lemma_trail_is_idle_below(
    t: TreeView,
    kids: Seq<(Seq<char>, Seq<char>)>,
    depth: nat,
    trail: Seq<Seq<char>>,
)
    requires
        forall|k: int|
            0 <= k < kids.len() ==> never_returns(t, (#[trigger] kids[k]).1) && avoids(
                t,
                kids[k].1,
                trail,
            ),
    ensures
        forest_below(t, kids, depth, trail) == rows_of_each(t, kids, depth),
    decreases u32::MAX - depth, kids.len(),
{
    if kids.len() > 0 {
        let front = kids.drop_last();
        assert forall|k: int| 0 <= k < front.len() implies never_returns(
            t,
            (#[trigger] front[k]).1,
        ) && avoids(t, front[k].1, trail) by {
            assert(front[k] == kids[k]);
        }
        lemma_trail_is_idle_below(t, front, depth, trail);
        assert(kids[kids.len() - 1] == kids.last());
        lemma_trail_is_idle(t, kids.last().1, depth, trail);
    }
}

/// Whether a path is shown because an expanded directory lists it.
pub open spec fn shown_below(t: TreeView, path: Seq<char>) -> bool {
    exists|dir: Seq<char>| t.expanded.contains(dir) && #[trigger] t.lists(dir, path)
}

/// Every row but that of the root belongs to a directory that an expanded directory lists: what
/// no listing names any more drops out of the tree, whatever is cached about it.
pub proof fn law_rows_are_listed(t: TreeView, i: int)
    requires
        0 <= i < all_nodes(t).len(),
    ensures
        all_nodes(t)[i].path == "/"@ || shown_below(t, all_nodes(t)[i].path),
        all_nodes(t)[i] == node_of(t, all_nodes(t)[i].path, all_nodes(t)[i].depth),
        all_nodes(t)[0].path == "/"@,
{
    lemma_tree_rows(t, "/"@, 0, Seq::empty());
}

proof fn lemma_tree_rows(t: TreeView, path: Seq<char>, depth: nat, trail: Seq<Seq<char>>)
    ensures
        rows_below(t, path, depth, trail).len() > 0,
        rows_below(t, path, depth, trail)[0] == node_of(t, path, depth),
        forall|i: int|
            #![trigger rows_below(t, path, depth, trail)[i]]
            0 <= i < rows_below(t, path, depth, trail).len() ==> {
                let n = rows_below(t, path, depth, trail)[i];
                (n.path == path || shown_below(t, n.path)) && n == node_of(t, n.path, n.depth)
            },
    decreases u32::MAX - depth, 0nat,
{
    if t.opens(path) && !trail.contains(path) && depth < u32::MAX {
        let kids = t.dirs[path];
        lemma_forest_rows(t, kids, depth + 1, trail.push(path));
        let rows = rows_below(t, path, depth, trail);
        let below = forest_below(t, kids, depth + 1, trail.push(path));
        assert forall|i: int|
            #![trigger rows[i]]
            0 <= i < rows.len() implies {
            let n = rows[i];
            (n.path == path || shown_below(t, n.path)) && n == node_of(t, n.path, n.depth)
        } by {
            if i > 0 {
                let n = below[i - 1];
                assert(rows[i] == n);
                if !shown_below(t, n.path) {
                    let k = choose|k: int| 0 <= k < kids.len() && (#[trigger] kids[k]).1 == n.path;
                    assert(t.dirs[path][k].1 == n.path);
                    assert(t.lists(path, n.path));
                }
            }
        }
    }
}

proof fn lemma_forest_rows(
    t: TreeView,
    kids: Seq<(Seq<char>, Seq<char>)>,
    depth: nat,
    trail: Seq<Seq<char>>,
)
    ensures
        forall|i: int|
            #![trigger forest_below(t, kids, depth, trail)[i]]
            0 <= i < forest_below(t, kids, depth, trail).len() ==> {
                let n = forest_below(t, kids, depth, trail)[i];
                ((exists|k: int| 0 <= k < kids.len() && (#[trigger] kids[k]).1 == n.path)
                    || shown_below(t, n.path)) && n == node_of(t, n.path, n.depth)
            },
    decreases u32::MAX - depth, kids.len(),
{
    if kids.len() > 0 {
        let front = kids.drop_last();
        let child = kids.last().1;
        lemma_forest_rows(t, front, depth, trail);
        let before = forest_below(t, front, depth, trail);
        let all = forest_below(t, kids, depth, trail);
        lemma_tree_rows(t, child, depth, trail);
        assert forall|i: int|
            #![trigger all[i]]
            0 <= i < all.len() implies {
            let n = all[i];
            ((exists|k: int| 0 <= k < kids.len() && (#[trigger] kids[k]).1 == n.path)
                || shown_below(t, n.path)) && n == node_of(t, n.path, n.depth)
        } by {
            let n = all[i];
            if i < before.len() {
                assert(all[i] == before[i]);
                if !shown_below(t, n.path) {
                    let k = choose|k: int| 0 <= k < front.len() && (#[trigger] front[k]).1 == n.path;
                    assert(kids[k].1 == n.path);
                }
            } else {
                let sub = rows_below(t, child, depth, trail);
                assert(all[i] == sub[i - before.len()]);
                assert(kids[kids.len() - 1].1 == child);
            }
        }
    }
}

/// Whether a path has one of the rows.
pub open spec fn has_row(rows: Seq<NodeView>, path: Seq<char>) -> bool {
    exists|i: int| 0 <= i < rows.len() && (#[trigger] rows[i]).path == path
}

/// Whether a path has a row in the tree.
pub open spec fn visible(t: TreeView, path: Seq<char>) -> bool {
    has_row(all_nodes(t), path)
}

/// Whether there are no more listings than the depth can count.
pub open spec fn few_listings(t: TreeView) -> bool {
    t.dirs.dom().finite() && t.dirs.dom().len() <= u32::MAX
}

/// The root is always shown, and what an expanded directory with a row lists is shown too.
pub proof fn law_listed_are_shown(t: TreeView, dir: Seq<char>, k: int)
    requires
        few_listings(t),
        visible(t, dir),
        t.opens(dir),
        0 <= k < t.dirs[dir].len(),
    ensures
        visible(t, "/"@),
        visible(t, t.dirs[dir][k].1),
{
    lemma_tree_rows(t, "/"@, 0, Seq::empty());
    lemma_kid_row(t, "/"@, 0, Seq::empty(), dir, k);
}

/// Expanding a directory takes no row away.
pub proof fn law_expanding_keeps_rows(t: TreeView, dir: Seq<char>, path: Seq<char>)
    requires
        visible(t, path),
    ensures
        visible(t.expand(dir), path),
{
    lemma_row_kept(t, dir, "/"@, 0, Seq::empty(), path);
}

/// Whether a trail leads over listed directories, none of them twice.
spec fn sound_trail(t: TreeView, trail: Seq<Seq<char>>) -> bool {
    trail.no_duplicates() && forall|i: int|
        0 <= i < trail.len() ==> t.dirs.contains_key(#[trigger] trail[i])
}

/// A trail goes on soundly over a listed directory that it has not passed, and is no longer than
/// there are listings.
proof fn lemma_longer_trail(t: TreeView, trail: Seq<Seq<char>>, path: Seq<char>)
    requires
        few_listings(t),
        sound_trail(t, trail),
        t.dirs.contains_key(path),
        !trail.contains(path),
    ensures
        sound_trail(t, trail.push(path)),
        trail.len() < u32::MAX,
{
    let longer = trail.push(path);
    assert forall|i: int, j: int|
        0 <= i < longer.len() && 0 <= j < longer.len() && i != j implies longer[i]
        != longer[j] by {
        if i < trail.len() && j < trail.len() {
            assert(trail[i] != trail[j]);
        } else if i < trail.len() {
            assert(trail.contains(trail[i]));
        } else {
            assert(trail.contains(trail[j]));
        }
    }
    longer.unique_seq_to_set();
    assert(longer.to_set().subset_of(t.dirs.dom())) by {
        assert forall|p: Seq<char>| #[trigger]
            longer.to_set().contains(p) implies t.dirs.dom().contains(p) by {
            let i = choose|i: int| 0 <= i < longer.len() && longer[i] == p;
            if i < trail.len() {
                assert(t.dirs.contains_key(trail[i]));
            }
        }
    }
    vstd::set_lib::lemma_len_subset(longer.to_set(), t.dirs.dom());
}

proof fn lemma_kid_row(
    t: TreeView,
    path: Seq<char>,
    depth: nat,
    trail: Seq<Seq<char>>,
    dir: Seq<char>,
    k: int,
)
    requires
        few_listings(t),
        sound_trail(t, trail),
        depth == trail.len(),
        has_row(rows_below(t, path, depth, trail), dir),
        !trail.contains(dir),
        t.opens(dir),
        0 <= k < t.dirs[dir].len(),
    ensures
        has_row(rows_below(t, path, depth, trail), t.dirs[dir][k].1),
    decreases u32::MAX - depth, 0nat,
{
    let rows = rows_below(t, path, depth, trail);
    let kid = t.dirs[dir][k].1;
    let i = choose|i: int| 0 <= i < rows.len() && (#[trigger] rows[i]).path == dir;
    let kids = t.dirs[path];
    let longer = trail.push(path);
    let below = forest_below(t, kids, depth + 1, longer);
    assert(rows[0] == node_of(t, path, depth));
    if path == dir {
        lemma_longer_trail(t, trail, dir);
        lemma_forest_head(t, kids, depth + 1, longer, k);
    } else {
        assert(i > 0);
        assert(rows[i] == below[i - 1]);
        lemma_longer_trail(t, trail, path);
        assert(!longer.contains(dir));
        lemma_kid_row_below(t, kids, depth + 1, longer, dir, k);
    }
    let m = choose|m: int| 0 <= m < below.len() && (#[trigger] below[m]).path == kid;
    assert(rows[m + 1] == below[m]);
}

proof fn lemma_forest_head(
    t: TreeView,
    kids: Seq<(Seq<char>, Seq<char>)>,
    depth: nat,
    trail: Seq<Seq<char>>,
    k: int,
)
    requires
        0 <= k < kids.len(),
    ensures
        has_row(forest_below(t, kids, depth, trail), kids[k].1),
    decreases kids.len(),
{
    let front = kids.drop_last();
    let before = forest_below(t, front, depth, trail);
    let all = forest_below(t, kids, depth, trail);
    if k == kids.len() - 1 {
        let sub = rows_below(t, kids[k].1, depth, trail);
        assert(sub[0] == node_of(t, kids[k].1, depth));
        assert(all[before.len() as int] == sub[0]);
    } else {
        assert(front[k] == kids[k]);
        lemma_forest_head(t, front, depth, trail, k);
        let m = choose|m: int| 0 <= m < before.len() && (#[trigger] before[m]).path == kids[k].1;
        assert(all[m] == before[m]);
    }
}

proof fn lemma_kid_row_below(
    t: TreeView,
    kids: Seq<(Seq<char>, Seq<char>)>,
    depth: nat,
    trail: Seq<Seq<char>>,
    dir: Seq<char>,
    k: int,
)
    requires
        few_listings(t),
        sound_trail(t, trail),
        depth == trail.len(),
        has_row(forest_below(t, kids, depth, trail), dir),
        !trail.contains(dir),
        t.opens(dir),
        0 <= k < t.dirs[dir].len(),
    ensures
        has_row(forest_below(t, kids, depth, trail), t.dirs[dir][k].1),
    decreases u32::MAX - depth, kids.len(),
{
    let all = forest_below(t, kids, depth, trail);
    let kid = t.dirs[dir][k].1;
    let i = choose|i: int| 0 <= i < all.len() && (#[trigger] all[i]).path == dir;
    let front = kids.drop_last();
    let child = kids.last().1;
    let before = forest_below(t, front, depth, trail);
    if i < before.len() {
        assert(before[i] == all[i]);
        lemma_kid_row_below(t, front, depth, trail, dir, k);
        let m = choose|m: int| 0 <= m < before.len() && (#[trigger] before[m]).path == kid;
        assert(all[m] == before[m]);
    } else {
        let sub = rows_below(t, child, depth, trail);
        assert(sub[i - before.len()] == all[i]);
        lemma_kid_row(t, child, depth, trail, dir, k);
        let m = choose|m: int| 0 <= m < sub.len() && (#[trigger] sub[m]).path == kid;
        assert(all[before.len() + m] == sub[m]);
    }
}

proof fn lemma_row_kept(
    t: TreeView,
    dir: Seq<char>,
    path: Seq<char>,
    depth: nat,
    trail: Seq<Seq<char>>,
    p: Seq<char>,
)
    requires
        has_row(rows_below(t, path, depth, trail), p),
    ensures
        has_row(rows_below(t.expand(dir), path, depth, trail), p),
    decreases u32::MAX - depth, 0nat,
{
    let e = t.expand(dir);
    let rows = rows_below(t, path, depth, trail);
    let now = rows_below(e, path, depth, trail);
    assert(now[0] == node_of(e, path, depth));
    if p != path {
        let i = choose|i: int| 0 <= i < rows.len() && (#[trigger] rows[i]).path == p;
        assert(rows[0] == node_of(t, path, depth));
        let kids = t.dirs[path];
        let longer = trail.push(path);
        let below = forest_below(t, kids, depth + 1, longer);
        assert(rows[i] == below[i - 1]);
        lemma_row_kept_below(t, dir, kids, depth + 1, longer, p);
        let k = choose|k: int| 0 <= k < t.expanded.len() && t.expanded[k] == path;
        assert(e.expanded[k] == path);
        let after = forest_below(e, kids, depth + 1, longer);
        let m = choose|m: int| 0 <= m < after.len() && (#[trigger] after[m]).path == p;
        assert(now[m + 1] == after[m]);
    }
}

proof fn lemma_row_kept_below(
    t: TreeView,
    dir: Seq<char>,
    kids: Seq<(Seq<char>, Seq<char>)>,
    depth: nat,
    trail: Seq<Seq<char>>,
    p: Seq<char>,
)
    requires
        has_row(forest_below(t, kids, depth, trail), p),
    ensures
        has_row(forest_below(t.expand(dir), kids, depth, trail), p),
    decreases u32::MAX - depth, kids.len(),
{
    let e = t.expand(dir);
    let all = forest_below(t, kids, depth, trail);
    let now = forest_below(e, kids, depth, trail);
    let i = choose|i: int| 0 <= i < all.len() && (#[trigger] all[i]).path == p;
    let front = kids.drop_last();
    let child = kids.last().1;
    let before = forest_below(t, front, depth, trail);
    let after = forest_below(e, front, depth, trail);
    if i < before.len() {
        assert(before[i] == all[i]);
        lemma_row_kept_below(t, dir, front, depth, trail, p);
        let m = choose|m: int| 0 <= m < after.len() && (#[trigger] after[m]).path == p;
        assert(now[m] == after[m]);
    } else {
        let sub = rows_below(t, child, depth, trail);
        assert(sub[i - before.len()] == all[i]);
        lemma_row_kept(t, dir, child, depth, trail, p);
        let grown = rows_below(e, child, depth, trail);
        let m = choose|m: int| 0 <= m < grown.len() && (#[trigger] grown[m]).path == p;
        assert(now[after.len() + m] == grown[m]);
    }
}

/// A row tells of its directory what the tree knows: its path, the last component of that as its
/// name, whether it is expanded, and whether a listing of it names subdirectories.
pub proof fn law_row_tells_of_its_directory(
    t: TreeView,
    dir: Seq<char>,
    name: Seq<char>,
    depth: nat,
)
    requires
        !name.contains('/'),
    ensures
        ({
            let path = dir + seq!['/'] + name;
            let row = node_of(t, path, depth);
            &&& row.path == path
            &&& path != "/"@ ==> row.name == name
            &&& row.depth == depth
            &&& row.expanded <==> t.expanded.contains(path)
            &&& row.has_children <==> t.dirs.contains_key(path) && t.dirs[path].len() > 0
            &&& node_of(t, "/"@, depth).name == "/"@
        }),
{
    let set = CharSet::Only('/');
    assert forall|i: int| 0 <= i < name.len() implies !set.contains(#[trigger] name[i]) by {
        assert(name.contains(name[i]));
    }
    text::lemma_whole_piece(name, set);
    text::lemma_pieces_cut(dir, '/', name, set);
}

} // verus!
