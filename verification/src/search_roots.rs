//! The directories that a search starts from.
use crate::path_laws;
use crate::remote_path;
use crate::text;
use crate::text::CharSet;
use vstd::prelude::*;

verus! {

/// Whether a path is a directory or lies below it.
pub open spec fn same_or_child(path: Seq<char>, parent: Seq<char>) -> bool {
    let p = remote_path::remote_dir(path);
    let q = remote_path::remote_dir(parent);
    q == "/"@ || p == q || text::begins(p, q + "/"@)
}

/// Whether a path is a directory or lies below it.
pub fn remote_path_same_or_child(path: &str, parent: &str) -> (r: bool)
    ensures
        r == same_or_child(path@, parent@),
{
    let p = remote_path::normalise_remote_dir(path);
    let q = remote_path::normalise_remote_dir(parent);
    let below = text::join2(q.as_str(), "/");
    text::same_text(q.as_str(), "/") || text::same_text(p.as_str(), q.as_str())
        || text::starts_with(p.as_str(), below.as_str())
}

/// Whether one of the roots is the path or lies above it.
pub open spec fn covered(path: Seq<char>, roots: Seq<Seq<char>>) -> bool {
    exists|i: int| 0 <= i < roots.len() && same_or_child(path, #[trigger] roots[i])
}

/// The roots, in order, without those that are `path` or lie below it.
pub open spec fn outside(roots: Seq<Seq<char>>, path: Seq<char>) -> Seq<Seq<char>> {
    roots.filter(|r: Seq<char>| !same_or_child(r, path))
}

/// The roots after one more part of the list: a part that they cover adds nothing, another one
/// takes the place of those below it.
pub open spec fn with_root(roots: Seq<Seq<char>>, part: Seq<char>) -> Seq<Seq<char>> {
    let p = remote_path::remote_dir(part);
    if p == ".."@ || covered(p, roots) {
        roots
    } else {
        outside(roots, p).push(p)
    }
}

/// The roots after all the given parts.
pub open spec fn roots_of(parts: Seq<Seq<char>>) -> Seq<Seq<char>>
    decreases parts.len(),
{
    if parts.len() == 0 {
        Seq::empty()
    } else {
        with_root(roots_of(parts.drop_last()), parts.last())
    }
}

/// The directories that a list with semicolons names; the root if it names none.
pub open spec fn search_roots(list: Seq<char>) -> Seq<Seq<char>> {
    let roots = roots_of(text::pieces(list, CharSet::Only(';')));
    if roots.len() == 0 {
        seq!["/"@]
    } else {
        roots
    }
}

fn is_covered(path: &str, roots: &Vec<String>) -> (r: bool)
    ensures
        r == covered(path@, text::texts(roots@)),
{
    let ghost all = text::texts(roots@);
    let mut i: usize = 0;
    while i < roots.len()
        invariant
            i <= roots@.len(),
            all == text::texts(roots@),
            forall|k: int| 0 <= k < i ==> !same_or_child(path@, #[trigger] all[k]),
        decreases roots@.len() - i,
    {
        assert(all[i as int] == roots@[i as int]@);
        if remote_path_same_or_child(path, roots[i].as_str()) {
            return true;
        }
        i = i + 1;
    }
    false
}

fn keep_outside(roots: &Vec<String>, path: &str) -> (out: Vec<String>)
    ensures
        text::texts(out@) == outside(text::texts(roots@), path@),
{
    let ghost all = text::texts(roots@);
    let ghost keep = |r: Seq<char>| !same_or_child(r, path@);
    let mut out: Vec<String> = Vec::new();
    let mut i: usize = 0;
    proof {
        reveal(Seq::filter);
    }
    assert(all.take(0) == Seq::<Seq<char>>::empty());
    while i < roots.len()
        invariant
            i <= roots@.len(),
            all == text::texts(roots@),
            keep == (|r: Seq<char>| !same_or_child(r, path@)),
            text::texts(out@) == all.take(i as int).filter(keep),
        decreases roots@.len() - i,
    {
        assert(all[i as int] == roots@[i as int]@);
        let ghost before = text::texts(out@);
        let keep_it = !remote_path_same_or_child(roots[i].as_str(), path);
        if keep_it {
            out.push(roots[i].clone());
            assert(text::texts(out@) == before.push(all[i as int]));
        }
        i = i + 1;
        proof {
            reveal(Seq::filter);
            assert(all.take(i as int).drop_last() == all.take(i - 1));
            assert(all.take(i as int).last() == all[i - 1]);
        }
    }
    assert(all.take(all.len() as int) == all);
    out
}

/// The directories that a list with semicolons names, each in its normal form, without those
/// that another one covers.
pub fn split_search_roots(root: &str) -> (out: Vec<String>)
    ensures
        text::texts(out@) == search_roots(root@),
{
    let parts = text::split(root, CharSet::Only(';'));
    let ghost all = text::texts(parts@);
    let mut out: Vec<String> = Vec::new();
    let mut i: usize = 0;
    assert(all.take(0) == Seq::<Seq<char>>::empty());
    assert(text::texts(out@) == roots_of(all.take(0)));
    while i < parts.len()
        invariant
            i <= parts@.len(),
            all == text::texts(parts@),
            text::texts(out@) == roots_of(all.take(i as int)),
        decreases parts@.len() - i,
    {
        assert(all[i as int] == parts@[i as int]@);
        assert(all.take(i + 1).drop_last() == all.take(i as int));
        let p = remote_path::normalise_remote_dir(parts[i].as_str());
        if !text::same_text(p.as_str(), "..") && !is_covered(p.as_str(), &out) {
            let mut kept = keep_outside(&out, p.as_str());
            let ghost before = text::texts(kept@);
            let ghost added = p@;
            kept.push(p);
            assert(text::texts(kept@) == before.push(added));
            out = kept;
        }
        i = i + 1;
    }
    assert(all.take(all.len() as int) == all);
    if out.len() == 0 {
        out.push("/".to_string());
        assert(text::texts(out@) == seq!["/"@]);
    }
    out
}

/// No directory that a search starts from is another one or lies below it.
pub proof fn law_roots_apart(list: Seq<char>)
    ensures
        forall|i: int, j: int|
            0 <= i < search_roots(list).len() && 0 <= j < search_roots(list).len() && i != j
                ==> !same_or_child(#[trigger] search_roots(list)[i], #[trigger] search_roots(list)[j]),
{
    lemma_apart(text::pieces(list, CharSet::Only(';')));
}

spec fn apart(roots: Seq<Seq<char>>) -> bool {
    forall|i: int, j: int|
        0 <= i < roots.len() && 0 <= j < roots.len() && i != j ==> !same_or_child(
            #[trigger] roots[i],
            #[trigger] roots[j],
        )
}

proof fn lemma_filter_apart(roots: Seq<Seq<char>>, keep: spec_fn(Seq<char>) -> bool)
    requires
        apart(roots),
    ensures
        apart(roots.filter(keep)),
    decreases roots.len(),
{
    reveal(Seq::filter);
    if roots.len() > 0 {
        let front = roots.drop_last();
        assert(apart(front)) by {
            assert forall|i: int, j: int|
                0 <= i < front.len() && 0 <= j < front.len() && i != j implies !same_or_child(
                #[trigger] front[i],
                #[trigger] front[j],
            ) by {
                assert(front[i] == roots[i] && front[j] == roots[j]);
            }
        }
        lemma_filter_apart(front, keep);
        let kept = front.filter(keep);
        if keep(roots.last()) {
            assert forall|i: int|
                #![trigger kept[i]]
                0 <= i < kept.len() implies exists|k: int|
                0 <= k < front.len() && front[k] == kept[i] by {
                front.lemma_filter_contains_rev(keep, kept[i]);
            }
            assert forall|i: int, j: int|
                0 <= i < roots.filter(keep).len() && 0 <= j < roots.filter(keep).len() && i
                    != j implies !same_or_child(
                #[trigger] roots.filter(keep)[i],
                #[trigger] roots.filter(keep)[j],
            ) by {
                let n = kept.len() as int;
                if i < n && j < n {
                    assert(!same_or_child(kept[i], kept[j]));
                } else if i < n {
                    let k = choose|k: int| 0 <= k < front.len() && front[k] == kept[i];
                    assert(roots[k] == kept[i] && roots[roots.len() - 1] == roots.last());
                } else {
                    let k = choose|k: int| 0 <= k < front.len() && front[k] == kept[j];
                    assert(roots[k] == kept[j] && roots[roots.len() - 1] == roots.last());
                }
            }
        }
    }
}

proof fn lemma_apart(parts: Seq<Seq<char>>)
    ensures
        apart(roots_of(parts)),
    decreases parts.len(),
{
    if parts.len() > 0 {
        lemma_apart(parts.drop_last());
        let roots = roots_of(parts.drop_last());
        let p = remote_path::remote_dir(parts.last());
        if p != ".."@ && !covered(p, roots) {
            let keep = |r: Seq<char>| !same_or_child(r, p);
            lemma_filter_apart(roots, keep);
            let kept = roots.filter(keep);
            assert forall|i: int|
                0 <= i < kept.len() implies !same_or_child(#[trigger] kept[i], p) && !same_or_child(
                p,
                kept[i],
            ) by {
                roots.lemma_filter_pred(keep, i);
                roots.lemma_filter_contains_rev(keep, kept[i]);
            }
        }
    }
}

proof fn lemma_remote_dir_nonempty(path: Seq<char>)
    ensures
        remote_path::remote_dir(path).len() > 0,
{
    reveal_strlit("/");
    reveal_strlit("..");
}

proof fn lemma_transitive(a: Seq<char>, b: Seq<char>, c: Seq<char>)
    requires
        same_or_child(a, b),
        same_or_child(b, c),
    ensures
        same_or_child(a, c),
{
    let x = remote_path::remote_dir(a);
    let y = remote_path::remote_dir(b);
    let z = remote_path::remote_dir(c);
    lemma_remote_dir_nonempty(a);
    lemma_remote_dir_nonempty(b);
    lemma_remote_dir_nonempty(c);
    reveal_strlit("/");
    let s = "/"@;
    if z != s {
        if y == s {
            if text::begins(y, z + s) {
                assert((z + s).len() >= 2);
            }
            assert(false);
        }
        if x != y && y != z {
            assert(x.take((y + s).len() as int) == y + s);
            assert(y.take((z + s).len() as int) == z + s);
            assert(x.take((z + s).len() as int) =~= z + s) by {
                assert forall|i: int| 0 <= i < (z + s).len() implies x[i] == (z + s)[i] by {
                    assert(x[i] == (y + s)[i]) by {
                        assert(x.take((y + s).len() as int)[i] == x[i]);
                    }
                    assert(y.take((z + s).len() as int)[i] == y[i]);
                }
            }
        }
    }
}

/// Every directory that the list names, but for the parent directory, lies below one that the
/// search starts from, or is one.
pub proof fn law_roots_cover(list: Seq<char>, i: int)
    requires
        0 <= i < text::pieces(list, CharSet::Only(';')).len(),
        remote_path::remote_dir(text::pieces(list, CharSet::Only(';'))[i]) != ".."@,
    ensures
        covered(
            remote_path::remote_dir(text::pieces(list, CharSet::Only(';'))[i]),
            search_roots(list),
        ),
{
    lemma_cover(text::pieces(list, CharSet::Only(';')), i);
}

proof fn lemma_cover(parts: Seq<Seq<char>>, i: int)
    requires
        0 <= i < parts.len(),
        remote_path::remote_dir(parts[i]) != ".."@,
    ensures
        covered(remote_path::remote_dir(parts[i]), roots_of(parts)),
    decreases parts.len(),
{
    let roots = roots_of(parts.drop_last());
    let p = remote_path::remote_dir(parts.last());
    let target = remote_path::remote_dir(parts[i]);
    let keep = |r: Seq<char>| !same_or_child(r, p);
    let adds = p != ".."@ && !covered(p, roots);
    if adds {
        let all = roots_of(parts);
        let last = all.len() - 1;
        assert(all[last] == p);
        if i == parts.len() - 1 {
            assert(same_or_child(p, all[last]));
        } else {
            lemma_cover(parts.drop_last(), i);
            let k = choose|k: int| 0 <= k < roots.len() && same_or_child(target, #[trigger] roots[k]);
            if keep(roots[k]) {
                roots.lemma_filter_contains(keep, k);
                let kept = roots.filter(keep);
                let m = choose|m: int| 0 <= m < kept.len() && kept[m] == roots[k];
                assert(all[m] == kept[m]);
            } else {
                lemma_transitive(target, roots[k], p);
                assert(same_or_child(target, all[last]));
            }
        }
    } else if i < parts.len() - 1 {
        lemma_cover(parts.drop_last(), i);
    }
}

/// A directory covers itself and everything below it, the root covers everything, and nothing
/// else is covered: not even what begins with the same letters. Said of paths in normal form.
pub proof fn law_directories_cover_what_is_below(path: Seq<char>, parent: Seq<char>, rest: Seq<char>)
    requires
        remote_path::remote_dir(path) == path,
        remote_path::remote_dir(parent) == parent,
    ensures
        same_or_child(path, path),
        parent == "/"@ ==> same_or_child(path, parent),
        path == parent + "/"@ + rest ==> same_or_child(path, parent),
        same_or_child(path, parent) && path != parent && parent != "/"@ ==> path.len()
            > parent.len() && path.take(parent.len() as int) == parent && path[parent.len() as int]
            == '/',
{
    reveal_strlit("/");
    let below = parent + "/"@;
    if path == parent + "/"@ + rest {
        assert(path.take(below.len() as int) =~= below);
    }
    if text::begins(path, below) {
        assert(path.take(parent.len() as int) =~= path.take(below.len() as int).take(
            parent.len() as int,
        ));
        assert(below.take(parent.len() as int) =~= parent);
        assert(path[parent.len() as int] == path.take(below.len() as int)[parent.len() as int]);
    }
}

/// No part of the list is forgotten: every directory that it names, but for the parent directory,
/// is one that the search starts from or lies below one.
pub proof fn law_every_part_is_covered(list: Seq<char>, i: int)
    requires
        0 <= i < text::pieces(list, CharSet::Only(';')).len(),
        remote_path::remote_dir(text::pieces(list, CharSet::Only(';'))[i]) != ".."@,
    ensures
        covered(
            remote_path::remote_dir(text::pieces(list, CharSet::Only(';'))[i]),
            search_roots(list),
        ),
{
    lemma_parts_covered(text::pieces(list, CharSet::Only(';')), i);
}

/// Nothing is searched that the list does not name: every directory that the search starts from
/// is a part of the list in its normal form, or the root where the list names none.
pub proof fn law_every_root_is_named(list: Seq<char>, j: int)
    requires
        0 <= j < search_roots(list).len(),
    ensures
        search_roots(list)[j] == "/"@ || exists|i: int|
            0 <= i < text::pieces(list, CharSet::Only(';')).len() && search_roots(list)[j]
                == remote_path::remote_dir(
                #[trigger] text::pieces(list, CharSet::Only(';'))[i],
            ),
{
    let parts = text::pieces(list, CharSet::Only(';'));
    if roots_of(parts).len() > 0 {
        lemma_root_from(parts, j);
    }
}

proof fn lemma_root_from(parts: Seq<Seq<char>>, j: int)
    requires
        0 <= j < roots_of(parts).len(),
    ensures
        exists|i: int|
            0 <= i < parts.len() && roots_of(parts)[j] == remote_path::remote_dir(
                #[trigger] parts[i],
            ),
    decreases parts.len(),
{
    let front = parts.drop_last();
    let before = roots_of(front);
    let p = remote_path::remote_dir(parts.last());
    let all = roots_of(parts);
    if p == ".."@ || covered(p, before) {
        lemma_root_from(front, j);
        let i = choose|i: int|
            0 <= i < front.len() && all[j] == remote_path::remote_dir(#[trigger] front[i]);
        assert(parts[i] == front[i]);
    } else {
        let kept = outside(before, p);
        let keep = |r: Seq<char>| !same_or_child(r, p);
        if j < kept.len() {
            assert(kept.contains(kept[j]));
            before.lemma_filter_contains_rev(keep, kept[j]);
            let k = before.index_of(kept[j]);
            assert(before[k] == kept[j]);
            lemma_root_from(front, k);
            let i = choose|i: int|
                0 <= i < front.len() && before[k] == remote_path::remote_dir(#[trigger] front[i]);
            assert(parts[i] == front[i]);
        } else {
            assert(parts[parts.len() - 1] == parts.last());
        }
    }
}

proof fn lemma_normal_is_not_empty(path: Seq<char>)
    ensures
        remote_path::remote_dir(path).len() > 0,
{
    path_laws::law_normal_forms_are_plain(path);
    reveal_strlit("..");
}

proof fn lemma_cover_is_transitive(a: Seq<char>, b: Seq<char>, c: Seq<char>)
    requires
        same_or_child(a, b),
        same_or_child(b, c),
    ensures
        same_or_child(a, c),
{
    let x = remote_path::remote_dir(a);
    let y = remote_path::remote_dir(b);
    let z = remote_path::remote_dir(c);
    reveal_strlit("/");
    lemma_normal_is_not_empty(c);
    if z != "/"@ && y != z && x != y {
        let below = z + "/"@;
        assert(text::begins(y, below));
        if y == "/"@ {
            assert(below.len() >= 2);
        } else {
            let deeper = y + "/"@;
            assert(text::begins(x, deeper));
            assert(x.take(below.len() as int) =~= x.take(deeper.len() as int).take(
                below.len() as int,
            ));
            assert(deeper.take(below.len() as int) =~= y.take(below.len() as int));
        }
    }
}

proof fn lemma_parts_covered(parts: Seq<Seq<char>>, i: int)
    requires
        0 <= i < parts.len(),
        remote_path::remote_dir(parts[i]) != ".."@,
    ensures
        roots_of(parts).len() > 0,
        covered(remote_path::remote_dir(parts[i]), roots_of(parts)),
    decreases parts.len(),
{
    let front = parts.drop_last();
    let before = roots_of(front);
    let p = remote_path::remote_dir(parts.last());
    let q = remote_path::remote_dir(parts[i]);
    let all = roots_of(parts);
    if i < front.len() {
        assert(front[i] == parts[i]);
        lemma_parts_covered(front, i);
    }
    if !(p == ".."@ || covered(p, before)) {
        let kept = outside(before, p);
        let keep = |r: Seq<char>| !same_or_child(r, p);
        assert(all[kept.len() as int] == p);
        if i < front.len() {
            let k = choose|k: int| 0 <= k < before.len() && same_or_child(q, #[trigger] before[k]);
            if same_or_child(before[k], p) {
                lemma_cover_is_transitive(q, before[k], p);
                assert(same_or_child(q, all[kept.len() as int]));
            } else {
                before.lemma_filter_contains(keep, k);
                let m = kept.index_of(before[k]);
                assert(kept[m] == before[k]);
                assert(all[m] == before[k]);
            }
        } else {
            assert(same_or_child(q, all[kept.len() as int]));
        }
    } else if i == front.len() {
        let k = choose|k: int| 0 <= k < before.len() && same_or_child(p, #[trigger] before[k]);
        assert(all[k] == before[k]);
    }
}

} // verus!
