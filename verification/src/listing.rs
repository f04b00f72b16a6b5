//! Directory listings: what the server sends, and the sorted entries made of it.
use crate::events;
use crate::events::{EntryKind, EntryView, RemoteEntry};
use crate::number;
use crate::order;
use crate::remote_path;
use crate::text;
use crate::text::CharSet;
use crate::tree;
use crate::tree::Kid;
use crate::utf8;
use vstd::prelude::*;

verus! {

// ---------------------------------------------------------------------------
// Order
// ---------------------------------------------------------------------------

/// The order of a listing: directories first, and then by the lower case of the name.
pub open spec fn entry_le(a: EntryView, b: EntryView) -> bool {
    if a.is_dir != b.is_dir {
        a.is_dir
    } else {
        order::text_le(text::unicode_lower(a.name), text::unicode_lower(b.name))
    }
}

/// Sorted entries with one more, which stands behind those that it does not precede.
pub open spec fn with_entry(s: Seq<EntryView>, e: EntryView) -> Seq<EntryView>
    decreases s.len(),
{
    if s.len() == 0 || entry_le(s.last(), e) {
        s.push(e)
    } else {
        with_entry(s.drop_last(), e).push(s.last())
    }
}

/// Entries in the order of a listing; of two with equal keys the first stays first.
pub open spec fn sorted_entries(s: Seq<EntryView>) -> Seq<EntryView>
    decreases s.len(),
{
    if s.len() == 0 {
        s
    } else {
        with_entry(sorted_entries(s.drop_last()), s.last())
    }
}

/// Whether entries stand in the order of a listing.
pub open spec fn in_order(s: Seq<EntryView>) -> bool {
    forall|i: int, j: int| 0 <= i < j < s.len() ==> entry_le(#[trigger] s[i], #[trigger] s[j])
}

proof fn lemma_entry_le_transitive(a: EntryView, b: EntryView, c: EntryView)
    requires
        entry_le(a, b),
        entry_le(b, c),
    ensures
        entry_le(a, c),
{
    if a.is_dir == b.is_dir && b.is_dir == c.is_dir {
        order::lemma_text_le_transitive(
            text::unicode_lower(a.name),
            text::unicode_lower(b.name),
            text::unicode_lower(c.name),
        );
    }
}

proof fn lemma_entry_le_total(a: EntryView, b: EntryView)
    ensures
        entry_le(a, b) || entry_le(b, a),
{
    order::lemma_text_le_total(text::unicode_lower(a.name), text::unicode_lower(b.name));
}

proof fn lemma_with_entry(s: Seq<EntryView>, e: EntryView, k: int)
    requires
        0 <= k <= s.len(),
        forall|i: int| 0 <= i < k ==> entry_le(#[trigger] s[i], e),
        forall|i: int| k <= i < s.len() ==> !entry_le(#[trigger] s[i], e),
    ensures
        with_entry(s, e) == s.insert(k, e),
    decreases s.len(),
{
    if k == s.len() {
        if s.len() > 0 {
            assert(entry_le(s[s.len() - 1], e));
        }
        assert(with_entry(s, e) =~= s.insert(k, e));
    } else {
        assert(!entry_le(s[s.len() - 1], e));
        let front = s.drop_last();
        assert forall|i: int| 0 <= i < k implies entry_le(#[trigger] front[i], e) by {
            assert(front[i] == s[i]);
        }
        assert forall|i: int| k <= i < front.len() implies !entry_le(#[trigger] front[i], e) by {
            assert(front[i] == s[i]);
        }
        lemma_with_entry(front, e, k);
        assert(with_entry(s, e) =~= s.insert(k, e));
    }
}

proof fn lemma_with_entry_in_order(s: Seq<EntryView>, e: EntryView)
    requires
        in_order(s),
    ensures
        in_order(with_entry(s, e)),
        with_entry(s, e).to_multiset() == s.to_multiset().insert(e),
    decreases s.len(),
{
    broadcast use vstd::seq_lib::group_to_multiset_ensures;

    if s.len() == 0 || entry_le(s.last(), e) {
        let r = s.push(e);
        assert forall|i: int, j: int| 0 <= i < j < r.len() implies entry_le(
            #[trigger] r[i],
            #[trigger] r[j],
        ) by {
            if j == s.len() {
                if i < s.len() - 1 {
                    assert(entry_le(s[i], s[s.len() - 1]));
                    lemma_entry_le_transitive(s[i], s.last(), e);
                }
            } else {
                assert(entry_le(s[i], s[j]));
            }
        }
    } else {
        let front = s.drop_last();
        assert forall|i: int, j: int| 0 <= i < j < front.len() implies entry_le(
            #[trigger] front[i],
            #[trigger] front[j],
        ) by {
            assert(entry_le(s[i], s[j]));
        }
        lemma_with_entry_in_order(front, e);
        let mid = with_entry(front, e);
        lemma_with_entry_members(front, e);
        let r = mid.push(s.last());
        assert forall|i: int, j: int| 0 <= i < j < r.len() implies entry_le(
            #[trigger] r[i],
            #[trigger] r[j],
        ) by {
            if j == mid.len() {
                if mid[i] == e {
                    lemma_entry_le_total(e, s.last());
                } else {
                    let k = choose|k: int| 0 <= k < front.len() && front[k] == mid[i];
                    assert(entry_le(s[k], s[s.len() - 1]));
                }
            } else {
                assert(entry_le(mid[i], mid[j]));
            }
        }
        assert(s =~= front.push(s.last()));
        assert(r.to_multiset() =~= s.to_multiset().insert(e));
    }
}

pub proof fn lemma_with_entry_members(s: Seq<EntryView>, e: EntryView)
    ensures
        with_entry(s, e).len() == s.len() + 1,
        forall|i: int|
            #![trigger with_entry(s, e)[i]]
            0 <= i < with_entry(s, e).len() ==> with_entry(s, e)[i] == e || exists|k: int|
                0 <= k < s.len() && s[k] == with_entry(s, e)[i],
    decreases s.len(),
{
    if s.len() == 0 || entry_le(s.last(), e) {
        assert forall|i: int|
            #![trigger with_entry(s, e)[i]]
            0 <= i < with_entry(s, e).len() implies with_entry(s, e)[i] == e || exists|k: int|
            0 <= k < s.len() && s[k] == with_entry(s, e)[i] by {
            if i < s.len() {
                assert(s[i] == with_entry(s, e)[i]);
            }
        }
    } else {
        let front = s.drop_last();
        lemma_with_entry_members(front, e);
        let mid = with_entry(front, e);
        assert forall|i: int|
            #![trigger with_entry(s, e)[i]]
            0 <= i < with_entry(s, e).len() implies with_entry(s, e)[i] == e || exists|k: int|
            0 <= k < s.len() && s[k] == with_entry(s, e)[i] by {
            if i < mid.len() {
                assert(with_entry(s, e)[i] == mid[i]);
                if mid[i] != e {
                    let k = choose|k: int| 0 <= k < front.len() && front[k] == mid[i];
                    assert(s[k] == mid[i]);
                }
            } else {
                assert(s[s.len() - 1] == with_entry(s, e)[i]);
            }
        }
    }
}

/// Sorting puts entries in order, and neither loses nor adds one.
pub proof fn law_sorted(s: Seq<EntryView>)
    ensures
        in_order(sorted_entries(s)),
        sorted_entries(s).to_multiset() == s.to_multiset(),
        sorted_entries(s).len() == s.len(),
    decreases s.len(),
{
    broadcast use vstd::seq_lib::group_to_multiset_ensures;

    if s.len() > 0 {
        law_sorted(s.drop_last());
        lemma_with_entry_in_order(sorted_entries(s.drop_last()), s.last());
        lemma_with_entry_members(sorted_entries(s.drop_last()), s.last());
        assert(s =~= s.drop_last().push(s.last()));
    }
}

/// Entries that stand in order stay as they are.
pub proof fn law_sorting_sorted(s: Seq<EntryView>)
    requires
        in_order(s),
    ensures
        sorted_entries(s) == s,
    decreases s.len(),
{
    if s.len() > 0 {
        let front = s.drop_last();
        assert forall|i: int, j: int| 0 <= i < j < front.len() implies entry_le(
            #[trigger] front[i],
            #[trigger] front[j],
        ) by {
            assert(entry_le(s[i], s[j]));
        }
        law_sorting_sorted(front);
        if front.len() > 0 {
            assert(entry_le(s[front.len() - 1], s[s.len() - 1]));
        }
        assert(front.push(s.last()) =~= s);
    }
}

/// The key of an entry.
struct SortKey {
    is_dir: bool,
    lower: Vec<char>,
}

spec fn key_of(k: SortKey, e: EntryView) -> bool {
    k.is_dir == e.is_dir && k.lower@ == text::unicode_lower(e.name)
}

fn key_not_after(a: &SortKey, b: &SortKey, Ghost(x): Ghost<EntryView>, Ghost(y): Ghost<EntryView>) -> (r:
    bool)
    requires
        key_of(*a, x),
        key_of(*b, y),
    ensures
        r == entry_le(x, y),
{
    if a.is_dir != b.is_dir {
        a.is_dir
    } else {
        order::not_after(&a.lower, &b.lower)
    }
}

/// Sorts entries: directories first, and then by the lower case of the name.
pub fn sort_entries(list: Vec<RemoteEntry>) -> (out: Vec<RemoteEntry>)
    ensures
        events::entries_view(out@) == sorted_entries(events::entries_view(list@)),
{
    let mut rest = list;
    let mut source: Vec<RemoteEntry> = Vec::new();
    let ghost all = events::entries_view(list@);
    // The entries come off the back, so they are turned round first.
    while rest.len() > 0
        invariant
            rest@.len() + source@.len() == list@.len(),
            rest@ == list@.take(rest@.len() as int),
            forall|i: int|
                0 <= i < source@.len() ==> #[trigger] source@[i] == list@[list@.len() - 1 - i],
        decreases rest@.len(),
    {
        if let Some(e) = rest.pop() {
            source.push(e);
        }
    }
    let mut out: Vec<RemoteEntry> = Vec::new();
    let mut keys: Vec<SortKey> = Vec::new();
    let ghost n = list@.len() as int;
    assert(all.take(0) == Seq::<EntryView>::empty());
    assert(events::entries_view(out@) =~= sorted_entries(all.take(0)));
    while source.len() > 0
        invariant
            all == events::entries_view(list@),
            n == list@.len(),
            source@.len() + out@.len() == n,
            forall|i: int|
                0 <= i < source@.len() ==> #[trigger] source@[i] == list@[n - 1 - i],
            events::entries_view(out@) == sorted_entries(all.take(out@.len() as int)),
            keys@.len() == out@.len(),
            forall|i: int| 0 <= i < out@.len() ==> key_of(#[trigger] keys@[i], out@[i]@),
        decreases source@.len(),
    {
        let ghost done = out@.len() as int;
        if let Some(e) = source.pop() {
            assert(e == list@[done]);
            assert(all[done] == e@);
            let lower = text::lowercase(e.name.as_str());
            let key = SortKey { is_dir: e.is_dir, lower: text::chars_of(lower.as_str()) };
            let ghost view = events::entries_view(out@);
            proof {
                law_sorted(all.take(done));
            }
            let mut lo: usize = 0;
            let mut hi: usize = out.len();
            while lo < hi
                invariant
                    lo <= hi <= out@.len(),
                    out@.len() == keys@.len(),
                    view == events::entries_view(out@),
                    in_order(view),
                    key_of(key, e@),
                    forall|i: int| 0 <= i < out@.len() ==> key_of(#[trigger] keys@[i], out@[i]@),
                    forall|i: int| 0 <= i < lo ==> entry_le(#[trigger] view[i], e@),
                    forall|i: int| hi <= i < view.len() ==> !entry_le(#[trigger] view[i], e@),
                decreases hi - lo,
            {
                let mid: usize = lo + (hi - lo) / 2;
                assert(view[mid as int] == out@[mid as int]@);
                assert(key_of(keys@[mid as int], out@[mid as int]@));
                if key_not_after(&keys[mid], &key, Ghost(view[mid as int]), Ghost(e@)) {
                    assert forall|i: int| 0 <= i < mid + 1 implies entry_le(
                        #[trigger] view[i],
                        e@,
                    ) by {
                        if i < mid {
                            assert(entry_le(view[i], view[mid as int]));
                            lemma_entry_le_transitive(view[i], view[mid as int], e@);
                        }
                    }
                    lo = mid + 1;
                } else {
                    assert forall|i: int| mid <= i < view.len() implies !entry_le(
                        #[trigger] view[i],
                        e@,
                    ) by {
                        if i > mid && entry_le(view[i], e@) {
                            assert(entry_le(view[mid as int], view[i]));
                            lemma_entry_le_transitive(view[mid as int], view[i], e@);
                        }
                    }
                    hi = mid;
                }
            }
            proof {
                lemma_with_entry(view, e@, lo as int);
                assert(all.take(done + 1).drop_last() == all.take(done));
            }
            let ghost before_out = out@;
            let ghost before_keys = keys@;
            let ghost ev = e@;
            out.insert(lo, e);
            keys.insert(lo, key);
            assert(events::entries_view(out@) =~= view.insert(lo as int, ev));
            assert forall|i: int| 0 <= i < out@.len() implies key_of(
                #[trigger] keys@[i],
                out@[i]@,
            ) by {
                if i < lo {
                    assert(keys@[i] == before_keys[i]);
                    assert(out@[i] == before_out[i]);
                } else if i > lo {
                    assert(keys@[i] == before_keys[i - 1]);
                    assert(out@[i] == before_out[i - 1]);
                }
            }
        }
    }
    assert(all.take(all.len() as int) == all);
    out
}

// ---------------------------------------------------------------------------
// Listings of the file service
// ---------------------------------------------------------------------------

/// One entry of a directory as the server sends it. What the server leaves out is `None`.
#[derive(Debug)]
pub struct RawEntry {
    pub name: String,
    pub permissions: Option<u32>,
    pub size: Option<u64>,
    pub mtime: Option<u32>,
}

/// The contents of a [`RawEntry`].
#[verifier::ext_equal]
pub struct RawView {
    pub name: Seq<char>,
    pub permissions: Option<u32>,
    pub size: Option<u64>,
    pub mtime: Option<u32>,
}

impl View for RawEntry {
    type V = RawView;

    open spec fn view(&self) -> RawView {
        RawView {
            name: self.name@,
            permissions: self.permissions,
            size: self.size,
            mtime: self.mtime,
        }
    }
}

/// The contents of raw entries.
pub open spec fn raw_view(s: Seq<RawEntry>) -> Seq<RawView> {
    s.map_values(|e: RawEntry| e@)
}

/// The file type bits of a mode.
pub open spec fn type_bits(permissions: Option<u32>) -> u32 {
    match permissions {
        Some(p) => p & 0o170_000,
        None => 0,
    }
}

/// Whether an entry is neither the directory itself nor its parent.
pub open spec fn own_entry(e: RawView) -> bool {
    e.name != "."@ && e.name != ".."@
}

/// Whether an entry is a symbolic link, of which a listing does not tell the target.
pub open spec fn is_link(e: RawView) -> bool {
    type_bits(e.permissions) == 0o120_000
}

/// The paths of the symbolic links of a listing, in its order.
pub open spec fn link_paths(path: Seq<char>, raw: Seq<RawView>) -> Seq<Seq<char>>
    decreases raw.len(),
{
    if raw.len() == 0 {
        Seq::empty()
    } else {
        let before = link_paths(path, raw.drop_last());
        let e = raw.last();
        if own_entry(e) && is_link(e) {
            before.push(remote_path::joined(path, e.name))
        } else {
            before
        }
    }
}

/// What an entry is. For a symbolic link, `target` holds the mode of what it leads to, if that
/// could be reached.
pub open spec fn kind_of(permissions: Option<u32>, target: Option<u32>) -> EntryKind {
    if type_bits(permissions) == 0o040_000 {
        EntryKind::Dir
    } else if type_bits(permissions) == 0o120_000 {
        match target {
            None => EntryKind::DeadLink,
            Some(mode) => if mode & 0o170_000 == 0o040_000 {
                EntryKind::SymlinkDir
            } else {
                EntryKind::SymlinkFile
            },
        }
    } else {
        EntryKind::File
    }
}

/// The value, or zero where there is none.
pub open spec fn or_zero_u64(x: Option<u64>) -> u64 {
    match x {
        Some(v) => v,
        None => 0,
    }
}

/// The value, or zero where there is none.
pub open spec fn or_zero_u32(x: Option<u32>) -> u32 {
    match x {
        Some(v) => v,
        None => 0,
    }
}

/// The entry made of what the server sent and of where a symbolic link leads.
pub open spec fn entry_of(path: Seq<char>, e: RawView, target: Option<u32>) -> EntryView {
    let kind = kind_of(e.permissions, target);
    EntryView {
        name: e.name,
        full_path: remote_path::joined(path, e.name),
        is_dir: kind == EntryKind::Dir || kind == EntryKind::SymlinkDir,
        kind,
        size: or_zero_u64(e.size),
        modified: or_zero_u32(e.mtime),
        mode: or_zero_u32(e.permissions) & 0o7777,
    }
}

/// The entries of a listing in the order of the server; `targets` holds what the symbolic links
/// lead to, in the same order.
pub open spec fn plain_entries(
    path: Seq<char>,
    raw: Seq<RawView>,
    targets: Seq<Option<u32>>,
) -> Seq<EntryView>
    decreases raw.len(),
{
    if raw.len() == 0 {
        Seq::empty()
    } else {
        let before = plain_entries(path, raw.drop_last(), targets);
        let e = raw.last();
        if !own_entry(e) {
            before
        } else if is_link(e) {
            before.push(entry_of(path, e, targets[link_paths(path, raw.drop_last()).len() as int]))
        } else {
            before.push(entry_of(path, e, None))
        }
    }
}

/// The file type bits of a mode.
fn file_type(permissions: Option<u32>) -> (out: u32)
    ensures
        out == type_bits(permissions),
{
    match permissions {
        Some(p) => p & 0o170_000,
        None => 0,
    }
}

fn is_own_entry(e: &RawEntry) -> (r: bool)
    ensures
        r == own_entry(e@),
{
    !text::same_text(e.name.as_str(), ".") && !text::same_text(e.name.as_str(), "..")
}

/// The paths of the symbolic links of a listing, whose targets are to be asked for.
pub fn links_to_follow(path: &str, raw: &Vec<RawEntry>) -> (out: Vec<String>)
    ensures
        text::texts(out@) == link_paths(path@, raw_view(raw@)),
{
    let ghost all = raw_view(raw@);
    let mut out: Vec<String> = Vec::new();
    let mut i: usize = 0;
    assert(all.take(0) == Seq::<RawView>::empty());
    assert(text::texts(out@) =~= Seq::<Seq<char>>::empty());
    while i < raw.len()
        invariant
            i <= raw@.len(),
            all == raw_view(raw@),
            text::texts(out@) == link_paths(path@, all.take(i as int)),
        decreases raw@.len() - i,
    {
        assert(all[i as int] == raw@[i as int]@);
        assert(all.take(i + 1).drop_last() == all.take(i as int));
        assert(all.take(i + 1).last() == all[i as int]);
        let ghost before = text::texts(out@);
        if is_own_entry(&raw[i]) && file_type(raw[i].permissions) == 0o120_000 {
            let p = remote_path::join_path(path, raw[i].name.as_str());
            let ghost pv = p@;
            out.push(p);
            assert(text::texts(out@) =~= before.push(pv));
        }
        i = i + 1;
    }
    assert(all.take(all.len() as int) == all);
    out
}

fn build_entry(path: &str, e: &RawEntry, target: Option<u32>) -> (out: RemoteEntry)
    ensures
        out@ == entry_of(path@, e@, target),
        out.name@ == e.name@,
        e.mtime matches Some(t) ==> out.modified == t,
        e.size matches Some(n) ==> out.size == n,
        e.permissions matches Some(p) ==> out.mode == p & 0o7777,
{
    let bits: u32 = file_type(e.permissions);
    let kind = if bits == 0o040_000 {
        EntryKind::Dir
    } else if bits == 0o120_000 {
        match target {
            None => EntryKind::DeadLink,
            Some(mode) => if mode & 0o170_000 == 0o040_000 {
                EntryKind::SymlinkDir
            } else {
                EntryKind::SymlinkFile
            },
        }
    } else {
        EntryKind::File
    };
    let mode: u32 = match e.permissions {
        Some(p) => p,
        None => 0,
    };
    RemoteEntry {
        name: e.name.clone(),
        full_path: remote_path::join_path(path, e.name.as_str()),
        is_dir: kind == EntryKind::Dir || kind == EntryKind::SymlinkDir,
        kind,
        size: match e.size {
            Some(v) => v,
            None => 0,
        },
        modified: match e.mtime {
            Some(v) => v,
            None => 0,
        },
        mode: mode & 0o7777,
    }
}

/// The entries of a directory, sorted.
pub open spec fn dir_listing(
    path: Seq<char>,
    raw: Seq<RawView>,
    targets: Seq<Option<u32>>,
) -> Seq<EntryView> {
    sorted_entries(plain_entries(path, raw, targets))
}

/// The entries of a directory, sorted: what the server sent, without the directory itself and
/// its parent, with the kind of each. `targets` holds what the links of
/// [`links_to_follow`] lead to, in that order: the mode, or `None` where the target could not
/// be reached.
pub fn list_entries(path: &str, raw: &Vec<RawEntry>, targets: &Vec<Option<u32>>) -> (out: Vec<
    RemoteEntry,
>)
    requires
        targets@.len() == link_paths(path@, raw_view(raw@)).len(),
    ensures
        events::entries_view(out@) == dir_listing(path@, raw_view(raw@), targets@),
{
    let ghost all = raw_view(raw@);
    let known: usize = targets.len();
    let mut out: Vec<RemoteEntry> = Vec::new();
    let mut i: usize = 0;
    let mut at: usize = 0;
    assert(all.take(0) == Seq::<RawView>::empty());
    assert(events::entries_view(out@) =~= Seq::<EntryView>::empty());
    while i < raw.len()
        invariant
            i <= raw@.len(),
            all == raw_view(raw@),
            known == targets@.len(),
            targets@.len() == link_paths(path@, all).len(),
            at == link_paths(path@, all.take(i as int)).len(),
            events::entries_view(out@) == plain_entries(path@, all.take(i as int), targets@),
        decreases raw@.len() - i,
    {
        assert(all[i as int] == raw@[i as int]@);
        assert(all.take(i + 1).drop_last() == all.take(i as int));
        assert(all.take(i + 1).last() == all[i as int]);
        let ghost before = events::entries_view(out@);
        if is_own_entry(&raw[i]) {
            if file_type(raw[i].permissions) == 0o120_000 {
                proof {
                    lemma_links_grow(path@, all, i as int);
                }
                let e = build_entry(path, &raw[i], targets[at]);
                let ghost ev = e@;
                out.push(e);
                at = at + 1;
                assert(events::entries_view(out@) =~= before.push(ev));
            } else {
                let e = build_entry(path, &raw[i], None);
                let ghost ev = e@;
                out.push(e);
                assert(events::entries_view(out@) =~= before.push(ev));
            }
        }
        i = i + 1;
    }
    assert(all.take(all.len() as int) == all);
    sort_entries(out)
}

pub proof fn lemma_links_grow(path: Seq<char>, raw: Seq<RawView>, i: int)
    requires
        0 <= i < raw.len(),
        own_entry(raw[i]),
        is_link(raw[i]),
    ensures
        link_paths(path, raw.take(i)).len() < link_paths(path, raw).len(),
    decreases raw.len(),
{
    if i == raw.len() - 1 {
        assert(raw.drop_last() == raw.take(i));
    } else {
        lemma_links_grow(path, raw.drop_last(), i);
        assert(raw.drop_last().take(i) == raw.take(i));
    }
}

/// The subdirectories among entries, in their order.
pub open spec fn dirs_among(s: Seq<EntryView>) -> Seq<(Seq<char>, Seq<char>)>
    decreases s.len(),
{
    if s.len() == 0 {
        Seq::empty()
    } else {
        let before = dirs_among(s.drop_last());
        if s.last().is_dir {
            before.push((s.last().name, s.last().full_path))
        } else {
            before
        }
    }
}

/// The subdirectories among entries, in their order, for the navigation tree.
pub fn child_dirs(entries: &Vec<RemoteEntry>) -> (out: Vec<Kid>)
    ensures
        tree::kids_view(out@) == dirs_among(events::entries_view(entries@)),
{
    let ghost all = events::entries_view(entries@);
    let mut out: Vec<Kid> = Vec::new();
    let mut i: usize = 0;
    assert(all.take(0) == Seq::<EntryView>::empty());
    assert(tree::kids_view(out@) =~= Seq::<(Seq<char>, Seq<char>)>::empty());
    while i < entries.len()
        invariant
            i <= entries@.len(),
            all == events::entries_view(entries@),
            tree::kids_view(out@) == dirs_among(all.take(i as int)),
        decreases entries@.len() - i,
    {
        assert(all[i as int] == entries@[i as int]@);
        assert(all.take(i + 1).drop_last() == all.take(i as int));
        assert(all.take(i + 1).last() == all[i as int]);
        let ghost before = tree::kids_view(out@);
        if entries[i].is_dir {
            let kid: Kid = (entries[i].name.clone(), entries[i].full_path.clone());
            let ghost kv = (kid.0@, kid.1@);
            out.push(kid);
            assert(tree::kids_view(out@) =~= before.push(kv));
        }
        i = i + 1;
    }
    assert(all.take(all.len() as int) == all);
    out
}

/// The navigation tree holds no regular file and no dead link: what it takes out of a listing
/// are directories and symbolic links to directories.
pub proof fn law_tree_holds_directories(path: Seq<char>, raw: Seq<RawView>, targets: Seq<Option<u32>>)
    ensures
        forall|i: int|
            #![trigger dir_listing(path, raw, targets)[i]]
            0 <= i < dir_listing(path, raw, targets).len() ==> {
                let e = dir_listing(path, raw, targets)[i];
                e.is_dir <==> (e.kind == EntryKind::Dir || e.kind == EntryKind::SymlinkDir)
            },
{
    let plain = plain_entries(path, raw, targets);
    lemma_plain_kinds(path, raw, targets);
    law_sorted(plain);
    let s = sorted_entries(plain);
    assert forall|i: int| #![trigger s[i]] 0 <= i < s.len() implies (s[i].is_dir <==> (s[i].kind
        == EntryKind::Dir || s[i].kind == EntryKind::SymlinkDir)) by {
        broadcast use vstd::seq_lib::group_to_multiset_ensures;

        assert(s.contains(s[i]));
        assert(s.to_multiset().count(s[i]) > 0);
        assert(plain.to_multiset().count(s[i]) > 0);
        assert(plain.contains(s[i]));
    }
}

proof fn lemma_plain_kinds(path: Seq<char>, raw: Seq<RawView>, targets: Seq<Option<u32>>)
    ensures
        forall|e: EntryView| #[trigger]
            plain_entries(path, raw, targets).contains(e) ==> (e.is_dir <==> (e.kind
                == EntryKind::Dir || e.kind == EntryKind::SymlinkDir)),
    decreases raw.len(),
{
    if raw.len() > 0 {
        lemma_plain_kinds(path, raw.drop_last(), targets);
        let before = plain_entries(path, raw.drop_last(), targets);
        let all = plain_entries(path, raw, targets);
        assert forall|e: EntryView| #[trigger] all.contains(e) implies (e.is_dir <==> (e.kind
            == EntryKind::Dir || e.kind == EntryKind::SymlinkDir)) by {
            let i = all.index_of(e);
            if i < before.len() {
                assert(before[i] == e);
                assert(before.contains(e));
            }
        }
    }
}

/// The subdirectories of a sorted listing stand in the order of their names in lower case.
pub proof fn law_dirs_in_order(s: Seq<EntryView>, i: int, j: int)
    requires
        in_order(s),
        0 <= i < j < dirs_among(s).len(),
    ensures
        order::text_le(
            text::unicode_lower(dirs_among(s)[i].0),
            text::unicode_lower(dirs_among(s)[j].0),
        ),
    decreases s.len(),
{
    let front = s.drop_last();
    let before = dirs_among(front);
    assert forall|a: int, b: int| 0 <= a < b < front.len() implies entry_le(
        #[trigger] front[a],
        #[trigger] front[b],
    ) by {
        assert(entry_le(s[a], s[b]));
    }
    if j < before.len() {
        law_dirs_in_order(front, i, j);
    } else {
        let k = lemma_dir_from(front, i);
        assert(entry_le(s[k], s[s.len() - 1]));
    }
}

proof fn lemma_dir_from(s: Seq<EntryView>, i: int) -> (k: int)
    requires
        0 <= i < dirs_among(s).len(),
    ensures
        0 <= k < s.len(),
        s[k].is_dir,
        dirs_among(s)[i] == (s[k].name, s[k].full_path),
    decreases s.len(),
{
    let front = s.drop_last();
    if i < dirs_among(front).len() {
        let k = lemma_dir_from(front, i);
        assert(s[k] == front[k]);
        k
    } else {
        s.len() - 1
    }
}

// ---------------------------------------------------------------------------
// Reading a directory again
// ---------------------------------------------------------------------------

/// How long a directory may take to be read, in seconds.
pub const DIR_TIMEOUT_SECS: u64 = 22;

/// How long the target of a link may take to be found, in seconds.
pub const STAT_TIMEOUT_SECS: u64 = 8;

/// How long to wait before another attempt, in milliseconds.
pub const RETRY_PAUSE_MS: u64 = 260;

/// Why a directory could not be read.
#[derive(Debug)]
pub enum ReadFailure {
    /// The server said so.
    Refused(String),
    /// There was no answer in time.
    TimedOut,
}

/// What to do after a directory could not be read.
#[derive(Debug)]
pub enum ReadVerdict {
    /// Wait and read it once more.
    Again,
    /// Give up, with this message: without its cause, and with it.
    GiveUp { shown: String, full: String },
}

/// Whether a refusal, in lower case, is final: another attempt would not change it.
pub open spec fn final_refusal(low: Seq<char>) -> bool {
    text::has_text(low, "permission"@) || text::has_text(low, "denied"@) || text::has_text(
        low,
        "no such"@,
    )
}

/// Whether a refusal, in lower case, is final: another attempt would not change it.
pub fn is_final_refusal(low: &str) -> (r: bool)
    ensures
        r == final_refusal(low@),
{
    text::contains(low, "permission") || text::contains(low, "denied") || text::contains(
        low,
        "no such",
    )
}

/// The message for a directory that the server would not let be read.
pub open spec fn read_failed(path: Seq<char>) -> Seq<char> {
    "read_dir "@ + path + " failed"@
}

/// The same message with what the server said.
pub open spec fn read_failed_because(path: Seq<char>, msg: Seq<char>) -> Seq<char> {
    read_failed(path) + ": "@ + msg
}

/// The message for a directory that was not read in time.
pub open spec fn read_timed_out(path: Seq<char>) -> Seq<char> {
    "Connection Timeout: read_dir "@ + path + " exceeded "@ + number::decimal(
        DIR_TIMEOUT_SECS as nat,
    ) + "s"@
}

/// Decides after a failed attempt to read a directory: the first failure is tried again, unless
/// the server refused for good.
pub fn after_read_failure(path: &str, first: bool, failure: &ReadFailure) -> (out: ReadVerdict)
    ensures
        match *failure {
            ReadFailure::Refused(msg) => if first && !final_refusal(text::unicode_lower(msg@)) {
                out is Again
            } else {
                out matches ReadVerdict::GiveUp { shown, full } && shown@ == read_failed(path@)
                    && full@ == read_failed_because(path@, msg@)
            },
            ReadFailure::TimedOut => if first {
                out is Again
            } else {
                out matches ReadVerdict::GiveUp { shown, full } && shown@ == read_timed_out(path@)
                    && full@ == read_timed_out(path@)
            },
        },
{
    match failure {
        ReadFailure::Refused(msg) => {
            let low = text::lowercase(msg.as_str());
            if is_final_refusal(low.as_str()) || !first {
                let shown = text::join3("read_dir ", path, " failed");
                let full = text::join3(shown.as_str(), ": ", msg.as_str());
                ReadVerdict::GiveUp { shown, full }
            } else {
                ReadVerdict::Again
            }
        },
        ReadFailure::TimedOut => {
            if first {
                ReadVerdict::Again
            } else {
                let secs = number::number_text(DIR_TIMEOUT_SECS, 10);
                let mut m = text::join4(
                    "Connection Timeout: read_dir ",
                    path,
                    " exceeded ",
                    secs.as_str(),
                );
                m.append("s");
                ReadVerdict::GiveUp { shown: m.clone(), full: m }
            }
        },
    }
}

// ---------------------------------------------------------------------------
// Listings over a shell
// ---------------------------------------------------------------------------

/// The command that lists a directory, up to the quoted path.
pub const LIST_HEAD: &'static str = "PATH=/usr/bin:/bin:/usr/sbin:/sbin; export PATH; p=";

/// The command that lists a directory, behind the quoted path.
pub const LIST_TAIL: &'static str =
    "; cd \"$p\" 2>/dev/null || exit 2; for f in .[!.]* ..?* *; do [ -e \"$f\" ] || continue; [ \"$f\" = . ] && continue; [ \"$f\" = .. ] && continue; if [ -L \"$f\" ]; then   if [ ! -e \"$f\" ]; then typ=dead;   elif [ -d \"$f\" ]; then typ=ld; else typ=lf; fi; elif [ -d \"$f\" ]; then typ=d; else typ=f; fi; sz=$(stat -c %s \"$f\" 2>/dev/null || wc -c < \"$f\" 2>/dev/null || echo 0); mt=$(stat -c %Y \"$f\" 2>/dev/null || echo 0); md=$(stat -c %a \"$f\" 2>/dev/null || echo 0); printf '%s\\t%s\\t%s\\t%s\\t%s\\n' \"$typ\" \"$sz\" \"$mt\" \"$md\" \"$f\"; done";

/// The command that lists a directory.
pub open spec fn list_command_text(path: Seq<char>) -> Seq<char> {
    LIST_HEAD@ + remote_path::quoted(path) + LIST_TAIL@
}

/// The command that lists a directory: one line for each entry, with its type, size, time of
/// change and mode before its name, and a tab behind each.
pub fn list_command(path: &str) -> (out: String)
    ensures
        out@ == list_command_text(path@),
{
    let q = remote_path::sh_quote(path);
    text::join3(LIST_HEAD, q.as_str(), LIST_TAIL)
}

/// The field at a position of a line whose first four fields end at a tab.
pub open spec fn field(parts: Seq<Seq<char>>, i: int, default: Seq<char>) -> Seq<char> {
    if i < parts.len() {
        parts[i]
    } else {
        default
    }
}

/// The name in a line: all that stands behind the fourth tab.
pub open spec fn line_name(parts: Seq<Seq<char>>) -> Seq<char> {
    if parts.len() >= 5 {
        text::joined_with(parts.skip(4), "\t"@)
    } else {
        Seq::empty()
    }
}

/// The number that a field holds, or zero.
pub open spec fn field_number(s: Seq<char>, base: nat, max: nat) -> nat {
    match number::number_in(text::trimmed(s), base, max) {
        Some(n) => n,
        None => 0,
    }
}

/// The kind that the type field names.
pub open spec fn kind_named(typ: Seq<char>) -> EntryKind {
    if typ == "d"@ {
        EntryKind::Dir
    } else if typ == "ld"@ {
        EntryKind::SymlinkDir
    } else if typ == "lf"@ {
        EntryKind::SymlinkFile
    } else if typ == "dead"@ {
        EntryKind::DeadLink
    } else {
        EntryKind::File
    }
}

/// The entry of a line, if it has one.
pub open spec fn line_entry(path: Seq<char>, line: Seq<char>) -> Option<EntryView> {
    let parts = text::pieces(line, CharSet::Only('\t'));
    let name = line_name(parts);
    if name.len() == 0 || name == "."@ || name == ".."@ {
        None
    } else {
        let kind = kind_named(field(parts, 0, ""@));
        Some(
            EntryView {
                name,
                full_path: remote_path::joined(path, name),
                is_dir: kind == EntryKind::Dir || kind == EntryKind::SymlinkDir,
                kind,
                size: field_number(field(parts, 1, "0"@), 10, u64::MAX as nat) as u64,
                modified: field_number(field(parts, 2, "0"@), 10, u32::MAX as nat) as u32,
                mode: field_number(field(parts, 3, "0"@), 8, u32::MAX as nat) as u32,
            },
        )
    }
}

/// The entries of lines, in their order.
pub open spec fn line_entries(path: Seq<char>, lines: Seq<Seq<char>>) -> Seq<EntryView>
    decreases lines.len(),
{
    if lines.len() == 0 {
        Seq::empty()
    } else {
        let before = line_entries(path, lines.drop_last());
        match line_entry(path, lines.last()) {
            Some(e) => before.push(e),
            None => before,
        }
    }
}

fn kind_by_name(typ: &str) -> (out: EntryKind)
    ensures
        out == kind_named(typ@),
{
    if text::same_text(typ, "d") {
        EntryKind::Dir
    } else if text::same_text(typ, "ld") {
        EntryKind::SymlinkDir
    } else if text::same_text(typ, "lf") {
        EntryKind::SymlinkFile
    } else if text::same_text(typ, "dead") {
        EntryKind::DeadLink
    } else {
        EntryKind::File
    }
}

fn part_at<'a>(parts: &'a Vec<String>, i: usize, default: &'a str) -> (out: &'a str)
    ensures
        out@ == field(text::texts(parts@), i as int, default@),
{
    if i < parts.len() {
        parts[i].as_str()
    } else {
        default
    }
}

fn number_field(s: &str, base: u64, max: u64) -> (out: u64)
    requires
        2 <= base <= 10,
    ensures
        out as nat == field_number(s@, base as nat, max as nat),
        out <= max,
{
    let t = text::trim(s);
    match number::parse_number(t.as_str(), base, max) {
        Some(n) => n,
        None => 0,
    }
}

fn parse_line(path: &str, line: &str) -> (out: Option<RemoteEntry>)
    ensures
        match line_entry(path@, line@) {
            Some(e) => out is Some && out->0@ == e,
            None => out is None,
        },
{
    let parts = text::split(line, CharSet::Only('\t'));
    let name = if parts.len() >= 5 {
        text::join_from(&parts, 4, "\t")
    } else {
        String::new()
    };
    assert(name@ == line_name(text::texts(parts@)));
    if name.as_str().is_empty() || text::same_text(name.as_str(), ".") || text::same_text(
        name.as_str(),
        "..",
    ) {
        return None;
    }
    let kind = kind_by_name(part_at(&parts, 0, ""));
    let size: u64 = number_field(part_at(&parts, 1, "0"), 10, u64::MAX);
    let modified: u64 = number_field(part_at(&parts, 2, "0"), 10, u32::MAX as u64);
    let mode: u64 = number_field(part_at(&parts, 3, "0"), 8, u32::MAX as u64);
    Some(
        RemoteEntry {
            full_path: remote_path::join_path(path, name.as_str()),
            name,
            is_dir: kind == EntryKind::Dir || kind == EntryKind::SymlinkDir,
            kind,
            size,
            modified: modified as u32,
            mode: mode as u32,
        },
    )
}

/// What a command on the server came to: its exit code, and what it wrote to its output and to
/// its error output.
#[derive(Debug)]
pub struct ExecOutput {
    pub code: u32,
    pub out: Vec<u8>,
    pub err: Vec<u8>,
}

/// What a failed command wrote to its error output.
pub open spec fn complaint(err: Seq<u8>) -> Seq<char> {
    text::trimmed(utf8::lossy(err))
}

/// What a failed command wrote to its error output.
pub fn complaint_of(err: &[u8]) -> (out: String)
    ensures
        out@ == complaint(err@),
{
    let raw = utf8::decode_lossy(err);
    text::trim(raw.as_str())
}

/// The entries that the output of the listing command tells of.
pub open spec fn shell_entries(path: Seq<char>, out: Seq<u8>) -> Seq<EntryView> {
    sorted_entries(line_entries(path, text::lines(utf8::lossy(out))))
}

/// The message for a listing command that failed.
pub open spec fn shell_list_failure(path: Seq<char>, err: Seq<u8>) -> Seq<char> {
    if complaint(err).len() == 0 {
        "cannot list "@ + path
    } else {
        complaint(err)
    }
}

/// Reads what the listing command came to: the sorted entries, or the message where it failed.
pub fn shell_list_dir(path: &str, done: &ExecOutput) -> (out: Result<Vec<RemoteEntry>, String>)
    ensures
        out is Ok <==> done.code == 0,
        out matches Ok(v) ==> events::entries_view(v@) == shell_entries(path@, done.out@),
        out matches Err(m) ==> m@ == shell_list_failure(path@, done.err@),
{
    if done.code != 0 {
        let msg = complaint_of(done.err.as_slice());
        return Err(
            if msg.as_str().is_empty() {
                text::join2("cannot list ", path)
            } else {
                msg
            },
        );
    }
    let whole = utf8::decode_lossy(done.out.as_slice());
    let lines = text::split_lines(whole.as_str());
    let ghost all = text::texts(lines@);
    let mut entries: Vec<RemoteEntry> = Vec::new();
    let mut i: usize = 0;
    assert(all.take(0) == Seq::<Seq<char>>::empty());
    assert(events::entries_view(entries@) =~= Seq::<EntryView>::empty());
    while i < lines.len()
        invariant
            i <= lines@.len(),
            all == text::texts(lines@),
            events::entries_view(entries@) == line_entries(path@, all.take(i as int)),
        decreases lines@.len() - i,
    {
        assert(all[i as int] == lines@[i as int]@);
        assert(all.take(i + 1).drop_last() == all.take(i as int));
        assert(all.take(i + 1).last() == all[i as int]);
        let ghost before = events::entries_view(entries@);
        match parse_line(path, lines[i].as_str()) {
            Some(e) => {
                let ghost ev = e@;
                entries.push(e);
                assert(events::entries_view(entries@) =~= before.push(ev));
            },
            None => {
            },
        }
        i = i + 1;
    }
    assert(all.take(all.len() as int) == all);
    Ok(sort_entries(entries))
}

} // verus!
