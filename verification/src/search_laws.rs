//! What a search reports, and where it looks.
use crate::events::{EntryKind, EntryView, EventView, SftpSearchState};
use crate::remote_path;
use crate::search;
use crate::search::{EmitterView, SearchAnswer, SearchKind, SearchView};
use crate::search_roots;
use crate::text;
use crate::text::CharSet;
use vstd::prelude::*;

verus! {

// ---------------------------------------------------------------------------
// What is reported
// ---------------------------------------------------------------------------

/// The entries that reports bring, one behind the other.
pub open spec fn reported(told: Seq<EventView>) -> Seq<EntryView>
    decreases told.len(),
{
    if told.len() == 0 {
        Seq::empty()
    } else {
        reported(told.drop_last()) + match told.last() {
            EventView::SftpSearchBatch { search_id, root, query, entries } => entries,
            _ => Seq::empty(),
        }
    }
}

/// Whether an entry is the report of another one: it has its path, its kind, its size, its time
/// of change and its mode.
pub open spec fn reports_on(x: EntryView, e: EntryView) -> bool {
    x.full_path == e.full_path && x.is_dir == e.is_dir && x.kind == e.kind && x.size == e.size
        && x.modified == e.modified && x.mode == e.mode
}

/// Whether an entry is reported in a list.
pub open spec fn is_reported(list: Seq<EntryView>, e: EntryView) -> bool {
    exists|j: int| 0 <= j < list.len() && reports_on(#[trigger] list[j], e)
}

/// All that a search has found so far: what its reports brought, and what is about to be.
pub open spec fn all_found(run: (SearchView, Seq<EventView>, Option<Seq<char>>)) -> Seq<EntryView> {
    reported(run.1) + run.0.emitter.pending
}

/// What matches is reported: whenever the search takes in a listing, every entry of it whose name
/// in lower case, or whose path in lower case, holds the trimmed query in lower case is among
/// what the search has found, unless the bound on what is found was reached. When the search has
/// ended, all that it found has been reported in its batches.
pub proof fn law_matching_entry_is_reported(
    search_id: Seq<char>,
    root: Seq<char>,
    query: Seq<char>,
    kind: SearchKind,
    cancelled: bool,
    now: u64,
    answers: Seq<SearchAnswer>,
    k: int,
    i: int,
)
    requires
        0 <= k < answers.len(),
        search::searched(
            search::fresh_search(search_id, root, query, kind),
            cancelled,
            now,
            answers.take(k),
        ).2 is Some,
        answers[k].entries is Some,
        0 <= i < answers[k].entries->0.len(),
        ({
            let e = answers[k].entries->0[i];
            let needle = text::unicode_lower(text::trimmed(query));
            ||| needle.len() == 0
            ||| text::has_text(text::unicode_lower(e.name), needle)
            ||| text::has_text(text::unicode_lower(e.full_path), needle)
        }),
        search::searched(
            search::fresh_search(search_id, root, query, kind),
            cancelled,
            now,
            answers,
        ).0.emitter.found < 400,
    ensures
        ({
            let run = search::searched(
                search::fresh_search(search_id, root, query, kind),
                cancelled,
                now,
                answers,
            );
            let e = answers[k].entries->0[i];
            &&& is_reported(all_found(run), e)
            &&& run.2 is None ==> is_reported(reported(run.1), e)
        }),
{
    let s = search::fresh_search(search_id, root, query, kind);
    let e = answers[k].entries->0[i];
    lemma_holds(e, s.needle);
    lemma_run(s, cancelled, now, answers);
    lemma_run_reports(s, cancelled, now, answers, k, i);
    let run = search::searched(s, cancelled, now, answers);
    assert(reported(run.1) + Seq::<EntryView>::empty() =~= reported(run.1));
    if run.2 is None {
        lemma_ended_is_flushed(s, cancelled, now, answers);
    }
}

/// Every entry is found by its own name, in whatever case the query is written: where the query,
/// but for white space at its ends, has the same lower case as the name, the entry is reported.
pub proof fn law_entry_is_found_by_its_name(
    search_id: Seq<char>,
    root: Seq<char>,
    query: Seq<char>,
    kind: SearchKind,
    cancelled: bool,
    now: u64,
    answers: Seq<SearchAnswer>,
    k: int,
    i: int,
)
    requires
        0 <= k < answers.len(),
        search::searched(
            search::fresh_search(search_id, root, query, kind),
            cancelled,
            now,
            answers.take(k),
        ).2 is Some,
        answers[k].entries is Some,
        0 <= i < answers[k].entries->0.len(),
        text::unicode_lower(text::trimmed(query)) == text::unicode_lower(
            answers[k].entries->0[i].name,
        ),
        search::searched(
            search::fresh_search(search_id, root, query, kind),
            cancelled,
            now,
            answers,
        ).0.emitter.found < 400,
    ensures
        is_reported(
            all_found(
                search::searched(
                    search::fresh_search(search_id, root, query, kind),
                    cancelled,
                    now,
                    answers,
                ),
            ),
            answers[k].entries->0[i],
        ),
{
    let low = text::unicode_lower(answers[k].entries->0[i].name);
    assert(low.subrange(0int, 0int + low.len()) =~= low);
    law_matching_entry_is_reported(
        search_id,
        root,
        query,
        kind,
        cancelled,
        now,
        answers,
        k,
        i,
    );
}

/// Only what matches is reported: whatever the search has found stood in a listing that it was
/// given, and the lower case of its name, a blank and the lower case of its path hold the trimmed
/// query in lower case.
pub proof fn law_reported_entry_matches(
    search_id: Seq<char>,
    root: Seq<char>,
    query: Seq<char>,
    kind: SearchKind,
    cancelled: bool,
    now: u64,
    answers: Seq<SearchAnswer>,
    j: int,
) -> (at: (int, int))
    requires
        0 <= j < all_found(
            search::searched(
                search::fresh_search(search_id, root, query, kind),
                cancelled,
                now,
                answers,
            ),
        ).len(),
    ensures
        0 <= at.0 < answers.len(),
        answers[at.0].entries is Some,
        0 <= at.1 < answers[at.0].entries->0.len(),
        ({
            let e = answers[at.0].entries->0[at.1];
            let needle = text::unicode_lower(text::trimmed(query));
            &&& reports_on(
                all_found(
                    search::searched(
                        search::fresh_search(search_id, root, query, kind),
                        cancelled,
                        now,
                        answers,
                    ),
                )[j],
                e,
            )
            &&& needle.len() == 0 || text::has_text(
                text::unicode_lower(e.name) + " "@ + text::unicode_lower(e.full_path),
                needle,
            )
        }),
    decreases answers.len(),
{
    let s = search::fresh_search(search_id, root, query, kind);
    let run = search::searched(s, cancelled, now, answers);
    lemma_run(s, cancelled, now, answers);
    if answers.len() == 0 {
        lemma_seek(s, cancelled, now);
        assert(all_found(run) =~= s.emitter.pending);
        (0, 0)
    } else {
        let front = answers.drop_last();
        let before = search::searched(s, cancelled, now, front);
        lemma_run(s, cancelled, now, front);
        if j < all_found(before).len() {
            let at = law_reported_entry_matches(
                search_id,
                root,
                query,
                kind,
                cancelled,
                now,
                front,
                j,
            );
            lemma_run_grows(s, cancelled, now, answers);
            assert(all_found(run)[j] == all_found(before)[j]);
            assert(front[at.0] == answers[at.0]);
            at
        } else {
            lemma_run_grows(s, cancelled, now, answers);
            let a = answers.last();
            assert(a.entries is Some);
            let i = lemma_hits_from(before.0, a.entries->0, a.now, j - all_found(before).len());
            assert(answers[answers.len() - 1] == a);
            (answers.len() - 1, i)
        }
    }
}

/// A reported entry is named by its path from the root of the search: what stands behind the
/// root and a slash.
pub proof fn law_hit_is_named_from_the_root(s: SearchView, e: EntryView, rest: Seq<char>)
    requires
        e.full_path == text::strip_end(s.base, CharSet::Only('/')) + "/"@ + rest,
        rest.len() > 0,
        rest[0] != '/',
        s.needle.len() == 0 || text::has_text(text::unicode_lower(e.name), s.needle),
        e.full_path != s.base,
    ensures
        s.hit(e).name == rest,
        reports_on(s.hit(e), e),
{
    lemma_holds(e, s.needle);
    reveal_strlit("/");
    let bare = text::strip_end(s.base, CharSet::Only('/'));
    let behind = "/"@ + rest;
    assert(e.full_path =~= bare + behind);
    assert(e.full_path.take(bare.len() as int) =~= bare);
    assert(e.full_path.skip(bare.len() as int) =~= behind);
    assert(behind[0] == '/');
    assert(behind.drop_first() =~= rest);
    reveal_with_fuel(text::strip_start, 2);
}

/// Every report of a search names the search: its identifier, its root and its query.
pub proof fn law_reports_name_the_search(
    search_id: Seq<char>,
    root: Seq<char>,
    query: Seq<char>,
    kind: SearchKind,
    cancelled: bool,
    now: u64,
    answers: Seq<SearchAnswer>,
    j: int,
)
    requires
        0 <= j < search::searched(
            search::fresh_search(search_id, root, query, kind),
            cancelled,
            now,
            answers,
        ).1.len(),
    ensures
        match search::searched(
            search::fresh_search(search_id, root, query, kind),
            cancelled,
            now,
            answers,
        ).1[j] {
            EventView::SftpSearchBatch { search_id: i, root: r, query: q, entries } => i
                == search_id && r == root && q == query && entries.len() > 0,
            EventView::SftpSearchStatus { search_id: i, root: r, query: q, .. } => i == search_id
                && r == root && q == query,
            _ => false,
        },
{
    lemma_run(search::fresh_search(search_id, root, query, kind), cancelled, now, answers);
}

/// When a search has ended, its last report says so: cancelled where a stop was asked for, else
/// completed, with how many entries it found, which are as many as its batches brought.
pub proof fn law_end_is_told(
    search_id: Seq<char>,
    root: Seq<char>,
    query: Seq<char>,
    kind: SearchKind,
    cancelled: bool,
    now: u64,
)
    ensures
        ({
            let (end, told, ask) = search::fresh_search(search_id, root, query, kind).seek(
                cancelled,
                now,
            );
            ask is None ==> told.len() > 0 && (told.last() matches EventView::SftpSearchStatus {
                state,
                found,
                ..
            } && found == end.emitter.found && state == if cancelled {
                SftpSearchState::Cancelled
            } else {
                SftpSearchState::Completed
            })
        }),
{
    lemma_seek_end(search::fresh_search(search_id, root, query, kind), cancelled, now);
}

/// The same, after the last answer.
pub proof fn law_end_after_answer_is_told(
    s: SearchView,
    entries: Option<Seq<EntryView>>,
    cancelled: bool,
    now: u64,
)
    ensures
        ({
            let (end, told, ask) = s.answered(entries, cancelled, now);
            ask is None ==> end.ended && told.len() > 0 && (
            told.last() matches EventView::SftpSearchStatus { state, found, .. } && found
                == end.emitter.found && state == if cancelled {
                SftpSearchState::Cancelled
            } else {
                SftpSearchState::Completed
            })
        }),
{
    match entries {
        None => {
            lemma_seek_end(s, cancelled, now);
        },
        Some(list) => {
            lemma_seek_end(s.after_entries(list, now), cancelled, now);
        },
    }
}

proof fn lemma_seek_end(s: SearchView, cancelled: bool, now: u64)
    ensures
        ({
            let (end, told, ask) = s.seek(cancelled, now);
            ask is None ==> end.ended && told.len() > 0 && (
            told.last() matches EventView::SftpSearchStatus { state, found, .. } && found
                == end.emitter.found && state == if cancelled {
                SftpSearchState::Cancelled
            } else {
                SftpSearchState::Completed
            })
        }),
    decreases s.roots.len(), s.stack.len(),
{
    if s.stack.len() == 0 {
        if !(s.roots.len() == 0 || s.emitter.found >= search::MAX_RESULTS || cancelled) {
            lemma_seek_end(s.next_root(), cancelled, now);
        }
    } else if !cancelled {
        if s.seen.contains(remote_path::remote_dir(s.stack.last())) {
            lemma_seek_end(SearchView { stack: s.stack.drop_last(), ..s }, cancelled, now);
        } else {
            lemma_seek_end(SearchView { stack: Seq::empty(), ..s.taken(now) }, cancelled, now);
        }
    }
}

/// What the name or the path holds is held by both with a blank between.
proof fn lemma_holds(e: EntryView, needle: Seq<char>)
    requires
        needle.len() == 0 || text::has_text(text::unicode_lower(e.name), needle) || text::has_text(
            text::unicode_lower(e.full_path),
            needle,
        ),
    ensures
        search::matches_needle(needle, e),
{
    let a = text::unicode_lower(e.name);
    let b = text::unicode_lower(e.full_path);
    let hay = a + " "@ + b;
    if needle.len() > 0 {
        if text::has_text(a, needle) {
            let i = choose|i: int|
                0 <= i && i + needle.len() <= a.len() && #[trigger] a.subrange(
                    i,
                    i + needle.len(),
                ) == needle;
            assert(hay.subrange(i, i + needle.len()) =~= a.subrange(i, i + needle.len()));
        } else {
            let i = choose|i: int|
                0 <= i && i + needle.len() <= b.len() && #[trigger] b.subrange(
                    i,
                    i + needle.len(),
                ) == needle;
            let at = a.len() + " "@.len() + i;
            assert(hay.subrange(at, at + needle.len()) =~= b.subrange(i, i + needle.len()));
        }
    }
}

proof fn lemma_reported_joins(a: Seq<EventView>, b: Seq<EventView>)
    ensures
        reported(a + b) == reported(a) + reported(b),
    decreases b.len(),
{
    if b.len() == 0 {
        assert(a + b =~= a);
        assert(reported(a) + reported(b) =~= reported(a));
    } else {
        assert((a + b).drop_last() =~= a + b.drop_last());
        lemma_reported_joins(a, b.drop_last());
        assert(reported(a + b) =~= reported(a) + reported(b));
    }
}

proof fn lemma_reported_batch(e: EmitterView)
    ensures
        reported(e.batch()) == e.pending,
{
    reveal_with_fuel(reported, 2);
    if e.pending.len() > 0 {
        assert(e.batch().drop_last() =~= Seq::<EventView>::empty());
        assert(reported(e.batch()) =~= e.pending);
    } else {
        assert(e.pending =~= Seq::<EntryView>::empty());
    }
}

proof fn lemma_reported_visit(e: EmitterView, now: u64)
    ensures
        reported(e.visit_reports(now)) == Seq::<EntryView>::empty(),
{
    reveal_with_fuel(reported, 2);
    if e.tells_progress(now) {
        assert(e.visit_reports(now).drop_last() =~= Seq::<EventView>::empty());
        assert(reported(e.visit_reports(now)) =~= Seq::<EntryView>::empty());
    }
}

/// Whether reports name a search.
spec fn name_it(told: Seq<EventView>, e: EmitterView) -> bool {
    forall|j: int|
        0 <= j < told.len() ==> match #[trigger] told[j] {
            EventView::SftpSearchBatch { search_id, root, query, entries } => search_id
                == e.search_id && root == e.root && query == e.query && entries.len() > 0,
            EventView::SftpSearchStatus { search_id, root, query, .. } => search_id == e.search_id
                && root == e.root && query == e.query,
            _ => false,
        }
}

/// Whether two searches are the same one.
spec fn same_search(a: SearchView, b: SearchView) -> bool {
    a.needle == b.needle && a.kind == b.kind && a.emitter.search_id == b.emitter.search_id
        && a.emitter.root == b.emitter.root && a.emitter.query == b.emitter.query
}

proof fn lemma_name_it_joins(a: Seq<EventView>, b: Seq<EventView>, e: EmitterView)
    requires
        name_it(a, e),
        name_it(b, e),
    ensures
        name_it(a + b, e),
{
    let all = a + b;
    assert forall|j: int| 0 <= j < all.len() implies match #[trigger] all[j] {
        EventView::SftpSearchBatch { search_id, root, query, entries } => search_id == e.search_id
            && root == e.root && query == e.query && entries.len() > 0,
        EventView::SftpSearchStatus { search_id, root, query, .. } => search_id == e.search_id
            && root == e.root && query == e.query,
        _ => false,
    } by {
        if j < a.len() {
            assert(all[j] == a[j]);
        } else {
            assert(all[j] == b[j - a.len()]);
        }
    }
}

proof fn lemma_seek(s: SearchView, cancelled: bool, now: u64)
    ensures
        ({
            let (end, told, ask) = s.seek(cancelled, now);
            &&& reported(told) + end.emitter.pending == s.emitter.pending
            &&& same_search(end, s)
            &&& end.emitter.found == s.emitter.found
            &&& name_it(told, s.emitter)
            &&& ask is None ==> end.emitter.pending.len() == 0
        }),
    decreases s.roots.len(), s.stack.len(),
{
    let e = s.emitter;
    lemma_reported_batch(e);
    lemma_reported_visit(e, now);
    let last = s.last_reports(cancelled, now);
    assert(last.drop_last() =~= e.batch());
    assert(reported(last) =~= reported(e.batch()));
    assert(e.pending + Seq::<EntryView>::empty() =~= e.pending);
    assert(Seq::<EntryView>::empty() + e.pending =~= e.pending);
    if e.pending.len() == 0 {
        assert(e.pending =~= Seq::<EntryView>::empty());
    }
    if s.stack.len() == 0 {
        if !(s.roots.len() == 0 || e.found >= search::MAX_RESULTS || cancelled) {
            lemma_seek(s.next_root(), cancelled, now);
        }
    } else if !cancelled {
        let key = remote_path::remote_dir(s.stack.last());
        if s.seen.contains(key) {
            lemma_seek(SearchView { stack: s.stack.drop_last(), ..s }, cancelled, now);
        } else {
            let next = s.taken(now);
            if next.exhausted() {
                let cut = SearchView { stack: Seq::empty(), ..next };
                lemma_seek(cut, cancelled, now);
                let (end, later, ask) = cut.seek(cancelled, now);
                lemma_reported_joins(e.visit_reports(now), later);
                lemma_name_it_joins(e.visit_reports(now), later, e);
                assert(Seq::<EntryView>::empty() + reported(later) =~= reported(later));
            }
        }
    }
}

/// What a listing adds to what was found.
spec fn hits(s: SearchView, entries: Seq<EntryView>, now: u64) -> Seq<EntryView>
    decreases entries.len(),
{
    if entries.len() == 0 {
        Seq::empty()
    } else {
        let first = if search::matches_needle(s.needle, entries[0]) {
            seq![s.hit(entries[0])]
        } else {
            Seq::empty()
        };
        if s.enough(entries[0], now) {
            first
        } else {
            first + hits(s.after_entry(entries[0], now), entries.drop_first(), now)
        }
    }
}

proof fn lemma_entries(s: SearchView, entries: Seq<EntryView>, now: u64)
    ensures
        ({
            let end = s.after_entries(entries, now);
            let told = s.entries_reports(entries, now);
            &&& reported(told) + end.emitter.pending == s.emitter.pending + hits(s, entries, now)
            &&& same_search(end, s)
            &&& name_it(told, s.emitter)
            &&& end.emitter.found >= s.emitter.found
        }),
    decreases entries.len(),
{
    if entries.len() == 0 {
        assert(reported(s.entries_reports(entries, now)) + s.emitter.pending =~= s.emitter.pending);
        assert(s.emitter.pending + hits(s, entries, now) =~= s.emitter.pending);
    } else {
        let e = entries[0];
        let next = s.after_entry(e, now);
        let first = s.entry_reports(e, now);
        let one = if search::matches_needle(s.needle, e) {
            seq![s.hit(e)]
        } else {
            Seq::empty()
        };
        lemma_reported_batch(s.emitter.with(s.hit(e)));
        assert(reported(first) + next.emitter.pending =~= s.emitter.pending + one);
        if !s.enough(e, now) {
            let rest = entries.drop_first();
            let later = next.entries_reports(rest, now);
            lemma_entries(next, rest, now);
            lemma_reported_joins(first, later);
            lemma_name_it_joins(first, later, s.emitter);
            let end = s.after_entries(entries, now);
            assert(reported(first) + reported(later) + end.emitter.pending =~= reported(first) + (
            reported(later) + end.emitter.pending));
            assert(reported(first) + (next.emitter.pending + hits(next, rest, now)) =~= (reported(
                first,
            ) + next.emitter.pending) + hits(next, rest, now));
            assert(s.emitter.pending + one + hits(next, rest, now) =~= s.emitter.pending + (one
                + hits(next, rest, now)));
        }
    }
}

/// Every matching entry is among what a listing adds, unless the bound was reached.
proof fn lemma_hits_has(s: SearchView, entries: Seq<EntryView>, now: u64, i: int)
    requires
        0 <= i < entries.len(),
        search::matches_needle(s.needle, entries[i]),
        s.after_entries(entries, now).emitter.found < search::MAX_RESULTS,
    ensures
        is_reported(hits(s, entries, now), entries[i]),
    decreases entries.len(),
{
    let e = entries[0];
    let next = s.after_entry(e, now);
    let rest = entries.drop_first();
    let all = hits(s, entries, now);
    assert(!s.enough(e, now));
    let first = if search::matches_needle(s.needle, e) {
        seq![s.hit(e)]
    } else {
        Seq::empty()
    };
    if i == 0 {
        assert(all[0] == s.hit(e));
        assert(reports_on(all[0], e));
    } else {
        assert(rest[i - 1] == entries[i]);
        lemma_hits_has(next, rest, now, i - 1);
        let later = hits(next, rest, now);
        let j = choose|j: int| 0 <= j < later.len() && reports_on(#[trigger] later[j], entries[i]);
        assert(all[first.len() + j] == later[j]);
    }
}

/// What a listing adds stands in it and matches.
proof fn lemma_hits_from(s: SearchView, entries: Seq<EntryView>, now: u64, j: int) -> (i: int)
    requires
        0 <= j < hits(s, entries, now).len(),
    ensures
        0 <= i < entries.len(),
        search::matches_needle(s.needle, entries[i]),
        reports_on(hits(s, entries, now)[j], entries[i]),
    decreases entries.len(),
{
    let e = entries[0];
    let next = s.after_entry(e, now);
    let rest = entries.drop_first();
    let first = if search::matches_needle(s.needle, e) {
        seq![s.hit(e)]
    } else {
        Seq::empty()
    };
    if j < first.len() {
        0
    } else {
        let i = lemma_hits_from(next, rest, now, j - first.len());
        assert(rest[i] == entries[i + 1]);
        i + 1
    }
}

proof fn lemma_run(s: SearchView, cancelled: bool, now: u64, answers: Seq<SearchAnswer>)
    ensures
        ({
            let run = search::searched(s, cancelled, now, answers);
            same_search(run.0, s) && name_it(run.1, s.emitter)
        }),
    decreases answers.len(),
{
    if answers.len() == 0 {
        lemma_seek(s, cancelled, now);
    } else {
        let before = search::searched(s, cancelled, now, answers.drop_last());
        lemma_run(s, cancelled, now, answers.drop_last());
        if before.2 is Some {
            let a = answers.last();
            let more = before.0.answered(a.entries, a.cancelled, a.now).1;
            match a.entries {
                None => {
                    lemma_seek(before.0, a.cancelled, a.now);
                },
                Some(list) => {
                    let there = before.0.after_entries(list, a.now);
                    lemma_entries(before.0, list, a.now);
                    lemma_seek(there, a.cancelled, a.now);
                    lemma_name_it_joins(
                        before.0.entries_reports(list, a.now),
                        there.seek(a.cancelled, a.now).1,
                        s.emitter,
                    );
                },
            }
            lemma_name_it_joins(before.1, more, s.emitter);
        }
    }
}

/// What was found grows by what the last listing adds.
proof fn lemma_run_grows(s: SearchView, cancelled: bool, now: u64, answers: Seq<SearchAnswer>)
    requires
        answers.len() > 0,
    ensures
        ({
            let before = search::searched(s, cancelled, now, answers.drop_last());
            let run = search::searched(s, cancelled, now, answers);
            &&& run.0.emitter.found >= before.0.emitter.found
            &&& all_found(run) == all_found(before) + if before.2 is Some {
                added(before.0, answers.last())
            } else {
                Seq::empty()
            }
        }),
{
    let before = search::searched(s, cancelled, now, answers.drop_last());
    let run = search::searched(s, cancelled, now, answers);
    let a = answers.last();
    if before.2 is None {
        assert(all_found(run) =~= all_found(before) + Seq::<EntryView>::empty());
    } else {
        let (end, more, next) = before.0.answered(a.entries, a.cancelled, a.now);
        lemma_answer_adds(before.0, a);
        lemma_found_after(
            before.1,
            more,
            before.0.emitter.pending,
            end.emitter.pending,
            added(before.0, a),
        );
    }
}

/// What an answer adds to what was found.
spec fn added(s: SearchView, a: SearchAnswer) -> Seq<EntryView> {
    match a.entries {
        Some(list) => hits(s, list, a.now),
        None => Seq::empty(),
    }
}

proof fn lemma_answer_adds(s: SearchView, a: SearchAnswer)
    ensures
        ({
            let (end, more, next) = s.answered(a.entries, a.cancelled, a.now);
            &&& reported(more) + end.emitter.pending == s.emitter.pending + added(s, a)
            &&& end.emitter.found >= s.emitter.found
        }),
{
    let (end, more, next) = s.answered(a.entries, a.cancelled, a.now);
    match a.entries {
        None => {
            lemma_seek(s, a.cancelled, a.now);
            assert(s.emitter.pending + added(s, a) =~= s.emitter.pending);
        },
        Some(list) => {
            let there = s.after_entries(list, a.now);
            let first = s.entries_reports(list, a.now);
            let later = there.seek(a.cancelled, a.now).1;
            lemma_entries(s, list, a.now);
            lemma_seek(there, a.cancelled, a.now);
            lemma_found_after(
                first,
                later,
                there.emitter.pending,
                end.emitter.pending,
                Seq::empty(),
            );
            let so_far = reported(first) + there.emitter.pending;
            assert(so_far + Seq::<EntryView>::empty() =~= so_far);
        },
    }
}

proof fn lemma_found_after(
    told: Seq<EventView>,
    more: Seq<EventView>,
    before: Seq<EntryView>,
    after: Seq<EntryView>,
    new: Seq<EntryView>,
)
    requires
        reported(more) + after == before + new || (new.len() == 0 && reported(more) + after
            == before),
    ensures
        reported(told + more) + after == reported(told) + before + new,
{
    lemma_reported_joins(told, more);
    let a = reported(told);
    let b = reported(more);
    assert(a + b + after =~= a + (b + after));
    assert(a + (before + new) =~= a + before + new);
    if new.len() == 0 {
        assert(before + new =~= before);
    }
}

proof fn lemma_run_reports(
    s: SearchView,
    cancelled: bool,
    now: u64,
    answers: Seq<SearchAnswer>,
    k: int,
    i: int,
)
    requires
        0 <= k < answers.len(),
        search::searched(s, cancelled, now, answers.take(k)).2 is Some,
        answers[k].entries is Some,
        0 <= i < answers[k].entries->0.len(),
        search::matches_needle(s.needle, answers[k].entries->0[i]),
        search::searched(s, cancelled, now, answers).0.emitter.found < search::MAX_RESULTS,
    ensures
        is_reported(
            all_found(search::searched(s, cancelled, now, answers)),
            answers[k].entries->0[i],
        ),
    decreases answers.len(),
{
    let front = answers.drop_last();
    let before = search::searched(s, cancelled, now, front);
    let run = search::searched(s, cancelled, now, answers);
    let e = answers[k].entries->0[i];
    lemma_run_grows(s, cancelled, now, answers);
    if k < front.len() {
        assert(front.take(k) =~= answers.take(k));
        assert(front[k] == answers[k]);
        lemma_run_reports(s, cancelled, now, front, k, i);
        let j = choose|j: int|
            0 <= j < all_found(before).len() && reports_on(#[trigger] all_found(before)[j], e);
        assert(all_found(run)[j] == all_found(before)[j]);
    } else {
        assert(front =~= answers.take(k));
        let a = answers.last();
        assert(answers[k] == a);
        let list = a.entries->0;
        lemma_run(s, cancelled, now, front);
        lemma_seek(before.0.after_entries(list, a.now), a.cancelled, a.now);
        lemma_hits_has(before.0, list, a.now, i);
        let h = hits(before.0, list, a.now);
        let j = choose|j: int| 0 <= j < h.len() && reports_on(#[trigger] h[j], e);
        assert(all_found(run)[all_found(before).len() + j] == h[j]);
    }
}

proof fn lemma_ended_is_flushed(
    s: SearchView,
    cancelled: bool,
    now: u64,
    answers: Seq<SearchAnswer>,
)
    requires
        search::searched(s, cancelled, now, answers).2 is None,
    ensures
        search::searched(s, cancelled, now, answers).0.emitter.pending == Seq::<
            EntryView,
        >::empty(),
    decreases answers.len(),
{
    let run = search::searched(s, cancelled, now, answers);
    if answers.len() == 0 {
        lemma_seek(s, cancelled, now);
    } else {
        let before = search::searched(s, cancelled, now, answers.drop_last());
        if before.2 is None {
            lemma_ended_is_flushed(s, cancelled, now, answers.drop_last());
        } else {
            let a = answers.last();
            match a.entries {
                None => {
                    lemma_seek(before.0, a.cancelled, a.now);
                },
                Some(list) => {
                    lemma_seek(before.0.after_entries(list, a.now), a.cancelled, a.now);
                },
            }
        }
    }
    assert(run.0.emitter.pending =~= Seq::<EntryView>::empty());
}

/// A search finds no more than four hundred entries, and wants no listing beyond nine hundred
/// directories, whatever the server answers.
pub proof fn law_search_has_bounds(
    search_id: Seq<char>,
    root: Seq<char>,
    query: Seq<char>,
    kind: SearchKind,
    cancelled: bool,
    now: u64,
    answers: Seq<SearchAnswer>,
)
    ensures
        ({
            let (end, told, ask) = search::searched(
                search::fresh_search(search_id, root, query, kind),
                cancelled,
                now,
                answers,
            );
            &&& end.emitter.found <= 400
            &&& ask is Some ==> answers.len() < 900 && end.emitter.found < 400
        }),
{
    search::law_search_is_bounded(search_id, root, query, kind, cancelled, now, answers);
}

/// What is found is not held back for long: at the twenty-fifth entry, or a hundred and twenty
/// milliseconds after the last batch, the pending entries are reported, all of them in their
/// order; the first directory is reported, and later ones every two hundred and twenty
/// milliseconds.
pub proof fn law_batches_are_due(e: EmitterView, x: EntryView, now: u64)
    requires
        now >= e.last_batch,
        now >= e.last_status,
    ensures
        e.pending.len() + 1 >= 25 || now - e.last_batch >= 120 ==> e.push_reports(x, now) == seq![
            EventView::SftpSearchBatch {
                search_id: e.search_id,
                root: e.root,
                query: e.query,
                entries: e.pending.push(x),
            },
        ] && e.pushed(x, now).pending.len() == 0,
        e.pending.len() + 1 < 25 && now - e.last_batch < 120 ==> e.push_reports(x, now).len() == 0
            && e.pushed(x, now).pending == e.pending.push(x),
        e.scanned == 0 || now - e.last_status >= 220 ==> e.visit_reports(now).len() == 1,
        0 < e.scanned < usize::MAX && now - e.last_status < 220 ==> e.visit_reports(now).len() == 0,
        e.found < usize::MAX ==> e.pushed(x, now).found == e.found + 1,
        e.scanned < usize::MAX ==> e.visited(now).scanned == e.scanned + 1,
{
}

// ---------------------------------------------------------------------------
// Where it looks
// ---------------------------------------------------------------------------

/// The directories that a search wanted listed, in their order.
pub open spec fn asked_for(
    s: SearchView,
    cancelled: bool,
    now: u64,
    answers: Seq<SearchAnswer>,
) -> Seq<Seq<char>>
    decreases answers.len(),
{
    let run = search::searched(s, cancelled, now, answers);
    let own = match run.2 {
        Some(dir) => seq![dir],
        None => Seq::empty(),
    };
    if answers.len() == 0 {
        own
    } else {
        let before = search::searched(s, cancelled, now, answers.drop_last());
        asked_for(s, cancelled, now, answers.drop_last()) + if before.2 is Some {
            own
        } else {
            Seq::empty()
        }
    }
}

/// Whether a directory is among others, by its normal form.
pub open spec fn is_among(list: Seq<Seq<char>>, dir: Seq<char>) -> bool {
    exists|j: int| 0 <= j < list.len() && remote_path::remote_dir(#[trigger] list[j]) == dir
}

/// Whether no stop was asked for.
pub open spec fn never_stopped(answers: Seq<SearchAnswer>) -> bool {
    forall|i: int| 0 <= i < answers.len() ==> !(#[trigger] answers[i]).cancelled
}

/// A search looks below every root: when it has ended without a stop and without reaching its
/// bounds, every root in its normal form was listed.
pub proof fn law_every_root_is_listed(
    search_id: Seq<char>,
    root: Seq<char>,
    query: Seq<char>,
    kind: SearchKind,
    now: u64,
    answers: Seq<SearchAnswer>,
    r: int,
)
    requires
        ended_within_bounds(search::fresh_search(search_id, root, query, kind), now, answers),
        0 <= r < search_roots::search_roots(root).len(),
        remote_path::remote_dir(search_roots::search_roots(root)[r])
            == search_roots::search_roots(root)[r],
    ensures
        is_among(
            asked_for(search::fresh_search(search_id, root, query, kind), false, now, answers),
            search_roots::search_roots(root)[r],
        ),
{
    let s = search::fresh_search(search_id, root, query, kind);
    let roots = search_roots::search_roots(root);
    assert(s.roots[roots.len() - 1 - r] == roots[r]);
    lemma_looks(s, now, answers, roots[r]);
}

/// A search looks at every depth: when it has ended without a stop and without reaching its
/// bounds, every directory that stood in a listing, under a path in its normal form below the
/// root, was listed itself, unless it stands behind a symbolic link.
pub proof fn law_every_directory_is_listed(
    search_id: Seq<char>,
    root: Seq<char>,
    query: Seq<char>,
    kind: SearchKind,
    now: u64,
    answers: Seq<SearchAnswer>,
    k: int,
    i: int,
    way: Seq<char>,
)
    requires
        ended_within_bounds(search::fresh_search(search_id, root, query, kind), now, answers),
        0 <= k < answers.len(),
        search::searched(
            search::fresh_search(search_id, root, query, kind),
            false,
            now,
            answers.take(k),
        ).2 is Some,
        answers[k].entries is Some,
        0 <= i < answers[k].entries->0.len(),
        lies_below(
            search::searched(
                search::fresh_search(search_id, root, query, kind),
                false,
                now,
                answers.take(k),
            ).0.base,
            answers[k].entries->0[i],
            way,
        ),
    ensures
        is_among(
            asked_for(search::fresh_search(search_id, root, query, kind), false, now, answers),
            answers[k].entries->0[i].full_path,
        ),
{
    lemma_looks_below(
        search::fresh_search(search_id, root, query, kind),
        now,
        answers,
        k,
        i,
        way,
    );
}

/// Whether a search has ended although no stop was asked for and no bound was reached.
pub open spec fn ended_within_bounds(
    s: SearchView,
    now: u64,
    answers: Seq<SearchAnswer>,
) -> bool {
    let run = search::searched(s, false, now, answers);
    &&& run.2 is None
    &&& never_stopped(answers)
    &&& run.0.emitter.found < 400
    &&& run.0.emitter.scanned <= 900
}

/// Whether an entry is a directory with a proper name that lies below a root on the given way,
/// under a path in its normal form.
pub open spec fn lies_below(base: Seq<char>, e: EntryView, way: Seq<char>) -> bool {
    &&& e.is_dir
    &&& e.kind != EntryKind::SymlinkDir
    &&& e.name.len() > 0
    &&& !e.name.contains('/')
    &&& e.name != "."@
    &&& e.name != ".."@
    &&& e.full_path == text::strip_end(base, CharSet::Only('/')) + "/"@ + (way + e.name)
    &&& way.len() > 0 ==> way[0] != '/' && way.last() == '/'
    &&& e.full_path != base
    &&& remote_path::remote_dir(e.full_path) == e.full_path
}

/// Whether a directory was listed, or is to be: it waits itself, or it is a root that waits.
spec fn looked_at(s: SearchView, asked: Seq<Seq<char>>, q: Seq<char>) -> bool {
    is_among(asked, q) || s.stack.contains(q) || s.roots.contains(q)
}

/// Whether every directory that counts as visited was listed.
spec fn seen_was_asked(s: SearchView, asked: Seq<Seq<char>>) -> bool {
    forall|j: int| 0 <= j < s.seen.len() ==> is_among(asked, #[trigger] s.seen[j])
}

proof fn lemma_among_more(a: Seq<Seq<char>>, b: Seq<Seq<char>>, q: Seq<char>)
    requires
        is_among(a, q),
    ensures
        is_among(a + b, q),
{
    let j = choose|j: int| 0 <= j < a.len() && remote_path::remote_dir(#[trigger] a[j]) == q;
    assert((a + b)[j] == a[j]);
}

spec fn own_ask(ask: Option<Seq<char>>) -> Seq<Seq<char>> {
    match ask {
        Some(dir) => seq![dir],
        None => Seq::empty(),
    }
}

proof fn lemma_scanned_grows(s: SearchView, now: u64)
    ensures
        s.seek(false, now).0.emitter.scanned >= s.emitter.scanned,
    decreases s.roots.len(), s.stack.len(),
{
    if s.stack.len() == 0 {
        if !(s.roots.len() == 0 || s.emitter.found >= search::MAX_RESULTS) {
            lemma_scanned_grows(s.next_root(), now);
        }
    } else if s.seen.contains(remote_path::remote_dir(s.stack.last())) {
        lemma_scanned_grows(SearchView { stack: s.stack.drop_last(), ..s }, now);
    } else {
        lemma_scanned_grows(SearchView { stack: Seq::empty(), ..s.taken(now) }, now);
    }
}

/// Seeking forgets no directory.
proof fn lemma_seek_looks(s: SearchView, now: u64, asked: Seq<Seq<char>>, q: Seq<char>)
    requires
        s.emitter.found < search::MAX_RESULTS,
        s.seek(false, now).0.emitter.scanned <= search::MAX_DIRS,
        seen_was_asked(s, asked),
    ensures
        ({
            let (end, told, ask) = s.seek(false, now);
            &&& seen_was_asked(end, asked + own_ask(ask))
            &&& remote_path::remote_dir(q) == q && looked_at(s, asked, q) ==> looked_at(
                end,
                asked + own_ask(ask),
                q,
            )
            &&& ask is None ==> end.stack.len() == 0 && end.roots.len() == 0
        }),
    decreases s.roots.len(), s.stack.len(),
{
    let (end, told, ask) = s.seek(false, now);
    let all = asked + own_ask(ask);
    if s.stack.len() == 0 {
        if s.roots.len() == 0 {
            assert(all =~= asked);
        } else {
            let next = s.next_root();
            if s.roots.contains(q) && remote_path::remote_dir(q) == q {
                let j = s.roots.index_of(q);
                assert(s.roots[j] == q);
                if j == s.roots.len() - 1 {
                    assert(next.stack[0] == q);
                } else {
                    assert(next.roots[j] == q);
                }
            }
            lemma_seek_looks(next, now, asked, q);
        }
    } else {
        let top = s.stack.last();
        let key = remote_path::remote_dir(top);
        let shorter = s.stack.drop_last();
        if s.stack.contains(q) {
            let j = s.stack.index_of(q);
            assert(s.stack[j] == q);
            if j < shorter.len() {
                assert(shorter[j] == q);
            } else {
                assert(top == q);
            }
        }
        if s.seen.contains(key) {
            let j = s.seen.index_of(key);
            assert(s.seen[j] == key);
            lemma_seek_looks(SearchView { stack: shorter, ..s }, now, asked, q);
        } else {
            let next = s.taken(now);
            if next.exhausted() {
                lemma_scanned_grows(SearchView { stack: Seq::empty(), ..next }, now);
            } else {
                assert(all[asked.len() as int] == top);
                assert(is_among(all, key));
                assert forall|j: int| 0 <= j < next.seen.len() implies is_among(
                    all,
                    #[trigger] next.seen[j],
                ) by {
                    if j < s.seen.len() {
                        assert(next.seen[j] == s.seen[j]);
                        lemma_among_more(asked, own_ask(ask), s.seen[j]);
                    }
                }
                if is_among(asked, q) {
                    lemma_among_more(asked, own_ask(ask), q);
                }
            }
        }
    }
}

/// A listing takes no directory from those that wait, and changes neither the roots nor what was
/// visited.
proof fn lemma_entries_look(s: SearchView, entries: Seq<EntryView>, now: u64)
    ensures
        ({
            let end = s.after_entries(entries, now);
            &&& end.roots == s.roots
            &&& end.base == s.base
            &&& end.seen == s.seen
            &&& end.emitter.scanned == s.emitter.scanned
            &&& end.emitter.found >= s.emitter.found
            &&& forall|q: Seq<char>| #[trigger] s.stack.contains(q) ==> end.stack.contains(q)
        }),
    decreases entries.len(),
{
    if entries.len() > 0 {
        let next = s.after_entry(entries[0], now);
        assert forall|q: Seq<char>| #[trigger] s.stack.contains(q) implies next.stack.contains(
            q,
        ) by {
            let j = s.stack.index_of(q);
            assert(s.stack[j] == q);
            assert(next.stack[j] == q);
        }
        if !s.enough(entries[0], now) {
            lemma_entries_look(next, entries.drop_first(), now);
        }
    }
}

/// A directory of a listing waits, or was visited.
proof fn lemma_entry_waits(
    s: SearchView,
    entries: Seq<EntryView>,
    now: u64,
    i: int,
    way: Seq<char>,
)
    requires
        0 <= i < entries.len(),
        lies_below(s.base, entries[i], way),
        s.after_entries(entries, now).emitter.found < search::MAX_RESULTS,
    ensures
        ({
            let end = s.after_entries(entries, now);
            end.stack.contains(entries[i].full_path) || end.seen.contains(entries[i].full_path)
        }),
    decreases entries.len(),
{
    let e = entries[0];
    let next = s.after_entry(e, now);
    let rest = entries.drop_first();
    lemma_entries_look(s, entries, now);
    assert(!s.enough(e, now));
    lemma_entries_look(next, rest, now);
    if i == 0 {
        lemma_hit_name(s, e, way);
        if s.descends(e) {
            assert(next.stack.last() == e.full_path);
            assert(next.stack.contains(e.full_path));
        } else {
            assert(s.seen.contains(e.full_path));
        }
    } else {
        assert(rest[i - 1] == entries[i]);
        lemma_entry_waits(next, rest, now, i - 1, way);
    }
}

proof fn lemma_hit_name(s: SearchView, e: EntryView, way: Seq<char>)
    requires
        lies_below(s.base, e, way),
    ensures
        text::pieces(s.hit(e).name, CharSet::Only('/')).last() == e.name,
{
    let set = CharSet::Only('/');
    assert forall|j: int| 0 <= j < e.name.len() implies !set.contains(#[trigger] e.name[j]) by {
        assert(e.name.contains(e.name[j]));
    }
    text::lemma_whole_piece(e.name, set);
    if search::matches_needle(s.needle, e) {
        let rest = way + e.name;
        reveal_strlit("/");
        let bare = text::strip_end(s.base, set);
        let behind = "/"@ + rest;
        assert(e.full_path =~= bare + behind);
        assert(e.full_path.take(bare.len() as int) =~= bare);
        assert(e.full_path.skip(bare.len() as int) =~= behind);
        assert(behind[0] == '/');
        assert(behind.drop_first() =~= rest);
        assert(rest[0] != '/') by {
            if way.len() == 0 {
                assert(rest[0] == e.name[0]);
                assert(!set.contains(e.name[0]));
            } else {
                assert(rest[0] == way[0]);
            }
        }
        reveal_with_fuel(text::strip_start, 2);
        assert(s.hit(e).name == rest);
        if way.len() == 0 {
            assert(rest =~= e.name);
        } else {
            let before = way.drop_last();
            assert(rest =~= before + seq!['/'] + e.name);
            text::lemma_pieces_cut(before, '/', e.name, set);
            assert(text::pieces(rest, set).last() == e.name);
        }
    }
}

/// Along a search no directory is forgotten that waits at its beginning.
proof fn lemma_looks(s: SearchView, now: u64, answers: Seq<SearchAnswer>, q: Seq<char>)
    requires
        s.seen.len() == 0,
        never_stopped(answers),
        search::searched(s, false, now, answers).0.emitter.found < search::MAX_RESULTS,
        search::searched(s, false, now, answers).0.emitter.scanned <= search::MAX_DIRS,
    ensures
        ({
            let run = search::searched(s, false, now, answers);
            let asked = asked_for(s, false, now, answers);
            &&& seen_was_asked(run.0, asked)
            &&& remote_path::remote_dir(q) == q && (s.stack.contains(q) || s.roots.contains(q))
                ==> looked_at(run.0, asked, q) && (run.2 is None ==> is_among(asked, q))
        }),
    decreases answers.len(),
{
    let run = search::searched(s, false, now, answers);
    let asked = asked_for(s, false, now, answers);
    let none = Seq::<Seq<char>>::empty();
    if answers.len() == 0 {
        lemma_seek(s, false, now);
        lemma_seek_looks(s, now, none, q);
        assert(none + own_ask(run.2) =~= asked);
    } else {
        let front = answers.drop_last();
        let before = search::searched(s, false, now, front);
        lemma_bounds_before(s, now, answers);
        lemma_looks(s, now, front, q);
        let earlier = asked_for(s, false, now, front);
        if before.2 is None {
            assert(asked =~= earlier);
        } else {
            lemma_answer_looks(before.0, now, answers.last(), earlier, q);
        }
    }
}

/// The bounds that hold at the end of a search held before the last answer.
proof fn lemma_bounds_before(s: SearchView, now: u64, answers: Seq<SearchAnswer>)
    requires
        answers.len() > 0,
        never_stopped(answers),
    ensures
        ({
            let before = search::searched(s, false, now, answers.drop_last());
            let run = search::searched(s, false, now, answers);
            &&& never_stopped(answers.drop_last())
            &&& !answers.last().cancelled
            &&& before.0.emitter.found <= run.0.emitter.found
            &&& before.0.emitter.scanned <= run.0.emitter.scanned
        }),
{
    let front = answers.drop_last();
    let before = search::searched(s, false, now, front);
    let a = answers.last();
    assert(answers[answers.len() - 1] == a);
    assert forall|i: int| 0 <= i < front.len() implies !(#[trigger] front[i]).cancelled by {
        assert(front[i] == answers[i]);
    }
    lemma_run_grows(s, false, now, answers);
    if before.2 is Some {
        match a.entries {
            None => {
                lemma_scanned_grows(before.0, a.now);
            },
            Some(list) => {
                lemma_entries_look(before.0, list, a.now);
                lemma_scanned_grows(before.0.after_entries(list, a.now), a.now);
            },
        }
    }
}

/// Over an answer no directory is forgotten that waits.
proof fn lemma_answer_looks(
    s: SearchView,
    now: u64,
    a: SearchAnswer,
    asked: Seq<Seq<char>>,
    q: Seq<char>,
)
    requires
        !a.cancelled,
        s.answered(a.entries, a.cancelled, a.now).0.emitter.found < search::MAX_RESULTS,
        s.answered(a.entries, a.cancelled, a.now).0.emitter.scanned <= search::MAX_DIRS,
        seen_was_asked(s, asked),
    ensures
        ({
            let (end, told, ask) = s.answered(a.entries, a.cancelled, a.now);
            let there = match a.entries {
                Some(list) => s.after_entries(list, a.now),
                None => s,
            };
            &&& seen_was_asked(end, asked + own_ask(ask))
            &&& remote_path::remote_dir(q) == q && (looked_at(s, asked, q) || there.stack.contains(
                q,
            )) ==> looked_at(end, asked + own_ask(ask), q) && (ask is None ==> is_among(
                asked + own_ask(ask),
                q,
            ))
        }),
{
    let there = match a.entries {
        Some(list) => s.after_entries(list, a.now),
        None => s,
    };
    match a.entries {
        Some(list) => {
            lemma_entries_look(s, list, a.now);
        },
        None => {},
    }
    lemma_seek(there, false, a.now);
    assert(seen_was_asked(there, asked));
    lemma_seek_looks(there, a.now, asked, q);
}

/// A directory of a listing that was taken in was listed.
proof fn lemma_looks_below(
    s: SearchView,
    now: u64,
    answers: Seq<SearchAnswer>,
    k: int,
    i: int,
    way: Seq<char>,
)
    requires
        0 <= k < answers.len(),
        s.seen.len() == 0,
        never_stopped(answers),
        search::searched(s, false, now, answers).0.emitter.found < search::MAX_RESULTS,
        search::searched(s, false, now, answers).0.emitter.scanned <= search::MAX_DIRS,
        search::searched(s, false, now, answers.take(k)).2 is Some,
        answers[k].entries is Some,
        0 <= i < answers[k].entries->0.len(),
        lies_below(
            search::searched(s, false, now, answers.take(k)).0.base,
            answers[k].entries->0[i],
            way,
        ),
    ensures
        ({
            let run = search::searched(s, false, now, answers);
            let asked = asked_for(s, false, now, answers);
            let q = answers[k].entries->0[i].full_path;
            &&& seen_was_asked(run.0, asked)
            &&& looked_at(run.0, asked, q)
            &&& run.2 is None ==> is_among(asked, q)
        }),
    decreases answers.len(),
{
    let run = search::searched(s, false, now, answers);
    let asked = asked_for(s, false, now, answers);
    let front = answers.drop_last();
    let before = search::searched(s, false, now, front);
    let earlier = asked_for(s, false, now, front);
    let q = answers[k].entries->0[i].full_path;
    let a = answers.last();
    lemma_bounds_before(s, now, answers);
    if k < front.len() {
        assert(front.take(k) =~= answers.take(k));
        assert(front[k] == answers[k]);
        lemma_looks_below(s, now, front, k, i, way);
        if before.2 is None {
            assert(asked =~= earlier);
        } else {
            lemma_answer_looks(before.0, now, a, earlier, q);
        }
    } else {
        assert(front =~= answers.take(k));
        assert(answers[k] == a);
        let list = a.entries->0;
        lemma_looks(s, now, front, q);
        let there = before.0.after_entries(list, a.now);
        lemma_entries_look(before.0, list, a.now);
        lemma_seek(there, false, a.now);
        lemma_entry_waits(before.0, list, a.now, i, way);
        if there.seen.contains(q) {
            let j = there.seen.index_of(q);
            assert(before.0.seen[j] == q);
        }
        lemma_answer_looks(before.0, now, a, earlier, q);
    }
}

} // verus!
