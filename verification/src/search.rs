//! Searching below directories, within bounds, and reporting what is found in batches.
use crate::events;
use crate::events::{EntryKind, EntryView, EventView, RemoteEntry, SessionEvent, SftpSearchState};
use crate::remote_path;
use crate::search_roots;
use crate::text;
use crate::text::CharSet;
use vstd::prelude::*;

verus! {

/// How many entries a search reports at most.
pub const MAX_RESULTS: usize = 400;

/// How many directories a search visits at most.
pub const MAX_DIRS: usize = 900;

/// How many entries fill a batch.
pub const BATCH_SIZE: usize = 25;

/// After how many milliseconds a batch is sent although it is not full.
pub const BATCH_MS: u64 = 120;

/// How many milliseconds lie at least between two reports on the progress.
pub const STATUS_MS: u64 = 220;

// ---------------------------------------------------------------------------
// Reports
// ---------------------------------------------------------------------------

/// Collects what a search finds and reports it.
pub struct SearchEmitter {
    pub search_id: String,
    pub root: String,
    pub query: String,
    pub pending: Vec<RemoteEntry>,
    pub found: usize,
    pub scanned: usize,
    /// When the last batch was sent, in milliseconds since the start.
    pub last_batch: u64,
    /// When the progress was last reported, in milliseconds since the start.
    pub last_status: u64,
}

/// The contents of a [`SearchEmitter`].
#[verifier::ext_equal]
pub struct EmitterView {
    pub search_id: Seq<char>,
    pub root: Seq<char>,
    pub query: Seq<char>,
    pub pending: Seq<EntryView>,
    pub found: usize,
    pub scanned: usize,
    pub last_batch: u64,
    pub last_status: u64,
}

impl View for SearchEmitter {
    type V = EmitterView;

    open spec fn view(&self) -> EmitterView {
        EmitterView {
            search_id: self.search_id@,
            root: self.root@,
            query: self.query@,
            pending: events::entries_view(self.pending@),
            found: self.found,
            scanned: self.scanned,
            last_batch: self.last_batch,
            last_status: self.last_status,
        }
    }
}

/// One more, but no more than fits.
pub open spec fn one_more(n: usize) -> usize {
    if n < usize::MAX {
        (n + 1) as usize
    } else {
        n
    }
}

/// The time between two moments, nothing where the first is the later one.
pub open spec fn time_since(now: u64, before: u64) -> u64 {
    if now >= before {
        (now - before) as u64
    } else {
        0
    }
}

impl EmitterView {
    /// A search that has found nothing yet.
    pub open spec fn fresh(search_id: Seq<char>, root: Seq<char>, query: Seq<char>) -> EmitterView {
        EmitterView {
            search_id,
            root,
            query,
            pending: Seq::empty(),
            found: 0,
            scanned: 0,
            last_batch: 0,
            last_status: 0,
        }
    }

    /// The report on how far the search has come.
    pub open spec fn report(self, state: SftpSearchState, now: u64) -> EventView {
        EventView::SftpSearchStatus {
            search_id: self.search_id,
            root: self.root,
            query: self.query,
            state,
            found: self.found,
            scanned: self.scanned,
            elapsed_ms: now as u128,
        }
    }

    /// Whether the visit of one more directory is reported.
    pub open spec fn tells_progress(self, now: u64) -> bool {
        one_more(self.scanned) == 1 || time_since(now, self.last_status) >= STATUS_MS
    }

    /// After one more directory.
    pub open spec fn visited(self, now: u64) -> EmitterView {
        EmitterView {
            scanned: one_more(self.scanned),
            last_status: if self.tells_progress(now) {
                now
            } else {
                self.last_status
            },
            ..self
        }
    }

    /// What is reported at one more directory.
    pub open spec fn visit_reports(self, now: u64) -> Seq<EventView> {
        if self.tells_progress(now) {
            seq![
                EmitterView { scanned: one_more(self.scanned), ..self }.report(
                    SftpSearchState::Progress,
                    now,
                ),
            ]
        } else {
            Seq::empty()
        }
    }

    /// After the pending entries were sent.
    pub open spec fn flushed(self, now: u64) -> EmitterView {
        if self.pending.len() == 0 {
            self
        } else {
            EmitterView { pending: Seq::empty(), last_batch: now, ..self }
        }
    }

    /// The batch of the pending entries.
    pub open spec fn batch(self) -> Seq<EventView> {
        if self.pending.len() == 0 {
            Seq::empty()
        } else {
            seq![
                EventView::SftpSearchBatch {
                    search_id: self.search_id,
                    root: self.root,
                    query: self.query,
                    entries: self.pending,
                },
            ]
        }
    }

    /// With one more entry.
    pub open spec fn with(self, e: EntryView) -> EmitterView {
        EmitterView { found: one_more(self.found), pending: self.pending.push(e), ..self }
    }

    /// Whether the pending entries are due.
    pub open spec fn due(self, now: u64) -> bool {
        self.pending.len() >= BATCH_SIZE || time_since(now, self.last_batch) >= BATCH_MS
    }

    /// After one more entry.
    pub open spec fn pushed(self, e: EntryView, now: u64) -> EmitterView {
        if self.with(e).due(now) {
            self.with(e).flushed(now)
        } else {
            self.with(e)
        }
    }

    /// What is reported at one more entry.
    pub open spec fn push_reports(self, e: EntryView, now: u64) -> Seq<EventView> {
        if self.with(e).due(now) {
            self.with(e).batch()
        } else {
            Seq::empty()
        }
    }
}

fn since(now: u64, before: u64) -> (out: u64)
    ensures
        out == time_since(now, before),
{
    if now >= before {
        now - before
    } else {
        0
    }
}

fn more(n: usize) -> (out: usize)
    ensures
        out == one_more(n),
{
    if n < usize::MAX {
        n + 1
    } else {
        n
    }
}

impl SearchEmitter {
    /// A search that has found nothing yet.
    pub fn new(search_id: String, root: String, query: String) -> (out: SearchEmitter)
        ensures
            out@ == EmitterView::fresh(search_id@, root@, query@),
    {
        let out = SearchEmitter {
            search_id,
            root,
            query,
            pending: Vec::new(),
            found: 0,
            scanned: 0,
            last_batch: 0,
            last_status: 0,
        };
        assert(out@.pending =~= Seq::<EntryView>::empty());
        out
    }

    /// The report on how far the search has come.
    pub fn status(&self, state: SftpSearchState, now: u64) -> (out: SessionEvent)
        ensures
            out@ == self@.report(state, now),
    {
        SessionEvent::SftpSearchStatus {
            search_id: self.search_id.clone(),
            root: self.root.clone(),
            query: self.query.clone(),
            state,
            found: self.found,
            scanned: self.scanned,
            elapsed_ms: now as u128,
        }
    }

    /// Counts one more directory. The first one is reported, and later ones when the last
    /// report is old enough.
    pub fn scan_dir(&mut self, now: u64, sink: &mut Vec<SessionEvent>)
        ensures
            final(self)@ == old(self)@.visited(now),
            events::events_view(final(sink)@) == events::events_view(old(sink)@) + old(self)@.visit_reports(now),
    {
        let tells = more(self.scanned) == 1 || since(now, self.last_status) >= STATUS_MS;
        self.scanned = more(self.scanned);
        if tells {
            let e = self.status(SftpSearchState::Progress, now);
            let ghost before = events::events_view(sink@);
            let ghost ev = e@;
            sink.push(e);
            assert(events::events_view(sink@) =~= before + seq![ev]);
            self.last_status = now;
        } else {
            assert(events::events_view(sink@) =~= events::events_view(sink@)
                + Seq::<EventView>::empty());
        }
    }

    /// Adds one more entry. A full batch is sent, and a smaller one when the last is old enough.
    pub fn push(&mut self, entry: RemoteEntry, now: u64, sink: &mut Vec<SessionEvent>)
        ensures
            final(self)@ == old(self)@.pushed(entry@, now),
            events::events_view(final(sink)@) == events::events_view(old(sink)@) + old(self)@.push_reports(entry@, now),
    {
        self.found = more(self.found);
        let ghost before = events::entries_view(self.pending@);
        let ghost ev = entry@;
        self.pending.push(entry);
        assert(events::entries_view(self.pending@) =~= before.push(ev));
        if self.pending.len() >= BATCH_SIZE || since(now, self.last_batch) >= BATCH_MS {
            self.flush(now, sink);
        } else {
            assert(events::events_view(sink@) =~= events::events_view(sink@)
                + Seq::<EventView>::empty());
        }
    }

    /// Sends the pending entries, if there are any.
    pub fn flush(&mut self, now: u64, sink: &mut Vec<SessionEvent>)
        ensures
            final(self)@ == old(self)@.flushed(now),
            events::events_view(final(sink)@) == events::events_view(old(sink)@) + old(self)@.batch(),
    {
        if self.pending.len() == 0 {
            assert(events::events_view(sink@) =~= events::events_view(sink@)
                + Seq::<EventView>::empty());
            return ;
        }
        let mut entries: Vec<RemoteEntry> = Vec::new();
        entries.append(&mut self.pending);
        let e = SessionEvent::SftpSearchBatch {
            search_id: self.search_id.clone(),
            root: self.root.clone(),
            query: self.query.clone(),
            entries,
        };
        let ghost before = events::events_view(sink@);
        let ghost ev = e@;
        assert(events::entries_view(entries@) =~= old(self)@.pending);
        sink.push(e);
        assert(events::events_view(sink@) =~= before + seq![ev]);
        self.last_batch = now;
        assert(self@.pending =~= Seq::<EntryView>::empty());
    }
}

// ---------------------------------------------------------------------------
// The search
// ---------------------------------------------------------------------------

/// How directories are listed for a search.
#[derive(Debug, Clone, Copy, PartialEq, Eq, Structural)]
pub enum SearchKind {
    /// By the file service.
    Native,
    /// By commands over a shell.
    Shell,
}

/// A search that is under way.
pub struct Search {
    pub emitter: SearchEmitter,
    pub kind: SearchKind,
    /// What is searched for, in lower case.
    pub needle: String,
    /// The roots still to come, the next one last.
    pub roots: Vec<String>,
    /// The root that is searched.
    pub base: String,
    /// The directories still to visit below that root, the next one last.
    pub stack: Vec<String>,
    /// The directories visited below that root.
    pub seen: Vec<String>,
    pub ended: bool,
}

/// The contents of a [`Search`].
#[verifier::ext_equal]
pub struct SearchView {
    pub emitter: EmitterView,
    pub kind: SearchKind,
    pub needle: Seq<char>,
    pub roots: Seq<Seq<char>>,
    pub base: Seq<char>,
    pub stack: Seq<Seq<char>>,
    pub seen: Seq<Seq<char>>,
    pub ended: bool,
}

impl View for Search {
    type V = SearchView;

    open spec fn view(&self) -> SearchView {
        SearchView {
            emitter: self.emitter@,
            kind: self.kind,
            needle: self.needle@,
            roots: text::texts(self.roots@),
            base: self.base@,
            stack: text::texts(self.stack@),
            seen: text::texts(self.seen@),
            ended: self.ended,
        }
    }
}

/// What a search does next: the reports it makes, and the directory that it wants listed. No
/// directory is wanted when the search has ended.
pub struct SearchTurn {
    pub events: Vec<SessionEvent>,
    pub ask: Option<String>,
}

/// The contents of an optional text.
pub open spec fn ask_view(a: Option<String>) -> Option<Seq<char>> {
    match a {
        Some(s) => Some(s@),
        None => None,
    }
}

/// The path of an entry from the root of the search.
pub open spec fn relative(kind: SearchKind, base: Seq<char>, e: EntryView) -> Seq<char> {
    if kind == SearchKind::Native && e.full_path == base {
        e.name
    } else {
        text::strip_start(
            text::behind(e.full_path, text::strip_end(base, CharSet::Only('/'))),
            CharSet::Only('/'),
        )
    }
}

/// Whether the name or the path of an entry holds what is searched for, whatever the case.
pub open spec fn matches_needle(needle: Seq<char>, e: EntryView) -> bool {
    needle.len() == 0 || text::has_text(
        text::unicode_lower(e.name) + " "@ + text::unicode_lower(e.full_path),
        needle,
    )
}

impl SearchView {
    /// The entry as it is reported: named by its path from the root of the search.
    pub open spec fn hit(self, e: EntryView) -> EntryView {
        let rel = relative(self.kind, self.base, e);
        if matches_needle(self.needle, e) && rel.len() > 0 {
            EntryView { name: rel, ..e }
        } else {
            e
        }
    }

    /// Whether the search goes on below an entry.
    pub open spec fn descends(self, e: EntryView) -> bool {
        let name = text::pieces(self.hit(e).name, CharSet::Only('/')).last();
        e.is_dir && e.kind != EntryKind::SymlinkDir && name != "."@ && name != ".."@
            && !self.seen.contains(remote_path::remote_dir(e.full_path))
    }

    /// After an entry was looked at, whether it is reported or not.
    pub open spec fn after_entry(self, e: EntryView, now: u64) -> SearchView {
        let hit = matches_needle(self.needle, e);
        let emitter = if hit {
            self.emitter.pushed(self.hit(e), now)
        } else {
            self.emitter
        };
        if hit && emitter.found >= MAX_RESULTS {
            SearchView { emitter, ..self }
        } else if self.descends(e) {
            SearchView {
                emitter,
                stack: self.stack.push(remote_path::remote_dir(e.full_path)),
                ..self
            }
        } else {
            SearchView { emitter, ..self }
        }
    }

    /// What is reported at an entry.
    pub open spec fn entry_reports(self, e: EntryView, now: u64) -> Seq<EventView> {
        if matches_needle(self.needle, e) {
            self.emitter.push_reports(self.hit(e), now)
        } else {
            Seq::empty()
        }
    }

    /// Whether the rest of a listing is left out because enough was found.
    pub open spec fn enough(self, e: EntryView, now: u64) -> bool {
        matches_needle(self.needle, e) && self.emitter.pushed(self.hit(e), now).found
            >= MAX_RESULTS
    }

    /// After the entries of a listing.
    pub open spec fn after_entries(self, entries: Seq<EntryView>, now: u64) -> SearchView
        decreases entries.len(),
    {
        if entries.len() == 0 {
            self
        } else {
            let next = self.after_entry(entries[0], now);
            if self.enough(entries[0], now) {
                next
            } else {
                next.after_entries(entries.drop_first(), now)
            }
        }
    }

    /// What is reported at the entries of a listing.
    pub open spec fn entries_reports(self, entries: Seq<EntryView>, now: u64) -> Seq<EventView>
        decreases entries.len(),
    {
        if entries.len() == 0 {
            Seq::empty()
        } else if self.enough(entries[0], now) {
            self.entry_reports(entries[0], now)
        } else {
            self.entry_reports(entries[0], now) + self.after_entry(
                entries[0],
                now,
            ).entries_reports(entries.drop_first(), now)
        }
    }

    /// The ended search.
    pub open spec fn closed_at(self, now: u64) -> SearchView {
        SearchView { emitter: self.emitter.flushed(now), ended: true, ..self }
    }

    /// What is reported at the end.
    pub open spec fn last_reports(self, cancelled: bool, now: u64) -> Seq<EventView> {
        self.emitter.batch().push(
            self.emitter.flushed(now).report(
                if cancelled {
                    SftpSearchState::Cancelled
                } else {
                    SftpSearchState::Completed
                },
                now,
            ),
        )
    }

    /// With the search of the next root begun.
    pub open spec fn next_root(self) -> SearchView {
        let base = remote_path::remote_dir(self.roots.last());
        SearchView {
            roots: self.roots.drop_last(),
            base,
            stack: seq![base],
            seen: Seq::empty(),
            ..self
        }
    }

    /// After the next directory was taken to be visited.
    pub open spec fn taken(self, now: u64) -> SearchView {
        SearchView {
            emitter: self.emitter.visited(now),
            stack: self.stack.drop_last(),
            seen: self.seen.push(remote_path::remote_dir(self.stack.last())),
            ..self
        }
    }

    /// Whether the bounds are reached.
    pub open spec fn exhausted(self) -> bool {
        self.emitter.scanned > MAX_DIRS || self.emitter.found >= MAX_RESULTS
    }

    /// The search for the next directory to list: where the search then stands, what it reports
    /// on the way, and the directory, if there is one.
    ///
    /// A directory that was visited is not visited again. Beyond the bounds what is left below a
    /// root is not visited. The search ends when it is cancelled, when enough was found below a
    /// root, and when no root is left.
    pub open spec fn seek(self, cancelled: bool, now: u64) -> (
        SearchView,
        Seq<EventView>,
        Option<Seq<char>>,
    )
        decreases self.roots.len(), self.stack.len(),
    {
        if self.stack.len() == 0 {
            if self.roots.len() == 0 || self.emitter.found >= MAX_RESULTS || cancelled {
                (self.closed_at(now), self.last_reports(cancelled, now), None)
            } else {
                self.next_root().seek(cancelled, now)
            }
        } else if cancelled {
            (self.closed_at(now), self.last_reports(cancelled, now), None)
        } else if self.seen.contains(remote_path::remote_dir(self.stack.last())) {
            SearchView { stack: self.stack.drop_last(), ..self }.seek(cancelled, now)
        } else {
            let next = self.taken(now);
            let told = self.emitter.visit_reports(now);
            if next.exhausted() {
                let (end, later, ask) = SearchView { stack: Seq::empty(), ..next }.seek(
                    cancelled,
                    now,
                );
                (end, told + later, ask)
            } else {
                (next, told, Some(self.stack.last()))
            }
        }
    }

    /// After the answer to a wanted listing; `None` says that the directory could not be listed.
    pub open spec fn answered(self, entries: Option<Seq<EntryView>>, cancelled: bool, now: u64) -> (
        SearchView,
        Seq<EventView>,
        Option<Seq<char>>,
    ) {
        match entries {
            None => self.seek(cancelled, now),
            Some(s) => {
                let told = self.entries_reports(s, now);
                let (end, later, ask) = self.after_entries(s, now).seek(cancelled, now);
                (end, told + later, ask)
            },
        }
    }
}

/// The roots of a search, the first one last.
pub open spec fn root_stack(root: Seq<char>) -> Seq<Seq<char>> {
    search_roots::search_roots(root).reverse()
}

/// A search that has not begun.
pub open spec fn fresh_search(
    search_id: Seq<char>,
    root: Seq<char>,
    query: Seq<char>,
    kind: SearchKind,
) -> SearchView {
    SearchView {
        emitter: EmitterView::fresh(search_id, root, query),
        kind,
        needle: text::unicode_lower(text::trimmed(query)),
        roots: root_stack(root),
        base: "/"@,
        stack: Seq::empty(),
        seen: Seq::empty(),
        ended: false,
    }
}

impl Search {
    /// A search that has not begun, and the report that it starts. The query is the trimmed one;
    /// the roots are separated by semicolons.
    pub fn start(search_id: &str, root: &str, query: &str, kind: SearchKind) -> (out: (
        Search,
        SessionEvent,
    ))
        ensures
            out.0@ == fresh_search(search_id@, root@, query@, kind),
            out.1@ == out.0@.emitter.report(SftpSearchState::Started, 0),
    {
        let split = search_roots::split_search_roots(root);
        let ghost all = text::texts(split@);
        let mut roots: Vec<String> = Vec::new();
        let mut i: usize = split.len();
        while i > 0
            invariant
                i <= split@.len(),
                all == text::texts(split@),
                text::texts(roots@) == all.skip(i as int).reverse(),
            decreases i,
        {
            i = i - 1;
            let ghost before = text::texts(roots@);
            assert(all[i as int] == split@[i as int]@);
            roots.push(split[i].clone());
            assert(text::texts(roots@) =~= before.push(all[i as int]));
            assert(all.skip(i as int).reverse() =~= before.push(all[i as int]));
        }
        assert(all.skip(0) == all);
        let trimmed = text::trim(query);
        let search = Search {
            emitter: SearchEmitter::new(
                search_id.to_string(),
                root.to_string(),
                query.to_string(),
            ),
            kind,
            needle: text::lowercase(trimmed.as_str()),
            roots,
            base: "/".to_string(),
            stack: Vec::new(),
            seen: Vec::new(),
            ended: false,
        };
        assert(search@.stack =~= Seq::<Seq<char>>::empty());
        assert(search@.seen =~= Seq::<Seq<char>>::empty());
        let e = search.emitter.status(SftpSearchState::Started, 0);
        (search, e)
    }

    fn finish(&mut self, cancelled: bool, now: u64, sink: &mut Vec<SessionEvent>)
        ensures
            final(self)@ == old(self)@.closed_at(now),
            events::events_view(final(sink)@) == events::events_view(old(sink)@) + old(self)@.last_reports(cancelled, now),
    {
        let ghost before = events::events_view(sink@);
        let ghost batch = self.emitter@.batch();
        self.emitter.flush(now, sink);
        let state = if cancelled {
            SftpSearchState::Cancelled
        } else {
            SftpSearchState::Completed
        };
        let e = self.emitter.status(state, now);
        let ghost ev = e@;
        let ghost mid = sink@;
        sink.push(e);
        proof {
            events::lemma_events_push(mid, e);
        }
        assert(events::events_view(sink@) =~= before + batch.push(ev));
        self.ended = true;
    }

    fn visit(&mut self, entry: RemoteEntry, now: u64, sink: &mut Vec<SessionEvent>) -> (stop: bool)
        ensures
            final(self)@ == old(self)@.after_entry(entry@, now),
            events::events_view(final(sink)@) == events::events_view(old(sink)@) + old(self)@.entry_reports(entry@, now),
            stop == old(self)@.enough(entry@, now),
    {
        let ghost start = self@;
        let ghost ev = entry@;
        let ghost told = events::events_view(sink@);
        let base = text::trim_end(self.base.as_str(), CharSet::Only('/'));
        let rel = if self.kind == SearchKind::Native && text::same_text(
            entry.full_path.as_str(),
            self.base.as_str(),
        ) {
            entry.name.clone()
        } else {
            let tail = text::drop_start(entry.full_path.as_str(), base.as_str());
            text::trim_start(tail.as_str(), CharSet::Only('/'))
        };
        let low_name = text::lowercase(entry.name.as_str());
        let low_path = text::lowercase(entry.full_path.as_str());
        let hay = text::join3(low_name.as_str(), " ", low_path.as_str());
        let hit = self.needle.as_str().is_empty() || text::contains(
            hay.as_str(),
            self.needle.as_str(),
        );
        let mut shown = entry;
        if hit {
            if !rel.as_str().is_empty() {
                shown.name = rel;
            }
            assert(shown@ == start.hit(ev));
            let copy = shown.copy();
            self.emitter.push(copy, now, sink);
            if self.emitter.found >= MAX_RESULTS {
                return true;
            }
        } else {
            assert(told + Seq::<EventView>::empty() =~= told);
        }
        assert(shown@ == start.hit(ev));
        if shown.is_dir && shown.kind != EntryKind::SymlinkDir {
            let parts = text::split(shown.name.as_str(), CharSet::Only('/'));
            let n: usize = parts.len();
            let name = &parts[n - 1];
            let next = remote_path::normalise_remote_dir(shown.full_path.as_str());
            let known = text::list_has(&self.seen, next.as_str());
            assert(name@ == text::pieces(start.hit(ev).name, CharSet::Only('/')).last());
            if !text::same_text(name.as_str(), ".") && !text::same_text(name.as_str(), "..")
                && !known {
                proof {
                    text::lemma_texts_push(self.stack@, next);
                }
                self.stack.push(next);
            }
        }
        false
    }

    /// Goes on to the next directory that is to be listed.
    fn seek(&mut self, cancelled: bool, now: u64, sink: &mut Vec<SessionEvent>) -> (ask: Option<
        String,
    >)
        ensures
            (
                final(self)@,
                events::events_view(final(sink)@),
                ask_view(ask),
            ) == ({
                let r = old(self)@.seek(cancelled, now);
                (r.0, events::events_view(old(sink)@) + r.1, r.2)
            }),
    {
        let ghost (end, later, found) = self@.seek(cancelled, now);
        let ghost all = events::events_view(sink@) + later;
        loop
            invariant
                (end, later, found) == old(self)@.seek(cancelled, now),
                all == events::events_view(old(sink)@) + later,
                self@.seek(cancelled, now).0 == end,
                events::events_view(sink@) + self@.seek(cancelled, now).1 == all,
                self@.seek(cancelled, now).2 == found,
            decreases self@.roots.len(), self@.stack.len(),
        {
            let ghost start = self@;
            let ghost told = events::events_view(sink@);
            match self.stack.pop() {
                None => {
                    assert(self@ == start);
                    if self.emitter.found >= MAX_RESULTS || cancelled {
                        self.finish(cancelled, now, sink);
                        return None;
                    }
                    match self.roots.pop() {
                        None => {
                            assert(self@.roots =~= start.roots);
                            self.finish(cancelled, now, sink);
                            return None;
                        },
                        Some(root) => {
                            let base = remote_path::normalise_remote_dir(root.as_str());
                            let again = base.clone();
                            self.base = base;
                            self.stack.push(again);
                            self.seen = Vec::new();
                            assert(self@.roots =~= start.roots.drop_last());
                            assert(self@.stack =~= seq![self@.base]);
                            assert(self@.seen =~= Seq::<Seq<char>>::empty());
                            assert(self@ =~= start.next_root());
                        },
                    }
                },
                Some(dir) => {
                    assert(self@.stack =~= start.stack.drop_last());
                    assert(start.stack.last() == dir@);
                    if cancelled {
                        // What is left to visit no longer matters, but stays.
                        self.stack.push(dir);
                        assert(self@.stack =~= start.stack);
                        self.finish(cancelled, now, sink);
                        return None;
                    }
                    let key = remote_path::normalise_remote_dir(dir.as_str());
                    if text::list_has(&self.seen, key.as_str()) {
                        assert(self@ =~= (SearchView { stack: start.stack.drop_last(), ..start }));
                    } else {
                        proof {
                            text::lemma_texts_push(self.seen@, key);
                        }
                        self.seen.push(key);
                        self.emitter.scan_dir(now, sink);
                        assert(self@ =~= start.taken(now));
                        if self.emitter.scanned > MAX_DIRS || self.emitter.found >= MAX_RESULTS {
                            self.stack = Vec::new();
                            assert(self@.stack =~= Seq::<Seq<char>>::empty());
                            let ghost rest = self@.seek(cancelled, now).1;
                            assert(events::events_view(sink@) + rest =~= told + (
                            start.emitter.visit_reports(now) + rest));
                        } else {
                            return Some(dir);
                        }
                    }
                },
            }
        }
    }

    /// Goes on to the first directory that is to be listed.
    pub fn begin(&mut self, cancelled: bool, now: u64) -> (out: SearchTurn)
        ensures
            (final(self)@, events::events_view(out.events@), ask_view(out.ask)) == old(self)@.seek(cancelled, now),
    {
        let mut sink: Vec<SessionEvent> = Vec::new();
        let ghost r = self@.seek(cancelled, now);
        let ask = self.seek(cancelled, now, &mut sink);
        assert(events::events_view(sink@) =~= r.1);
        SearchTurn { events: sink, ask }
    }

    /// Takes the answer to a wanted listing and goes on to the next directory. A directory that
    /// could not be listed does not end the search.
    pub fn answer(&mut self, entries: Option<Vec<RemoteEntry>>, cancelled: bool, now: u64) -> (out:
        SearchTurn)
        ensures
            (final(self)@, events::events_view(out.events@), ask_view(out.ask)) == old(self)@.answered(
                match entries {
                    Some(v) => Some(events::entries_view(v@)),
                    None => None,
                },
                cancelled,
                now,
            ),
    {
        let mut sink: Vec<SessionEvent> = Vec::new();
        let ghost start = self@;
        match entries {
            None => {},
            Some(list) => {
                let ghost all = events::entries_view(list@);
                let ghost whole_after = start.after_entries(all, now);
                let ghost whole_told = start.entries_reports(all, now);
                let mut rest = list;
                let mut turned: Vec<RemoteEntry> = Vec::new();
                while rest.len() > 0
                    invariant
                        rest@.len() + turned@.len() == list@.len(),
                        rest@ == list@.take(rest@.len() as int),
                        forall|i: int|
                            0 <= i < turned@.len() ==> #[trigger] turned@[i] == list@[list@.len()
                                - 1 - i],
                    decreases rest@.len(),
                {
                    if let Some(e) = rest.pop() {
                        turned.push(e);
                    }
                }
                let mut going = true;
                assert(all.skip(0) == all);
                assert(events::events_view(sink@) + whole_told =~= whole_told);
                while going && turned.len() > 0
                    invariant
                        all == events::entries_view(list@),
                        turned@.len() <= list@.len(),
                        forall|i: int|
                            0 <= i < turned@.len() ==> #[trigger] turned@[i] == list@[list@.len()
                                - 1 - i],
                        going ==> self@.after_entries(all.skip(all.len() - turned@.len()), now)
                            == whole_after,
                        going ==> events::events_view(sink@) + self@.entries_reports(
                            all.skip(all.len() - turned@.len()),
                            now,
                        ) == whole_told,
                        !going ==> self@ == whole_after,
                        !going ==> events::events_view(sink@) == whole_told,
                    decreases turned@.len(),
                {
                    let ghost at = all.len() - turned@.len();
                    let ghost here = self@;
                    let ghost told = events::events_view(sink@);
                    if let Some(e) = turned.pop() {
                        let ghost ev = e@;
                        assert(all.skip(at)[0] == ev);
                        assert(all.skip(at).drop_first() == all.skip(at + 1));
                        let stop = self.visit(e, now, &mut sink);
                        if stop {
                            going = false;
                        } else {
                            let ghost tail = self@.entries_reports(all.skip(at + 1), now);
                            assert(told + (here.entry_reports(ev, now) + tail) =~= (told
                                + here.entry_reports(ev, now)) + tail);
                        }
                    }
                }
                if going {
                    assert(all.skip(all.len() as int).len() == 0);
                    assert(events::events_view(sink@) + Seq::<EventView>::empty()
                        =~= events::events_view(sink@));
                }
            },
        }
        let ghost r = self@.seek(cancelled, now);
        let ghost told = events::events_view(sink@);
        let ask = self.seek(cancelled, now, &mut sink);
        proof {
            if entries is None {
                assert(told + r.1 =~= r.1);
            }
        }
        SearchTurn { events: sink, ask }
    }
}

// ---------------------------------------------------------------------------
// Laws
// ---------------------------------------------------------------------------

/// How many entries reports bring.
pub open spec fn brought(s: Seq<EventView>) -> nat
    decreases s.len(),
{
    if s.len() == 0 {
        0
    } else {
        brought(s.drop_last()) + match s.last() {
            EventView::SftpSearchBatch { search_id, root, query, entries } => entries.len(),
            _ => 0,
        }
    }
}

proof fn lemma_brought_joins(a: Seq<EventView>, b: Seq<EventView>)
    ensures
        brought(a + b) == brought(a) + brought(b),
    decreases b.len(),
{
    if b.len() == 0 {
        assert(a + b =~= a);
    } else {
        assert((a + b).drop_last() =~= a + b.drop_last());
        lemma_brought_joins(a, b.drop_last());
    }
}

proof fn lemma_brought_batch(e: EmitterView)
    ensures
        brought(e.batch()) == e.pending.len(),
{
    reveal_with_fuel(brought, 2);
    if e.pending.len() > 0 {
        assert(e.batch().drop_last() =~= Seq::<EventView>::empty());
    }
}

proof fn lemma_brought_visit(e: EmitterView, now: u64)
    ensures
        brought(e.visit_reports(now)) == 0,
{
    reveal_with_fuel(brought, 2);
    if e.tells_progress(now) {
        assert(e.visit_reports(now).drop_last() =~= Seq::<EventView>::empty());
    }
}

/// Whether a search keeps within its bounds: it has found no more than it may, and has visited
/// no directory below a root twice.
pub open spec fn within_bounds(s: SearchView) -> bool {
    s.emitter.found <= MAX_RESULTS && s.seen.no_duplicates()
}

/// Nothing that a search finds is lost: what its reports bring, together with what is pending,
/// grows by what was found; at the end nothing is pending. And the search keeps within its
/// bounds: a directory is only wanted while fewer entries were found and no more directories
/// visited than allowed, and it was not visited before below the same root.
pub proof fn law_seek(s: SearchView, cancelled: bool, now: u64)
    requires
        within_bounds(s),
    ensures
        ({
            let (end, told, ask) = s.seek(cancelled, now);
            &&& within_bounds(end)
            &&& end.emitter.found == s.emitter.found
            &&& brought(told) + end.emitter.pending.len() == s.emitter.pending.len()
            &&& ask is None ==> end.ended && end.emitter.pending.len() == 0
            &&& end.emitter.scanned >= s.emitter.scanned
            &&& ask matches Some(dir) ==> s.emitter.scanned < end.emitter.scanned <= MAX_DIRS
                && end.emitter.found < MAX_RESULTS && end.seen.len() > 0 && end.seen.last()
                == remote_path::remote_dir(dir)
        }),
    decreases s.roots.len(), s.stack.len(),
{
    let e = s.emitter;
    lemma_brought_batch(e);
    lemma_brought_visit(e, now);
    let last = s.last_reports(cancelled, now);
    assert(last.drop_last() =~= e.batch());
    if s.stack.len() == 0 {
        if !(s.roots.len() == 0 || e.found >= MAX_RESULTS || cancelled) {
            law_seek(s.next_root(), cancelled, now);
        }
    } else if !cancelled {
        let key = remote_path::remote_dir(s.stack.last());
        if s.seen.contains(key) {
            law_seek(SearchView { stack: s.stack.drop_last(), ..s }, cancelled, now);
        } else {
            let next = s.taken(now);
            assert(next.seen.no_duplicates());
            if next.exhausted() {
                let cut = SearchView { stack: Seq::empty(), ..next };
                law_seek(cut, cancelled, now);
                let (end, later, ask) = cut.seek(cancelled, now);
                lemma_brought_joins(e.visit_reports(now), later);
            }
        }
    }
}

/// A listing adds to what was found as many entries as match, up to the bound, and none of them
/// is lost.
pub proof fn law_entries(s: SearchView, entries: Seq<EntryView>, now: u64)
    requires
        within_bounds(s),
        s.emitter.found < MAX_RESULTS,
    ensures
        ({
            let end = s.after_entries(entries, now);
            let told = s.entries_reports(entries, now);
            &&& within_bounds(end)
            &&& end.seen == s.seen
            &&& end.emitter.scanned == s.emitter.scanned
            &&& end.emitter.found >= s.emitter.found
            &&& brought(told) + end.emitter.pending.len() == s.emitter.pending.len() + (
            end.emitter.found - s.emitter.found)
            &&& end.emitter.found < MAX_RESULTS ==> end.emitter.found - s.emitter.found
                == entries.filter(|e: EntryView| matches_needle(s.needle, e)).len()
        }),
    decreases entries.len(),
{
    reveal(Seq::filter);
    let keep = |e: EntryView| matches_needle(s.needle, e);
    if entries.len() > 0 {
        let e = entries[0];
        let next = s.after_entry(e, now);
        lemma_brought_batch(s.emitter.with(s.hit(e)));
        assert(brought(Seq::<EventView>::empty()) == 0);
        if !s.enough(e, now) {
            law_entries(next, entries.drop_first(), now);
            lemma_brought_joins(
                s.entry_reports(e, now),
                next.entries_reports(entries.drop_first(), now),
            );
            assert(next.needle == s.needle);
            assert(entries =~= seq![e] + entries.drop_first());
            lemma_filter_first(entries, keep);
        }
    }
}

proof fn lemma_filter_first(s: Seq<EntryView>, keep: spec_fn(EntryView) -> bool)
    requires
        s.len() > 0,
    ensures
        s.filter(keep).len() == s.drop_first().filter(keep).len() + if keep(s[0]) {
            1nat
        } else {
            0nat
        },
    decreases s.len(),
{
    reveal(Seq::filter);
    if s.len() == 1 {
        assert(s.drop_last() =~= Seq::<EntryView>::empty());
        assert(s.drop_first() =~= Seq::<EntryView>::empty());
        assert(Seq::<EntryView>::empty().filter(keep).len() == 0);
    } else {
        lemma_filter_first(s.drop_last(), keep);
        assert(s.drop_last().drop_first() =~= s.drop_first().drop_last());
        assert(s.drop_first().last() == s.last());
    }
}

/// A directory that cannot be listed does not end a search: it goes on as if the directory were
/// empty.
pub proof fn law_unlisted_is_empty(s: SearchView, cancelled: bool, now: u64)
    ensures
        s.answered(None, cancelled, now) == s.answered(Some(Seq::empty()), cancelled, now),
{
    let r = s.seek(cancelled, now);
    assert(Seq::<EventView>::empty() + r.1 =~= r.1);
}

/// An answer to a wanted listing: the entries, `None` where there are none, whether a stop was
/// asked for, and when.
pub struct SearchAnswer {
    pub entries: Option<Seq<EntryView>>,
    pub cancelled: bool,
    pub now: u64,
}

/// How a search stands after it was begun and its wanted listings were answered, with all that
/// it reported and the directory that it wants next. What comes after its end changes nothing.
pub open spec fn searched(
    s: SearchView,
    cancelled: bool,
    now: u64,
    answers: Seq<SearchAnswer>,
) -> (SearchView, Seq<EventView>, Option<Seq<char>>)
    decreases answers.len(),
{
    if answers.len() == 0 {
        s.seek(cancelled, now)
    } else {
        let (here, told, ask) = searched(s, cancelled, now, answers.drop_last());
        if ask is None {
            (here, told, ask)
        } else {
            let a = answers.last();
            let (end, more, next) = here.answered(a.entries, a.cancelled, a.now);
            (end, told + more, next)
        }
    }
}

/// A search never walks on forever, whatever the server answers: it lists no more directories
/// and finds no more entries than allowed. And it loses nothing: when it has ended, its reports
/// have brought as many entries as it found.
pub proof fn law_search_is_bounded(
    search_id: Seq<char>,
    root: Seq<char>,
    query: Seq<char>,
    kind: SearchKind,
    cancelled: bool,
    now: u64,
    answers: Seq<SearchAnswer>,
)
    ensures
        ({
            let s = fresh_search(search_id, root, query, kind);
            let (end, told, ask) = searched(s, cancelled, now, answers);
            &&& within_bounds(end)
            &&& brought(told) + end.emitter.pending.len() == end.emitter.found
            &&& ask is Some ==> answers.len() < MAX_DIRS && answers.len() < end.emitter.scanned
                && end.emitter.found < MAX_RESULTS
            &&& ask is None ==> end.ended && brought(told) == end.emitter.found
        }),
    decreases answers.len(),
{
    let s = fresh_search(search_id, root, query, kind);
    if answers.len() == 0 {
        law_seek(s, cancelled, now);
    } else {
        law_search_is_bounded(search_id, root, query, kind, cancelled, now, answers.drop_last());
        let (here, told, ask) = searched(s, cancelled, now, answers.drop_last());
        if ask is Some {
            let a = answers.last();
            let (end, more, next) = here.answered(a.entries, a.cancelled, a.now);
            lemma_brought_joins(told, more);
            match a.entries {
                None => {
                    law_seek(here, a.cancelled, a.now);
                },
                Some(list) => {
                    let there = here.after_entries(list, a.now);
                    let first = here.entries_reports(list, a.now);
                    law_entries(here, list, a.now);
                    law_seek(there, a.cancelled, a.now);
                    lemma_brought_joins(first, there.seek(a.cancelled, a.now).1);
                },
            }
        }
    }
}

} // verus!
