//! What a job on a folder comes to as a whole: whatever the answers to its steps, a folder that
//! was removed, downloaded, uploaded or archived to the end was so with all that is in it.
use crate::events::EntryView;
use crate::folder;
use crate::folder::{DirDownloadView, DirRemovalView, FetchView, RemovalView};
use crate::folder_upload;
use crate::folder_upload::{
    ArchiveView, DirUploadView, LocalKind, LocalView, SendAnswer, SendView,
};
use crate::remote_path;
use crate::text;
use crate::text::CharSet;
use vstd::prelude::*;

verus! {

/// Whether a list only grew at its end.
pub open spec fn grew<A>(a: Seq<A>, b: Seq<A>) -> bool {
    a.len() <= b.len() && forall|i: int| 0 <= i < a.len() ==> #[trigger] b[i] == a[i]
}

proof fn lemma_grew_keeps<A>(a: Seq<A>, b: Seq<A>, x: A)
    requires
        grew(a, b),
        a.contains(x),
    ensures
        b.contains(x),
{
    let i = a.index_of(x);
    assert(b[i] == x);
}

proof fn lemma_pushed<A>(a: Seq<A>, x: A)
    ensures
        a.push(x).contains(x),
{
    assert(a.push(x)[a.len() as int] == x);
}

proof fn lemma_reverse_holds<A>(s: Seq<A>, x: A)
    ensures
        s.reverse().contains(x) <==> s.contains(x),
{
    if s.contains(x) {
        let i = s.index_of(x);
        assert(s.reverse()[s.len() - 1 - i] == x);
    }
    if s.reverse().contains(x) {
        let i = s.reverse().index_of(x);
        assert(s[s.len() - 1 - i] == x);
    }
}

// ---------------------------------------------------------------------------
// Removing a folder
// ---------------------------------------------------------------------------

/// A directory that was listed on a removal.
pub struct SeenDir {
    pub dir: Seq<char>,
    pub entries: Seq<EntryView>,
    /// The normal forms of the directories that were found before it was listed.
    pub known: Seq<Seq<char>>,
}

/// What became of a step of a removal.
pub enum RemovalAnswer {
    Listing(Result<Seq<EntryView>, Seq<char>>),
    File(Result<(), Seq<char>>),
}

/// How a removal stands: with the step that it wants done, the directories that were listed, and
/// the files that were removed.
pub struct RemovalRun {
    pub job: DirRemovalView,
    pub step: RemovalView,
    pub seen: Seq<SeenDir>,
    pub removed: Seq<Seq<char>>,
}

/// How a removal stands after answers to its steps. An answer to another step changes nothing.
pub open spec fn removal_after(root: Seq<char>, answers: Seq<RemovalAnswer>) -> RemovalRun
    decreases answers.len(),
{
    if answers.len() == 0 {
        let (job, step) = DirRemovalView::fresh(root).next();
        RemovalRun { job, step, seen: Seq::empty(), removed: Seq::empty() }
    } else {
        let s = removal_after(root, answers.drop_last());
        match (s.step, answers.last()) {
            (RemovalView::List(dir), RemovalAnswer::Listing(l)) => {
                let (job, step) = s.job.on_listing(l);
                RemovalRun {
                    job,
                    step,
                    seen: match l {
                        Ok(entries) => s.seen.push(
                            SeenDir { dir, entries, known: s.job.visited },
                        ),
                        Err(_) => s.seen,
                    },
                    removed: s.removed,
                }
            },
            (RemovalView::RemoveFile(path), RemovalAnswer::File(done)) => {
                let (job, step) = s.job.on_file(path, done);
                RemovalRun {
                    job,
                    step,
                    seen: s.seen,
                    removed: if done is Ok {
                        s.removed.push(path)
                    } else {
                        s.removed
                    },
                }
            },
            _ => s,
        }
    }
}

/// The normal form under which a directory was found, by the directories in the order of their
/// removal: the folder itself, which comes last, by its path as it was given.
pub open spec fn found_as(root: Seq<char>, dirs: Seq<Seq<char>>, i: int) -> Seq<char> {
    if i == dirs.len() - 1 {
        remote_path::remote_dir(root)
    } else {
        remote_path::remote_dir(dirs[i])
    }
}

/// Whether a directory was found by a normal form, and is removed before the place `by`.
pub open spec fn removed_before(
    root: Seq<char>,
    dirs: Seq<Seq<char>>,
    key: Seq<char>,
    by: int,
) -> bool {
    exists|i: int| 0 <= i < dirs.len() && i < by && #[trigger] found_as(root, dirs, i) == key
}

/// Whether a path is that of an entry that was listed and not entered.
pub open spec fn listed_plain(seen: Seq<SeenDir>, path: Seq<char>) -> bool {
    exists|k: int, i: int|
        0 <= k < seen.len() && 0 <= i < seen[k].entries.len() && #[trigger] seen[k].entries[i].full_path
            == path && !folder::enters(seen[k].entries[i])
}

/// A removal takes the whole tree: when it comes to the directories, each of them was listed, and
/// of what was listed everything that is no directory has been removed, and nothing else. Every
/// directory that was listed is to be removed too, under its normal form, and before the one in
/// which it stands, unless that form had been found before; and the folder itself comes last.
pub proof fn law_removal_takes_the_tree(root: Seq<char>, answers: Seq<RemovalAnswer>)
    requires
        removal_after(root, answers).step is RemoveDirs,
    ensures
        ({
            let s = removal_after(root, answers);
            let dirs = s.step->RemoveDirs_0;
            &&& dirs.len() == s.seen.len()
            &&& dirs.len() > 0
            &&& dirs.last() == text::strip_end(root, CharSet::Only('/'))
            &&& forall|k: int|
                0 <= k < s.seen.len() ==> (#[trigger] s.seen[k]).dir == dirs[dirs.len() - 1 - k]
            &&& forall|k: int, i: int|
                #![trigger s.seen[k].entries[i]]
                0 <= k < s.seen.len() && 0 <= i < s.seen[k].entries.len() ==> {
                    let e = s.seen[k].entries[i];
                    let key = remote_path::remote_dir(e.full_path);
                    if folder::enters(e) {
                        &&& removed_before(root, dirs, key, dirs.len() as int)
                        &&& !s.seen[k].known.contains(key) ==> removed_before(
                            root,
                            dirs,
                            key,
                            dirs.len() - 1 - k,
                        )
                    } else {
                        s.removed.contains(e.full_path)
                    }
                }
            &&& forall|i: int|
                0 <= i < s.removed.len() ==> listed_plain(s.seen, #[trigger] s.removed[i])
        }),
{
    lemma_removal(root, answers);
    let s = removal_after(root, answers);
    let dirs = s.step->RemoveDirs_0;
    let found = s.job.visited;
    let n = dirs.len() as int;
    assert(dirs.last() == s.job.dirs[0]);
    assert forall|k: int, i: int|
        #![trigger s.seen[k].entries[i]]
        0 <= k < s.seen.len() && 0 <= i < s.seen[k].entries.len() implies {
        let e = s.seen[k].entries[i];
        let key = remote_path::remote_dir(e.full_path);
        if folder::enters(e) {
            &&& removed_before(root, dirs, key, n)
            &&& !s.seen[k].known.contains(key) ==> removed_before(root, dirs, key, n - 1 - k)
        } else {
            s.removed.contains(e.full_path)
        }
    } by {
        let e = s.seen[k].entries[i];
        let key = remote_path::remote_dir(e.full_path);
        assert(settled(s.job, s.step, s.removed, e) || s.job.rest.contains(e));
        if folder::enters(e) {
            let at = found.index_of(key);
            assert(found[at] == key);
            assert(dirs[n - 1 - at] == s.job.dirs[at]);
            assert(found_as(root, dirs, n - 1 - at) == key);
            if !s.seen[k].known.contains(key) {
                let known = s.seen[k].known;
                if at < known.len() {
                    assert(found[at] == known[at]);
                }
                assert(at > k);
            }
        }
    }
}

/// The directories of a removal and the normal forms under which they were found stand side by
/// side.
spec fn keys_fit(root: Seq<char>, r: DirRemovalView) -> bool {
    &&& r.visited.len() == r.dirs.len()
    &&& r.dirs.len() > 0
    &&& r.listed <= r.dirs.len()
    &&& r.dirs[0] == text::strip_end(root, CharSet::Only('/'))
    &&& r.visited[0] == remote_path::remote_dir(root)
    &&& forall|k: int|
        0 < k < r.dirs.len() ==> #[trigger] r.visited[k] == remote_path::remote_dir(r.dirs[k])
}

/// Whether an entry that was listed needs nothing more: its directory was found, or it is removed
/// or about to be.
spec fn settled(
    r: DirRemovalView,
    step: RemovalView,
    removed: Seq<Seq<char>>,
    e: EntryView,
) -> bool {
    if folder::enters(e) {
        r.visited.contains(remote_path::remote_dir(e.full_path))
    } else {
        removed.contains(e.full_path) || step == RemovalView::RemoveFile(e.full_path)
    }
}

/// What one step of a removal makes of the entries that are still to come.
proof fn lemma_removal_next(root: Seq<char>, r: DirRemovalView)
    requires
        keys_fit(root, r),
    ensures
        ({
            let (end, step) = r.next();
            !(step is Fail) ==> {
                &&& keys_fit(root, end)
                &&& grew(r.visited, end.visited)
                &&& grew(r.dirs, end.dirs)
                &&& forall|e: EntryView| #[trigger]
                    r.rest.contains(e) ==> end.rest.contains(e) || settled(
                        end,
                        step,
                        Seq::empty(),
                        e,
                    )
                &&& forall|e: EntryView| #[trigger] end.rest.contains(e) ==> r.rest.contains(e)
                &&& match step {
                    RemovalView::List(d) => end.rest.len() == 0 && end.listed == r.listed + 1
                        && end.listed <= end.dirs.len() && d == end.dirs[r.listed as int],
                    RemovalView::RemoveFile(p) => end.listed == r.listed && exists|e: EntryView|
                        #[trigger] r.rest.contains(e) && !folder::enters(e) && e.full_path == p,
                    RemovalView::RemoveDirs(v) => end.rest.len() == 0 && end.listed == r.listed
                        && end.listed == end.dirs.len() && v == end.dirs.reverse(),
                    RemovalView::Fail(_) => true,
                }
            }
        }),
    decreases r.rest.len(),
{
    let (end, step) = r.next();
    if r.rest.len() > 0 && !(step is Fail) {
        let e = r.rest.last();
        let after = r.past_entry();
        assert(r.rest.contains(e));
        if folder::enters(e) {
            let with = after.with_dir(e.full_path);
            let key = remote_path::remote_dir(e.full_path);
            lemma_pushed(after.visited, key);
            assert(with.visited.contains(key));
            assert(keys_fit(root, with));
            lemma_removal_next(root, with);
            lemma_grew_keeps(with.visited, end.visited, key);
            assert forall|x: EntryView| #[trigger] r.rest.contains(x) implies end.rest.contains(x)
                || settled(end, step, Seq::empty(), x) by {
                if x != e {
                    let i = r.rest.index_of(x);
                    assert(with.rest[i] == x);
                    assert(with.rest.contains(x));
                }
            }
            assert forall|x: EntryView| #[trigger] with.rest.contains(x) implies r.rest.contains(
                x,
            ) by {
                let i = with.rest.index_of(x);
                assert(r.rest[i] == x);
            }
        } else {
            assert forall|x: EntryView| #[trigger] r.rest.contains(x) implies end.rest.contains(x)
                || settled(end, step, Seq::empty(), x) by {
                if x != e {
                    let i = r.rest.index_of(x);
                    assert(end.rest[i] == x);
                }
            }
            assert forall|x: EntryView| #[trigger] end.rest.contains(x) implies r.rest.contains(
                x,
            ) by {
                let i = end.rest.index_of(x);
                assert(r.rest[i] == x);
            }
        }
    }
}

/// Whether an entry was listed.
spec fn in_seen(seen: Seq<SeenDir>, e: EntryView) -> bool {
    exists|k: int, i: int|
        0 <= k < seen.len() && 0 <= i < seen[k].entries.len() && #[trigger] seen[k].entries[i] == e
}

/// What holds of a removal all the time.
spec fn removal_ok(root: Seq<char>, s: RemovalRun) -> bool {
    &&& keys_fit(root, s.job)
    &&& s.seen.len() == s.job.listed - if s.step is List {
        1int
    } else {
        0int
    }
    &&& forall|k: int|
        0 <= k < s.seen.len() ==> (#[trigger] s.seen[k]).dir == s.job.dirs[k] && grew(
            s.seen[k].known,
            s.job.visited,
        ) && k < s.seen[k].known.len()
    &&& forall|k: int, i: int|
        #![trigger s.seen[k].entries[i]]
        0 <= k < s.seen.len() && 0 <= i < s.seen[k].entries.len() ==> settled(
            s.job,
            s.step,
            s.removed,
            s.seen[k].entries[i],
        ) || s.job.rest.contains(s.seen[k].entries[i])
    &&& forall|e: EntryView| #[trigger] s.job.rest.contains(e) ==> in_seen(s.seen, e)
    &&& forall|i: int| 0 <= i < s.removed.len() ==> listed_plain(s.seen, #[trigger] s.removed[i])
    &&& match s.step {
        RemovalView::List(d) => s.job.rest.len() == 0 && s.job.listed >= 1 && d
            == s.job.dirs[s.job.listed - 1],
        RemovalView::RemoveFile(p) => listed_plain(s.seen, p),
        RemovalView::RemoveDirs(v) => s.job.rest.len() == 0 && s.job.listed == s.job.dirs.len()
            && v == s.job.dirs.reverse(),
        RemovalView::Fail(_) => true,
    }
}

proof fn lemma_removal(root: Seq<char>, answers: Seq<RemovalAnswer>)
    ensures
        !(removal_after(root, answers).step is Fail) ==> removal_ok(
            root,
            removal_after(root, answers),
        ),
    decreases answers.len(),
{
    let s = removal_after(root, answers);
    if answers.len() == 0 {
        lemma_removal_next(root, DirRemovalView::fresh(root));
    } else {
        let b = removal_after(root, answers.drop_last());
        lemma_removal(root, answers.drop_last());
        match (b.step, answers.last()) {
            (RemovalView::List(dir), RemovalAnswer::Listing(l)) => {
                if let Ok(entries) = l {
                    let job = DirRemovalView { rest: entries.reverse(), ..b.job };
                    lemma_removal_next(root, job);
                    if !(s.step is Fail) {
                        lemma_removal_goes_on(root, b, job, s, b.removed);
                    }
                }
            },
            (RemovalView::RemoveFile(path), RemovalAnswer::File(done)) => {
                if done is Ok {
                    lemma_removal_next(root, b.job);
                    if !(s.step is Fail) {
                        lemma_removal_goes_on(root, b, b.job, s, b.removed.push(path));
                    }
                }
            },
            _ => {},
        }
    }
}

/// A removal goes on after an answer: `job` is how it stands when the answer is taken, `removed`
/// what is gone by then.
proof fn lemma_removal_goes_on(
    root: Seq<char>,
    b: RemovalRun,
    job: DirRemovalView,
    s: RemovalRun,
    removed: Seq<Seq<char>>,
)
    requires
        removal_ok(root, b),
        keys_fit(root, job),
        job.visited == b.job.visited,
        job.dirs == b.job.dirs,
        job.listed == b.job.listed,
        (s.job, s.step) == job.next(),
        !(s.step is Fail),
        s.removed == removed,
        match b.step {
            RemovalView::List(dir) => removed == b.removed && s.seen.len() == b.seen.len() + 1
                && s.seen == b.seen.push(s.seen.last()) && s.seen.last().dir == dir
                && s.seen.last().known == b.job.visited && job.rest
                == s.seen.last().entries.reverse(),
            RemovalView::RemoveFile(p) => removed == b.removed.push(p) && s.seen == b.seen
                && job.rest == b.job.rest,
            _ => false,
        },
    ensures
        removal_ok(root, s),
{
    lemma_removal_next(root, job);
    let last = s.seen.len() - 1;
    assert forall|k: int| 0 <= k < b.seen.len() implies #[trigger] s.seen[k] == b.seen[k] by {}
    assert forall|x: Seq<char>| #[trigger] b.removed.contains(x) implies removed.contains(x) by {
        let i = b.removed.index_of(x);
        assert(removed[i] == x);
    }
    if b.step is RemoveFile {
        lemma_pushed(b.removed, b.step->RemoveFile_0);
    }
    assert forall|k: int, i: int|
        #![trigger s.seen[k].entries[i]]
        0 <= k < s.seen.len() && 0 <= i < s.seen[k].entries.len() implies settled(
        s.job,
        s.step,
        s.removed,
        s.seen[k].entries[i],
    ) || s.job.rest.contains(s.seen[k].entries[i]) by {
        let e = s.seen[k].entries[i];
        if k < b.seen.len() {
            assert(b.seen[k].entries[i] == e);
            if b.job.rest.contains(e) {
                assert(job.rest.contains(e));
            } else if folder::enters(e) {
                lemma_grew_keeps(b.job.visited, s.job.visited, remote_path::remote_dir(e.full_path));
            }
        } else {
            lemma_reverse_holds(s.seen[k].entries, e);
            assert(job.rest.contains(e));
        }
    }
    assert forall|e: EntryView| #[trigger] s.job.rest.contains(e) implies in_seen(s.seen, e) by {
        assert(job.rest.contains(e));
        lemma_still_seen(b, s, job, e);
    }
    assert forall|i: int| 0 <= i < s.removed.len() implies listed_plain(
        s.seen,
        #[trigger] s.removed[i],
    ) by {
        let p = s.removed[i];
        if i < b.removed.len() {
            assert(b.removed[i] == p);
        }
        assert(listed_plain(b.seen, p));
        let (k, j) = choose|k: int, j: int|
            0 <= k < b.seen.len() && 0 <= j < b.seen[k].entries.len()
                && #[trigger] b.seen[k].entries[j].full_path == p && !folder::enters(
                b.seen[k].entries[j],
            );
        assert(s.seen[k].entries[j].full_path == p);
    }
    if let RemovalView::RemoveFile(p) = s.step {
        let e = choose|e: EntryView| #[trigger]
            job.rest.contains(e) && !folder::enters(e) && e.full_path == p;
        lemma_still_seen(b, s, job, e);
        let (k, j) = choose|k: int, j: int|
            0 <= k < s.seen.len() && 0 <= j < s.seen[k].entries.len()
                && #[trigger] s.seen[k].entries[j] == e;
        assert(s.seen[k].entries[j].full_path == p);
    }
    assert forall|k: int| 0 <= k < s.seen.len() implies (#[trigger] s.seen[k]).dir == s.job.dirs[k]
        && grew(s.seen[k].known, s.job.visited) && k < s.seen[k].known.len() by {
        if k < b.seen.len() {
            assert(b.seen[k] == s.seen[k]);
        }
    }
}

proof fn lemma_still_seen(b: RemovalRun, s: RemovalRun, job: DirRemovalView, e: EntryView)
    requires
        job.rest.contains(e),
        forall|e: EntryView| #[trigger] b.job.rest.contains(e) ==> in_seen(b.seen, e),
        (s.seen == b.seen && job.rest == b.job.rest) || (s.seen.len() > 0 && job.rest
            == s.seen.last().entries.reverse()),
    ensures
        in_seen(s.seen, e),
{
    if !(s.seen == b.seen && job.rest == b.job.rest) {
        let last = s.seen.last().entries;
        lemma_reverse_holds(last, e);
        let i = last.index_of(e);
        assert(s.seen[s.seen.len() - 1].entries[i] == e);
    }
}

// ---------------------------------------------------------------------------
// Downloading a folder
// ---------------------------------------------------------------------------

/// A remote directory that was listed on a download, and the local one that it is mirrored to.
pub struct MirroredDir {
    pub rdir: Seq<char>,
    pub ldir: Seq<char>,
    pub entries: Seq<EntryView>,
}

/// What became of a step of a download.
pub enum FetchAnswer {
    Made(bool),
    Listing(Result<Seq<EntryView>, Seq<char>>),
    File(Result<bool, Seq<char>>),
}

/// How a download stands: with the step that it wants done, the local directories that were made,
/// the remote ones that were listed, and the files that came whole.
pub struct DownloadRun {
    pub job: DirDownloadView,
    pub step: FetchView,
    pub made: Seq<Seq<char>>,
    pub seen: Seq<MirroredDir>,
    pub fetched: Seq<FetchView>,
}

/// How a download stands after answers to its steps, each with whether a stop was asked for. An
/// answer to another step changes nothing.
pub open spec fn folder_download_after(
    remote_root: Seq<char>,
    local_parent: Seq<char>,
    cancelled: bool,
    answers: Seq<(FetchAnswer, bool)>,
) -> DownloadRun
    decreases answers.len(),
{
    if answers.len() == 0 {
        let (job, step) = DirDownloadView::fresh(remote_root, local_parent).next(cancelled);
        DownloadRun {
            job,
            step,
            made: Seq::empty(),
            seen: Seq::empty(),
            fetched: Seq::empty(),
        }
    } else {
        let s = folder_download_after(remote_root, local_parent, cancelled, answers.drop_last());
        let (answer, stop) = answers.last();
        match (s.step, answer) {
            (FetchView::MakeLocalDir(dir), FetchAnswer::Made(made)) => DownloadRun {
                step: s.job.on_made(made),
                made: if made {
                    s.made.push(dir)
                } else {
                    s.made
                },
                ..s
            },
            (FetchView::List(dir), FetchAnswer::Listing(l)) => {
                let (job, step) = s.job.on_listing(l, stop);
                DownloadRun {
                    job,
                    step,
                    seen: match l {
                        Ok(entries) => s.seen.push(
                            MirroredDir { rdir: dir, ldir: s.job.ldir, entries },
                        ),
                        Err(_) => s.seen,
                    },
                    ..s
                }
            },
            (FetchView::Fetch { .. }, FetchAnswer::File(moved)) => {
                let (job, step) = s.job.on_fetched(moved, stop);
                DownloadRun {
                    job,
                    step,
                    fetched: if moved == Ok::<bool, Seq<char>>(true) {
                        s.fetched.push(s.step)
                    } else {
                        s.fetched
                    },
                    ..s
                }
            },
            _ => s,
        }
    }
}

/// The step that fetches a file into a local directory, under a name made safe.
pub open spec fn fetch_of(ldir: Seq<char>, e: EntryView) -> FetchView {
    FetchView::Fetch {
        remote: e.full_path,
        local: folder::below(ldir, remote_path::safe_name(e.name)),
        name: remote_path::safe_name(e.name),
    }
}

/// A directory that stands in one that is mirrored, and where it is mirrored to.
pub open spec fn mirror_of(ldir: Seq<char>, e: EntryView) -> (Seq<char>, Seq<char>) {
    (e.full_path, folder::below(ldir, remote_path::safe_name(e.name)))
}

/// Whether a directory was listed, under its normal form.
pub open spec fn mirrored(seen: Seq<MirroredDir>, key: Seq<char>) -> bool {
    exists|k: int| 0 <= k < seen.len() && remote_path::remote_dir((#[trigger] seen[k]).rdir) == key
}

/// Whether a pair of directories is that of an entry that was listed and is entered.
pub open spec fn from_dir(seen: Seq<MirroredDir>, pair: (Seq<char>, Seq<char>)) -> bool {
    exists|k: int, i: int|
        0 <= k < seen.len() && 0 <= i < seen[k].entries.len() && folder::enters(
            #[trigger] seen[k].entries[i],
        ) && pair == mirror_of(seen[k].ldir, seen[k].entries[i])
}

/// Whether a step fetches a file that was listed.
pub open spec fn from_file(seen: Seq<MirroredDir>, step: FetchView) -> bool {
    exists|k: int, i: int|
        0 <= k < seen.len() && 0 <= i < seen[k].entries.len() && !(
        #[trigger] seen[k].entries[i]).is_dir && step == fetch_of(seen[k].ldir, seen[k].entries[i])
}

/// A download brings the whole folder: when it is complete, every local directory was made before
/// its remote one was listed, and of what was listed every file has come whole, at its safe name
/// in the local directory of its own directory, and nothing else has. Every directory that was
/// listed, but for those behind a symbolic link, was listed itself under its normal form. None
/// was so twice, and each but the folder itself stands in one that was, and is mirrored below it.
pub proof fn law_download_brings_the_folder(
    remote_root: Seq<char>,
    local_parent: Seq<char>,
    cancelled: bool,
    answers: Seq<(FetchAnswer, bool)>,
)
    requires
        folder_download_after(remote_root, local_parent, cancelled, answers).step is Complete,
    ensures
        ({
            let s = folder_download_after(remote_root, local_parent, cancelled, answers);
            let root = DirDownloadView::fresh(remote_root, local_parent).stack[0];
            &&& s.seen.len() > 0
            &&& (s.seen[0].rdir, s.seen[0].ldir) == root
            &&& s.made.len() == s.seen.len()
            &&& forall|k: int| 0 <= k < s.seen.len() ==> #[trigger] s.made[k] == s.seen[k].ldir
            &&& forall|k: int, i: int|
                #![trigger s.seen[k].entries[i]]
                0 <= k < s.seen.len() && 0 <= i < s.seen[k].entries.len() ==> {
                    let e = s.seen[k].entries[i];
                    &&& !e.is_dir ==> s.fetched.contains(fetch_of(s.seen[k].ldir, e))
                    &&& folder::enters(e) ==> mirrored(
                        s.seen,
                        remote_path::remote_dir(e.full_path),
                    )
                }
            &&& forall|i: int|
                0 <= i < s.fetched.len() ==> from_file(s.seen, #[trigger] s.fetched[i])
            &&& forall|k: int|
                0 < k < s.seen.len() ==> from_dir(
                    s.seen,
                    ((#[trigger] s.seen[k]).rdir, s.seen[k].ldir),
                )
            &&& forall|k: int, m: int|
                0 <= k < m < s.seen.len() ==> remote_path::remote_dir((#[trigger] s.seen[k]).rdir)
                    != remote_path::remote_dir((#[trigger] s.seen[m]).rdir)
        }),
{
    lemma_folder_download(remote_root, local_parent, cancelled, answers);
    let s = folder_download_after(remote_root, local_parent, cancelled, answers);
    let root = DirDownloadView::fresh(remote_root, local_parent).stack[0];
    assert forall|k: int, i: int|
        #![trigger s.seen[k].entries[i]]
        0 <= k < s.seen.len() && 0 <= i < s.seen[k].entries.len() implies {
        let e = s.seen[k].entries[i];
        &&& !e.is_dir ==> s.fetched.contains(fetch_of(s.seen[k].ldir, e))
        &&& folder::enters(e) ==> mirrored(s.seen, remote_path::remote_dir(e.full_path))
    } by {
        let e = s.seen[k].entries[i];
        assert(kept(s.job, s.step, s.fetched, s.seen[k].ldir, e) || s.job.rest.contains(e));
        if folder::enters(e) {
            let m = s.job.visited.index_of(remote_path::remote_dir(e.full_path));
            assert(s.job.visited[m] == remote_path::remote_dir(s.seen[m].rdir));
        }
    }
    assert forall|k: int, m: int| 0 <= k < m < s.seen.len() implies remote_path::remote_dir(
        (#[trigger] s.seen[k]).rdir,
    ) != remote_path::remote_dir((#[trigger] s.seen[m]).rdir) by {
        assert(s.job.visited[k] != s.job.visited[m]);
    }
}

/// Whether an entry that was listed needs nothing more: it is a directory that is still to come
/// or was visited, or a file that has come or is about to.
spec fn kept(
    d: DirDownloadView,
    step: FetchView,
    fetched: Seq<FetchView>,
    ldir: Seq<char>,
    e: EntryView,
) -> bool {
    if folder::enters(e) {
        d.stack.contains(mirror_of(ldir, e)) || d.visited.contains(
            remote_path::remote_dir(e.full_path),
        )
    } else if !e.is_dir {
        fetched.contains(fetch_of(ldir, e)) || step == fetch_of(ldir, e)
    } else {
        true
    }
}

/// Whether a pair of directories is to come, or is that of an entry that is.
spec fn to_come(d: DirDownloadView, pair: (Seq<char>, Seq<char>)) -> bool {
    d.stack.contains(pair) || exists|e: EntryView| #[trigger]
        d.rest.contains(e) && folder::enters(e) && pair == mirror_of(d.ldir, e)
}

/// What one step of a download makes of what is still to come.
proof fn lemma_fetch_next(d: DirDownloadView, cancelled: bool)
    ensures
        ({
            let (end, step) = d.next(cancelled);
            !(step is Fail) && !(step is DropLocal) ==> {
                &&& grew(d.visited, end.visited)
                &&& forall|p: (Seq<char>, Seq<char>)| #[trigger]
                    d.stack.contains(p) ==> end.stack.contains(p) || end.visited.contains(
                        remote_path::remote_dir(p.0),
                    )
                &&& forall|e: EntryView| #[trigger]
                    d.rest.contains(e) ==> end.rest.contains(e) || kept(
                        end,
                        step,
                        Seq::empty(),
                        d.ldir,
                        e,
                    )
                &&& forall|e: EntryView| #[trigger] end.rest.contains(e) ==> d.rest.contains(e)
                &&& forall|p: (Seq<char>, Seq<char>)| #[trigger]
                    end.stack.contains(p) ==> to_come(d, p)
                &&& match step {
                    FetchView::Fetch { .. } => end.visited == d.visited && end.ldir == d.ldir
                        && exists|e: EntryView| #[trigger]
                        d.rest.contains(e) && !e.is_dir && step == fetch_of(d.ldir, e),
                    FetchView::MakeLocalDir(dir) => end.rest.len() == 0 && dir == end.ldir
                        && end.visited == d.visited.push(remote_path::remote_dir(end.rdir))
                        && !d.visited.contains(remote_path::remote_dir(end.rdir)) && to_come(
                        d,
                        (end.rdir, end.ldir),
                    ),
                    FetchView::Complete => end.rest.len() == 0 && end.stack.len() == 0
                        && end.visited == d.visited,
                    _ => false,
                }
            }
        }),
    decreases d.rest.len(), d.stack.len(),
{
    let (end, step) = d.next(cancelled);
    if !(step is Fail) && !(step is DropLocal) {
        if d.rest.len() > 0 {
            let e = d.rest.last();
            let after = d.past_entry();
            assert(d.rest.contains(e));
            let mid = if folder::enters(e) {
                DirDownloadView {
                    stack: after.stack.push((e.full_path, d.local_of(e))),
                    ..after
                }
            } else {
                after
            };
            assert forall|x: EntryView| #[trigger] d.rest.contains(x) implies x == e
                || mid.rest.contains(x) by {
                if x != e {
                    let i = d.rest.index_of(x);
                    assert(mid.rest[i] == x);
                }
            }
            assert forall|x: EntryView| #[trigger] mid.rest.contains(x) implies d.rest.contains(
                x,
            ) by {
                let i = mid.rest.index_of(x);
                assert(d.rest[i] == x);
            }
            assert forall|p: (Seq<char>, Seq<char>)| #[trigger]
                d.stack.contains(p) implies mid.stack.contains(p) by {
                let i = d.stack.index_of(p);
                assert(mid.stack[i] == p);
            }
            assert forall|p: (Seq<char>, Seq<char>)| #[trigger] mid.stack.contains(p) implies to_come(
                d,
                p,
            ) by {
                let i = mid.stack.index_of(p);
                if i < d.stack.len() {
                    assert(d.stack[i] == p);
                } else {
                    assert(p == mirror_of(d.ldir, e));
                }
            }
            if e.is_dir {
                lemma_fetch_next(mid, cancelled);
                if folder::enters(e) {
                    lemma_pushed(after.stack, mirror_of(d.ldir, e));
                    assert(mid.stack.contains(mirror_of(d.ldir, e)));
                    assert(mirror_of(d.ldir, e).0 == e.full_path);
                }
                assert forall|p: (Seq<char>, Seq<char>)| #[trigger] to_come(mid, p) implies to_come(
                    d,
                    p,
                ) by {
                    if !mid.stack.contains(p) {
                        let x = choose|x: EntryView| #[trigger]
                            mid.rest.contains(x) && folder::enters(x) && p == mirror_of(
                                mid.ldir,
                                x,
                            );
                        assert(d.rest.contains(x));
                    }
                }
            }
        } else if d.stack.len() > 0 {
            let top = d.stack.last();
            let mid = d.past_dir();
            assert(d.stack.contains(top));
            assert forall|p: (Seq<char>, Seq<char>)| #[trigger] d.stack.contains(p) implies p == top
                || mid.stack.contains(p) by {
                if p != top {
                    let i = d.stack.index_of(p);
                    assert(mid.stack[i] == p);
                }
            }
            assert forall|p: (Seq<char>, Seq<char>)| #[trigger]
                mid.stack.contains(p) implies d.stack.contains(p) by {
                let i = mid.stack.index_of(p);
                assert(d.stack[i] == p);
            }
            let key = remote_path::remote_dir(top.0);
            if d.visited.contains(key) {
                lemma_fetch_next(mid, cancelled);
                lemma_grew_keeps(mid.visited, end.visited, key);
                assert forall|p: (Seq<char>, Seq<char>)| #[trigger] to_come(mid, p) implies to_come(
                    d,
                    p,
                ) by {
                    if !mid.stack.contains(p) {
                        let x = choose|x: EntryView| #[trigger]
                            mid.rest.contains(x) && folder::enters(x) && p == mirror_of(
                                mid.ldir,
                                x,
                            );
                        assert(d.rest.contains(x));
                    }
                }
            } else {
                lemma_pushed(d.visited, key);
            }
        }
    }
}

/// Whether a step has to do with a directory that is not listed yet.
spec fn opening(step: FetchView) -> bool {
    step is MakeLocalDir || step is List
}

/// What holds of a download all the time.
spec fn download_ok(root: (Seq<char>, Seq<char>), s: DownloadRun) -> bool {
    let n = s.seen.len() as int;
    &&& s.job.visited.len() == n + if opening(s.step) {
        1int
    } else {
        0int
    }
    &&& s.job.visited.no_duplicates()
    &&& forall|k: int|
        0 <= k < n ==> #[trigger] s.job.visited[k] == remote_path::remote_dir(s.seen[k].rdir)
    &&& s.made.len() == n + if s.step is List {
        1int
    } else {
        0int
    }
    &&& forall|k: int| 0 <= k < n ==> #[trigger] s.made[k] == s.seen[k].ldir
    &&& match s.step {
        FetchView::MakeLocalDir(dir) => s.job.rest.len() == 0 && dir == s.job.ldir
            && s.job.visited[n] == remote_path::remote_dir(s.job.rdir),
        FetchView::List(dir) => s.job.rest.len() == 0 && dir == s.job.rdir && s.made[n]
            == s.job.ldir && s.job.visited[n] == remote_path::remote_dir(s.job.rdir),
        FetchView::Fetch { .. } => from_file(s.seen, s.step),
        FetchView::Complete => s.job.rest.len() == 0 && s.job.stack.len() == 0,
        _ => true,
    }
    &&& opening(s.step) ==> if n == 0 {
        (s.job.rdir, s.job.ldir) == root
    } else {
        from_dir(s.seen, (s.job.rdir, s.job.ldir))
    }
    &&& !opening(s.step) ==> n > 0
    &&& n > 0 ==> (s.seen[0].rdir, s.seen[0].ldir) == root
    &&& n == 0 ==> s.job.stack.len() == 0
    &&& forall|k: int|
        0 < k < n ==> from_dir(s.seen, ((#[trigger] s.seen[k]).rdir, s.seen[k].ldir))
    &&& forall|p: (Seq<char>, Seq<char>)| #[trigger]
        s.job.stack.contains(p) ==> from_dir(s.seen, p)
    &&& s.job.rest.len() > 0 ==> s.job.ldir == s.seen.last().ldir
    &&& forall|e: EntryView| #[trigger]
        s.job.rest.contains(e) ==> s.seen.last().entries.contains(e)
    &&& forall|k: int, i: int|
        #![trigger s.seen[k].entries[i]]
        0 <= k < n && 0 <= i < s.seen[k].entries.len() ==> kept(
            s.job,
            s.step,
            s.fetched,
            s.seen[k].ldir,
            s.seen[k].entries[i],
        ) || (s.job.rest.contains(s.seen[k].entries[i]) && k == n - 1)
    &&& forall|i: int| 0 <= i < s.fetched.len() ==> from_file(s.seen, #[trigger] s.fetched[i])
}

proof fn lemma_folder_download(
    remote_root: Seq<char>,
    local_parent: Seq<char>,
    cancelled: bool,
    answers: Seq<(FetchAnswer, bool)>,
)
    ensures
        ({
            let s = folder_download_after(remote_root, local_parent, cancelled, answers);
            let root = DirDownloadView::fresh(remote_root, local_parent).stack[0];
            !(s.step is Fail) && !(s.step is DropLocal) ==> download_ok(root, s)
        }),
    decreases answers.len(),
{
    let s = folder_download_after(remote_root, local_parent, cancelled, answers);
    let fresh = DirDownloadView::fresh(remote_root, local_parent);
    let root = fresh.stack[0];
    if answers.len() == 0 {
        if !cancelled {
            assert(fresh.entered().stack =~= Seq::empty());
        }
    } else {
        let front = answers.drop_last();
        let b = folder_download_after(remote_root, local_parent, cancelled, front);
        lemma_folder_download(remote_root, local_parent, cancelled, front);
        let (answer, stop) = answers.last();
        if !(s.step is Fail) && !(s.step is DropLocal) {
            match (b.step, answer) {
                (FetchView::MakeLocalDir(dir), FetchAnswer::Made(made)) => {},
                (FetchView::List(dir), FetchAnswer::Listing(l)) => {
                    let job = DirDownloadView { rest: l->Ok_0.reverse(), ..b.job };
                    lemma_download_goes_on(root, b, job, s, stop);
                },
                (FetchView::Fetch { .. }, FetchAnswer::File(moved)) => {
                    lemma_download_goes_on(root, b, b.job, s, stop);
                },
                _ => {},
            }
        }
    }
}

/// What came from a directory that was listed still does when more are.
proof fn lemma_from_grows(a: Seq<MirroredDir>, b: Seq<MirroredDir>)
    requires
        grew(a, b),
    ensures
        forall|p: (Seq<char>, Seq<char>)| #[trigger] from_dir(a, p) ==> from_dir(b, p),
        forall|f: FetchView| #[trigger] from_file(a, f) ==> from_file(b, f),
{
    assert forall|p: (Seq<char>, Seq<char>)| #[trigger] from_dir(a, p) implies from_dir(b, p) by {
        let (k, i) = choose|k: int, i: int|
            0 <= k < a.len() && 0 <= i < a[k].entries.len() && folder::enters(
                #[trigger] a[k].entries[i],
            ) && p == mirror_of(a[k].ldir, a[k].entries[i]);
        assert(b[k] == a[k]);
        assert(folder::enters(b[k].entries[i]));
    }
    assert forall|f: FetchView| #[trigger] from_file(a, f) implies from_file(b, f) by {
        let (k, i) = choose|k: int, i: int|
            0 <= k < a.len() && 0 <= i < a[k].entries.len() && !(
            #[trigger] a[k].entries[i]).is_dir && f == fetch_of(a[k].ldir, a[k].entries[i]);
        assert(b[k] == a[k]);
        assert(!b[k].entries[i].is_dir);
    }
}

/// A download goes on after an answer; `job` is how it stands when the answer is taken.
proof fn lemma_download_goes_on(
    root: (Seq<char>, Seq<char>),
    b: DownloadRun,
    job: DirDownloadView,
    s: DownloadRun,
    stop: bool,
)
    requires
        download_ok(root, b),
        job.visited == b.job.visited,
        job.stack == b.job.stack,
        job.ldir == b.job.ldir,
        (s.job, s.step) == job.next(stop),
        !(s.step is Fail) && !(s.step is DropLocal),
        s.made == b.made,
        match b.step {
            FetchView::List(dir) => s.fetched == b.fetched && s.seen.len() == b.seen.len() + 1
                && s.seen == b.seen.push(s.seen.last()) && s.seen.last().rdir == dir
                && s.seen.last().ldir == b.job.ldir && job.rest == s.seen.last().entries.reverse(),
            FetchView::Fetch { .. } => s.fetched == b.fetched.push(b.step) && s.seen == b.seen
                && job.rest == b.job.rest,
            _ => false,
        },
    ensures
        download_ok(root, s),
{
    lemma_fetch_next(job, stop);
    let n = s.seen.len() as int;
    let last = s.seen.last();
    assert(grew(b.seen, s.seen));
    lemma_from_grows(b.seen, s.seen);
    if b.step is Fetch {
        lemma_pushed(b.fetched, b.step);
    }
    assert forall|x: FetchView| #[trigger] b.fetched.contains(x) implies s.fetched.contains(x) by {
        let i = b.fetched.index_of(x);
        assert(s.fetched[i] == x);
    }
    assert forall|e: EntryView| #[trigger] job.rest.contains(e) implies last.entries.contains(
        e,
    ) by {
        if b.step is List {
            lemma_reverse_holds(last.entries, e);
        }
    }
    assert(job.rest.len() > 0 ==> job.ldir == last.ldir);
    assert forall|p: (Seq<char>, Seq<char>)| #[trigger] to_come(job, p) implies from_dir(
        s.seen,
        p,
    ) by {
        if job.stack.contains(p) {
            assert(from_dir(b.seen, p));
        } else {
            let e = choose|e: EntryView| #[trigger]
                job.rest.contains(e) && folder::enters(e) && p == mirror_of(job.ldir, e);
            assert(last.entries.contains(e));
            let i = last.entries.index_of(e);
            assert(s.seen[n - 1].entries[i] == e);
            assert(job.rest.len() > 0);
            assert(folder::enters(s.seen[n - 1].entries[i]));
        }
    }
    if s.step is Fetch {
        let e = choose|e: EntryView| #[trigger]
            job.rest.contains(e) && !e.is_dir && s.step == fetch_of(job.ldir, e);
        assert(last.entries.contains(e));
        let i = last.entries.index_of(e);
        assert(s.seen[n - 1].entries[i] == e);
        assert(job.rest.len() > 0);
        assert(!s.seen[n - 1].entries[i].is_dir);
    }
    assert forall|k: int, i: int|
        #![trigger s.seen[k].entries[i]]
        0 <= k < n && 0 <= i < s.seen[k].entries.len() implies kept(
        s.job,
        s.step,
        s.fetched,
        s.seen[k].ldir,
        s.seen[k].entries[i],
    ) || (s.job.rest.contains(s.seen[k].entries[i]) && k == n - 1) by {
        let e = s.seen[k].entries[i];
        let ldir = s.seen[k].ldir;
        if k < b.seen.len() {
            assert(b.seen[k].entries[i] == e);
            if b.step is Fetch && b.job.rest.contains(e) && k == n - 1 {
                assert(job.rest.contains(e));
                assert(job.rest.len() > 0);
            } else {
                if b.job.rest.contains(e) && b.step is List {
                    assert(false);
                }
                assert(kept(b.job, b.step, b.fetched, ldir, e));
                if folder::enters(e) {
                    let pair = mirror_of(ldir, e);
                    if job.stack.contains(pair) {
                        assert(pair.0 == e.full_path);
                    } else {
                        lemma_grew_keeps(
                            job.visited,
                            s.job.visited,
                            remote_path::remote_dir(e.full_path),
                        );
                    }
                }
            }
        } else {
            lemma_reverse_holds(s.seen[k].entries, e);
            assert(job.rest.contains(e));
        }
    }
    assert forall|i: int| 0 <= i < s.fetched.len() implies from_file(
        s.seen,
        #[trigger] s.fetched[i],
    ) by {
        if i < b.fetched.len() {
            assert(b.fetched[i] == s.fetched[i]);
        }
        assert(from_file(b.seen, s.fetched[i]));
    }
    assert forall|k: int| 0 < k < n implies from_dir(
        s.seen,
        ((#[trigger] s.seen[k]).rdir, s.seen[k].ldir),
    ) by {
        if k < b.seen.len() {
            assert(b.seen[k] == s.seen[k]);
        }
    }
    assert forall|k: int| 0 <= k < n implies #[trigger] s.made[k] == s.seen[k].ldir by {
        if k < b.seen.len() {
            assert(b.seen[k] == s.seen[k]);
            assert(b.made[k] == s.made[k]);
        }
    }
    assert forall|k: int| 0 <= k < n implies #[trigger] s.job.visited[k]
        == remote_path::remote_dir(s.seen[k].rdir) by {
        assert(job.visited[k] == s.job.visited[k]);
        if k < b.seen.len() {
            assert(b.seen[k] == s.seen[k]);
        }
    }
    assert(s.job.visited.no_duplicates()) by {
        if s.step is MakeLocalDir {
            let v = s.job.visited;
            assert forall|i: int, j: int|
                0 <= i < v.len() && 0 <= j < v.len() && i != j implies v[i] != v[j] by {
                if i < job.visited.len() {
                    assert(job.visited.contains(job.visited[i]));
                }
                if j < job.visited.len() {
                    assert(job.visited.contains(job.visited[j]));
                }
            }
        }
    }
}

// ---------------------------------------------------------------------------
// Uploading a folder
// ---------------------------------------------------------------------------

/// A local directory, where it is mirrored to, and where it really is.
pub struct ResolvedDir {
    pub ldir: Seq<char>,
    pub rdir: Seq<char>,
    pub key: Seq<char>,
}

/// How an upload stands: with the step that it wants done, the directories that were resolved,
/// those that were opened and those that were read to their end, the entries that were read, each
/// with the remote directory that it belongs to, and the files that were sent whole.
pub struct UploadRun {
    pub job: DirUploadView,
    pub step: SendView,
    pub resolved: Seq<ResolvedDir>,
    pub opened: Seq<ResolvedDir>,
    pub ended: Seq<Seq<char>>,
    pub read: Seq<(Seq<char>, LocalView)>,
    pub sent: Seq<SendView>,
}

/// Whether an answer is one to a step.
pub open spec fn answers_step(step: SendView, a: SendAnswer) -> bool {
    match (step, a) {
        (SendView::Resolve(_), SendAnswer::Resolved(_)) => true,
        (SendView::MakeDir(_), SendAnswer::Made(_)) => true,
        (SendView::OpenDir(_), SendAnswer::Opened(_)) => true,
        (SendView::NextEntry, SendAnswer::Met(_)) => true,
        (SendView::NextEntry, SendAnswer::DirEnd) => true,
        (SendView::NextEntry, SendAnswer::DirFailed) => true,
        (SendView::Send { local, remote, name }, SendAnswer::Sent(to, _)) => to == remote,
        _ => false,
    }
}

/// How an upload stands after answers to its steps, each with whether a stop was asked for. An
/// answer to another step changes nothing.
pub open spec fn folder_upload_after(
    local_root: Seq<char>,
    remote_parent: Seq<char>,
    cancelled: bool,
    answers: Seq<(SendAnswer, bool)>,
) -> UploadRun
    decreases answers.len(),
{
    if answers.len() == 0 {
        let (job, step) = folder_upload::upload_step(
            DirUploadView::fresh(local_root, remote_parent),
            SendAnswer::Start,
            cancelled,
        );
        UploadRun {
            job,
            step,
            resolved: Seq::empty(),
            opened: Seq::empty(),
            ended: Seq::empty(),
            read: Seq::empty(),
            sent: Seq::empty(),
        }
    } else {
        let s = folder_upload_after(local_root, remote_parent, cancelled, answers.drop_last());
        let (a, stop) = answers.last();
        if !answers_step(s.step, a) {
            s
        } else {
            let (job, step) = folder_upload::upload_step(s.job, a, stop);
            UploadRun {
                job,
                step,
                resolved: match a {
                    SendAnswer::Resolved(key) => s.resolved.push(
                        ResolvedDir { ldir: s.job.ldir, rdir: s.job.rdir, key },
                    ),
                    _ => s.resolved,
                },
                opened: if a == SendAnswer::Opened(true) {
                    s.opened.push(
                        ResolvedDir {
                            ldir: s.job.ldir,
                            rdir: s.job.rdir,
                            key: s.job.visited.last(),
                        },
                    )
                } else {
                    s.opened
                },
                ended: if a is DirEnd {
                    s.ended.push(s.job.rdir)
                } else {
                    s.ended
                },
                read: match a {
                    SendAnswer::Met(e) => s.read.push((s.job.rdir, e)),
                    _ => s.read,
                },
                sent: match a {
                    SendAnswer::Sent(_, moved) => if moved == Ok::<bool, Seq<char>>(true) {
                        s.sent.push(s.step)
                    } else {
                        s.sent
                    },
                    _ => s.sent,
                },
            }
        }
    }
}

/// The step that sends a file into a remote directory.
pub open spec fn send_of(rdir: Seq<char>, e: LocalView) -> SendView {
    SendView::Send { local: e.path, remote: folder::below(rdir, e.name), name: e.name }
}

/// Whether a directory was resolved, to be mirrored to the given place.
pub open spec fn is_resolved(
    resolved: Seq<ResolvedDir>,
    ldir: Seq<char>,
    rdir: Seq<char>,
) -> bool {
    exists|k: int|
        0 <= k < resolved.len() && (#[trigger] resolved[k]).ldir == ldir && resolved[k].rdir == rdir
}

/// Whether a directory was opened that really is at the given place.
pub open spec fn is_opened(opened: Seq<ResolvedDir>, key: Seq<char>) -> bool {
    exists|k: int| 0 <= k < opened.len() && (#[trigger] opened[k]).key == key
}

/// Whether a pair of directories is that of a directory that was read.
pub open spec fn read_as_dir(
    read: Seq<(Seq<char>, LocalView)>,
    ldir: Seq<char>,
    rdir: Seq<char>,
) -> bool {
    exists|i: int|
        0 <= i < read.len() && (#[trigger] read[i]).1.kind == Some(LocalKind::Dir) && ldir
            == read[i].1.path && rdir == folder::below(read[i].0, read[i].1.name)
}

/// Whether a step sends a regular file that was read.
pub open spec fn read_as_file(read: Seq<(Seq<char>, LocalView)>, step: SendView) -> bool {
    exists|i: int|
        0 <= i < read.len() && (#[trigger] read[i]).1.kind == Some(LocalKind::File) && step
            == send_of(read[i].0, read[i].1)
}

/// An upload sends the whole folder: when it is complete, of what was read every regular file was
/// sent whole into the remote directory of its own directory, and nothing else was; every
/// directory was resolved, to be mirrored below that of its own; and every place that one was
/// resolved to was opened, once, and read to its end, the folder itself first.
pub proof fn law_upload_sends_the_folder(
    local_root: Seq<char>,
    remote_parent: Seq<char>,
    cancelled: bool,
    answers: Seq<(SendAnswer, bool)>,
)
    requires
        folder_upload_after(local_root, remote_parent, cancelled, answers).step is Complete,
    ensures
        ({
            let s = folder_upload_after(local_root, remote_parent, cancelled, answers);
            let root = DirUploadView::fresh(local_root, remote_parent).stack[0];
            &&& forall|i: int|
                #![trigger s.read[i]]
                0 <= i < s.read.len() ==> {
                    let (rdir, e) = s.read[i];
                    &&& e.kind == Some(LocalKind::File) ==> s.sent.contains(send_of(rdir, e))
                    &&& e.kind == Some(LocalKind::Dir) ==> is_resolved(
                        s.resolved,
                        e.path,
                        folder::below(rdir, e.name),
                    )
                }
            &&& forall|i: int|
                0 <= i < s.sent.len() ==> read_as_file(s.read, #[trigger] s.sent[i])
            &&& s.resolved.len() > 0
            &&& (s.resolved[0].ldir, s.resolved[0].rdir) == root
            &&& forall|k: int|
                0 < k < s.resolved.len() ==> read_as_dir(
                    s.read,
                    (#[trigger] s.resolved[k]).ldir,
                    s.resolved[k].rdir,
                )
            &&& forall|k: int|
                0 <= k < s.resolved.len() ==> is_opened(
                    s.opened,
                    (#[trigger] s.resolved[k]).key,
                )
            &&& s.opened.len() > 0
            &&& s.opened[0] == s.resolved[0]
            &&& forall|k: int, m: int|
                0 <= k < m < s.opened.len() ==> (#[trigger] s.opened[k]).key != (
                #[trigger] s.opened[m]).key
            &&& s.ended.len() == s.opened.len()
            &&& forall|k: int| 0 <= k < s.opened.len() ==> #[trigger] s.ended[k] == s.opened[k].rdir
        }),
{
    lemma_folder_upload(local_root, remote_parent, cancelled, answers);
    let s = folder_upload_after(local_root, remote_parent, cancelled, answers);
    assert forall|k: int| 0 <= k < s.resolved.len() implies is_opened(
        s.opened,
        (#[trigger] s.resolved[k]).key,
    ) by {
        let m = s.job.visited.index_of(s.resolved[k].key);
        assert(s.job.visited[m] == s.opened[m].key);
    }
    assert forall|k: int, m: int| 0 <= k < m < s.opened.len() implies (#[trigger] s.opened[k]).key
        != (#[trigger] s.opened[m]).key by {
        assert(s.job.visited[k] != s.job.visited[m]);
    }
}

/// Whether a step has to do with a directory that is not opened yet.
spec fn entering(step: SendView) -> bool {
    step is MakeDir || step is OpenDir
}

/// Whether a step has to do with a directory that is being read.
spec fn reading(step: SendView) -> bool {
    step is NextEntry || step is Send
}

/// Whether an entry that was read needs nothing more: it is a file that was sent or is about to
/// be, or a directory that was resolved or is to be.
spec fn passed(s: UploadRun, rdir: Seq<char>, e: LocalView) -> bool {
    let there = folder::below(rdir, e.name);
    &&& e.kind == Some(LocalKind::File) ==> s.sent.contains(send_of(rdir, e)) || s.step == send_of(
        rdir,
        e,
    )
    &&& e.kind == Some(LocalKind::Dir) ==> s.job.stack.contains((e.path, there)) || is_resolved(
        s.resolved,
        e.path,
        there,
    ) || (s.step is Resolve && s.job.ldir == e.path && s.job.rdir == there)
}

/// What holds of an upload all the time.
spec fn upload_ok(root: (Seq<char>, Seq<char>), s: UploadRun) -> bool {
    let here = (s.job.ldir, s.job.rdir);
    &&& s.opened.len() == s.job.visited.len() - if entering(s.step) {
        1int
    } else {
        0int
    }
    &&& s.job.visited.no_duplicates()
    &&& forall|k: int| 0 <= k < s.opened.len() ==> #[trigger] s.job.visited[k] == s.opened[k].key
    &&& s.ended.len() == s.opened.len() - if reading(s.step) {
        1int
    } else {
        0int
    }
    &&& forall|k: int| 0 <= k < s.ended.len() ==> #[trigger] s.ended[k] == s.opened[k].rdir
    &&& reading(s.step) ==> s.opened.last().rdir == s.job.rdir
    &&& forall|k: int|
        0 <= k < s.resolved.len() ==> s.job.visited.contains((#[trigger] s.resolved[k]).key)
    &&& forall|i: int|
        0 <= i < s.read.len() ==> passed(s, (#[trigger] s.read[i]).0, s.read[i].1)
    &&& forall|i: int| 0 <= i < s.sent.len() ==> read_as_file(s.read, #[trigger] s.sent[i])
    &&& s.step is Send ==> read_as_file(s.read, s.step)
    &&& forall|p: (Seq<char>, Seq<char>)| #[trigger]
        s.job.stack.contains(p) ==> read_as_dir(s.read, p.0, p.1)
    &&& s.step is Resolve && s.resolved.len() > 0 ==> read_as_dir(s.read, here.0, here.1)
    &&& forall|k: int|
        0 < k < s.resolved.len() ==> read_as_dir(
            s.read,
            (#[trigger] s.resolved[k]).ldir,
            s.resolved[k].rdir,
        )
    &&& s.resolved.len() == 0 ==> s.step is Resolve && here == root && s.job.visited.len() == 0
    &&& s.resolved.len() > 0 ==> (s.resolved[0].ldir, s.resolved[0].rdir) == root
        && s.job.visited.len() > 0
    &&& s.opened.len() == 0 && s.resolved.len() > 0 ==> s.resolved.len() == 1 && entering(s.step)
        && here == root && s.job.visited[0] == s.resolved[0].key
    &&& s.opened.len() > 0 ==> s.opened[0] == s.resolved[0]
    &&& s.step is Complete ==> s.job.stack.len() == 0
}

proof fn lemma_read_grows(
    a: Seq<(Seq<char>, LocalView)>,
    b: Seq<(Seq<char>, LocalView)>,
)
    requires
        grew(a, b),
    ensures
        forall|l: Seq<char>, r: Seq<char>| #[trigger] read_as_dir(a, l, r) ==> read_as_dir(b, l, r),
        forall|f: SendView| #[trigger] read_as_file(a, f) ==> read_as_file(b, f),
{
    assert forall|l: Seq<char>, r: Seq<char>| #[trigger] read_as_dir(a, l, r) implies read_as_dir(
        b,
        l,
        r,
    ) by {
        let i = choose|i: int|
            0 <= i < a.len() && (#[trigger] a[i]).1.kind == Some(LocalKind::Dir) && l == a[i].1.path
                && r == folder::below(a[i].0, a[i].1.name);
        assert(b[i] == a[i]);
    }
    assert forall|f: SendView| #[trigger] read_as_file(a, f) implies read_as_file(b, f) by {
        let i = choose|i: int|
            0 <= i < a.len() && (#[trigger] a[i]).1.kind == Some(LocalKind::File) && f == send_of(
                a[i].0,
                a[i].1,
            );
        assert(b[i] == a[i]);
    }
}

proof fn lemma_folder_upload(
    local_root: Seq<char>,
    remote_parent: Seq<char>,
    cancelled: bool,
    answers: Seq<(SendAnswer, bool)>,
)
    ensures
        ({
            let s = folder_upload_after(local_root, remote_parent, cancelled, answers);
            let root = DirUploadView::fresh(local_root, remote_parent).stack[0];
            !(s.step is Fail) && !(s.step is Undo) ==> upload_ok(root, s)
        }),
    decreases answers.len(),
{
    let s = folder_upload_after(local_root, remote_parent, cancelled, answers);
    let root = DirUploadView::fresh(local_root, remote_parent).stack[0];
    if answers.len() == 0 {
    } else {
        let front = answers.drop_last();
        let b = folder_upload_after(local_root, remote_parent, cancelled, front);
        lemma_folder_upload(local_root, remote_parent, cancelled, front);
        let (a, stop) = answers.last();
        if answers_step(b.step, a) && !(s.step is Fail) && !(s.step is Undo) {
            lemma_upload_goes_on(root, b, a, stop, s);
        }
    }
}

/// An upload goes on after an answer.
proof fn lemma_upload_goes_on(
    root: (Seq<char>, Seq<char>),
    b: UploadRun,
    a: SendAnswer,
    stop: bool,
    s: UploadRun,
)
    requires
        upload_ok(root, b),
        answers_step(b.step, a),
        (s.job, s.step) == folder_upload::upload_step(b.job, a, stop),
        !(s.step is Fail) && !(s.step is Undo),
        s.resolved == (match a {
            SendAnswer::Resolved(key) => b.resolved.push(
                ResolvedDir { ldir: b.job.ldir, rdir: b.job.rdir, key },
            ),
            _ => b.resolved,
        }),
        s.opened == (if a == SendAnswer::Opened(true) {
            b.opened.push(
                ResolvedDir { ldir: b.job.ldir, rdir: b.job.rdir, key: b.job.visited.last() },
            )
        } else {
            b.opened
        }),
        s.ended == (if a is DirEnd {
            b.ended.push(b.job.rdir)
        } else {
            b.ended
        }),
        s.read == (match a {
            SendAnswer::Met(e) => b.read.push((b.job.rdir, e)),
            _ => b.read,
        }),
        s.sent == (if a is Sent {
            b.sent.push(b.step)
        } else {
            b.sent
        }),
    ensures
        upload_ok(root, s),
{
    assert(grew(b.read, s.read));
    assert(grew(b.resolved, s.resolved));
    lemma_read_grows(b.read, s.read);
    if a is Sent {
        lemma_pushed(b.sent, b.step);
    }
    assert forall|x: SendView| #[trigger] b.sent.contains(x) implies s.sent.contains(x) by {
        let i = b.sent.index_of(x);
        assert(s.sent[i] == x);
    }
    assert forall|l: Seq<char>, r: Seq<char>| #[trigger]
        is_resolved(b.resolved, l, r) implies is_resolved(s.resolved, l, r) by {
        let k = choose|k: int|
            0 <= k < b.resolved.len() && (#[trigger] b.resolved[k]).ldir == l && b.resolved[k].rdir
                == r;
        assert(s.resolved[k] == b.resolved[k]);
    }
    assert forall|x: Seq<char>| #[trigger] b.job.visited.contains(x) implies s.job.visited.contains(
        x,
    ) by {
        let i = b.job.visited.index_of(x);
        assert(s.job.visited[i] == x);
    }
    if let SendAnswer::Resolved(key) = a {
        let at = b.resolved.len() as int;
        assert(s.resolved[at] == ResolvedDir { ldir: b.job.ldir, rdir: b.job.rdir, key });
        assert(is_resolved(s.resolved, b.job.ldir, b.job.rdir));
        if !b.job.visited.contains(key) {
            lemma_pushed(b.job.visited, key);
            let v = s.job.visited;
            assert forall|i: int, j: int|
                0 <= i < v.len() && 0 <= j < v.len() && i != j implies v[i] != v[j] by {
                if i < b.job.visited.len() {
                    assert(b.job.visited.contains(b.job.visited[i]));
                }
                if j < b.job.visited.len() {
                    assert(b.job.visited.contains(b.job.visited[j]));
                }
            }
        }
    }
    if let SendAnswer::Met(e) = a {
        let at = b.read.len() as int;
        assert(s.read[at] == (b.job.rdir, e));
        if e.kind == Some(LocalKind::Dir) {
            lemma_pushed(b.job.stack, (e.path, folder::below(b.job.rdir, e.name)));
        }
    }
    let there = (s.job.ldir, s.job.rdir);
    assert forall|p: (Seq<char>, Seq<char>)| #[trigger]
        b.job.stack.contains(p) implies s.job.stack.contains(p) || (s.step is Resolve && there
        == p) by {
        let i = b.job.stack.index_of(p);
        if i < s.job.stack.len() {
            assert(s.job.stack[i] == p);
        }
    }
    assert forall|p: (Seq<char>, Seq<char>)| #[trigger] s.job.stack.contains(p) implies read_as_dir(
        s.read,
        p.0,
        p.1,
    ) by {
        let i = s.job.stack.index_of(p);
        if i < b.job.stack.len() {
            assert(b.job.stack[i] == p);
            assert(b.job.stack.contains(p));
        } else {
            assert(s.read[b.read.len() as int].1.kind == Some(LocalKind::Dir));
        }
    }
    if s.step is Resolve {
        assert(b.job.stack.contains(b.job.stack.last()));
    }
    assert forall|i: int| 0 <= i < s.read.len() implies passed(
        s,
        (#[trigger] s.read[i]).0,
        s.read[i].1,
    ) by {
        if i < b.read.len() {
            assert(b.read[i] == s.read[i]);
            let (rdir, e) = b.read[i];
            assert(passed(b, rdir, e));
        }
    }
    assert forall|i: int| 0 <= i < s.sent.len() implies read_as_file(
        s.read,
        #[trigger] s.sent[i],
    ) by {
        if i < b.sent.len() {
            assert(b.sent[i] == s.sent[i]);
        }
        assert(read_as_file(b.read, s.sent[i]));
    }
    assert forall|k: int| 0 < k < s.resolved.len() implies read_as_dir(
        s.read,
        (#[trigger] s.resolved[k]).ldir,
        s.resolved[k].rdir,
    ) by {
        if k < b.resolved.len() {
            assert(b.resolved[k] == s.resolved[k]);
        }
    }
    assert forall|k: int| 0 <= k < s.resolved.len() implies s.job.visited.contains(
        (#[trigger] s.resolved[k]).key,
    ) by {
        if k < b.resolved.len() {
            assert(b.resolved[k] == s.resolved[k]);
        }
    }
    if s.step is Send {
        assert(s.read[b.read.len() as int].1.kind == Some(LocalKind::File));
    }
    assert forall|k: int| 0 <= k < s.opened.len() implies #[trigger] s.job.visited[k]
        == s.opened[k].key by {
        if k < b.opened.len() {
            assert(b.job.visited[k] == b.opened[k].key);
        }
    }
    assert forall|k: int| 0 <= k < s.ended.len() implies #[trigger] s.ended[k]
        == s.opened[k].rdir by {
        if k < b.ended.len() {
            assert(b.ended[k] == s.ended[k]);
        }
    }
}

// ---------------------------------------------------------------------------
// Archiving a folder
// ---------------------------------------------------------------------------

/// Something that the walk through a folder that is archived goes through.
pub enum ArchiveStep {
    /// The next directory was taken, if there was one.
    Dir,
    /// An entry of it was met.
    Entry(LocalKind, u64),
}

/// How such a walk stands, with the directories that were taken and the entries that were met.
pub struct ArchiveRun {
    pub walk: ArchiveView,
    pub dirs: Seq<u64>,
    pub met: Seq<(LocalKind, u64)>,
}

/// How such a walk stands after what it has been through.
pub open spec fn archive_after(root: u64, steps: Seq<ArchiveStep>) -> ArchiveRun
    decreases steps.len(),
{
    if steps.len() == 0 {
        ArchiveRun { walk: ArchiveView::fresh(root), dirs: Seq::empty(), met: Seq::empty() }
    } else {
        let s = archive_after(root, steps.drop_last());
        match steps.last() {
            ArchiveStep::Dir => if s.walk.stack.len() == 0 {
                s
            } else {
                ArchiveRun {
                    walk: s.walk.past_dir(),
                    dirs: s.dirs.push(s.walk.stack.last()),
                    met: s.met,
                }
            },
            ArchiveStep::Entry(kind, number) => ArchiveRun {
                walk: s.walk.met(kind, number),
                dirs: s.dirs,
                met: s.met.push((kind, number)),
            },
        }
    }
}

/// A folder is archived as a whole: when there is no next directory, the folder itself and every
/// directory that was met have been taken, and nothing else has.
pub proof fn law_archive_takes_the_folder(root: u64, steps: Seq<ArchiveStep>)
    requires
        archive_after(root, steps).walk.stack.len() == 0,
    ensures
        ({
            let s = archive_after(root, steps);
            &&& s.dirs.contains(root)
            &&& forall|i: int|
                0 <= i < s.met.len() && (#[trigger] s.met[i]).0 == LocalKind::Dir
                    ==> s.dirs.contains(s.met[i].1)
            &&& forall|k: int|
                0 <= k < s.dirs.len() ==> #[trigger] s.dirs[k] == root || s.met.contains(
                    (LocalKind::Dir, s.dirs[k]),
                )
        }),
{
    lemma_archive(root, steps);
}

proof fn lemma_archive(root: u64, steps: Seq<ArchiveStep>)
    ensures
        ({
            let s = archive_after(root, steps);
            &&& s.dirs.contains(root) || s.walk.stack.contains(root)
            &&& forall|i: int|
                0 <= i < s.met.len() && (#[trigger] s.met[i]).0 == LocalKind::Dir
                    ==> s.dirs.contains(s.met[i].1) || s.walk.stack.contains(s.met[i].1)
            &&& forall|k: int|
                0 <= k < s.dirs.len() ==> #[trigger] s.dirs[k] == root || s.met.contains(
                    (LocalKind::Dir, s.dirs[k]),
                )
            &&& forall|k: int|
                0 <= k < s.walk.stack.len() ==> #[trigger] s.walk.stack[k] == root
                    || s.met.contains((LocalKind::Dir, s.walk.stack[k]))
        }),
    decreases steps.len(),
{
    let s = archive_after(root, steps);
    if steps.len() == 0 {
        assert(s.walk.stack[0] == root);
    } else {
        let b = archive_after(root, steps.drop_last());
        lemma_archive(root, steps.drop_last());
        assert forall|x: u64| #[trigger] b.dirs.contains(x) implies s.dirs.contains(x) by {
            let i = b.dirs.index_of(x);
            assert(s.dirs[i] == x);
        }
        assert forall|x: u64| #[trigger] b.walk.stack.contains(x) implies s.dirs.contains(x)
            || s.walk.stack.contains(x) by {
            let i = b.walk.stack.index_of(x);
            if i < s.walk.stack.len() {
                assert(s.walk.stack[i] == x);
            } else {
                assert(s.dirs[b.dirs.len() as int] == x);
            }
        }
        assert forall|x: (LocalKind, u64)| #[trigger] b.met.contains(x) implies s.met.contains(
            x,
        ) by {
            let i = b.met.index_of(x);
            assert(s.met[i] == x);
        }
        if let ArchiveStep::Entry(kind, number) = steps.last() {
            assert(s.met[b.met.len() as int] == (kind, number));
            if kind == LocalKind::Dir {
                assert(s.walk.stack[b.walk.stack.len() as int] == number);
            }
        }
        assert forall|i: int|
            0 <= i < s.met.len() && (#[trigger] s.met[i]).0 == LocalKind::Dir implies s.dirs.contains(
            s.met[i].1,
        ) || s.walk.stack.contains(s.met[i].1) by {
            if i < b.met.len() {
                assert(b.met[i] == s.met[i]);
            }
        }
        assert forall|k: int| 0 <= k < s.dirs.len() implies #[trigger] s.dirs[k] == root
            || s.met.contains((LocalKind::Dir, s.dirs[k])) by {
            if k < b.dirs.len() {
                assert(b.dirs[k] == s.dirs[k]);
            } else {
                assert(b.walk.stack[b.walk.stack.len() - 1] == s.dirs[k]);
            }
        }
        assert forall|k: int| 0 <= k < s.walk.stack.len() implies #[trigger] s.walk.stack[k] == root
            || s.met.contains((LocalKind::Dir, s.walk.stack[k])) by {
            if k < b.walk.stack.len() {
                assert(b.walk.stack[k] == s.walk.stack[k]);
            }
        }
    }
}

} // verus!
