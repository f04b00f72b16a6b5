//! What a transfer moves, from where and to where, from its beginning to its last report.
use crate::events::{EntryView, EventView, TransferState};
use crate::folder;
use crate::folder::{DirDownloadView, FetchView};
use crate::folder_history;
use crate::folder_history::FetchAnswer;
use crate::folder_upload::{DirUploadView, LocalKind, SendAnswer, SendView};
use crate::job;
use crate::job::{JobOpView, JobPhaseView, JobReplyView, JobView};
use crate::lang::Lang;
use crate::number;
use crate::remote_path;
use crate::shell;
use crate::text;
use crate::text::CharSet;
use crate::worker_laws;
use vstd::prelude::*;

verus! {

/// The last message of a transfer that came to its end: that it was completed, that it was
/// cancelled, or why it failed.
pub open spec fn tells_outcome(
    e: EventView,
    is_upload: bool,
    name: Seq<char>,
    moved: Result<bool, Seq<char>>,
    lang: Lang,
) -> bool {
    match moved {
        Ok(true) => worker_laws::says(
            e,
            if is_upload {
                lang.pick("上传完成"@, "Uploaded"@)
            } else {
                lang.pick("下载完成"@, "Downloaded"@)
            },
            name,
        ),
        Ok(false) => worker_laws::says(e, lang.pick("已取消"@, "Cancelled"@), name),
        Err(m) => worker_laws::says(
            e,
            if is_upload {
                lang.pick("上传失败"@, "Upload failed"@)
            } else {
                lang.pick("下载失败"@, "Download failed"@)
            },
            m,
        ),
    }
}

/// Uploading a folder: it is looked at first; then exactly this folder is sent into exactly this
/// remote directory, so that the walk begins with it and with a directory of its own name there;
/// at the end the remote directory is listed and shown, and the outcome is told with the name of
/// the folder.
pub proof fn law_folder_upload_goes_as_asked(
    id: Seq<char>,
    local: Seq<char>,
    remote_dir: Seq<char>,
    lang: Lang,
    moved: Result<bool, Seq<char>>,
    l: Result<Seq<EntryView>, Seq<char>>,
)
    ensures
        ({
            let (one, first) = job::upload_start(id, local, remote_dir, lang);
            let (two, second) = one.step(JobReplyView::Kind(Some(LocalKind::Dir)));
            let (three, third) = two.step(JobReplyView::Moved(moved));
            let (four, fourth) = three.step(JobReplyView::Listing(l));
            let name = remote_path::base_name_of(local);
            let walk = DirUploadView::fresh(second.op->SendTree_local, second.op->SendTree_remote_dir);
            &&& first.op == JobOpView::LocalKind(local)
            &&& second.op == (JobOpView::SendTree { local, remote_dir })
            &&& walk.stack == seq![
                (local, text::strip_end(remote_dir, CharSet::Only('/')) + "/"@ + name),
            ]
            &&& third.op == JobOpView::List(remote_dir)
            &&& fourth.op is Stop
            &&& fourth.events.len() > 0
            &&& l matches Ok(entries) ==> fourth.events[0] == (EventView::SftpEntries {
                path: remote_dir,
                entries,
            })
            &&& tells_outcome(fourth.events.last(), true, name, moved, lang)
        }),
{
}

/// Uploading a file, or what is no folder: exactly this file is sent to its own name in exactly
/// this remote directory. A failure is reported on this transfer, and told. After a success the
/// remote directory is listed and shown, and the outcome is told.
pub proof fn law_file_upload_goes_as_asked(
    id: Seq<char>,
    local: Seq<char>,
    remote_dir: Seq<char>,
    lang: Lang,
    kind: Option<LocalKind>,
    moved: Result<bool, Seq<char>>,
    l: Result<Seq<EntryView>, Seq<char>>,
)
    requires
        kind != Some(LocalKind::Dir),
    ensures
        ({
            let (one, first) = job::upload_start(id, local, remote_dir, lang);
            let (two, second) = one.step(JobReplyView::Kind(kind));
            let (three, third) = two.step(JobReplyView::Moved(moved));
            let (four, fourth) = three.step(JobReplyView::Listing(l));
            let name = remote_path::base_name_of(local);
            let last = if moved is Ok {
                fourth
            } else {
                third
            };
            &&& first.op == JobOpView::LocalKind(local)
            &&& second.op == (JobOpView::SendFile {
                local,
                remote: text::strip_end(remote_dir, CharSet::Only('/')) + "/"@ + name,
                name,
            })
            &&& moved is Ok ==> third.op == JobOpView::List(remote_dir)
            &&& moved is Ok ==> (l matches Ok(entries) ==> fourth.events[0] == (
            EventView::SftpEntries { path: remote_dir, entries }))
            &&& last.op is Stop
            &&& last.events.len() > 0
            &&& tells_outcome(last.events.last(), true, name, moved, lang)
            &&& moved matches Err(m) ==> third.events[0] == (EventView::SftpTransfer {
                id,
                name,
                is_upload: true,
                transferred: 0,
                total: 0,
                state: TransferState::Failed,
                msg: m,
            })
        }),
{
}

/// Downloading a file: what the server does not call a directory is fetched from exactly this
/// path, to a plain name in exactly this local directory, its own name where that is plain. The
/// outcome is told, and a failure is reported on this transfer too.
pub proof fn law_file_download_goes_as_asked(
    id: Seq<char>,
    remote: Seq<char>,
    local_dir: Seq<char>,
    lang: Lang,
    mode: Option<Option<u32>>,
    moved: Result<bool, Seq<char>>,
)
    requires
        !(mode matches Some(Some(p)) && p & 0o170_000 == 0o040_000),
    ensures
        ({
            let (one, first) = job::download_start(id, remote, local_dir, lang);
            let (two, second) = one.step(JobReplyView::Mode(mode));
            let (three, third) = two.step(JobReplyView::Moved(moved));
            let base = remote_path::base_name_of(remote);
            let name = second.op->FetchFile_name;
            &&& first.op == JobOpView::Lstat(remote)
            &&& second.op == (JobOpView::FetchFile {
                remote,
                local: text::strip_end(local_dir, CharSet::Only('/')) + "/"@ + name,
                name,
            })
            &&& remote_path::plain_name(name)
            &&& remote_path::plain_name(base) ==> name == base
            &&& third.op is Stop
            &&& third.events.len() > 0
            &&& tells_outcome(third.events.last(), false, name, moved, lang)
            &&& moved matches Err(m) ==> third.events[0] == (EventView::SftpTransfer {
                id,
                name,
                is_upload: false,
                transferred: 0,
                total: 0,
                state: TransferState::Failed,
                msg: m,
            })
        }),
{
    remote_path::law_safe_name_is_plain(remote_path::base_name_of(remote));
    if remote_path::plain_name(remote_path::base_name_of(remote)) {
        remote_path::law_plain_names_pass(remote_path::base_name_of(remote));
    }
}

/// Downloading a folder: what the server calls a directory is listed. If nothing is in it, that
/// is told and nothing is fetched. Else exactly this folder is fetched into exactly this local
/// directory, and the walk begins with it and with a directory of its own, safe name there; the
/// outcome is told with the name of the folder.
pub proof fn law_folder_download_goes_as_asked(
    id: Seq<char>,
    remote: Seq<char>,
    local_dir: Seq<char>,
    lang: Lang,
    p: u32,
    l: Result<Seq<EntryView>, Seq<char>>,
    moved: Result<bool, Seq<char>>,
)
    requires
        p & 0o170_000 == 0o040_000,
    ensures
        ({
            let (one, first) = job::download_start(id, remote, local_dir, lang);
            let (two, second) = one.step(JobReplyView::Mode(Some(Some(p))));
            let (three, third) = two.step(JobReplyView::Listing(l));
            let (four, fourth) = three.step(JobReplyView::Moved(moved));
            let name = remote_path::base_name_of(remote);
            let walk = DirDownloadView::fresh(third.op->FetchTree_remote, third.op->FetchTree_local_dir);
            &&& first.op == JobOpView::Lstat(remote)
            &&& second.op == JobOpView::List(remote)
            &&& if (l matches Ok(entries) && entries.len() == 0) {
                &&& third.op is Stop
                &&& third.events.len() == 1
                &&& worker_laws::says(
                    third.events[0],
                    lang.pick("空文件夹"@, "Empty folder"@),
                    name,
                )
            } else {
                &&& third.op == (JobOpView::FetchTree { remote, local_dir })
                &&& walk.stack == seq![
                    (
                        text::strip_end(remote, CharSet::Only('/')),
                        text::strip_end(local_dir, CharSet::Only('/')) + "/"@
                            + remote_path::safe_name(name),
                    ),
                ]
                &&& fourth.op is Stop
                &&& fourth.events.len() == 1
                &&& tells_outcome(fourth.events[0], false, name, moved, lang)
            }
        }),
{
}

/// Downloading several entries as one archive: a command packs exactly these names of exactly
/// this directory into a file of its own among the temporary ones, with each name, the directory
/// and the archive as one word of the shell; that file is fetched to a plain name in the local
/// directory, and removed from the server. The outcome is told at the end.
pub proof fn law_archive_download_goes_as_asked(
    id: Seq<char>,
    temp_id: Seq<char>,
    remote_dir: Seq<char>,
    names: Seq<Seq<char>>,
    local_dir: Seq<char>,
    lang: Lang,
    moved: Result<bool, Seq<char>>,
    code: Option<u32>,
)
    ensures
        ({
            let (one, first) = job::archive_start(id, temp_id, remote_dir, names, local_dir, lang);
            let (two, second) = one.step(JobReplyView::Exit(Some(0)));
            let (three, third) = two.step(JobReplyView::Moved(moved));
            let (four, fourth) = three.step(JobReplyView::Exit(code));
            let temp = "/tmp/probe-shell-"@ + temp_id + ".tar"@;
            let name = second.op->FetchFile_name;
            &&& first.op == JobOpView::Exec(
                "tar -cf "@ + remote_path::quoted(temp) + " -C "@ + remote_path::quoted(remote_dir)
                    + shell::quoted_names(names),
            )
            &&& second.op == (JobOpView::FetchFile {
                remote: temp,
                local: text::strip_end(local_dir, CharSet::Only('/')) + "/"@ + name,
                name,
            })
            &&& remote_path::plain_name(name)
            &&& third.op == JobOpView::Exec("rm -f "@ + remote_path::quoted(temp))
            &&& fourth.op is Stop
            &&& fourth.events.len() > 0
            &&& tells_outcome(fourth.events.last(), false, name, moved, lang)
        }),
{
    let first = if names.len() == 0 {
        "download"@
    } else {
        names[0]
    };
    remote_path::law_safe_name_is_plain(
        shell::stem(first) + lang.pick("等文件"@, "-and-more"@) + ".tar"@,
    );
}

/// What is about to be moved is announced by one message, which names it: a folder with a slash
/// behind its name, a file by its name alone. Several entries that are packed are announced by
/// their number, and the archive by its own name, as a transfer that is being prepared.
pub proof fn law_start_is_announced(
    id: Seq<char>,
    temp_id: Seq<char>,
    names: Seq<Seq<char>>,
    remote: Seq<char>,
    local: Seq<char>,
    lang: Lang,
    kind: Option<LocalKind>,
    entries: Seq<EntryView>,
)
    requires
        entries.len() > 0,
    ensures
        ({
            let sent = job::upload_start(id, local, remote, lang).0.step(JobReplyView::Kind(kind)).1;
            let name = remote_path::base_name_of(local);
            &&& sent.events.len() == 1
            &&& sent.events[0] == EventView::SftpStatus(
                if kind == Some(LocalKind::Dir) {
                    lang.pick("上传文件夹"@, "Uploading folder"@) + " "@ + (name + "/"@) + "..."@
                } else {
                    lang.pick("上传"@, "Uploading"@) + " "@ + name + "..."@
                },
            )
        }),
        ({
            let looked = job::download_start(id, remote, local, lang).0;
            let file = looked.step(JobReplyView::Mode(None)).1;
            let listing = JobView {
                phase: JobPhaseView::FetchList { remote, local_dir: local },
                ..looked
            };
            let folder = listing.step(JobReplyView::Listing(Ok(entries))).1;
            &&& file.events.len() == 1
            &&& file.events[0] == EventView::SftpStatus(
                lang.pick("下载"@, "Downloading"@) + " "@ + file.op->FetchFile_name + "..."@,
            )
            &&& folder.events.len() == 1
            &&& folder.events[0] == EventView::SftpStatus(
                lang.pick("下载文件夹"@, "Downloading folder"@) + " "@ + (
                remote_path::base_name_of(remote) + "/"@) + "..."@,
            )
        }),
        ({
            let (one, first) = job::archive_start(id, temp_id, remote, names, local, lang);
            let second = one.step(JobReplyView::Exit(Some(0))).1;
            &&& first.events.len() == 2
            &&& first.events[0] == EventView::SftpStatus(
                lang.pick("打包下载"@, "Archiving"@) + " "@ + number::decimal(names.len()) + " "@
                    + lang.pick("项"@, "items"@) + "..."@,
            )
            &&& first.events[1] == (EventView::SftpTransfer {
                id,
                name: second.op->FetchFile_name,
                is_upload: false,
                transferred: 0,
                total: 0,
                state: TransferState::Preparing,
                msg: ""@,
            })
        }),
{
}

/// Where packing failed nothing is fetched: the archive is removed and the failure told.
pub proof fn law_failed_packing_fetches_nothing(
    id: Seq<char>,
    temp_id: Seq<char>,
    remote_dir: Seq<char>,
    names: Seq<Seq<char>>,
    local_dir: Seq<char>,
    lang: Lang,
    exit: Option<u32>,
    code: Option<u32>,
)
    requires
        exit != Some(0u32),
    ensures
        ({
            let (one, first) = job::archive_start(id, temp_id, remote_dir, names, local_dir, lang);
            let (two, second) = one.step(JobReplyView::Exit(exit));
            let (three, third) = two.step(JobReplyView::Exit(code));
            let temp = "/tmp/probe-shell-"@ + temp_id + ".tar"@;
            &&& second.op == JobOpView::Exec("rm -f "@ + remote_path::quoted(temp))
            &&& third.op is Stop
            &&& third.events.len() == 2
            &&& third.events[0] is SftpTransfer
            &&& third.events[0]->SftpTransfer_id == id
            &&& third.events[0]->SftpTransfer_state == TransferState::Failed
        }),
{
}

// ---------------------------------------------------------------------------
// Folders keep their shape
// ---------------------------------------------------------------------------

/// Whether one path stands below one folder as another path does below another folder.
pub open spec fn same_place(
    root: Seq<char>,
    other_root: Seq<char>,
    path: Seq<char>,
    other: Seq<char>,
) -> bool {
    exists|rest: Seq<char>| path == #[trigger] (root + rest) && other == other_root + rest
}

/// Whether the entries that are met on an upload stand in the directory that is being read.
pub open spec fn entries_stand_in_place(
    local: Seq<char>,
    remote_dir: Seq<char>,
    cancelled: bool,
    answers: Seq<(SendAnswer, bool)>,
) -> bool
    decreases answers.len(),
{
    answers.len() > 0 ==> {
        let s = folder_history::folder_upload_after(
            local,
            remote_dir,
            cancelled,
            answers.drop_last(),
        );
        &&& entries_stand_in_place(local, remote_dir, cancelled, answers.drop_last())
        &&& answers.last().0 matches SendAnswer::Met(e) ==> e.path == s.job.ldir + "/"@ + e.name
    }
}

/// An uploaded folder keeps its shape: every file that is sent from a place below the folder goes
/// to the same place below the directory of the folder's name in the remote directory, and to no
/// other.
pub proof fn law_uploaded_folder_keeps_its_shape(
    local: Seq<char>,
    remote_dir: Seq<char>,
    cancelled: bool,
    answers: Seq<(SendAnswer, bool)>,
)
    requires
        entries_stand_in_place(local, remote_dir, cancelled, answers),
    ensures
        ({
            let s = folder_history::folder_upload_after(local, remote_dir, cancelled, answers);
            let there = text::strip_end(remote_dir, CharSet::Only('/')) + "/"@
                + remote_path::base_name_of(local);
            &&& forall|i: int|
                0 <= i < s.sent.len() ==> (#[trigger] s.sent[i] matches SendView::Send {
                    local: from,
                    remote: to,
                    name,
                } && same_place(local, there, from, to))
            &&& s.step matches SendView::Send { local: from, remote: to, name } ==> same_place(
                local,
                there,
                from,
                to,
            )
            &&& forall|i: int|
                0 <= i < s.resolved.len() ==> same_place(
                    local,
                    there,
                    (#[trigger] s.resolved[i]).ldir,
                    s.resolved[i].rdir,
                )
        }),
{
    lemma_upload_shape(local, remote_dir, cancelled, answers);
}

proof fn lemma_same_place_below(
    root: Seq<char>,
    other_root: Seq<char>,
    path: Seq<char>,
    other: Seq<char>,
    name: Seq<char>,
)
    requires
        same_place(root, other_root, path, other),
    ensures
        same_place(root, other_root, path + "/"@ + name, other + "/"@ + name),
{
    let rest = choose|rest: Seq<char>|
        path == #[trigger] (root + rest) && other == other_root + rest;
    let more = rest + "/"@ + name;
    assert(path + "/"@ + name =~= root + more);
    assert(other + "/"@ + name =~= other_root + more);
}

spec fn upload_shape(
    s: folder_history::UploadRun,
    local: Seq<char>,
    there: Seq<char>,
) -> bool {
    &&& forall|i: int|
        0 <= i < s.job.stack.len() ==> same_place(
            local,
            there,
            (#[trigger] s.job.stack[i]).0,
            s.job.stack[i].1,
        )
    &&& (s.step is Resolve || s.step is MakeDir || s.step is OpenDir || s.step is NextEntry
        || s.step is Send) ==> same_place(local, there, s.job.ldir, s.job.rdir)
    &&& s.step matches SendView::Send { local: from, remote: to, name } ==> same_place(
        local,
        there,
        from,
        to,
    )
    &&& forall|i: int|
        0 <= i < s.sent.len() ==> (#[trigger] s.sent[i] matches SendView::Send {
            local: from,
            remote: to,
            name,
        } && same_place(local, there, from, to))
    &&& forall|i: int|
        0 <= i < s.resolved.len() ==> same_place(
            local,
            there,
            (#[trigger] s.resolved[i]).ldir,
            s.resolved[i].rdir,
        )
}

proof fn lemma_upload_shape(
    local: Seq<char>,
    remote_dir: Seq<char>,
    cancelled: bool,
    answers: Seq<(SendAnswer, bool)>,
)
    requires
        entries_stand_in_place(local, remote_dir, cancelled, answers),
    ensures
        upload_shape(
            folder_history::folder_upload_after(local, remote_dir, cancelled, answers),
            local,
            text::strip_end(remote_dir, CharSet::Only('/')) + "/"@ + remote_path::base_name_of(
                local,
            ),
        ),
    decreases answers.len(),
{
    let there = text::strip_end(remote_dir, CharSet::Only('/')) + "/"@ + remote_path::base_name_of(
        local,
    );
    let s = folder_history::folder_upload_after(local, remote_dir, cancelled, answers);
    if answers.len() == 0 {
        let none = Seq::<char>::empty();
        assert(local =~= local + none);
        assert(there =~= there + none);
        assert(same_place(local, there, local, there));
    } else {
        let b = folder_history::folder_upload_after(
            local,
            remote_dir,
            cancelled,
            answers.drop_last(),
        );
        let (a, stop) = answers.last();
        lemma_upload_shape(local, remote_dir, cancelled, answers.drop_last());
        if folder_history::answers_step(b.step, a) {
            match a {
                SendAnswer::Met(e) => {
                    lemma_same_place_below(local, there, b.job.ldir, b.job.rdir, e.name);
                },
                _ => {},
            }
            if b.job.stack.len() > 0 {
                assert(b.job.stack[b.job.stack.len() - 1] == b.job.stack.last());
            }
            assert forall|i: int| 0 <= i < s.job.stack.len() implies same_place(
                local,
                there,
                (#[trigger] s.job.stack[i]).0,
                s.job.stack[i].1,
            ) by {
                if i < b.job.stack.len() {
                    assert(s.job.stack[i] == b.job.stack[i]);
                }
            }
            assert forall|i: int| 0 <= i < s.sent.len() implies (
            #[trigger] s.sent[i] matches SendView::Send { local: from, remote: to, name }
                && same_place(local, there, from, to)) by {
                if i < b.sent.len() {
                    assert(s.sent[i] == b.sent[i]);
                }
            }
            assert forall|i: int| 0 <= i < s.resolved.len() implies same_place(
                local,
                there,
                (#[trigger] s.resolved[i]).ldir,
                s.resolved[i].rdir,
            ) by {
                if i < b.resolved.len() {
                    assert(s.resolved[i] == b.resolved[i]);
                }
            }
        }
    }
}

/// Whether the entries of a listing stand in the directory that was listed, under plain names.
pub open spec fn plainly_listed(dir: Seq<char>, entries: Seq<EntryView>) -> bool {
    forall|i: int|
        0 <= i < entries.len() ==> (#[trigger] entries[i]).full_path == dir + "/"@
            + entries[i].name && remote_path::plain_name(entries[i].name)
}

/// Whether what is listed on a download stands in the directory that was asked for, under plain
/// names.
pub open spec fn listings_are_plain(
    remote: Seq<char>,
    local_dir: Seq<char>,
    cancelled: bool,
    answers: Seq<(FetchAnswer, bool)>,
) -> bool
    decreases answers.len(),
{
    answers.len() > 0 ==> {
        let s = folder_history::folder_download_after(
            remote,
            local_dir,
            cancelled,
            answers.drop_last(),
        );
        &&& listings_are_plain(remote, local_dir, cancelled, answers.drop_last())
        &&& answers.last().0 matches FetchAnswer::Listing(Ok(entries)) ==> plainly_listed(
            s.job.rdir,
            entries,
        )
    }
}

/// A downloaded folder keeps its shape: where all its names are plain, every file that is fetched
/// from a place below the folder comes to the same place below the directory of the folder's
/// safe name in the local directory, and to no other.
pub proof fn law_downloaded_folder_keeps_its_shape(
    remote: Seq<char>,
    local_dir: Seq<char>,
    cancelled: bool,
    answers: Seq<(FetchAnswer, bool)>,
)
    requires
        listings_are_plain(remote, local_dir, cancelled, answers),
    ensures
        ({
            let s = folder_history::folder_download_after(remote, local_dir, cancelled, answers);
            let from = text::strip_end(remote, CharSet::Only('/'));
            let to = text::strip_end(local_dir, CharSet::Only('/')) + "/"@
                + remote_path::safe_name(remote_path::base_name_of(remote));
            &&& forall|i: int|
                0 <= i < s.fetched.len() ==> (#[trigger] s.fetched[i] matches FetchView::Fetch {
                    remote: r,
                    local: l,
                    name,
                } && same_place(from, to, r, l))
            &&& s.step matches FetchView::Fetch { remote: r, local: l, name } ==> same_place(
                from,
                to,
                r,
                l,
            )
            &&& s.step matches FetchView::DropLocal(dir) ==> dir == to
        }),
{
    lemma_download_shape(remote, local_dir, cancelled, answers);
}

spec fn walk_shape(d: DirDownloadView, from: Seq<char>, to: Seq<char>) -> bool {
    &&& d.root_local == to
    &&& forall|i: int|
        0 <= i < d.stack.len() ==> same_place(
            from,
            to,
            (#[trigger] d.stack[i]).0,
            d.stack[i].1,
        )
    &&& plainly_listed(d.rdir, d.rest)
    &&& d.rest.len() > 0 ==> same_place(from, to, d.rdir, d.ldir)
}

spec fn step_shape(d: DirDownloadView, step: FetchView, from: Seq<char>, to: Seq<char>) -> bool {
    &&& step matches FetchView::Fetch { remote, local, name } ==> same_place(
        from,
        to,
        remote,
        local,
    )
    &&& step matches FetchView::MakeLocalDir(dir) ==> d.rest.len() == 0
    &&& (step is MakeLocalDir || step is List || step is Fetch) ==> same_place(
        from,
        to,
        d.rdir,
        d.ldir,
    )
    &&& step matches FetchView::DropLocal(dir) ==> dir == to
}

proof fn lemma_next_shape(d: DirDownloadView, cancelled: bool, from: Seq<char>, to: Seq<char>)
    requires
        walk_shape(d, from, to),
    ensures
        walk_shape(d.next(cancelled).0, from, to),
        step_shape(d.next(cancelled).0, d.next(cancelled).1, from, to),
    decreases d.rest.len(), d.stack.len(),
{
    if d.rest.len() > 0 {
        let e = d.rest.last();
        let after = d.past_entry();
        assert(d.rest[d.rest.len() - 1] == e);
        assert forall|i: int| 0 <= i < after.rest.len() implies (
        #[trigger] after.rest[i]).full_path == d.rdir + "/"@ + after.rest[i].name
            && remote_path::plain_name(after.rest[i].name) by {
            assert(after.rest[i] == d.rest[i]);
        }
        assert(walk_shape(after, from, to));
        remote_path::law_plain_names_pass(e.name);
        lemma_same_place_below(from, to, d.rdir, d.ldir, e.name);
        if cancelled || after.nodes > folder::MAX_NODES {
        } else if folder::enters(e) {
            let pushed = DirDownloadView {
                stack: after.stack.push((e.full_path, d.local_of(e))),
                ..after
            };
            assert forall|i: int| 0 <= i < pushed.stack.len() implies same_place(
                from,
                to,
                (#[trigger] pushed.stack[i]).0,
                pushed.stack[i].1,
            ) by {
                if i < after.stack.len() {
                    assert(pushed.stack[i] == after.stack[i]);
                }
            }
            lemma_next_shape(pushed, cancelled, from, to);
        } else if e.is_dir {
            lemma_next_shape(after, cancelled, from, to);
        }
    } else if d.stack.len() > 0 && !cancelled {
        let top = d.stack[d.stack.len() - 1];
        assert(top == d.stack.last());
        let past = d.past_dir();
        assert forall|i: int| 0 <= i < past.stack.len() implies same_place(
            from,
            to,
            (#[trigger] past.stack[i]).0,
            past.stack[i].1,
        ) by {
            assert(past.stack[i] == d.stack[i]);
        }
        if d.visited.contains(remote_path::remote_dir(d.stack.last().0)) {
            lemma_next_shape(past, cancelled, from, to);
        }
    }
}

proof fn lemma_download_shape(
    remote: Seq<char>,
    local_dir: Seq<char>,
    cancelled: bool,
    answers: Seq<(FetchAnswer, bool)>,
)
    requires
        listings_are_plain(remote, local_dir, cancelled, answers),
    ensures
        ({
            let s = folder_history::folder_download_after(remote, local_dir, cancelled, answers);
            let from = text::strip_end(remote, CharSet::Only('/'));
            let to = text::strip_end(local_dir, CharSet::Only('/')) + "/"@
                + remote_path::safe_name(remote_path::base_name_of(remote));
            &&& walk_shape(s.job, from, to)
            &&& step_shape(s.job, s.step, from, to)
            &&& s.step matches FetchView::List(dir) ==> dir == s.job.rdir
            &&& forall|i: int|
                0 <= i < s.fetched.len() ==> (#[trigger] s.fetched[i] matches FetchView::Fetch {
                    remote: r,
                    local: l,
                    name,
                } && same_place(from, to, r, l))
        }),
    decreases answers.len(),
{
    let from = text::strip_end(remote, CharSet::Only('/'));
    let to = text::strip_end(local_dir, CharSet::Only('/')) + "/"@ + remote_path::safe_name(
        remote_path::base_name_of(remote),
    );
    let s = folder_history::folder_download_after(remote, local_dir, cancelled, answers);
    if answers.len() == 0 {
        let none = Seq::<char>::empty();
        assert(from =~= from + none);
        assert(to =~= to + none);
        assert(same_place(from, to, from, to));
        lemma_next_shape(DirDownloadView::fresh(remote, local_dir), cancelled, from, to);
        lemma_next_lists_nothing(DirDownloadView::fresh(remote, local_dir), cancelled);
    } else {
        let b = folder_history::folder_download_after(
            remote,
            local_dir,
            cancelled,
            answers.drop_last(),
        );
        let (answer, stop) = answers.last();
        lemma_download_shape(remote, local_dir, cancelled, answers.drop_last());
        match (b.step, answer) {
            (FetchView::List(dir), FetchAnswer::Listing(l)) => {
                match l {
                    Ok(entries) => {
                        let d = DirDownloadView { rest: entries.reverse(), ..b.job };
                        assert forall|i: int| 0 <= i < d.rest.len() implies (
                        #[trigger] d.rest[i]).full_path == d.rdir + "/"@ + d.rest[i].name
                            && remote_path::plain_name(d.rest[i].name) by {
                            assert(d.rest[i] == entries[entries.len() - 1 - i]);
                        }
                        lemma_next_shape(d, stop, from, to);
                        lemma_next_lists_nothing(d, stop);
                    },
                    Err(_) => {},
                }
            },
            (FetchView::Fetch { remote: r, local: l, name }, FetchAnswer::File(moved)) => {
                lemma_next_shape(b.job, stop, from, to);
                lemma_next_lists_nothing(b.job, stop);
                assert forall|i: int| 0 <= i < s.fetched.len() implies (
                #[trigger] s.fetched[i] matches FetchView::Fetch { remote: r2, local: l2, name }
                    && same_place(from, to, r2, l2)) by {
                    if i < b.fetched.len() {
                        assert(s.fetched[i] == b.fetched[i]);
                    }
                }
            },
            _ => {},
        }
    }
}

/// A directory is only listed once its local one was made.
proof fn lemma_next_lists_nothing(d: DirDownloadView, cancelled: bool)
    ensures
        !(d.next(cancelled).1 is List),
    decreases d.rest.len(), d.stack.len(),
{
    if d.rest.len() > 0 {
        let e = d.rest.last();
        let after = d.past_entry();
        lemma_next_lists_nothing(after, cancelled);
        lemma_next_lists_nothing(
            DirDownloadView { stack: after.stack.push((e.full_path, d.local_of(e))), ..after },
            cancelled,
        );
    } else if d.stack.len() > 0 {
        lemma_next_lists_nothing(d.past_dir(), cancelled);
    }
}

/// A folder of up to twenty thousand nodes can be moved, and no larger one: the next file is
/// fetched or sent while fewer were met, and beyond that the transfer fails.
pub proof fn law_folders_are_bounded(
    d: DirDownloadView,
    u: DirUploadView,
    e: crate::folder_upload::LocalView,
)
    requires
        d.rest.len() > 0,
        !d.rest.last().is_dir,
        e.kind == Some(LocalKind::File),
    ensures
        d.nodes < 20000 ==> d.next(false).1 is Fetch,
        d.nodes >= 20000 ==> d.next(false).1 is Fail,
        u.nodes < 20000 ==> u.met(e, false).1 == (SendView::Send {
            local: e.path,
            remote: u.rdir + "/"@ + e.name,
            name: e.name,
        }),
        u.nodes >= 20000 ==> u.met(e, false).1 is Fail,
{
}

/// A transfer of a folder that is stopped undoes itself: a download removes the local folder, an
/// upload removes what it has sent and made, the newest first.
pub proof fn law_stopped_folders_are_undone(d: DirDownloadView, u: DirUploadView)
    ensures
        d.rest.len() > 0 ==> d.next(true).1 == FetchView::DropLocal(d.root_local),
        d.rest.len() == 0 && d.stack.len() > 0 ==> d.next(true).1 == FetchView::DropLocal(
            d.root_local,
        ),
        u.stack.len() > 0 ==> u.next(true).1 == (SendView::Undo {
            files: u.created_files.reverse(),
            dirs: u.created_dirs.reverse(),
        }),
{
}

} // verus!
