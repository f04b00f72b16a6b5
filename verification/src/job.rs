//! Transfers that the user asked for, from the first look at the source to the last report.
//!
//! A job says which operation it wants done and takes what became of it.
use crate::events;
use crate::events::{EntryView, EventView, RemoteEntry, SessionEvent, TransferState};
use crate::folder;
use crate::folder_upload::LocalKind;
use crate::ids;
use crate::lang::Lang;
use crate::number;
use crate::remote_path;
use crate::shell;
use crate::text;
use vstd::prelude::*;

verus! {

/// What a job wants done; `S` holds texts.
#[allow(inconsistent_fields)]
pub enum JobOpOf<S> {
    /// Look at a remote path, without following a symbolic link.
    Lstat(S),
    /// Look at a local path, without following a symbolic link.
    LocalKind(S),
    /// List a remote directory.
    List(S),
    /// Download a file.
    FetchFile { remote: S, local: S, name: S },
    /// Download a folder.
    FetchTree { remote: S, local_dir: S },
    /// Upload a file.
    SendFile { local: S, remote: S, name: S },
    /// Upload a folder.
    SendTree { local: S, remote_dir: S },
    /// Run a command on the server and tell its exit code.
    Exec(S),
    /// The job has ended.
    Stop,
}

pub type JobOp = JobOpOf<String>;

pub type JobOpView = JobOpOf<Seq<char>>;

impl View for JobOpOf<String> {
    type V = JobOpView;

    open spec fn view(&self) -> JobOpView {
        match *self {
            JobOpOf::Lstat(p) => JobOpOf::Lstat(p@),
            JobOpOf::LocalKind(p) => JobOpOf::LocalKind(p@),
            JobOpOf::List(p) => JobOpOf::List(p@),
            JobOpOf::FetchFile { remote, local, name } => JobOpOf::FetchFile {
                remote: remote@,
                local: local@,
                name: name@,
            },
            JobOpOf::FetchTree { remote, local_dir } => JobOpOf::FetchTree {
                remote: remote@,
                local_dir: local_dir@,
            },
            JobOpOf::SendFile { local, remote, name } => JobOpOf::SendFile {
                local: local@,
                remote: remote@,
                name: name@,
            },
            JobOpOf::SendTree { local, remote_dir } => JobOpOf::SendTree {
                local: local@,
                remote_dir: remote_dir@,
            },
            JobOpOf::Exec(c) => JobOpOf::Exec(c@),
            JobOpOf::Stop => JobOpOf::Stop,
        }
    }
}

/// What became of an operation.
pub enum JobReply {
    /// The mode of the remote path, if the server told one; the outer `None` says that the path
    /// could not be looked at.
    Mode(Option<Option<u32>>),
    /// What the local path is; `None` where it could not be looked at.
    Kind(Option<LocalKind>),
    Listing(Result<Vec<RemoteEntry>, String>),
    /// Whether the transfer was completed rather than cancelled, or why it failed.
    Moved(Result<bool, String>),
    /// The exit code of the command; `None` where it could not be run.
    Exit(Option<u32>),
}

/// The contents of a [`JobReply`].
pub enum JobReplyView {
    Mode(Option<Option<u32>>),
    Kind(Option<LocalKind>),
    Listing(Result<Seq<EntryView>, Seq<char>>),
    Moved(Result<bool, Seq<char>>),
    Exit(Option<u32>),
}

impl View for JobReply {
    type V = JobReplyView;

    open spec fn view(&self) -> JobReplyView {
        match *self {
            JobReply::Mode(m) => JobReplyView::Mode(m),
            JobReply::Kind(k) => JobReplyView::Kind(k),
            JobReply::Listing(l) => JobReplyView::Listing(folder::listing_view(l)),
            JobReply::Moved(m) => JobReplyView::Moved(folder::moved_view(m)),
            JobReply::Exit(e) => JobReplyView::Exit(e),
        }
    }
}

/// What a job waits for; `S` holds texts.
#[allow(inconsistent_fields)]
pub enum JobPhaseOf<S> {
    /// A download that does not know yet what its source is.
    FetchLook { remote: S, local_dir: S },
    /// A download of a folder that does not know yet whether it is empty.
    FetchList { remote: S, local_dir: S },
    FetchTree { name: S },
    FetchFile { name: S },
    /// A download of several entries that are being packed.
    Pack { temp: S, local: S, name: S },
    FetchPack { temp: S, name: S },
    /// The packed archive is being removed from the server.
    CleanPack { name: S, moved: Result<bool, S> },
    /// An upload that does not know yet what its source is.
    SendLook { local: S, remote_dir: S },
    SendTree { name: S, remote_dir: S },
    SendFile { name: S, remote_dir: S },
    /// The target directory is being listed again.
    SendList { name: S, remote_dir: S, moved: Result<bool, S> },
    Ended,
}

pub type JobPhase = JobPhaseOf<String>;

pub type JobPhaseView = JobPhaseOf<Seq<char>>;

impl View for JobPhaseOf<String> {
    type V = JobPhaseView;

    open spec fn view(&self) -> JobPhaseView {
        match *self {
            JobPhaseOf::FetchLook { remote, local_dir } => JobPhaseOf::FetchLook {
                remote: remote@,
                local_dir: local_dir@,
            },
            JobPhaseOf::FetchList { remote, local_dir } => JobPhaseOf::FetchList {
                remote: remote@,
                local_dir: local_dir@,
            },
            JobPhaseOf::FetchTree { name } => JobPhaseOf::FetchTree { name: name@ },
            JobPhaseOf::FetchFile { name } => JobPhaseOf::FetchFile { name: name@ },
            JobPhaseOf::Pack { temp, local, name } => JobPhaseOf::Pack {
                temp: temp@,
                local: local@,
                name: name@,
            },
            JobPhaseOf::FetchPack { temp, name } => JobPhaseOf::FetchPack {
                temp: temp@,
                name: name@,
            },
            JobPhaseOf::CleanPack { name, moved } => JobPhaseOf::CleanPack {
                name: name@,
                moved: folder::moved_view(moved),
            },
            JobPhaseOf::SendLook { local, remote_dir } => JobPhaseOf::SendLook {
                local: local@,
                remote_dir: remote_dir@,
            },
            JobPhaseOf::SendTree { name, remote_dir } => JobPhaseOf::SendTree {
                name: name@,
                remote_dir: remote_dir@,
            },
            JobPhaseOf::SendFile { name, remote_dir } => JobPhaseOf::SendFile {
                name: name@,
                remote_dir: remote_dir@,
            },
            JobPhaseOf::SendList { name, remote_dir, moved } => JobPhaseOf::SendList {
                name: name@,
                remote_dir: remote_dir@,
                moved: folder::moved_view(moved),
            },
            JobPhaseOf::Ended => JobPhaseOf::Ended,
        }
    }
}

/// What a job reports, and what it wants done next.
pub struct JobTurn {
    pub events: Vec<SessionEvent>,
    pub op: JobOp,
}

/// The contents of a [`JobTurn`].
#[verifier::ext_equal]
pub struct JobTurnView {
    pub events: Seq<EventView>,
    pub op: JobOpView,
}

impl View for JobTurn {
    type V = JobTurnView;

    open spec fn view(&self) -> JobTurnView {
        JobTurnView { events: events::events_view(self.events@), op: self.op@ }
    }
}

/// A transfer that the user asked for.
pub struct Job {
    pub id: String,
    pub lang: Lang,
    pub phase: JobPhase,
}

/// The contents of a [`Job`].
#[verifier::ext_equal]
pub struct JobView {
    pub id: Seq<char>,
    pub lang: Lang,
    pub phase: JobPhaseView,
}

impl View for Job {
    type V = JobView;

    open spec fn view(&self) -> JobView {
        JobView { id: self.id@, lang: self.lang, phase: self.phase@ }
    }
}

/// The message that a transfer was completed or cancelled.
pub open spec fn outcome_message(is_upload: bool, whole: bool, name: Seq<char>, lang: Lang) -> EventView {
    EventView::SftpStatus(
        events::titled(
            if !whole {
                lang.pick("已取消"@, "Cancelled"@)
            } else if is_upload {
                lang.pick("上传完成"@, "Uploaded"@)
            } else {
                lang.pick("下载完成"@, "Downloaded"@)
            },
            name,
        ),
    )
}

/// The message that a transfer failed.
pub open spec fn failure_message(is_upload: bool, msg: Seq<char>, lang: Lang) -> EventView {
    EventView::SftpStatus(
        events::titled(
            if is_upload {
                lang.pick("上传失败"@, "Upload failed"@)
            } else {
                lang.pick("下载失败"@, "Download failed"@)
            },
            msg,
        ),
    )
}

/// What is reported at the end of a transfer of a folder.
pub open spec fn tree_end(
    is_upload: bool,
    moved: Result<bool, Seq<char>>,
    name: Seq<char>,
    lang: Lang,
) -> Seq<EventView> {
    match moved {
        Ok(whole) => seq![outcome_message(is_upload, whole, name, lang)],
        Err(m) => seq![failure_message(is_upload, m, lang)],
    }
}

/// What is reported at the end of a transfer of a file: a failure is reported on the transfer
/// too.
pub open spec fn file_end(
    id: Seq<char>,
    is_upload: bool,
    moved: Result<bool, Seq<char>>,
    name: Seq<char>,
    lang: Lang,
) -> Seq<EventView> {
    match moved {
        Ok(whole) => seq![outcome_message(is_upload, whole, name, lang)],
        Err(m) => seq![
            events::transfer_view(id, name, is_upload, 0, 0, TransferState::Failed, m),
            failure_message(is_upload, m, lang),
        ],
    }
}

/// A listing that is shown, where there is one.
pub open spec fn shown_listing(
    path: Seq<char>,
    listing: Result<Seq<EntryView>, Seq<char>>,
) -> Seq<EventView> {
    match listing {
        Ok(entries) => seq![EventView::SftpEntries { path, entries }],
        Err(_) => Seq::empty(),
    }
}

/// The turn that ends a job.
pub open spec fn last_turn(reports: Seq<EventView>) -> JobTurnView {
    JobTurnView { events: reports, op: JobOpOf::Stop }
}

/// A turn with one message.
pub open spec fn one_message(m: Seq<char>, op: JobOpView) -> JobTurnView {
    JobTurnView { events: seq![EventView::SftpStatus(m)], op }
}

impl JobView {
    /// In another phase.
    pub open spec fn at(self, phase: JobPhaseView) -> JobView {
        JobView { phase, ..self }
    }

    /// The download of a file: its name is made safe before it touches the local file system.
    pub open spec fn fetch_file(self, remote: Seq<char>, local_dir: Seq<char>) -> (
        JobView,
        JobTurnView,
    ) {
        let name = remote_path::safe_name(remote_path::base_name_of(remote));
        (
            self.at(JobPhaseOf::FetchFile { name }),
            one_message(
                events::doing(self.lang.pick("下载"@, "Downloading"@), name),
                JobOpOf::FetchFile { remote, local: remote_path::joined(local_dir, name), name },
            ),
        )
    }

    /// The download of a folder, unless it is empty.
    pub open spec fn fetch_tree(
        self,
        remote: Seq<char>,
        local_dir: Seq<char>,
        listing: Result<Seq<EntryView>, Seq<char>>,
    ) -> (JobView, JobTurnView) {
        let name = remote_path::base_name_of(remote);
        if listing matches Ok(entries) && entries.len() == 0 {
            (
                self.at(JobPhaseOf::Ended),
                one_message(
                    events::titled(self.lang.pick("空文件夹"@, "Empty folder"@), name),
                    JobOpOf::Stop,
                ),
            )
        } else {
            (
                self.at(JobPhaseOf::FetchTree { name }),
                one_message(
                    events::doing(
                        self.lang.pick("下载文件夹"@, "Downloading folder"@),
                        name + "/"@,
                    ),
                    JobOpOf::FetchTree { remote, local_dir },
                ),
            )
        }
    }

    /// The removal of the packed archive.
    pub open spec fn clean_pack(
        self,
        temp: Seq<char>,
        name: Seq<char>,
        moved: Result<bool, Seq<char>>,
    ) -> (JobView, JobTurnView) {
        (
            self.at(JobPhaseOf::CleanPack { name, moved }),
            JobTurnView {
                events: Seq::empty(),
                op: JobOpOf::Exec("rm -f "@ + remote_path::quoted(temp)),
            },
        )
    }

    /// After several entries were packed, or were not.
    pub open spec fn packed(
        self,
        temp: Seq<char>,
        local: Seq<char>,
        name: Seq<char>,
        exit: Option<u32>,
    ) -> (JobView, JobTurnView) {
        match exit {
            None => self.clean_pack(temp, name, Err("tar on remote"@)),
            Some(code) => if code != 0 {
                self.clean_pack(
                    temp,
                    name,
                    Err(self.lang.pick("远端 tar 打包失败"@, "remote tar failed"@)),
                )
            } else {
                (
                    self.at(JobPhaseOf::FetchPack { temp, name }),
                    JobTurnView {
                        events: Seq::empty(),
                        op: JobOpOf::FetchFile { remote: temp, local, name },
                    },
                )
            },
        }
    }

    /// The upload of a file or a folder, once it is known which.
    pub open spec fn send(self, local: Seq<char>, remote_dir: Seq<char>, kind: Option<LocalKind>) -> (
        JobView,
        JobTurnView,
    ) {
        let name = remote_path::base_name_of(local);
        if kind == Some(LocalKind::Dir) {
            (
                self.at(JobPhaseOf::SendTree { name, remote_dir }),
                one_message(
                    events::doing(
                        self.lang.pick("上传文件夹"@, "Uploading folder"@),
                        name + "/"@,
                    ),
                    JobOpOf::SendTree { local, remote_dir },
                ),
            )
        } else {
            (
                self.at(JobPhaseOf::SendFile { name, remote_dir }),
                one_message(
                    events::doing(self.lang.pick("上传"@, "Uploading"@), name),
                    JobOpOf::SendFile { local, remote: remote_path::joined(remote_dir, name), name },
                ),
            )
        }
    }

    /// The target directory is listed again.
    pub open spec fn relist(
        self,
        name: Seq<char>,
        remote_dir: Seq<char>,
        moved: Result<bool, Seq<char>>,
    ) -> (JobView, JobTurnView) {
        (
            self.at(JobPhaseOf::SendList { name, remote_dir, moved }),
            JobTurnView { events: Seq::empty(), op: JobOpOf::List(remote_dir) },
        )
    }

    /// The end of the job.
    pub open spec fn end(self, reports: Seq<EventView>) -> (JobView, JobTurnView) {
        (self.at(JobPhaseOf::Ended), last_turn(reports))
    }

    /// What follows when an operation is done. An answer to something else ends the job.
    pub open spec fn step(self, reply: JobReplyView) -> (JobView, JobTurnView) {
        match (self.phase, reply) {
            (JobPhaseOf::FetchLook { remote, local_dir }, JobReplyView::Mode(mode)) => if (mode
                matches Some(m) && remote_path::dir_mode(m)) {
                (
                    self.at(JobPhaseOf::FetchList { remote, local_dir }),
                    JobTurnView { events: Seq::empty(), op: JobOpOf::List(remote) },
                )
            } else {
                self.fetch_file(remote, local_dir)
            },
            (JobPhaseOf::FetchList { remote, local_dir }, JobReplyView::Listing(l)) =>
                self.fetch_tree(remote, local_dir, l),
            (JobPhaseOf::FetchTree { name }, JobReplyView::Moved(moved)) => self.end(
                tree_end(false, moved, name, self.lang),
            ),
            (JobPhaseOf::FetchFile { name }, JobReplyView::Moved(moved)) => self.end(
                file_end(self.id, false, moved, name, self.lang),
            ),
            (JobPhaseOf::Pack { temp, local, name }, JobReplyView::Exit(exit)) => self.packed(
                temp,
                local,
                name,
                exit,
            ),
            (JobPhaseOf::FetchPack { temp, name }, JobReplyView::Moved(moved)) => self.clean_pack(
                temp,
                name,
                moved,
            ),
            (JobPhaseOf::CleanPack { name, moved }, JobReplyView::Exit(_)) => self.end(
                file_end(self.id, false, moved, name, self.lang),
            ),
            (JobPhaseOf::SendLook { local, remote_dir }, JobReplyView::Kind(kind)) => self.send(
                local,
                remote_dir,
                kind,
            ),
            (JobPhaseOf::SendTree { name, remote_dir }, JobReplyView::Moved(moved)) => self.relist(
                name,
                remote_dir,
                moved,
            ),
            (JobPhaseOf::SendFile { name, remote_dir }, JobReplyView::Moved(moved)) => match moved {
                Ok(_) => self.relist(name, remote_dir, moved),
                Err(_) => self.end(file_end(self.id, true, moved, name, self.lang)),
            },
            (JobPhaseOf::SendList { name, remote_dir, moved }, JobReplyView::Listing(l)) =>
                self.end(shown_listing(remote_dir, l) + tree_end(true, moved, name, self.lang)),
            _ => self.end(Seq::empty()),
        }
    }
}

fn outcome_event(is_upload: bool, whole: bool, name: &str, lang: Lang) -> (out: SessionEvent)
    ensures
        out@ == outcome_message(is_upload, whole, name@, lang),
{
    let title = if !whole {
        lang.t("已取消", "Cancelled")
    } else if is_upload {
        lang.t("上传完成", "Uploaded")
    } else {
        lang.t("下载完成", "Downloaded")
    };
    events::titled_status(title, name)
}

fn failure_event(is_upload: bool, msg: &str, lang: Lang) -> (out: SessionEvent)
    ensures
        out@ == failure_message(is_upload, msg@, lang),
{
    let title = if is_upload {
        lang.t("上传失败", "Upload failed")
    } else {
        lang.t("下载失败", "Download failed")
    };
    events::titled_status(title, msg)
}

fn push_tree_end(
    sink: &mut Vec<SessionEvent>,
    is_upload: bool,
    moved: &Result<bool, String>,
    name: &str,
    lang: Lang,
)
    ensures
        events::events_view(final(sink)@) == events::events_view(old(sink)@) + tree_end(
            is_upload,
            folder::moved_view(*moved),
            name@,
            lang,
        ),
{
    let ghost before = events::events_view(sink@);
    let e = match moved {
        Ok(whole) => outcome_event(is_upload, *whole, name, lang),
        Err(m) => failure_event(is_upload, m.as_str(), lang),
    };
    let ghost ev = e@;
    sink.push(e);
    assert(events::events_view(sink@) =~= before + seq![ev]);
}

fn file_end_events(
    id: &str,
    is_upload: bool,
    moved: &Result<bool, String>,
    name: &str,
    lang: Lang,
) -> (out: Vec<SessionEvent>)
    ensures
        events::events_view(out@) == file_end(
            id@,
            is_upload,
            folder::moved_view(*moved),
            name@,
            lang,
        ),
{
    let mut out: Vec<SessionEvent> = Vec::new();
    if let Err(m) = moved {
        out.push(
            events::emit_transfer(
                id,
                name,
                is_upload,
                0,
                0,
                TransferState::Failed,
                m.as_str(),
            ),
        );
    }
    push_tree_end(&mut out, is_upload, moved, name, lang);
    assert(events::events_view(out@) =~= file_end(
        id@,
        is_upload,
        folder::moved_view(*moved),
        name@,
        lang,
    ));
    out
}

fn quiet_turn(op: JobOp) -> (out: JobTurn)
    ensures
        out@ == (JobTurnView { events: Seq::empty(), op: op@ }),
{
    let out = JobTurn { events: Vec::new(), op };
    assert(out@.events =~= Seq::<EventView>::empty());
    out
}

fn message_turn(e: SessionEvent, op: JobOp) -> (out: JobTurn)
    ensures
        out@ == (JobTurnView { events: seq![e@], op: op@ }),
{
    let mut events: Vec<SessionEvent> = Vec::new();
    events.push(e);
    let out = JobTurn { events, op };
    assert(out@.events =~= seq![e@]);
    out
}

/// The download of several entries as one archive, by the identifiers of the transfer and of
/// the archive on the server.
pub open spec fn archive_start(
    id: Seq<char>,
    temp_id: Seq<char>,
    remote_dir: Seq<char>,
    names: Seq<Seq<char>>,
    local_dir: Seq<char>,
    lang: Lang,
) -> (JobView, JobTurnView) {
    let temp = "/tmp/probe-shell-"@ + temp_id + ".tar"@;
    let name = shell::archive_name(names, lang);
    (
        JobView {
            id,
            lang,
            phase: JobPhaseOf::Pack { temp, local: remote_path::joined(local_dir, name), name },
        },
        JobTurnView {
            events: seq![
                EventView::SftpStatus(
                    lang.pick("打包下载"@, "Archiving"@) + " "@ + number::decimal(names.len())
                        + " "@ + lang.pick("项"@, "items"@) + "..."@,
                ),
                events::transfer_view(id, name, false, 0, 0, TransferState::Preparing, ""@),
            ],
            op: JobOpOf::Exec(shell::tar_command_text(temp, remote_dir, names)),
        },
    )
}

/// The beginning of a download: the remote path is looked at.
pub open spec fn download_start(
    id: Seq<char>,
    remote: Seq<char>,
    local_dir: Seq<char>,
    lang: Lang,
) -> (JobView, JobTurnView) {
    (
        JobView { id, lang, phase: JobPhaseOf::FetchLook { remote, local_dir } },
        JobTurnView { events: Seq::empty(), op: JobOpOf::Lstat(remote) },
    )
}

/// The beginning of an upload: the local path is looked at.
pub open spec fn upload_start(
    id: Seq<char>,
    local: Seq<char>,
    remote_dir: Seq<char>,
    lang: Lang,
) -> (JobView, JobTurnView) {
    (
        JobView { id, lang, phase: JobPhaseOf::SendLook { local, remote_dir } },
        JobTurnView { events: Seq::empty(), op: JobOpOf::LocalKind(local) },
    )
}

impl Job {
    /// The download of a file or a folder.
    pub fn download(id: String, remote: String, local_dir: String, lang: Lang) -> (out: (
        Job,
        JobTurn,
    ))
        ensures
            out.0@ == (JobView {
                id: id@,
                lang,
                phase: JobPhaseOf::FetchLook { remote: remote@, local_dir: local_dir@ },
            }),
            out.1@ == (JobTurnView { events: Seq::empty(), op: JobOpOf::Lstat(remote@) }),
            (out.0@, out.1@) == download_start(id@, remote@, local_dir@, lang),
    {
        let op = JobOpOf::Lstat(remote.clone());
        (
            Job { id, lang, phase: JobPhaseOf::FetchLook { remote, local_dir } },
            quiet_turn(op),
        )
    }

    /// The download of several entries as one archive.
    pub fn download_archive(
        id: String,
        temp_id: &str,
        remote_dir: &str,
        names: &Vec<String>,
        local_dir: &str,
        lang: Lang,
    ) -> (out: (Job, JobTurn))
        ensures
            (out.0@, out.1@) == archive_start(
                id@,
                temp_id@,
                remote_dir@,
                text::texts(names@),
                local_dir@,
                lang,
            ),
    {
        let temp = shell::archive_temp(temp_id);
        let name = shell::archive_name_of(names, lang);
        let local = remote_path::join_path(local_dir, name.as_str());
        let cmd = shell::tar_command(temp.as_str(), remote_dir, names);
        let count = number::number_text(names.len() as u64, 10);
        let mut msg = text::join4(
            lang.t("打包下载", "Archiving"),
            " ",
            count.as_str(),
            " ",
        );
        msg.append(lang.t("项", "items"));
        msg.append("...");
        let mut events: Vec<SessionEvent> = Vec::new();
        events.push(SessionEvent::SftpStatus(msg));
        events.push(
            events::emit_transfer(
                id.as_str(),
                name.as_str(),
                false,
                0,
                0,
                TransferState::Preparing,
                "",
            ),
        );
        assert(events::events_view(events@) =~= seq![events@[0]@, events@[1]@]);
        assert(text::texts(names@).len() == names@.len());
        (
            Job { id, lang, phase: JobPhaseOf::Pack { temp, local, name } },
            JobTurn { events, op: JobOpOf::Exec(cmd) },
        )
    }

    /// The download of several entries as one archive, which gets a random name on the server.
    pub fn pack_and_download(
        id: String,
        remote_dir: &str,
        names: &Vec<String>,
        local_dir: &str,
        lang: Lang,
    ) -> (out: (Job, JobTurn))
        ensures
            exists|temp_id: Seq<char>| #[trigger]
                ids::id_text(temp_id) && (out.0@, out.1@) == archive_start(
                    id@,
                    temp_id,
                    remote_dir@,
                    text::texts(names@),
                    local_dir@,
                    lang,
                ),
    {
        let temp_id = ids::fresh_id();
        assert(ids::id_text(temp_id@));
        Job::download_archive(id, temp_id.as_str(), remote_dir, names, local_dir, lang)
    }

    /// The upload of a file or a folder.
    pub fn upload(id: String, local: String, remote_dir: String, lang: Lang) -> (out: (
        Job,
        JobTurn,
    ))
        ensures
            out.0@ == (JobView {
                id: id@,
                lang,
                phase: JobPhaseOf::SendLook { local: local@, remote_dir: remote_dir@ },
            }),
            out.1@ == (JobTurnView { events: Seq::empty(), op: JobOpOf::LocalKind(local@) }),
            (out.0@, out.1@) == upload_start(id@, local@, remote_dir@, lang),
    {
        let op = JobOpOf::LocalKind(local.clone());
        (Job { id, lang, phase: JobPhaseOf::SendLook { local, remote_dir } }, quiet_turn(op))
    }

    fn clean_pack(&mut self, temp: String, name: String, moved: Result<bool, String>) -> (out:
        JobTurn)
        ensures
            (final(self)@, out@) == old(self)@.clean_pack(temp@, name@, folder::moved_view(moved)),
    {
        let cmd = shell::remove_command(temp.as_str());
        self.phase = JobPhaseOf::CleanPack { name, moved };
        quiet_turn(JobOpOf::Exec(cmd))
    }

    fn end(&mut self, events: Vec<SessionEvent>) -> (out: JobTurn)
        ensures
            (final(self)@, out@) == old(self)@.end(events::events_view(events@)),
    {
        self.phase = JobPhaseOf::Ended;
        JobTurn { events, op: JobOpOf::Stop }
    }

    fn relist(&mut self, name: String, remote_dir: String, moved: Result<bool, String>) -> (out:
        JobTurn)
        ensures
            (final(self)@, out@) == old(self)@.relist(
                name@,
                remote_dir@,
                folder::moved_view(moved),
            ),
    {
        let dir = remote_dir.clone();
        self.phase = JobPhaseOf::SendList { name, remote_dir, moved };
        quiet_turn(JobOpOf::List(dir))
    }

    fn fetch_file(&mut self, remote: String, local_dir: String) -> (out: JobTurn)
        ensures
            (final(self)@, out@) == old(self)@.fetch_file(remote@, local_dir@),
    {
        let base = remote_path::base_name(remote.as_str());
        let name = remote_path::sanitize_filename(base.as_str());
        let local = remote_path::join_path(local_dir.as_str(), name.as_str());
        let e = events::doing_status(self.lang.t("下载", "Downloading"), name.as_str());
        self.phase = JobPhaseOf::FetchFile { name: name.clone() };
        message_turn(e, JobOpOf::FetchFile { remote, local, name })
    }

    fn fetch_tree(
        &mut self,
        remote: String,
        local_dir: String,
        listing: &Result<Vec<RemoteEntry>, String>,
    ) -> (out: JobTurn)
        ensures
            (final(self)@, out@) == old(self)@.fetch_tree(
                remote@,
                local_dir@,
                folder::listing_view(*listing),
            ),
    {
        let name = remote_path::base_name(remote.as_str());
        let empty = match listing {
            Ok(v) => v.len() == 0,
            Err(_) => false,
        };
        if empty {
            let e = events::titled_status(self.lang.t("空文件夹", "Empty folder"), name.as_str());
            self.phase = JobPhaseOf::Ended;
            message_turn(e, JobOpOf::Stop)
        } else {
            let shown = text::join2(name.as_str(), "/");
            let e = events::doing_status(
                self.lang.t("下载文件夹", "Downloading folder"),
                shown.as_str(),
            );
            self.phase = JobPhaseOf::FetchTree { name };
            message_turn(e, JobOpOf::FetchTree { remote, local_dir })
        }
    }

    fn packed(&mut self, temp: String, local: String, name: String, exit: Option<u32>) -> (out:
        JobTurn)
        ensures
            (final(self)@, out@) == old(self)@.packed(temp@, local@, name@, exit),
    {
        match exit {
            None => self.clean_pack(temp, name, Err("tar on remote".to_string())),
            Some(code) => {
                if code != 0 {
                    let m = self.lang.t("远端 tar 打包失败", "remote tar failed").to_string();
                    self.clean_pack(temp, name, Err(m))
                } else {
                    let remote = temp.clone();
                    self.phase = JobPhaseOf::FetchPack { temp, name: name.clone() };
                    quiet_turn(JobOpOf::FetchFile { remote, local, name })
                }
            },
        }
    }

    fn send(&mut self, local: String, remote_dir: String, kind: Option<LocalKind>) -> (out: JobTurn)
        ensures
            (final(self)@, out@) == old(self)@.send(local@, remote_dir@, kind),
    {
        let name = remote_path::base_name(local.as_str());
        let is_dir = match kind {
            Some(k) => k == LocalKind::Dir,
            None => false,
        };
        if is_dir {
            let shown = text::join2(name.as_str(), "/");
            let e = events::doing_status(
                self.lang.t("上传文件夹", "Uploading folder"),
                shown.as_str(),
            );
            self.phase = JobPhaseOf::SendTree { name, remote_dir: remote_dir.clone() };
            message_turn(e, JobOpOf::SendTree { local, remote_dir })
        } else {
            let remote = remote_path::join_path(remote_dir.as_str(), name.as_str());
            let e = events::doing_status(self.lang.t("上传", "Uploading"), name.as_str());
            self.phase = JobPhaseOf::SendFile { name: name.clone(), remote_dir };
            message_turn(e, JobOpOf::SendFile { local, remote, name })
        }
    }

    /// What follows when an operation is done.
    pub fn step(&mut self, reply: JobReply) -> (out: JobTurn)
        ensures
            (final(self)@, out@) == old(self)@.step(reply@),
            old(self)@.phase matches JobPhaseOf::SendLook { local, remote_dir } ==> reply@
                == JobReplyView::Kind(Some(LocalKind::Dir)) ==> out@.op == (JobOpView::SendTree {
                local,
                remote_dir,
            }),
    {
        let mut phase: JobPhase = JobPhaseOf::Ended;
        std::mem::swap(&mut phase, &mut self.phase);
        match (phase, reply) {
            (JobPhaseOf::FetchLook { remote, local_dir }, JobReply::Mode(mode)) => {
                let is_dir = match mode {
                    Some(m) => remote_path::mode_is_dir(m),
                    None => false,
                };
                if is_dir {
                    let dir = remote.clone();
                    self.phase = JobPhaseOf::FetchList { remote, local_dir };
                    quiet_turn(JobOpOf::List(dir))
                } else {
                    self.fetch_file(remote, local_dir)
                }
            },
            (JobPhaseOf::FetchList { remote, local_dir }, JobReply::Listing(l)) => self.fetch_tree(
                remote,
                local_dir,
                &l,
            ),
            (JobPhaseOf::FetchTree { name }, JobReply::Moved(moved)) => {
                let mut events: Vec<SessionEvent> = Vec::new();
                push_tree_end(&mut events, false, &moved, name.as_str(), self.lang);
                assert(events::events_view(events@) =~= tree_end(
                    false,
                    folder::moved_view(moved),
                    name@,
                    self.lang,
                ));
                self.end(events)
            },
            (JobPhaseOf::FetchFile { name }, JobReply::Moved(moved)) => {
                let events = file_end_events(
                    self.id.as_str(),
                    false,
                    &moved,
                    name.as_str(),
                    self.lang,
                );
                self.end(events)
            },
            (JobPhaseOf::Pack { temp, local, name }, JobReply::Exit(exit)) => self.packed(
                temp,
                local,
                name,
                exit,
            ),
            (JobPhaseOf::FetchPack { temp, name }, JobReply::Moved(moved)) => self.clean_pack(
                temp,
                name,
                moved,
            ),
            (JobPhaseOf::CleanPack { name, moved }, JobReply::Exit(_)) => {
                let events = file_end_events(
                    self.id.as_str(),
                    false,
                    &moved,
                    name.as_str(),
                    self.lang,
                );
                self.end(events)
            },
            (JobPhaseOf::SendLook { local, remote_dir }, JobReply::Kind(kind)) => self.send(
                local,
                remote_dir,
                kind,
            ),
            (JobPhaseOf::SendTree { name, remote_dir }, JobReply::Moved(moved)) => self.relist(
                name,
                remote_dir,
                moved,
            ),
            (JobPhaseOf::SendFile { name, remote_dir }, JobReply::Moved(moved)) => {
                match moved {
                    Ok(whole) => self.relist(name, remote_dir, Ok(whole)),
                    Err(m) => {
                        let failed: Result<bool, String> = Err(m);
                        let events = file_end_events(
                            self.id.as_str(),
                            true,
                            &failed,
                            name.as_str(),
                            self.lang,
                        );
                        self.end(events)
                    },
                }
            },
            (JobPhaseOf::SendList { name, remote_dir, moved }, JobReply::Listing(l)) => {
                let mut events: Vec<SessionEvent> = Vec::new();
                let ghost shown = shown_listing(remote_dir@, folder::listing_view(l));
                if let Ok(entries) = l {
                    events.push(SessionEvent::SftpEntries { path: remote_dir, entries });
                }
                assert(events::events_view(events@) =~= shown);
                push_tree_end(&mut events, true, &moved, name.as_str(), self.lang);
                self.end(events)
            },
            _ => {
                let none: Vec<SessionEvent> = Vec::new();
                assert(events::events_view(none@) =~= Seq::<EventView>::empty());
                self.end(none)
            },
        }
    }
}

/// A packed archive never stays on the server: whatever packing and downloading come to, the
/// last operation before the end removes it.
pub proof fn law_archive_is_removed(j: JobView, reply: JobReplyView)
    ensures
        j.phase matches JobPhaseOf::Pack { temp, local, name } ==> reply matches JobReplyView::Exit(e)
            ==> {
            let (next, turn) = j.step(reply);
            ||| turn.op == JobOpOf::Exec("rm -f "@ + remote_path::quoted(temp))
            ||| next.phase == JobPhaseOf::FetchPack { temp, name }
        },
        j.phase matches JobPhaseOf::FetchPack { temp, name } ==> reply matches JobReplyView::Moved(m)
            ==> j.step(reply).1.op == JobOpOf::Exec("rm -f "@ + remote_path::quoted(temp)),
        j.phase is CleanPack ==> j.step(reply).1.op == JobOpOf::<Seq<char>>::Stop,
{
}

/// What a download writes under is a plain local name, whatever the server calls the file.
pub proof fn law_download_name_is_plain(j: JobView, reply: JobReplyView)
    requires
        j.phase is FetchLook,
    ensures
        j.step(reply).1.op matches JobOpOf::FetchFile { remote, local, name } ==> (
        remote_path::plain_name(name) && local == remote_path::joined(
            j.phase->FetchLook_local_dir,
            name,
        )),
{
    let remote = j.phase->FetchLook_remote;
    remote_path::law_safe_name_is_plain(remote_path::base_name_of(remote));
}

} // verus!
