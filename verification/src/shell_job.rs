//! Uploads over a shell, from the first look at the source to the last report.
//!
//! An upload says which operation it wants done and takes what became of it.
use crate::browser;
use crate::browser::RunView;
use crate::events;
use crate::events::{EventView, SessionEvent, TransferState};
use crate::ids;
use crate::lang::Lang;
use crate::listing;
use crate::listing::ExecOutput;
use crate::remote_path;
use crate::shell::Capture;
use crate::shell_upload;
use crate::shell_upload::{ArchiveVerdict, Cargo, UploadSource};
use crate::text;
use crate::worker;
use vstd::prelude::*;

verus! {

/// What an upload wants done; `S` holds texts.
#[allow(inconsistent_fields)]
pub enum ShipOpOf<S> {
    /// Look at a local path, without following a symbolic link.
    Look(S),
    /// Tell the size of a local file.
    Measure(S),
    /// Pack a local folder into an archive of this name, among the temporary files.
    Pack { root: S, archive: S },
    /// Start a command on the server and send it a local file.
    SendFile { local: S, command: S, total: u64 },
    /// Start a command on the server and send it an archive from among the temporary files.
    SendArchive { archive: S, command: S, total: u64 },
    /// Remove an archive from among the temporary files.
    DropArchive(S),
    /// Run a command on the server and tell what it came to.
    Exec(S),
    /// The upload has ended.
    Stop,
}

pub type ShipOp = ShipOpOf<String>;

pub type ShipOpView = ShipOpOf<Seq<char>>;

impl View for ShipOpOf<String> {
    type V = ShipOpView;

    open spec fn view(&self) -> ShipOpView {
        match *self {
            ShipOpOf::Look(p) => ShipOpOf::Look(p@),
            ShipOpOf::Measure(p) => ShipOpOf::Measure(p@),
            ShipOpOf::Pack { root, archive } => ShipOpOf::Pack { root: root@, archive: archive@ },
            ShipOpOf::SendFile { local, command, total } => ShipOpOf::SendFile {
                local: local@,
                command: command@,
                total,
            },
            ShipOpOf::SendArchive { archive, command, total } => ShipOpOf::SendArchive {
                archive: archive@,
                command: command@,
                total,
            },
            ShipOpOf::DropArchive(a) => ShipOpOf::DropArchive(a@),
            ShipOpOf::Exec(c) => ShipOpOf::Exec(c@),
            ShipOpOf::Stop => ShipOpOf::Stop,
        }
    }
}

/// What became of an operation; `S` holds texts, `B` the size of an archive or why there is none,
/// and `R` what a command came to.
#[allow(inconsistent_fields)]
pub enum ShipReplyOf<S, B, R> {
    Source(UploadSource),
    /// The size of the file; `None` where it could not be told.
    Size(Option<u64>),
    /// What the packing came to, whether a stop was asked for, and how no rate at all is shown.
    Packed { built: B, cancelled: bool, no_rate: S },
    /// Nothing could be sent.
    NotSent(S),
    /// Bytes were sent: whether a stop was asked for, whether all could be sent, what came back
    /// from the command if it ended in time, how many bytes that were, and how far and how fast
    /// as it is shown.
    Sent {
        cancelled: bool,
        sent: bool,
        wait: Option<Capture>,
        transferred: u64,
        percent: S,
        rate: S,
    },
    /// The archive is removed, if that was possible.
    Dropped,
    Exec(R),
}

pub type ShipReply = ShipReplyOf<String, Result<u64, String>, Result<ExecOutput, String>>;

pub type ShipReplyView = ShipReplyOf<Seq<char>, Result<u64, Seq<char>>, RunView>;

/// The contents of what a packing came to.
pub open spec fn built_view(b: Result<u64, String>) -> Result<u64, Seq<char>> {
    match b {
        Ok(n) => Ok(n),
        Err(m) => Err(m@),
    }
}

impl View for ShipReplyOf<String, Result<u64, String>, Result<ExecOutput, String>> {
    type V = ShipReplyView;

    open spec fn view(&self) -> ShipReplyView {
        match *self {
            ShipReplyOf::Source(s) => ShipReplyOf::Source(s),
            ShipReplyOf::Size(n) => ShipReplyOf::Size(n),
            ShipReplyOf::Packed { built, cancelled, no_rate } => ShipReplyOf::Packed {
                built: built_view(built),
                cancelled,
                no_rate: no_rate@,
            },
            ShipReplyOf::NotSent(m) => ShipReplyOf::NotSent(m@),
            ShipReplyOf::Sent { cancelled, sent, wait, transferred, percent, rate } =>
                ShipReplyOf::Sent {
                cancelled,
                sent,
                wait,
                transferred,
                percent: percent@,
                rate: rate@,
            },
            ShipReplyOf::Dropped => ShipReplyOf::Dropped,
            ShipReplyOf::Exec(r) => ShipReplyOf::Exec(browser::run_view(r)),
        }
    }
}

/// What an upload came to; `S` holds texts.
#[allow(inconsistent_fields)]
pub enum OutcomeOf<S> {
    Failed(S),
    Cancelled { transferred: u64, total: u64, percent: S, rate: S },
    Completed { transferred: u64, total: u64, rate: S },
}

pub type Outcome = OutcomeOf<String>;

pub type OutcomeView = OutcomeOf<Seq<char>>;

impl View for OutcomeOf<String> {
    type V = OutcomeView;

    open spec fn view(&self) -> OutcomeView {
        match *self {
            OutcomeOf::Failed(m) => OutcomeOf::Failed(m@),
            OutcomeOf::Cancelled { transferred, total, percent, rate } => OutcomeOf::Cancelled {
                transferred,
                total,
                percent: percent@,
                rate: rate@,
            },
            OutcomeOf::Completed { transferred, total, rate } => OutcomeOf::Completed {
                transferred,
                total,
                rate: rate@,
            },
        }
    }
}

/// What an upload waits for; `S` holds texts, and `O` what the upload came to.
#[allow(inconsistent_fields)]
pub enum ShipPhaseOf<S, O> {
    Look,
    Measure,
    Pack { archive: S },
    SendFile { total: u64 },
    SendArchive { archive: S, total: u64 },
    /// The archive is being removed.
    Drop { outcome: O },
    /// The target directory is being listed again.
    Show { rate: S },
    Ended,
}

pub type ShipPhase = ShipPhaseOf<String, Outcome>;

pub type ShipPhaseView = ShipPhaseOf<Seq<char>, OutcomeView>;

impl View for ShipPhaseOf<String, Outcome> {
    type V = ShipPhaseView;

    open spec fn view(&self) -> ShipPhaseView {
        match *self {
            ShipPhaseOf::Look => ShipPhaseOf::Look,
            ShipPhaseOf::Measure => ShipPhaseOf::Measure,
            ShipPhaseOf::Pack { archive } => ShipPhaseOf::Pack { archive: archive@ },
            ShipPhaseOf::SendFile { total } => ShipPhaseOf::SendFile { total },
            ShipPhaseOf::SendArchive { archive, total } => ShipPhaseOf::SendArchive {
                archive: archive@,
                total,
            },
            ShipPhaseOf::Drop { outcome } => ShipPhaseOf::Drop { outcome: outcome@ },
            ShipPhaseOf::Show { rate } => ShipPhaseOf::Show { rate: rate@ },
            ShipPhaseOf::Ended => ShipPhaseOf::Ended,
        }
    }
}

/// What an upload reports, and what it wants done next.
pub struct ShipTurn {
    pub events: Vec<SessionEvent>,
    pub op: ShipOp,
}

/// The contents of a [`ShipTurn`].
#[verifier::ext_equal]
pub struct ShipTurnView {
    pub events: Seq<EventView>,
    pub op: ShipOpView,
}

impl View for ShipTurn {
    type V = ShipTurnView;

    open spec fn view(&self) -> ShipTurnView {
        ShipTurnView { events: events::events_view(self.events@), op: self.op@ }
    }
}

/// An upload over a shell.
pub struct ShellUpload {
    pub id: String,
    pub name: String,
    pub local: String,
    pub remote_dir: String,
    pub lang: Lang,
    pub phase: ShipPhase,
}

/// The contents of a [`ShellUpload`].
#[verifier::ext_equal]
pub struct ShipView {
    pub id: Seq<char>,
    pub name: Seq<char>,
    pub local: Seq<char>,
    pub remote_dir: Seq<char>,
    pub lang: Lang,
    pub phase: ShipPhaseView,
}

impl View for ShellUpload {
    type V = ShipView;

    open spec fn view(&self) -> ShipView {
        ShipView {
            id: self.id@,
            name: self.name@,
            local: self.local@,
            remote_dir: self.remote_dir@,
            lang: self.lang,
            phase: self.phase@,
        }
    }
}

impl ShipView {
    /// In another phase, with reports and an operation.
    pub open spec fn ask(self, phase: ShipPhaseView, reports: Seq<EventView>, op: ShipOpView) -> (
        ShipView,
        ShipTurnView,
    ) {
        (ShipView { phase, ..self }, ShipTurnView { events: reports, op })
    }

    /// The end, with the last reports.
    pub open spec fn end(self, reports: Seq<EventView>) -> (ShipView, ShipTurnView) {
        self.ask(ShipPhaseOf::Ended, reports, ShipOpOf::Stop)
    }

    /// The end of an upload that failed, with what is reported before.
    pub open spec fn fail(self, before: Seq<EventView>, msg: Seq<char>) -> (ShipView, ShipTurnView) {
        self.end(before + shell_upload::failed_upload(self.id, self.name, msg, self.lang))
    }

    /// What follows an upload. After a complete one the target directory is listed again.
    pub open spec fn conclude(self, outcome: OutcomeView) -> (ShipView, ShipTurnView) {
        match outcome {
            OutcomeOf::Failed(m) => self.fail(Seq::empty(), m),
            OutcomeOf::Cancelled { transferred, total, percent, rate } => self.end(
                shell_upload::cancelled_reports(
                    self.id,
                    self.name,
                    transferred,
                    total,
                    percent,
                    rate,
                    self.lang,
                ),
            ),
            OutcomeOf::Completed { transferred, total, rate } => self.ask(
                ShipPhaseOf::Show { rate },
                seq![
                    events::transfer_view(
                        self.id,
                        self.name,
                        true,
                        transferred,
                        total,
                        TransferState::Done,
                        ""@,
                    ),
                    events::loading(self.remote_dir, self.lang),
                ],
                ShipOpOf::Exec(listing::list_command_text(self.remote_dir)),
            ),
        }
    }

    /// Once the archive is no longer needed: it is removed before anything else.
    pub open spec fn drop_archive(self, archive: Seq<char>, outcome: OutcomeView) -> (
        ShipView,
        ShipTurnView,
    ) {
        self.ask(ShipPhaseOf::Drop { outcome }, Seq::empty(), ShipOpOf::DropArchive(archive))
    }

    /// The message for a local name that cannot become a remote one.
    pub open spec fn bad_name(self) -> Seq<char> {
        self.lang.pick("本地文件名无效，无法上传"@, "The local file name is invalid for upload"@)
    }

    /// Once it is known what stands at the local path. The archive of a folder gets the
    /// identifier.
    pub open spec fn looked(self, source: UploadSource, id: Seq<char>) -> (ShipView, ShipTurnView) {
        match shell_upload::shell_cargo(source, self.lang) {
            Err(m) => self.fail(Seq::empty(), m),
            Ok(Cargo::File) => if !remote_path::upload_name(self.name) {
                self.fail(Seq::empty(), self.bad_name())
            } else {
                self.ask(ShipPhaseOf::Measure, Seq::empty(), ShipOpOf::Measure(self.local))
            },
            Ok(Cargo::Folder) => {
                let told = shell_upload::preparing(self.id, self.name, self.lang);
                if !remote_path::upload_name(self.name) {
                    self.fail(told, self.bad_name())
                } else {
                    let archive = shell_upload::archive_file(id);
                    self.ask(
                        ShipPhaseOf::Pack { archive },
                        told,
                        ShipOpOf::Pack { root: self.local, archive },
                    )
                }
            },
        }
    }

    /// Once the size of the file is known. What is not yet in place on the server gets the
    /// identifier.
    pub open spec fn measured(self, size: Option<u64>, id: Seq<char>) -> (ShipView, ShipTurnView) {
        match size {
            None => self.fail(Seq::empty(), "stat local upload file "@ + self.local),
            Some(total) => self.ask(
                ShipPhaseOf::SendFile { total },
                Seq::empty(),
                ShipOpOf::SendFile {
                    local: self.local,
                    command: shell_upload::upload_command_text(
                        Cargo::File,
                        self.remote_dir,
                        self.name,
                        total,
                        id,
                    ),
                    total,
                },
            ),
        }
    }

    /// Once the folder is packed, or is not. A request to stop outweighs a failure.
    pub open spec fn packed(
        self,
        archive: Seq<char>,
        built: Result<u64, Seq<char>>,
        cancelled: bool,
        no_rate: Seq<char>,
        id: Seq<char>,
    ) -> (ShipView, ShipTurnView) {
        if cancelled {
            self.drop_archive(
                archive,
                OutcomeOf::Cancelled {
                    transferred: 0,
                    total: match built {
                        Ok(n) => n,
                        Err(_) => 0,
                    },
                    percent: "0.0"@,
                    rate: no_rate,
                },
            )
        } else {
            match built {
                Err(m) => self.drop_archive(archive, OutcomeOf::Failed(m)),
                Ok(total) => self.ask(
                    ShipPhaseOf::SendArchive { archive, total },
                    Seq::empty(),
                    ShipOpOf::SendArchive {
                        archive,
                        command: shell_upload::upload_command_text(
                            Cargo::Folder,
                            self.remote_dir,
                            self.name,
                            total,
                            id,
                        ),
                        total,
                    },
                ),
            }
        }
    }

    /// What an upload of a given size came to, once bytes were sent.
    pub open spec fn outcome(
        self,
        cancelled: bool,
        sent: bool,
        wait: Option<Capture>,
        transferred: u64,
        total: u64,
        percent: Seq<char>,
        rate: Seq<char>,
    ) -> OutcomeView {
        match shell_upload::stream_verdict(cancelled, sent, wait, total, self.lang) {
            Err(m) => OutcomeOf::Failed(m),
            Ok(whole) => if whole {
                OutcomeOf::Completed { transferred, total, rate }
            } else {
                OutcomeOf::Cancelled { transferred, total, percent, rate }
            },
        }
    }

    /// What follows when an operation is done; the identifier is for a name that this step may
    /// need. An answer to something else ends the upload.
    pub open spec fn step(self, reply: ShipReplyView, id: Seq<char>) -> (ShipView, ShipTurnView) {
        match (self.phase, reply) {
            (ShipPhaseOf::Look, ShipReplyOf::Source(source)) => self.looked(source, id),
            (ShipPhaseOf::Measure, ShipReplyOf::Size(size)) => self.measured(size, id),
            (
                ShipPhaseOf::Pack { archive },
                ShipReplyOf::Packed { built, cancelled, no_rate },
            ) => self.packed(archive, built, cancelled, no_rate, id),
            (ShipPhaseOf::SendFile { total }, ShipReplyOf::NotSent(m)) => self.conclude(
                OutcomeOf::Failed(m),
            ),
            (
                ShipPhaseOf::SendFile { total },
                ShipReplyOf::Sent { cancelled, sent, wait, transferred, percent, rate },
            ) => self.conclude(
                self.outcome(cancelled, sent, wait, transferred, total, percent, rate),
            ),
            (ShipPhaseOf::SendArchive { archive, total }, ShipReplyOf::NotSent(m)) =>
                self.drop_archive(archive, OutcomeOf::Failed(m)),
            (
                ShipPhaseOf::SendArchive { archive, total },
                ShipReplyOf::Sent { cancelled, sent, wait, transferred, percent, rate },
            ) => self.drop_archive(
                archive,
                self.outcome(cancelled, sent, wait, transferred, total, percent, rate),
            ),
            (ShipPhaseOf::Drop { outcome }, ShipReplyOf::Dropped) => self.conclude(outcome),
            (ShipPhaseOf::Show { rate }, ShipReplyOf::Exec(r)) => self.end(
                browser::show_reports(self.remote_dir, r, self.lang).push(
                    shell_upload::done_message(self.name, rate, self.lang),
                ),
            ),
            _ => self.end(Seq::empty()),
        }
    }

    /// An upload of which nothing is known but its paths.
    pub open spec fn fresh(
        id: Seq<char>,
        local: Seq<char>,
        remote_dir: Seq<char>,
        lang: Lang,
    ) -> ShipView {
        ShipView {
            id,
            name: remote_path::base_name_of(local),
            local,
            remote_dir,
            lang,
            phase: ShipPhaseOf::Look,
        }
    }
}

impl ShellUpload {
    /// An upload of which nothing is known but its paths. It looks at the local one first.
    pub fn start(id: String, local: String, remote_dir: String, lang: Lang) -> (out: (
        ShellUpload,
        ShipTurn,
    ))
        ensures
            out.0@ == ShipView::fresh(id@, local@, remote_dir@, lang),
            out.1@ == (ShipTurnView { events: Seq::empty(), op: ShipOpOf::Look(local@) }),
    {
        let name = remote_path::base_name(local.as_str());
        let op = ShipOpOf::Look(local.clone());
        let turn = ShipTurn { events: worker::no_events(), op };
        (ShellUpload { id, name, local, remote_dir, lang, phase: ShipPhaseOf::Look }, turn)
    }

    fn ask(&mut self, phase: ShipPhase, events: Vec<SessionEvent>, op: ShipOp) -> (out: ShipTurn)
        ensures
            (final(self)@, out@) == old(self)@.ask(phase@, events::events_view(events@), op@),
    {
        self.phase = phase;
        ShipTurn { events, op }
    }

    fn end(&mut self, events: Vec<SessionEvent>) -> (out: ShipTurn)
        ensures
            (final(self)@, out@) == old(self)@.end(events::events_view(events@)),
    {
        self.ask(ShipPhaseOf::Ended, events, ShipOpOf::Stop)
    }

    fn fail(&mut self, before: Vec<SessionEvent>, msg: &str) -> (out: ShipTurn)
        ensures
            (final(self)@, out@) == old(self)@.fail(events::events_view(before@), msg@),
    {
        let mut all = before;
        let mut last = shell_upload::failed_reports(
            self.id.as_str(),
            self.name.as_str(),
            msg,
            self.lang,
        );
        let ghost told = events::events_view(before@) + events::events_view(last@);
        all.append(&mut last);
        assert(events::events_view(all@) =~= told);
        self.end(all)
    }

    fn fail_plainly(&mut self, msg: &str) -> (out: ShipTurn)
        ensures
            (final(self)@, out@) == old(self)@.fail(Seq::empty(), msg@),
    {
        self.fail(worker::no_events(), msg)
    }

    fn conclude(&mut self, outcome: Outcome) -> (out: ShipTurn)
        ensures
            (final(self)@, out@) == old(self)@.conclude(outcome@),
    {
        match outcome {
            OutcomeOf::Failed(m) => self.fail_plainly(m.as_str()),
            OutcomeOf::Cancelled { transferred, total, percent, rate } => {
                let last = shell_upload::upload_cancelled_reports(
                    self.id.as_str(),
                    self.name.as_str(),
                    transferred,
                    total,
                    percent.as_str(),
                    rate.as_str(),
                    self.lang,
                );
                self.end(last)
            },
            OutcomeOf::Completed { transferred, total, rate } => {
                let told = worker::two_events(
                    shell_upload::upload_done_report(
                        self.id.as_str(),
                        self.name.as_str(),
                        transferred,
                        total,
                    ),
                    events::loading_status(self.remote_dir.as_str(), self.lang),
                );
                let cmd = listing::list_command(self.remote_dir.as_str());
                self.ask(ShipPhaseOf::Show { rate }, told, ShipOpOf::Exec(cmd))
            },
        }
    }

    fn drop_archive(&mut self, archive: String, outcome: Outcome) -> (out: ShipTurn)
        ensures
            (final(self)@, out@) == old(self)@.drop_archive(archive@, outcome@),
    {
        self.ask(
            ShipPhaseOf::Drop { outcome },
            worker::no_events(),
            ShipOpOf::DropArchive(archive),
        )
    }

    fn looked(&mut self, source: UploadSource, id: &str) -> (out: ShipTurn)
        ensures
            (final(self)@, out@) == old(self)@.looked(source, id@),
    {
        match shell_upload::upload_cargo(source, self.lang) {
            Err(m) => self.fail_plainly(m.as_str()),
            Ok(Cargo::File) => {
                match remote_path::checked_shell_upload_name(self.name.as_str(), self.lang) {
                    Err(m) => self.fail_plainly(m.as_str()),
                    Ok(_) => {
                        let local = self.local.clone();
                        self.ask(
                            ShipPhaseOf::Measure,
                            worker::no_events(),
                            ShipOpOf::Measure(local),
                        )
                    },
                }
            },
            Ok(Cargo::Folder) => {
                let told = shell_upload::preparing_reports(
                    self.id.as_str(),
                    self.name.as_str(),
                    self.lang,
                );
                match remote_path::checked_shell_upload_name(self.name.as_str(), self.lang) {
                    Err(m) => self.fail(told, m.as_str()),
                    Ok(_) => {
                        let archive = shell_upload::local_archive_name(id);
                        let op = ShipOpOf::Pack {
                            root: self.local.clone(),
                            archive: archive.clone(),
                        };
                        self.ask(ShipPhaseOf::Pack { archive }, told, op)
                    },
                }
            },
        }
    }

    fn measured(&mut self, size: Option<u64>, id: &str) -> (out: ShipTurn)
        ensures
            (final(self)@, out@) == old(self)@.measured(size, id@),
    {
        match size {
            None => {
                let m = text::join2("stat local upload file ", self.local.as_str());
                self.fail_plainly(m.as_str())
            },
            Some(total) => {
                let command = shell_upload::upload_command(
                    Cargo::File,
                    self.remote_dir.as_str(),
                    self.name.as_str(),
                    total,
                    id,
                );
                let op = ShipOpOf::SendFile { local: self.local.clone(), command, total };
                self.ask(ShipPhaseOf::SendFile { total }, worker::no_events(), op)
            },
        }
    }

    fn packed(
        &mut self,
        archive: String,
        built: Result<u64, String>,
        cancelled: bool,
        no_rate: String,
        id: &str,
    ) -> (out: ShipTurn)
        ensures
            (final(self)@, out@) == old(self)@.packed(
                archive@,
                built_view(built),
                cancelled,
                no_rate@,
                id@,
            ),
    {
        match shell_upload::after_archive(built, cancelled) {
            ArchiveVerdict::Cancelled(total) => self.drop_archive(
                archive,
                OutcomeOf::Cancelled {
                    transferred: 0,
                    total,
                    percent: "0.0".to_string(),
                    rate: no_rate,
                },
            ),
            ArchiveVerdict::Fail(m) => self.drop_archive(archive, OutcomeOf::Failed(m)),
            ArchiveVerdict::Send(total) => {
                let command = shell_upload::upload_command(
                    Cargo::Folder,
                    self.remote_dir.as_str(),
                    self.name.as_str(),
                    total,
                    id,
                );
                let op = ShipOpOf::SendArchive { archive: archive.clone(), command, total };
                self.ask(ShipPhaseOf::SendArchive { archive, total }, worker::no_events(), op)
            },
        }
    }

    fn outcome(
        &self,
        cancelled: bool,
        sent: bool,
        wait: Option<Capture>,
        transferred: u64,
        total: u64,
        percent: String,
        rate: String,
    ) -> (out: Outcome)
        ensures
            out@ == self@.outcome(cancelled, sent, wait, transferred, total, percent@, rate@),
    {
        match shell_upload::shell_stream_verdict(cancelled, sent, wait, total, self.lang) {
            Err(m) => OutcomeOf::Failed(m),
            Ok(whole) => {
                if whole {
                    OutcomeOf::Completed { transferred, total, rate }
                } else {
                    OutcomeOf::Cancelled { transferred, total, percent, rate }
                }
            },
        }
    }

    /// What follows when an operation is done; the identifier is for a name that this step may
    /// need.
    pub fn step_with(&mut self, reply: ShipReply, id: &str) -> (out: ShipTurn)
        ensures
            (final(self)@, out@) == old(self)@.step(reply@, id@),
    {
        let mut phase: ShipPhase = ShipPhaseOf::Ended;
        std::mem::swap(&mut phase, &mut self.phase);
        match (phase, reply) {
            (ShipPhaseOf::Look, ShipReplyOf::Source(source)) => self.looked(source, id),
            (ShipPhaseOf::Measure, ShipReplyOf::Size(size)) => self.measured(size, id),
            (
                ShipPhaseOf::Pack { archive },
                ShipReplyOf::Packed { built, cancelled, no_rate },
            ) => self.packed(archive, built, cancelled, no_rate, id),
            (ShipPhaseOf::SendFile { total: _ }, ShipReplyOf::NotSent(m)) => self.conclude(
                OutcomeOf::Failed(m),
            ),
            (
                ShipPhaseOf::SendFile { total },
                ShipReplyOf::Sent { cancelled, sent, wait, transferred, percent, rate },
            ) => {
                let outcome = self.outcome(
                    cancelled,
                    sent,
                    wait,
                    transferred,
                    total,
                    percent,
                    rate,
                );
                self.conclude(outcome)
            },
            (ShipPhaseOf::SendArchive { archive, total: _ }, ShipReplyOf::NotSent(m)) =>
                self.drop_archive(archive, OutcomeOf::Failed(m)),
            (
                ShipPhaseOf::SendArchive { archive, total },
                ShipReplyOf::Sent { cancelled, sent, wait, transferred, percent, rate },
            ) => {
                let outcome = self.outcome(
                    cancelled,
                    sent,
                    wait,
                    transferred,
                    total,
                    percent,
                    rate,
                );
                self.drop_archive(archive, outcome)
            },
            (ShipPhaseOf::Drop { outcome }, ShipReplyOf::Dropped) => self.conclude(outcome),
            (ShipPhaseOf::Show { rate }, ShipReplyOf::Exec(r)) => {
                let mut last = browser::emit_shell_dir(self.remote_dir.as_str(), r, self.lang);
                let e = shell_upload::upload_done_message(
                    self.name.as_str(),
                    rate.as_str(),
                    self.lang,
                );
                worker::add_event(&mut last, e);
                self.end(last)
            },
            _ => self.end(worker::no_events()),
        }
    }

    /// What follows when an operation is done. A name that this step needs is random.
    pub fn step(&mut self, reply: ShipReply) -> (out: ShipTurn)
        ensures
            exists|id: Seq<char>| #[trigger]
                ids::id_text(id) && (final(self)@, out@) == old(self)@.step(reply@, id),
    {
        let id = ids::fresh_id();
        assert(ids::id_text(id@));
        self.step_with(reply, id.as_str())
    }
}

// ---------------------------------------------------------------------------
// Laws
// ---------------------------------------------------------------------------

/// An archive never stays among the temporary files: whatever packing and sending come to, it
/// is removed before the end is reported.
pub proof fn law_local_archive_is_removed(u: ShipView, reply: ShipReplyView, id: Seq<char>)
    ensures
        u.phase matches ShipPhaseOf::Pack { archive } ==> reply is Packed ==> {
            let (next, turn) = u.step(reply, id);
            ||| turn.op == ShipOpOf::DropArchive(archive)
            ||| next.phase matches ShipPhaseOf::SendArchive { archive: a, total } && a == archive
        },
        u.phase matches ShipPhaseOf::SendArchive { archive, total } ==> (reply is Sent
            || reply is NotSent) ==> u.step(reply, id).1.op == ShipOpOf::DropArchive(archive),
{
}

/// An upload is reported as done only when the server confirmed it: the report follows from
/// nothing but bytes that were sent and confirmed, directly or once the archive is removed.
pub proof fn law_done_is_confirmed(u: ShipView, reply: ShipReplyView, id: Seq<char>)
    ensures
        u.step(reply, id).0.phase is Show ==> {
            ||| u.phase matches ShipPhaseOf::Drop { outcome } && outcome is Completed
            ||| u.phase matches ShipPhaseOf::SendFile { total } && (reply matches ShipReplyOf::Sent {
                wait,
                ..
            } && (wait matches Some(c) && shell_upload::confirmed(c.out@, total)))
        },
        u.step(reply, id).0.phase matches ShipPhaseOf::Drop { outcome } ==> outcome is Completed
            ==> (u.phase matches ShipPhaseOf::SendArchive { archive, total } && (
        reply matches ShipReplyOf::Sent { wait, .. } && (wait matches Some(c)
            && shell_upload::confirmed(c.out@, total)))),
{
}

} // verus!
