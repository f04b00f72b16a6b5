//! Moving one file over the file service, with many requests under way at once.
use crate::events;
use crate::events::{EventView, SessionEvent, TransferState};
use crate::folder;
use crate::lang::Lang;
use crate::text;
use vstd::prelude::*;

verus! {

/// How many bytes one request moves at most.
pub const CHUNK: u64 = 32768;

/// How many requests are under way at most.
pub const MAX_INFLIGHT: usize = 32;

/// How many milliseconds lie at least between two reports on a transfer.
pub const REPORT_MS: u64 = 150;

/// The message of a cancelled transfer.
pub open spec fn cancelled_text(lang: Lang) -> Seq<char> {
    lang.pick("已取消"@, "Cancelled"@)
}

/// Whether a transfer is to stop: it was cancelled itself, or everything ends.
pub fn is_cancelled(cancel: bool, shutdown: bool) -> (r: bool)
    ensures
        r == (cancel || shutdown),
{
    cancel || shutdown
}

/// Whether the last report is old enough for another one.
pub open spec fn report_due(now: u64, last: u64) -> bool {
    now - last >= REPORT_MS
}

fn is_report_due(now: u64, last: u64) -> (r: bool)
    ensures
        r == report_due(now, last),
{
    now >= last && now - last >= REPORT_MS
}

/// The larger of two numbers.
pub open spec fn larger(a: u64, b: u64) -> u64 {
    if a >= b {
        a
    } else {
        b
    }
}

/// The contents of an optional text.
pub open spec fn maybe_text(t: Option<String>) -> Option<Seq<char>> {
    match t {
        Some(s) => Some(s@),
        None => None,
    }
}

/// The contents of an optional report.
pub open spec fn maybe_event(e: Option<SessionEvent>) -> Option<EventView> {
    match e {
        Some(x) => Some(x@),
        None => None,
    }
}

// ---------------------------------------------------------------------------
// Chunks
// ---------------------------------------------------------------------------

/// A stretch of a file.
#[derive(Debug, Clone, Copy, PartialEq, Eq, Structural)]
pub struct Chunk {
    pub off: u64,
    pub len: u64,
}

/// The chunk of a file that begins at an offset.
pub open spec fn chunk_at(off: u64, total: u64) -> Chunk {
    Chunk {
        off,
        len: if total - off < CHUNK {
            (total - off) as u64
        } else {
            CHUNK
        },
    }
}

/// The chunks of a file from an offset on, but no more than there is room for.
pub open spec fn chunks_from(off: u64, total: u64, room: nat) -> Seq<Chunk>
    decreases room,
{
    if room == 0 || off >= total {
        Seq::empty()
    } else {
        let c = chunk_at(off, total);
        seq![c] + chunks_from((off + c.len) as u64, total, (room - 1) as nat)
    }
}

/// Where the chunks of a file end.
pub open spec fn chunks_end(off: u64, total: u64, room: nat) -> u64
    decreases room,
{
    if room == 0 || off >= total {
        off
    } else {
        chunks_end((off + chunk_at(off, total).len) as u64, total, (room - 1) as nat)
    }
}

/// The chunks of a file follow one another without a gap and without an overlap, none is empty
/// or larger than allowed, and they reach the end of the file unless the room is used up.
pub proof fn law_chunks_tile(off: u64, total: u64, room: nat)
    requires
        off <= total,
    ensures
        ({
            let s = chunks_from(off, total, room);
            let end = chunks_end(off, total, room);
            &&& s.len() <= room
            &&& forall|i: int|
                0 <= i < s.len() ==> 0 < (#[trigger] s[i]).len <= CHUNK && s[i].off + s[i].len
                    <= end
            &&& s.len() > 0 ==> s[0].off == off && s.last().off + s.last().len == end
            &&& forall|i: int, j: int|
                0 <= i < s.len() && j == i + 1 && j < s.len() ==> #[trigger] s[i].off + s[i].len
                    == #[trigger] s[j].off
            &&& s.len() == 0 ==> end == off
            &&& off <= end <= total
            &&& s.len() < room ==> end == total
        }),
    decreases room,
{
    if room > 0 && off < total {
        let c = chunk_at(off, total);
        let next = (off + c.len) as u64;
        law_chunks_tile(next, total, (room - 1) as nat);
        let rest = chunks_from(next, total, (room - 1) as nat);
        let s = chunks_from(off, total, room);
        assert(s =~= seq![c] + rest);
        assert forall|i: int, j: int| 0 <= i < s.len() && j == i + 1 && j < s.len() implies
            #[trigger] s[i].off + s[i].len == #[trigger] s[j].off by {
            if i > 0 {
                assert(s[i] == rest[i - 1]);
                assert(s[j] == rest[j - 1]);
            } else {
                assert(s[1] == rest[0]);
            }
        }
        assert forall|i: int| 0 <= i < s.len() implies 0 < (#[trigger] s[i]).len <= CHUNK && s[i].off
            + s[i].len <= chunks_end(off, total, room) by {
            if i > 0 {
                assert(s[i] == rest[i - 1]);
            }
        }
        if rest.len() > 0 {
            assert(s.last() == rest.last());
        }
    }
}

/// What the server answers to a request for bytes.
#[derive(Debug)]
pub enum ReadReply {
    Data(Vec<u8>),
    /// There is nothing more.
    Eof,
    Failed(String),
}

/// Whether an answer brings bytes.
pub open spec fn brings_bytes(reply: ReadReply) -> bool {
    reply matches ReadReply::Data(d) && d@.len() > 0
}

/// One chunk that is read, with as many requests as it takes.
pub struct ChunkFill {
    pub off: u64,
    pub end: u64,
    pub at: u64,
    pub data: Vec<u8>,
    pub stopped: bool,
}

/// The contents of a [`ChunkFill`].
#[verifier::ext_equal]
pub struct FillView {
    pub off: u64,
    pub end: u64,
    pub data: Seq<u8>,
    pub stopped: bool,
}

impl View for ChunkFill {
    type V = FillView;

    open spec fn view(&self) -> FillView {
        FillView { off: self.off, end: self.end, data: self.data@, stopped: self.stopped }
    }
}

impl FillView {
    /// A chunk of which nothing is read.
    pub open spec fn fresh(chunk: Chunk) -> FillView {
        FillView {
            off: chunk.off,
            end: (chunk.off + chunk.len) as u64,
            data: Seq::empty(),
            stopped: false,
        }
    }

    /// The bytes to ask for next.
    pub open spec fn wanted(self) -> Option<Chunk> {
        let at = self.off + self.data.len();
        if !self.stopped && at < self.end {
            Some(Chunk { off: at as u64, len: (self.end - at) as u64 })
        } else {
            None
        }
    }

    /// After an answer.
    pub open spec fn absorbed(self, reply: ReadReply) -> FillView {
        match reply {
            ReadReply::Data(d) => FillView {
                data: self.data + d@,
                stopped: self.stopped || d@.len() == 0,
                ..self
            },
            ReadReply::Eof => FillView { stopped: true, ..self },
            ReadReply::Failed(_) => self,
        }
    }
}

/// A chunk is read as it stands in the file: the bytes that are asked for are those that are
/// missing, and when answers bring the bytes that stand there, what is read is always the chunk
/// from its start on; when no more is asked for and the server did not say that there is nothing
/// more, it is the whole chunk.
pub proof fn law_chunk_is_read_as_it_stands(f: FillView, file: Seq<u8>, d: Vec<u8>)
    requires
        f.off + f.data.len() <= f.end <= file.len(),
        file.len() <= u64::MAX,
        f.data == file.subrange(f.off as int, f.off + f.data.len()),
    ensures
        f.wanted() matches Some(c) ==> {
            &&& c.off == f.off + f.data.len()
            &&& c.off + c.len == f.end
            &&& 0 < d@.len() <= c.len && d@ == file.subrange(c.off as int, c.off + d@.len()) ==> {
                let next = f.absorbed(ReadReply::Data(d));
                &&& next.data == file.subrange(f.off as int, f.off + next.data.len())
                &&& next.data.len() == f.data.len() + d@.len()
                &&& next.off == f.off && next.end == f.end && next.stopped == f.stopped
            }
        },
        f.wanted() is None && !f.stopped ==> f.data == file.subrange(f.off as int, f.end as int),
        f.absorbed(ReadReply::Eof).wanted() is None,
        f.absorbed(ReadReply::Eof).data == f.data,
{
    match f.wanted() {
        Some(c) => {
            if 0 < d@.len() <= c.len && d@ == file.subrange(c.off as int, c.off + d@.len()) {
                let next = f.absorbed(ReadReply::Data(d));
                assert(next.data =~= file.subrange(f.off as int, f.off + next.data.len()));
            }
        },
        None => {},
    }
}

impl ChunkFill {
    /// The bytes read so far are those from the start of the chunk on.
    pub open spec fn wf(&self) -> bool {
        self.at == self.off + self.data@.len() && self.off <= self.end
    }

    /// A chunk of which nothing is read.
    pub fn new(chunk: Chunk) -> (out: ChunkFill)
        requires
            chunk.off + chunk.len <= u64::MAX,
        ensures
            out.wf(),
            out.off == chunk.off,
            out.end == chunk.off + chunk.len,
            out.data@ == Seq::<u8>::empty(),
            !out.stopped,
            out@ == FillView::fresh(chunk),
    {
        ChunkFill {
            off: chunk.off,
            end: chunk.off + chunk.len,
            at: chunk.off,
            data: Vec::new(),
            stopped: false,
        }
    }

    /// The bytes to ask for next: those that are missing. `None` when the chunk is complete or
    /// the server has no more.
    pub fn wanted(&self) -> (out: Option<Chunk>)
        requires
            self.wf(),
        ensures
            out == (if !self.stopped && self.at < self.end {
                Some(Chunk { off: self.at, len: (self.end - self.at) as u64 })
            } else {
                None::<Chunk>
            }),
            out == self@.wanted(),
    {
        if !self.stopped && self.at < self.end {
            Some(Chunk { off: self.at, len: self.end - self.at })
        } else {
            None
        }
    }

    /// Takes an answer. An empty one means that there is nothing more.
    pub fn absorb(&mut self, reply: ReadReply) -> (out: Result<(), String>)
        requires
            old(self).wf(),
            reply matches ReadReply::Data(d) ==> old(self).at + d@.len() <= u64::MAX,
        ensures
            final(self).wf(),
            final(self)@ == old(self)@.absorbed(reply),
            final(self).off == old(self).off,
            final(self).end == old(self).end,
            match reply {
                ReadReply::Data(d) => out is Ok && final(self).data@ == old(self).data@ + d@
                    && final(self).stopped == (old(self).stopped || d@.len() == 0),
                ReadReply::Eof => out is Ok && final(self).data@ == old(self).data@ && final(self).stopped,
                ReadReply::Failed(m) => final(self).data@ == old(self).data@ && final(self).stopped == old(self).stopped && (out matches Err(e) && e@ == "read remote: "@
                    + m@),
            },
    {
        match reply {
            ReadReply::Data(d) => {
                let mut d = d;
                if d.len() == 0 {
                    self.stopped = true;
                }
                self.at = self.at + d.len() as u64;
                self.data.append(&mut d);
                Ok(())
            },
            ReadReply::Eof => {
                self.stopped = true;
                Ok(())
            },
            ReadReply::Failed(m) => Err(text::join2("read remote: ", m.as_str())),
        }
    }
}

// ---------------------------------------------------------------------------
// Setting a transfer up
// ---------------------------------------------------------------------------

/// A step before the first byte of a transfer moves.
#[derive(Debug, Clone, Copy, PartialEq, Eq, Structural)]
pub enum SetupStep {
    OpenChannel,
    RequestSubsystem,
    Handshake,
    OpenSource,
    CreateTarget,
}

/// The message for a download that could not be set up.
pub open spec fn download_setup_failure(
    step: SetupStep,
    remote: Seq<char>,
    local: Seq<char>,
) -> Seq<char> {
    match step {
        SetupStep::OpenChannel => "open sftp download channel"@,
        SetupStep::RequestSubsystem => "request sftp subsystem"@,
        SetupStep::Handshake => "sftp download handshake"@,
        SetupStep::OpenSource => "open remote "@ + remote,
        SetupStep::CreateTarget => "create local "@ + local,
    }
}

/// The message for a download that could not be set up.
pub fn download_setup_error(step: SetupStep, remote: &str, local: &str) -> (out: String)
    ensures
        out@ == download_setup_failure(step, remote@, local@),
{
    match step {
        SetupStep::OpenChannel => "open sftp download channel".to_string(),
        SetupStep::RequestSubsystem => "request sftp subsystem".to_string(),
        SetupStep::Handshake => "sftp download handshake".to_string(),
        SetupStep::OpenSource => text::join2("open remote ", remote),
        SetupStep::CreateTarget => text::join2("create local ", local),
    }
}

/// The message for an upload that could not be set up.
pub open spec fn upload_setup_failure(
    step: SetupStep,
    local: Seq<char>,
    remote: Seq<char>,
) -> Seq<char> {
    match step {
        SetupStep::OpenChannel => "open sftp upload channel"@,
        SetupStep::RequestSubsystem => "request sftp subsystem"@,
        SetupStep::Handshake => "sftp upload handshake"@,
        SetupStep::OpenSource => "open local "@ + local,
        SetupStep::CreateTarget => "create remote "@ + remote,
    }
}

/// The message for an upload that could not be set up.
pub fn upload_setup_error(step: SetupStep, local: &str, remote: &str) -> (out: String)
    ensures
        out@ == upload_setup_failure(step, local@, remote@),
{
    match step {
        SetupStep::OpenChannel => "open sftp upload channel".to_string(),
        SetupStep::RequestSubsystem => "request sftp subsystem".to_string(),
        SetupStep::Handshake => "sftp upload handshake".to_string(),
        SetupStep::OpenSource => text::join2("open local ", local),
        SetupStep::CreateTarget => text::join2("create remote ", remote),
    }
}

// ---------------------------------------------------------------------------
// Download
// ---------------------------------------------------------------------------

/// The message for local bytes that could not be written out at the end.
pub const FLUSH_FAILED: &'static str = "flush local file";

/// The message for local bytes that could not be written while the size is not known.
pub const DRAIN_WRITE_FAILED: &'static str = "write local file";

/// What became of one chunk of a download.
#[derive(Debug)]
pub enum ChunkOutcome {
    /// So many bytes were written, none where the server had none.
    Written(u64),
    /// The place in the local file could not be found.
    SeekFailed(String),
    /// The bytes could not be written.
    WriteFailed(String),
    /// The bytes could not be read; the message says why.
    ReadFailed(String),
}

/// A download that is under way.
pub struct Download {
    pub id: String,
    pub name: String,
    /// The size of the file, zero where it is not known.
    pub total: u64,
    pub next_off: u64,
    pub inflight: usize,
    pub done: u64,
    /// When the last report was made, in milliseconds since the start.
    pub last: u64,
    pub err: Option<String>,
    pub cancelled: bool,
}

/// The contents of a [`Download`].
#[verifier::ext_equal]
pub struct DownloadView {
    pub id: Seq<char>,
    pub name: Seq<char>,
    pub total: u64,
    pub next_off: u64,
    pub inflight: nat,
    pub done: u64,
    pub last: u64,
    pub err: Option<Seq<char>>,
    pub cancelled: bool,
}

impl View for Download {
    type V = DownloadView;

    open spec fn view(&self) -> DownloadView {
        DownloadView {
            id: self.id@,
            name: self.name@,
            total: self.total,
            next_off: self.next_off,
            inflight: self.inflight as nat,
            done: self.done,
            last: self.last,
            err: maybe_text(self.err),
            cancelled: self.cancelled,
        }
    }
}

impl DownloadView {
    /// A download of which no byte has come.
    pub open spec fn fresh(id: Seq<char>, name: Seq<char>, total: u64) -> DownloadView {
        DownloadView {
            id,
            name,
            total,
            next_off: 0,
            inflight: 0,
            done: 0,
            last: 0,
            err: None,
            cancelled: false,
        }
    }

    /// No more requests are under way than allowed, and none lies behind the end.
    pub open spec fn ok(self) -> bool {
        self.inflight <= MAX_INFLIGHT && self.next_off <= self.total
    }

    /// The report on how far the download has come.
    pub open spec fn report(self, total: u64, state: TransferState, msg: Seq<char>) -> EventView {
        events::transfer_view(self.id, self.name, false, self.done, total, state, msg)
    }

    /// Whether new chunks may be asked for.
    pub open spec fn open_for_more(self) -> bool {
        !self.cancelled && self.err is None
    }

    /// With a request to stop taken into account.
    pub open spec fn heard(self, cancelled: bool) -> DownloadView {
        DownloadView { cancelled: self.cancelled || cancelled, ..self }
    }

    /// The chunks to ask for next.
    pub open spec fn new_chunks(self, cancelled: bool) -> Seq<Chunk> {
        if self.heard(cancelled).open_for_more() {
            chunks_from(self.next_off, self.total, (MAX_INFLIGHT - self.inflight) as nat)
        } else {
            Seq::empty()
        }
    }

    /// After those chunks were asked for.
    pub open spec fn planned(self, cancelled: bool) -> DownloadView {
        let more = self.new_chunks(cancelled);
        DownloadView {
            next_off: if self.heard(cancelled).open_for_more() {
                chunks_end(self.next_off, self.total, (MAX_INFLIGHT - self.inflight) as nat)
            } else {
                self.next_off
            },
            inflight: self.inflight + more.len(),
            ..self.heard(cancelled)
        }
    }

    /// With so many more bytes.
    pub open spec fn grown(self, n: u64) -> DownloadView {
        DownloadView { done: (self.done + n) as u64, ..self }
    }

    /// With a failure.
    pub open spec fn failed(self, msg: Seq<char>) -> DownloadView {
        DownloadView { err: Some(msg), ..self }
    }

    /// With one request fewer under way.
    pub open spec fn one_back(self) -> DownloadView {
        DownloadView { inflight: (self.inflight - 1) as nat, ..self }
    }

    /// After a chunk came back, before any report.
    pub open spec fn took(self, outcome: ChunkOutcome) -> DownloadView {
        match outcome {
            ChunkOutcome::Written(n) => self.one_back().grown(n),
            ChunkOutcome::SeekFailed(m) => self.one_back().failed("seek local: "@ + m@),
            ChunkOutcome::WriteFailed(m) => self.one_back().failed("write local: "@ + m@),
            ChunkOutcome::ReadFailed(m) => self.one_back().failed(m@),
        }
    }

    /// Whether a report is made when a chunk came back.
    pub open spec fn reports(self, outcome: ChunkOutcome, now: u64) -> bool {
        !(outcome is ReadFailed) && report_due(now, self.last)
    }

    /// The bytes to ask for next where the size is not known.
    pub open spec fn drain_chunk(self) -> Chunk {
        Chunk { off: self.done, len: CHUNK }
    }

    /// After the answer to such a request.
    pub open spec fn answered(self, reply: ReadReply) -> DownloadView {
        match reply {
            ReadReply::Failed(m) => self.failed("read remote: "@ + m@),
            _ => self,
        }
    }

    /// The report that every byte has come.
    pub open spec fn done_report(self) -> EventView {
        self.report(larger(self.total, self.done), TransferState::Done, ""@)
    }

    /// How the download ends when no request is under way any more; whether the bytes were
    /// written out at the end, which only matters where all have come. A failure outweighs a
    /// request to stop. Unless the file came whole, the partial local file is removed.
    pub open spec fn ended(self, flushed: bool, local: Seq<char>, lang: Lang) -> EndView {
        match self.err {
            Some(m) => EndView::failed(m, local),
            None => if self.cancelled {
                EndView::stopped(
                    self.report(self.total, TransferState::Cancelled, cancelled_text(lang)),
                    local,
                )
            } else if !flushed {
                EndView::failed(FLUSH_FAILED@, local)
            } else {
                EndView::whole(self.done_report())
            },
        }
    }

    /// After a chunk came back.
    pub open spec fn after_chunk(self, outcome: ChunkOutcome, now: u64) -> DownloadView {
        let next = self.took(outcome);
        if self.reports(outcome, now) {
            DownloadView { last: now, ..next }
        } else {
            next
        }
    }
}

/// What a transfer ends with.
#[derive(Debug)]
pub struct TransferEnd {
    /// Whether the file moved whole rather than was cancelled, or why it failed.
    pub result: Result<bool, String>,
    /// The last report.
    pub report: Option<SessionEvent>,
    /// The partial file that is to be removed first.
    pub remove: Option<String>,
}

/// The contents of a [`TransferEnd`].
#[verifier::ext_equal]
pub struct EndView {
    pub result: Result<bool, Seq<char>>,
    pub report: Option<EventView>,
    pub remove: Option<Seq<char>>,
}

impl View for TransferEnd {
    type V = EndView;

    open spec fn view(&self) -> EndView {
        EndView {
            result: folder::moved_view(self.result),
            report: maybe_event(self.report),
            remove: maybe_text(self.remove),
        }
    }
}

impl TransferEnd {
    fn failed(msg: String, partial: &str) -> (out: TransferEnd)
        ensures
            out@ == EndView::failed(msg@, partial@),
    {
        TransferEnd { result: Err(msg), report: None, remove: Some(partial.to_string()) }
    }

    fn stopped(report: SessionEvent, partial: &str) -> (out: TransferEnd)
        ensures
            out@ == EndView::stopped(report@, partial@),
    {
        TransferEnd { result: Ok(false), report: Some(report), remove: Some(partial.to_string()) }
    }

    fn whole(report: SessionEvent) -> (out: TransferEnd)
        ensures
            out@ == EndView::whole(report@),
    {
        TransferEnd { result: Ok(true), report: Some(report), remove: None }
    }
}

impl EndView {
    /// The transfer failed: the partial file is removed, and nothing is reported.
    pub open spec fn failed(msg: Seq<char>, partial: Seq<char>) -> EndView {
        EndView { result: Err(msg), report: None, remove: Some(partial) }
    }

    /// The transfer was cancelled: the partial file is removed, and this is reported.
    pub open spec fn stopped(report: EventView, partial: Seq<char>) -> EndView {
        EndView { result: Ok(false), report: Some(report), remove: Some(partial) }
    }

    /// The file moved whole: it stays, and this is reported.
    pub open spec fn whole(report: EventView) -> EndView {
        EndView { result: Ok(true), report: Some(report), remove: None }
    }
}

impl Download {
    /// A download of which no byte has come, and the first report.
    pub fn new(id: &str, name: &str, total: u64) -> (out: (Download, SessionEvent))
        ensures
            out.0@ == DownloadView::fresh(id@, name@, total),
            out.0@.ok(),
            out.1@ == out.0@.report(total, TransferState::Running, ""@),
    {
        let d = Download {
            id: id.to_string(),
            name: name.to_string(),
            total,
            next_off: 0,
            inflight: 0,
            done: 0,
            last: 0,
            err: None,
            cancelled: false,
        };
        let e = events::emit_transfer(id, name, false, 0, total, TransferState::Running, "");
        (d, e)
    }

    /// Tops the requests up: the chunks to ask for now. None are asked for after a failure or a
    /// request to stop. The download is over when none is under way afterwards.
    pub fn plan(&mut self, cancelled: bool) -> (out: Vec<Chunk>)
        requires
            old(self)@.ok(),
        ensures
            final(self)@ == old(self)@.planned(cancelled),
            out@ == old(self)@.new_chunks(cancelled),
            final(self)@.ok(),
    {
        let ghost start = self@;
        let mut out: Vec<Chunk> = Vec::new();
        if cancelled {
            self.cancelled = true;
        }
        if self.cancelled || self.err.is_some() {
            assert(out@ =~= start.new_chunks(cancelled));
            return out;
        }
        let ghost room = (MAX_INFLIGHT - start.inflight) as nat;
        assert(out@ + chunks_from(start.next_off, start.total, room) =~= chunks_from(
            start.next_off,
            start.total,
            room,
        ));
        while self.next_off < self.total && self.inflight < MAX_INFLIGHT
            invariant
                self.next_off <= self.total,
                self.inflight <= MAX_INFLIGHT,
                self.inflight == start.inflight + out@.len(),
                self@ == (DownloadView {
                    next_off: self.next_off,
                    inflight: self.inflight as nat,
                    ..start.heard(cancelled)
                }),
                room == MAX_INFLIGHT - start.inflight,
                out@ + chunks_from(
                    self.next_off,
                    self.total,
                    (MAX_INFLIGHT - self.inflight) as nat,
                ) == chunks_from(start.next_off, start.total, room),
                chunks_end(self.next_off, self.total, (MAX_INFLIGHT - self.inflight) as nat)
                    == chunks_end(start.next_off, start.total, room),
            decreases self.total - self.next_off,
        {
            let left: u64 = self.total - self.next_off;
            let len: u64 = if left < CHUNK {
                left
            } else {
                CHUNK
            };
            let c = Chunk { off: self.next_off, len };
            let ghost before = out@;
            let ghost here = self.next_off;
            let ghost slots = (MAX_INFLIGHT - self.inflight) as nat;
            assert(c == chunk_at(here, self.total));
            self.next_off = self.next_off + len;
            self.inflight = self.inflight + 1;
            out.push(c);
            let ghost rest = chunks_from(self.next_off, self.total, (slots - 1) as nat);
            assert(chunks_from(here, self.total, slots) == seq![c] + rest);
            assert(before + (seq![c] + rest) =~= out@ + rest);
        }
        assert(out@ + Seq::<Chunk>::empty() =~= out@);
        out
    }

    /// Takes back one chunk, and reports when the last report is old enough.
    pub fn on_chunk(&mut self, outcome: ChunkOutcome, now: u64) -> (out: Option<SessionEvent>)
        requires
            old(self)@.ok(),
            old(self)@.inflight > 0,
            outcome matches ChunkOutcome::Written(n) ==> old(self)@.done + n <= u64::MAX,
        ensures
            final(self)@ == old(self)@.after_chunk(outcome, now),
            final(self)@.ok(),
            maybe_event(out) == (if old(self)@.reports(outcome, now) {
                Some(
                    old(self)@.took(outcome).report(
                        old(self)@.total,
                        TransferState::Running,
                        ""@,
                    ),
                )
            } else {
                None
            }),
    {
        let due = is_report_due(now, self.last);
        self.inflight = self.inflight - 1;
        match outcome {
            ChunkOutcome::Written(n) => {
                self.done = self.done + n;
            },
            ChunkOutcome::SeekFailed(m) => {
                self.err = Some(text::join2("seek local: ", m.as_str()));
            },
            ChunkOutcome::WriteFailed(m) => {
                self.err = Some(text::join2("write local: ", m.as_str()));
            },
            ChunkOutcome::ReadFailed(m) => {
                self.err = Some(m);
                return None;
            },
        }
        if due {
            self.last = now;
            Some(
                events::emit_transfer(
                    self.id.as_str(),
                    self.name.as_str(),
                    false,
                    self.done,
                    self.total,
                    TransferState::Running,
                    "",
                ),
            )
        } else {
            None
        }
    }

    /// Where the size is not known, bytes are asked for one chunk after another: the next chunk,
    /// or `None` after a request to stop.
    pub fn drain_next(&mut self, cancelled: bool) -> (out: Option<Chunk>)
        ensures
            final(self)@ == old(self)@.heard(cancelled),
            out == (if cancelled {
                None::<Chunk>
            } else {
                Some(old(self)@.drain_chunk())
            }),
    {
        if cancelled {
            self.cancelled = true;
            None
        } else {
            Some(Chunk { off: self.done, len: CHUNK })
        }
    }

    /// Takes the answer to such a request. It says whether there are bytes to write: after an
    /// empty answer, the end of the file and a failure there are none, and the download is over.
    pub fn drain_reply(&mut self, reply: &ReadReply) -> (go_on: bool)
        ensures
            go_on == brings_bytes(*reply),
            final(self)@ == old(self)@.answered(*reply),
    {
        match reply {
            ReadReply::Data(d) => d.len() > 0,
            ReadReply::Eof => false,
            ReadReply::Failed(m) => {
                self.err = Some(text::join2("read remote: ", m.as_str()));
                false
            },
        }
    }

    /// Counts bytes that were written while the size is not known.
    pub fn drain_written(&mut self, n: u64, now: u64) -> (out: Option<SessionEvent>)
        requires
            old(self)@.done + n <= u64::MAX,
        ensures
            final(self)@ == (DownloadView {
                last: if report_due(now, old(self)@.last) {
                    now
                } else {
                    old(self)@.last
                },
                ..old(self)@.grown(n)
            }),
            maybe_event(out) == (if report_due(now, old(self)@.last) {
                Some(
                    old(self)@.grown(n).report(
                        (old(self)@.done + n) as u64,
                        TransferState::Running,
                        ""@,
                    ),
                )
            } else {
                None
            }),
    {
        self.done = self.done + n;
        if is_report_due(now, self.last) {
            self.last = now;
            Some(
                events::emit_transfer(
                    self.id.as_str(),
                    self.name.as_str(),
                    false,
                    self.done,
                    self.done,
                    TransferState::Running,
                    "",
                ),
            )
        } else {
            None
        }
    }

    /// Notes that such bytes could not be written.
    pub fn drain_write_failed(&mut self)
        ensures
            final(self)@ == old(self)@.failed(DRAIN_WRITE_FAILED@),
    {
        self.err = Some(DRAIN_WRITE_FAILED.to_string());
    }

    /// Whether the local bytes are to be written out before the download ends: all have come.
    pub fn wants_flush(&self) -> (r: bool)
        ensures
            r == self@.open_for_more(),
    {
        !self.cancelled && self.err.is_none()
    }

    /// Ends the download when no request is under way any more.
    pub fn end(&self, flushed: bool, local: &str, lang: Lang) -> (out: TransferEnd)
        ensures
            out@ == self@.ended(flushed, local@, lang),
    {
        if let Some(m) = &self.err {
            return TransferEnd::failed(m.clone(), local);
        }
        if self.cancelled {
            let e = events::emit_transfer(
                self.id.as_str(),
                self.name.as_str(),
                false,
                self.done,
                self.total,
                TransferState::Cancelled,
                lang.t("已取消", "Cancelled"),
            );
            return TransferEnd::stopped(e, local);
        }
        if !flushed {
            return TransferEnd::failed(FLUSH_FAILED.to_string(), local);
        }
        let total: u64 = if self.total >= self.done {
            self.total
        } else {
            self.done
        };
        let e = events::emit_transfer(
            self.id.as_str(),
            self.name.as_str(),
            false,
            self.done,
            total,
            TransferState::Done,
            "",
        );
        TransferEnd::whole(e)
    }
}

/// A download is only complete when the whole file was asked for: if no request is under way
/// after the requests were topped up, and there was neither a failure nor a request to stop,
/// then no byte of the file is left to ask for.
pub proof fn law_download_complete(d: DownloadView, cancelled: bool)
    requires
        d.ok(),
    ensures
        ({
            let end = d.planned(cancelled);
            &&& end.ok()
            &&& end.inflight == 0 && end.open_for_more() ==> end.next_off == end.total
        }),
{
    law_chunks_tile(d.next_off, d.total, (MAX_INFLIGHT - d.inflight) as nat);
}

// ---------------------------------------------------------------------------
// Upload
// ---------------------------------------------------------------------------

/// An upload that is under way.
pub struct Upload {
    pub id: String,
    pub name: String,
    pub total: u64,
    pub offset: u64,
    pub inflight: usize,
    pub done: u64,
    /// When the last report was made, in milliseconds since the start.
    pub last: u64,
    /// Whether nothing more is read from the local file.
    pub eof: bool,
    pub err: Option<String>,
    pub cancelled: bool,
}

/// The contents of an [`Upload`].
#[verifier::ext_equal]
pub struct UploadView {
    pub id: Seq<char>,
    pub name: Seq<char>,
    pub total: u64,
    pub offset: u64,
    pub inflight: nat,
    pub done: u64,
    pub last: u64,
    pub eof: bool,
    pub err: Option<Seq<char>>,
    pub cancelled: bool,
}

impl View for Upload {
    type V = UploadView;

    open spec fn view(&self) -> UploadView {
        UploadView {
            id: self.id@,
            name: self.name@,
            total: self.total,
            offset: self.offset,
            inflight: self.inflight as nat,
            done: self.done,
            last: self.last,
            eof: self.eof,
            err: maybe_text(self.err),
            cancelled: self.cancelled,
        }
    }
}

impl UploadView {
    /// An upload of which no byte was sent.
    pub open spec fn fresh(id: Seq<char>, name: Seq<char>, total: u64) -> UploadView {
        UploadView {
            id,
            name,
            total,
            offset: 0,
            inflight: 0,
            done: 0,
            last: 0,
            eof: false,
            err: None,
            cancelled: false,
        }
    }

    /// The report on how far the upload has come.
    pub open spec fn report(self, total: u64, state: TransferState, msg: Seq<char>) -> EventView {
        events::transfer_view(self.id, self.name, true, self.done, total, state, msg)
    }

    /// Whether there is another round: bytes to read, or requests under way.
    pub open spec fn goes_on(self) -> bool {
        self.err is None && (!self.eof || self.inflight > 0)
    }

    /// At the start of a round.
    pub open spec fn round(self, cancelled: bool) -> UploadView {
        if self.goes_on() && cancelled {
            UploadView { cancelled: true, eof: true, ..self }
        } else {
            self
        }
    }

    /// Whether bytes are to be read from the local file.
    pub open spec fn reads(self) -> bool {
        !self.eof && self.inflight < MAX_INFLIGHT
    }

    /// After bytes were read from the local file.
    pub open spec fn after_read(self, r: Result<u64, String>) -> UploadView {
        match r {
            Ok(n) => if n == 0 {
                UploadView { eof: true, ..self }
            } else {
                UploadView { offset: (self.offset + n) as u64, inflight: self.inflight + 1, ..self }
            },
            Err(m) => UploadView { err: Some("read local file: "@ + m@), eof: true, ..self },
        }
    }

    /// The report that every byte was sent.
    pub open spec fn done_report(self) -> EventView {
        self.report(larger(self.total, self.done), TransferState::Done, ""@)
    }

    /// How the upload ends when there is no other round. A failure outweighs a request to stop.
    /// Unless the file went whole, the partial remote file is removed.
    pub open spec fn ended(self, remote: Seq<char>, lang: Lang) -> EndView {
        match self.err {
            Some(m) => EndView::failed(m, remote),
            None => if self.cancelled {
                EndView::stopped(
                    self.report(self.total, TransferState::Cancelled, cancelled_text(lang)),
                    remote,
                )
            } else {
                EndView::whole(self.done_report())
            },
        }
    }

    /// After the answer to one request, before any report.
    pub open spec fn took(self, r: Result<u64, String>) -> UploadView {
        match r {
            Ok(n) => UploadView {
                inflight: (self.inflight - 1) as nat,
                done: (self.done + n) as u64,
                ..self
            },
            Err(m) => UploadView {
                inflight: (self.inflight - 1) as nat,
                err: Some("write remote file: "@ + m@),
                eof: true,
                ..self
            },
        }
    }
}

impl Upload {
    /// An upload of which no byte was sent, and the first report.
    pub fn new(id: &str, name: &str, total: u64) -> (out: (Upload, SessionEvent))
        ensures
            out.0@ == UploadView::fresh(id@, name@, total),
            out.1@ == out.0@.report(total, TransferState::Running, ""@),
    {
        let u = Upload {
            id: id.to_string(),
            name: name.to_string(),
            total,
            offset: 0,
            inflight: 0,
            done: 0,
            last: 0,
            eof: false,
            err: None,
            cancelled: false,
        };
        let e = events::emit_transfer(id, name, true, 0, total, TransferState::Running, "");
        (u, e)
    }

    /// Begins a round, if there is another one. After a request to stop nothing more is read,
    /// and what is under way is waited for.
    pub fn begin_round(&mut self, cancelled: bool) -> (go_on: bool)
        ensures
            go_on == old(self)@.goes_on(),
            final(self)@ == old(self)@.round(cancelled),
    {
        let go_on = self.err.is_none() && (!self.eof || self.inflight > 0);
        if go_on && cancelled {
            self.cancelled = true;
            self.eof = true;
        }
        go_on
    }

    /// Whether bytes are to be read from the local file.
    pub fn wants_read(&self) -> (r: bool)
        ensures
            r == self@.reads(),
    {
        !self.eof && self.inflight < MAX_INFLIGHT
    }

    /// Takes the count of bytes that were read from the local file, none at its end, and gives
    /// the offset at which they are to be written. The next bytes follow directly behind.
    pub fn on_read(&mut self, r: Result<u64, String>) -> (out: Option<u64>)
        requires
            old(self)@.reads(),
            r matches Ok(n) ==> old(self)@.offset + n <= u64::MAX,
        ensures
            final(self)@ == old(self)@.after_read(r),
            out == (match r {
                Ok(n) => if n == 0 {
                    None
                } else {
                    Some(old(self)@.offset)
                },
                Err(_) => None::<u64>,
            }),
    {
        match r {
            Ok(n) => {
                if n == 0 {
                    self.eof = true;
                    None
                } else {
                    let at: u64 = self.offset;
                    self.offset = at + n;
                    self.inflight = self.inflight + 1;
                    Some(at)
                }
            },
            Err(m) => {
                self.err = Some(text::join2("read local file: ", m.as_str()));
                self.eof = true;
                None
            },
        }
    }

    /// Takes the answer to one request: how many bytes were written, or why they were not.
    pub fn on_written(&mut self, r: Result<u64, String>, now: u64) -> (out: Option<SessionEvent>)
        requires
            old(self)@.inflight > 0,
            r matches Ok(n) ==> old(self)@.done + n <= u64::MAX,
        ensures
            final(self)@ == (UploadView {
                last: if r is Ok && report_due(now, old(self)@.last) {
                    now
                } else {
                    old(self)@.last
                },
                ..old(self)@.took(r)
            }),
            maybe_event(out) == (if r is Ok && report_due(now, old(self)@.last) {
                Some(
                    old(self)@.took(r).report(old(self)@.total, TransferState::Running, ""@),
                )
            } else {
                None
            }),
    {
        self.inflight = self.inflight - 1;
        match r {
            Ok(n) => {
                self.done = self.done + n;
                if is_report_due(now, self.last) {
                    self.last = now;
                    Some(
                        events::emit_transfer(
                            self.id.as_str(),
                            self.name.as_str(),
                            true,
                            self.done,
                            self.total,
                            TransferState::Running,
                            "",
                        ),
                    )
                } else {
                    None
                }
            },
            Err(m) => {
                self.err = Some(text::join2("write remote file: ", m.as_str()));
                self.eof = true;
                None
            },
        }
    }

    /// Ends the upload when there is no other round.
    pub fn end(&self, remote: &str, lang: Lang) -> (out: TransferEnd)
        ensures
            out@ == self@.ended(remote@, lang),
    {
        if let Some(m) = &self.err {
            return TransferEnd::failed(m.clone(), remote);
        }
        if self.cancelled {
            let e = events::emit_transfer(
                self.id.as_str(),
                self.name.as_str(),
                true,
                self.done,
                self.total,
                TransferState::Cancelled,
                lang.t("已取消", "Cancelled"),
            );
            return TransferEnd::stopped(e, remote);
        }
        let total: u64 = if self.total >= self.done {
            self.total
        } else {
            self.done
        };
        let e = events::emit_transfer(
            self.id.as_str(),
            self.name.as_str(),
            true,
            self.done,
            total,
            TransferState::Done,
            "",
        );
        TransferEnd::whole(e)
    }
}

// ---------------------------------------------------------------------------
// Ends
// ---------------------------------------------------------------------------

/// Whether an end leaves no partial file behind: a file that did not move whole is to be removed,
/// and one that did stays.
pub open spec fn tidy(e: EndView, file: Seq<char>) -> bool {
    e.remove == if e.result == Ok::<bool, Seq<char>>(true) {
        None
    } else {
        Some(file)
    }
}

/// No download leaves a partial file behind. It is told as cancelled only where a stop was asked
/// for, and as whole only where nothing failed and no such request came.
pub proof fn law_download_end_is_tidy(
    d: DownloadView,
    flushed: bool,
    local: Seq<char>,
    lang: Lang,
)
    ensures
        tidy(d.ended(flushed, local, lang), local),
        d.ended(flushed, local, lang).result == Ok::<bool, Seq<char>>(false) <==> d.err is None
            && d.cancelled,
        d.ended(flushed, local, lang).result == Ok::<bool, Seq<char>>(true) <==> d.err is None
            && !d.cancelled && flushed,
{
}

/// No upload leaves a partial file behind. It is told as cancelled only where a stop was asked
/// for, and as whole only where nothing failed and no such request came.
pub proof fn law_upload_end_is_tidy(u: UploadView, remote: Seq<char>, lang: Lang)
    ensures
        tidy(u.ended(remote, lang), remote),
        u.ended(remote, lang).result == Ok::<bool, Seq<char>>(false) <==> u.err is None
            && u.cancelled,
        u.ended(remote, lang).result == Ok::<bool, Seq<char>>(true) <==> u.err is None
            && !u.cancelled,
{
}

} // verus!
