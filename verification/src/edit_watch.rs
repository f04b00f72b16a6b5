//! Watching a file that is edited outside: whenever it changes, it is uploaded again.
use crate::commands::{CommandView, SftpCommand};
use crate::events;
use crate::events::{EventView, SessionEvent};
use crate::lang::Lang;
use crate::path_laws;
use crate::remote_path;
use vstd::prelude::*;

verus! {

/// How many seconds lie between two looks at the file.
pub const POLL_SECS: u64 = 2;

/// How often the file is looked at without finding a change before the watch ends.
pub const MAX_POLLS: u32 = 1200;

/// The watch over a file.
pub struct EditWatch {
    pub local: String,
    pub remote_dir: String,
    pub name: String,
    /// When the file was last changed, as far as is known.
    pub last: Option<i128>,
    /// How many looks are left, unless one finds a change.
    pub left: u32,
}

/// The contents of an [`EditWatch`].
#[verifier::ext_equal]
pub struct WatchView {
    pub local: Seq<char>,
    pub remote_dir: Seq<char>,
    pub name: Seq<char>,
    pub last: Option<i128>,
    pub left: u32,
}

impl View for EditWatch {
    type V = WatchView;

    open spec fn view(&self) -> WatchView {
        WatchView {
            local: self.local@,
            remote_dir: self.remote_dir@,
            name: self.name@,
            last: self.last,
            left: self.left,
        }
    }
}

impl WatchView {
    /// The watch over a file that was downloaded.
    pub open spec fn begun(
        local: Seq<char>,
        remote: Seq<char>,
        name: Seq<char>,
        modified: Option<i128>,
    ) -> WatchView {
        WatchView {
            local,
            remote_dir: remote_path::parent_dir_of(remote),
            name,
            last: modified,
            left: MAX_POLLS,
        }
    }

    /// Whether a look finds a change.
    pub open spec fn changed(self, modified: Option<i128>) -> bool {
        modified is Some && modified != self.last
    }

    /// After a look.
    pub open spec fn looked(self, stopped: bool, modified: Option<i128>) -> WatchView {
        if stopped {
            WatchView { left: 0, ..self }
        } else if self.changed(modified) {
            WatchView { last: modified, left: MAX_POLLS, ..self }
        } else {
            WatchView { left: (self.left - 1) as u32, ..self }
        }
    }

    /// The command that a look hands over, where it finds a change.
    pub open spec fn upload(self, stopped: bool, modified: Option<i128>) -> Option<CommandView> {
        if !stopped && self.changed(modified) {
            Some(CommandView::Upload { local: self.local, remote_dir: self.remote_dir })
        } else {
            None
        }
    }
}

/// What a look at the file leads to.
pub enum WatchStep {
    /// Look again later.
    Wait,
    /// Hand this command to the file browser, make this report, and look again later.
    Upload(SftpCommand, SessionEvent),
    /// The watch has ended.
    Stop,
}

impl EditWatch {
    /// The watch over a file that was downloaded; `modified` says when it was last changed.
    pub fn new(local: String, remote: &str, name: String, modified: Option<i128>) -> (out: EditWatch)
        ensures
            out.local@ == local@,
            out.remote_dir@ == remote_path::parent_dir_of(remote@),
            out.name@ == name@,
            out.last == modified,
            out.left == MAX_POLLS,
            out@ == WatchView::begun(local@, remote@, name@, modified),
    {
        EditWatch {
            local,
            remote_dir: remote_path::parent_dir(remote),
            name,
            last: modified,
            left: MAX_POLLS,
        }
    }

    /// Whether there is another look.
    pub fn goes_on(&self) -> (r: bool)
        ensures
            r == (self.left > 0),
    {
        self.left > 0
    }

    /// Takes a look: the file is uploaded when it was changed since the last look, and the watch
    /// then has all its looks before it again. It ends when it has had them without a change, or
    /// when everything ends.
    pub fn look(&mut self, stopped: bool, modified: Option<i128>, lang: Lang) -> (out: WatchStep)
        requires
            old(self).left > 0,
        ensures
            final(self).local == old(self).local,
            final(self).remote_dir == old(self).remote_dir,
            final(self).name == old(self).name,
            final(self)@ == old(self)@.looked(stopped, modified),
            (match out {
                WatchStep::Upload(c, e) => Some(c@),
                _ => None,
            }) == old(self)@.upload(stopped, modified),
            stopped ==> out is Stop && final(self).left == 0,
            !stopped && modified is Some && modified != old(self).last ==> final(self).left
                == MAX_POLLS && final(self).last == modified && (out matches WatchStep::Upload(c, e) && c@ == (CommandView::Upload {
                local: old(self).local@,
                remote_dir: old(self).remote_dir@,
            }) && e@ == EventView::SftpStatus(
                events::titled(
                    lang.pick("已上传修改"@, "Re-uploaded changes"@),
                    old(self).name@,
                ),
            )),
            !stopped && !(modified is Some && modified != old(self).last) ==> out is Wait
                && final(self).left == old(self).left - 1 && final(self).last == old(self).last,
    {
        if stopped {
            self.left = 0;
            return WatchStep::Stop;
        }
        let changed = match (modified, self.last) {
            (Some(now), Some(before)) => now != before,
            (Some(_), None) => true,
            (None, _) => false,
        };
        if changed {
            self.last = modified;
            self.left = MAX_POLLS;
            WatchStep::Upload(
                SftpCommand::Upload {
                    local: self.local.clone(),
                    remote_dir: self.remote_dir.clone(),
                },
                events::titled_status(
                    lang.t("已上传修改", "Re-uploaded changes"),
                    self.name.as_str(),
                ),
            )
        } else {
            self.left = self.left - 1;
            WatchStep::Wait
        }
    }
}

/// The watch over a file after looks at it, each with when the file was last changed.
pub open spec fn watched(w: WatchView, looks: Seq<Option<i128>>) -> WatchView
    decreases looks.len(),
{
    if looks.len() == 0 {
        w
    } else {
        watched(w, looks.drop_last()).looked(false, looks.last())
    }
}

/// A change goes back to where the file came from: whenever a look finds the file changed since
/// the last one, the local file is uploaded into the directory of the remote file. A file that did
/// not change is not uploaded, and nothing is when everything ends.
pub proof fn law_changes_go_back(
    local: Seq<char>,
    dir: Seq<char>,
    base: Seq<char>,
    name: Seq<char>,
    modified: Option<i128>,
    looks: Seq<Option<i128>>,
    now: Option<i128>,
)
    requires
        base.len() > 0,
        !base.contains('/'),
        dir.len() > 0,
        dir.last() != '/',
    ensures
        ({
            let w = watched(WatchView::begun(local, dir + "/"@ + base, name, modified), looks);
            &&& now is Some && now != w.last ==> w.upload(false, now) == Some(
                CommandView::Upload { local, remote_dir: dir },
            )
            &&& now is None || now == w.last ==> w.upload(false, now) is None
            &&& w.upload(true, now) is None
            &&& now is Some ==> w.looked(false, now).last == now
        }),
{
    path_laws::law_parent_stands_before_the_slash(dir, base);
    lemma_place_is_kept(WatchView::begun(local, dir + "/"@ + base, name, modified), looks);
}

proof fn lemma_place_is_kept(w: WatchView, looks: Seq<Option<i128>>)
    ensures
        watched(w, looks).local == w.local,
        watched(w, looks).remote_dir == w.remote_dir,
        watched(w, looks).name == w.name,
    decreases looks.len(),
{
    if looks.len() > 0 {
        lemma_place_is_kept(w, looks.drop_last());
    }
}

/// A watch ends after twelve hundred looks without a change, and a change gives it as many again.
pub proof fn law_watch_ends(w: WatchView, looks: Seq<Option<i128>>, now: Option<i128>)
    requires
        w.left == 1200,
        looks.len() <= 1200,
        forall|i: int| 0 <= i < looks.len() ==> #[trigger] looks[i] == w.last || looks[i] is None,
    ensures
        watched(w, looks).left == 1200 - looks.len(),
        watched(w, looks).last == w.last,
        w.changed(now) ==> watched(w, looks).looked(false, now).left == 1200,
        watched(w, looks).looked(true, now).left == 0,
    decreases looks.len(),
{
    if looks.len() > 0 {
        let front = looks.drop_last();
        assert forall|i: int| 0 <= i < front.len() implies #[trigger] front[i] == w.last
            || front[i] is None by {
            assert(front[i] == looks[i]);
        }
        law_watch_ends(w, front, now);
        assert(looks[looks.len() - 1] == looks.last());
    }
}

} // verus!
