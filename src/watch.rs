//! The watcher's own state and decisions: which file is followed and from
//! which byte, the session it last resolved, and what to do with each input.
//! The caller owns the notification source, the timer and the file reads; it
//! hands each outcome here and performs the action that comes back.

use vstd::prelude::*;
use crate::events::{
    default_job_id, default_job_id_string, fold_lines, opt_view, string_views, EventPatterns,
};
use crate::text::{contains, contains_seq};

verus! {

/// Marker in the names of the player-process log files.
pub open spec fn player_marker() -> Seq<char> {
    "_Player"@
}

/// Whether `path` names a player-process log file.
pub fn is_player_log(path: &str) -> (r: bool)
    ensures
        r == contains_seq(path@, player_marker()),
{
    contains(path, "_Player")
}

/// The file being followed and the byte up to which it has been read.
pub struct TailCursor {
    followed: Option<String>,
    offset: u64,
}

impl TailCursor {
    pub closed spec fn followed_view(&self) -> Option<Seq<char>> {
        opt_view(self.followed)
    }

    pub closed spec fn offset_view(&self) -> u64 {
        self.offset
    }

    /// No file followed yet.
    pub fn new() -> (r: TailCursor)
        ensures
            r.followed_view() is None,
            r.offset_view() == 0,
    {
        TailCursor { followed: None, offset: 0 }
    }

    /// Follows `path` from byte `offset` on.
    pub fn establish(&mut self, path: String, offset: u64)
        ensures
            final(self).followed_view() == Some(path@),
            final(self).offset_view() == offset,
    {
        self.followed = Some(path);
        self.offset = offset;
    }

    /// Notes that `path` changed. A file other than the one followed is a
    /// rotation: it is followed from its start. Returns whether it was one.
    pub fn observe(&mut self, path: &str) -> (rotated: bool)
        ensures
            rotated == (old(self).followed_view() != Some(path@)),
            final(self).followed_view() == Some(path@),
            rotated ==> final(self).offset_view() == 0,
            !rotated ==> final(self).offset_view() == old(self).offset_view(),
    {
        let p = String::from_str(path);
        let same = match &self.followed {
            Some(t) => *t == p,
            None => false,
        };
        if !same {
            self.followed = Some(p);
            self.offset = 0;
        }
        !same
    }

    /// Records that the followed file was read up to byte `end`.
    pub fn advance(&mut self, end: u64)
        ensures
            final(self).followed_view() == old(self).followed_view(),
            final(self).offset_view() == end,
    {
        self.offset = end;
    }

    /// The byte from which the next read of the followed file starts.
    pub fn read_start(&self) -> (r: u64)
        ensures
            r == self.offset_view(),
    {
        self.offset
    }

    /// The file followed, if any.
    pub fn followed_file(&self) -> (r: Option<String>)
        ensures
            opt_view(r) == self.followed_view(),
    {
        match &self.followed {
            Some(t) => Some(t.clone()),
            None => None,
        }
    }
}

/// Kind of a filesystem change notification.
#[derive(Debug, Clone, Copy, PartialEq, Eq, Structural)]
pub enum FsChange {
    Create,
    Modify,
    Other,
}

/// A filesystem change: its kind and the first path it names.
pub struct FsEvent {
    pub kind: FsChange,
    pub path: String,
}

/// What the wait for a notification produced.
pub enum WatchInput {
    Event(FsEvent),
    /// The notification source reported an error.
    WatchError,
    /// No notification came in time.
    Timeout,
    /// The notification source is gone.
    Disconnected,
}

/// What the caller does next.
#[derive(Debug, PartialEq, Eq)]
pub enum WatchAction {
    /// Drop the subscription and cursor and set up again on `directory()`.
    Rebuild,
    /// Nothing to do: wait again.
    Idle,
    /// Read `path` from byte `from` to its end, split it into lines and hand
    /// them and the end offset to `on_tail`.
    Tail { path: String, from: u64 },
    /// Stop watching.
    Stop,
}

/// The watcher: the directory in use, the cursor of this watch cycle and the
/// session it last resolved.
pub struct WatchLoop {
    dir: String,
    cursor: TailCursor,
    job_id: String,
}

pub open spec fn is_change(k: FsChange) -> bool {
    k == FsChange::Create || k == FsChange::Modify
}

impl WatchLoop {
    pub closed spec fn dir_view(&self) -> Seq<char> {
        self.dir@
    }

    pub closed spec fn job_view(&self) -> Seq<char> {
        self.job_id@
    }

    pub closed spec fn cursor_view(&self) -> TailCursor {
        self.cursor
    }

    /// Watches `dir`, with no session and no file followed.
    pub fn new(dir: String) -> (r: WatchLoop)
        ensures
            r.dir_view() == dir@,
            r.job_view() == default_job_id(),
            r.cursor_view().followed_view() is None,
    {
        WatchLoop { dir, cursor: TailCursor::new(), job_id: default_job_id_string() }
    }

    /// The directory to set up on.
    pub fn directory(&self) -> (r: String)
        ensures
            r@ == self.dir_view(),
    {
        self.dir.clone()
    }

    /// The session last resolved; the default token when no game is active.
    pub fn job_id(&self) -> (r: String)
        ensures
            r@ == self.job_view(),
    {
        self.job_id.clone()
    }

    /// The cursor of this watch cycle.
    pub fn cursor(&self) -> (r: &TailCursor)
        ensures
            *r == self.cursor_view(),
    {
        &self.cursor
    }

    /// Setting up failed; the caller waits, then retries on `directory()`,
    /// which a redirect that came meanwhile replaces.
    pub fn on_setup_failed(&mut self, redirect: Option<String>)
        ensures
            final(self).dir_view() == match redirect {
                Some(d) => d@,
                None => old(self).dir_view(),
            },
            final(self).job_view() == old(self).job_view(),
    {
        if let Some(d) = redirect {
            self.dir = d;
        }
    }

    /// Takes the bootstrap scan's outcome for a new watch cycle: the newest
    /// player log (if any), its length at scan time and the session it
    /// resolved. The file is followed from that length on. Returns the
    /// session to announce: the resolved one, unless it is the default.
    pub fn finish_bootstrap(&mut self, file: Option<String>, len: u64, resolved: String) -> (r:
        Option<String>)
        ensures
            final(self).dir_view() == old(self).dir_view(),
            final(self).job_view() == resolved@,
            final(self).cursor_view().followed_view() == opt_view(file),
            final(self).cursor_view().offset_view() == (if file is Some {
                len
            } else {
                0
            }),
            r is Some <==> resolved@ != default_job_id(),
            r is Some ==> r->Some_0@ == resolved@,
    {
        match file {
            Some(p) => {
                self.cursor.establish(p, len);
            },
            None => {
                self.cursor = TailCursor::new();
            },
        }
        let announce = !(resolved == default_job_id_string());
        self.job_id = resolved;
        if announce {
            Some(self.job_id.clone())
        } else {
            None
        }
    }

    /// One turn of the loop. A redirect, when there is one, is taken first:
    /// the input that came with it is dropped and the watch is rebuilt on the
    /// new directory. Otherwise a change to a player log is followed (a new
    /// file from its start) and read; a timeout re-reads the file followed;
    /// the end of the notification source stops the loop.
    pub fn step(&mut self, redirect: Option<String>, input: Option<WatchInput>) -> (r: WatchAction)
        ensures
            final(self).job_view() == old(self).job_view(),
            redirect is Some ==> r == WatchAction::Rebuild && final(self).dir_view()
                == redirect->Some_0@ && final(self).cursor_view() == old(self).cursor_view(),
            redirect is None ==> final(self).dir_view() == old(self).dir_view() && match input {
                Some(WatchInput::Event(e)) => if is_change(e.kind) && contains_seq(
                    e.path@,
                    player_marker(),
                ) {
                    &&& final(self).cursor_view().followed_view() == Some(e.path@)
                    &&& final(self).cursor_view().offset_view() == (if old(
                        self,
                    ).cursor_view().followed_view() == Some(e.path@) {
                        old(self).cursor_view().offset_view()
                    } else {
                        0
                    })
                    &&& r matches WatchAction::Tail { path, from } && path@ == e.path@ && from
                        == final(self).cursor_view().offset_view()
                } else {
                    r == WatchAction::Idle && final(self).cursor_view() == old(self).cursor_view()
                },
                Some(WatchInput::Timeout) => final(self).cursor_view() == old(self).cursor_view()
                    && match old(self).cursor_view().followed_view() {
                    Some(p) => r matches WatchAction::Tail { path, from } && path@ == p && from
                        == old(self).cursor_view().offset_view(),
                    None => r == WatchAction::Idle,
                },
                Some(WatchInput::Disconnected) => r == WatchAction::Stop && final(self).cursor_view()
                    == old(self).cursor_view(),
                _ => r == WatchAction::Idle && final(self).cursor_view() == old(self).cursor_view(),
            },
    {
        if let Some(d) = redirect {
            self.dir = d;
            return WatchAction::Rebuild;
        }
        match input {
            Some(WatchInput::Event(e)) => {
                if (e.kind == FsChange::Create || e.kind == FsChange::Modify) && is_player_log(
                    e.path.as_str(),
                ) {
                    self.cursor.observe(e.path.as_str());
                    WatchAction::Tail { path: e.path, from: self.cursor.read_start() }
                } else {
                    WatchAction::Idle
                }
            },
            Some(WatchInput::Timeout) => match self.cursor.followed_file() {
                Some(p) => WatchAction::Tail { path: p, from: self.cursor.read_start() },
                None => WatchAction::Idle,
            },
            Some(WatchInput::Disconnected) => WatchAction::Stop,
            _ => WatchAction::Idle,
        }
    }

    /// Takes the lines read from the followed file after a `Tail` action and
    /// the offset where the read ended. The lines are folded in file order
    /// into the session, and the cursor moves to `end`. Returns the session
    /// to announce when it changed.
    pub fn on_tail(&mut self, patterns: &EventPatterns, lines: &Vec<String>, end: u64) -> (r:
        Option<String>)
        ensures
            final(self).dir_view() == old(self).dir_view(),
            final(self).job_view() == fold_lines(string_views(lines@), old(self).job_view()),
            final(self).cursor_view().followed_view() == old(self).cursor_view().followed_view(),
            final(self).cursor_view().offset_view() == end,
            r is Some <==> final(self).job_view() != old(self).job_view(),
            r is Some ==> r->Some_0@ == final(self).job_view(),
    {
        let next = patterns.fold_job_id(self.job_id.clone(), lines);
        self.cursor.advance(end);
        if next == self.job_id {
            None
        } else {
            self.job_id = next;
            Some(self.job_id.clone())
        }
    }
}

} // verus!
