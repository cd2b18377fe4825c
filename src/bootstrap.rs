//! Resolving the session from an existing log file without reading all of it:
//! trailing windows that double in size, then a full read as a last resort.
//! The caller does the reading; this module decides what to read next.

use vstd::prelude::*;
use crate::events::{default_job_id, default_job_id_string};

verus! {

/// Size of the first trailing window, in bytes.
pub const INITIAL_WINDOW: u64 = 256 * 1024;

/// Largest trailing window, in bytes.
pub const MAX_WINDOW: u64 = 8 * 1024 * 1024;

/// What the caller does next for a scan.
#[derive(Debug, PartialEq, Eq)]
pub enum ScanStep {
    /// Read the file from byte `start` to its end, and hand what the slice
    /// resolves to (`job_id_from_text_slice`) to `TailScan::on_window`.
    ReadTail { start: u64 },
    /// Read the whole file line by line from the start and fold it
    /// (`EventPatterns::fold_job_id` from the default token): that is the result.
    ReadAllLines,
    /// The scan is over: this is the session id.
    Done(String),
}

/// A windowed scan of a file of `len` bytes.
pub struct TailScan {
    len: u64,
    window: u64,
}

pub open spec fn min(a: int, b: int) -> int {
    if a <= b {
        a
    } else {
        b
    }
}

/// The window after `window` on a file of `len` bytes, or nothing when the
/// last one already covered the file or reached the largest size.
pub open spec fn next_window(window: int, len: int) -> Option<int> {
    if window >= len || window >= MAX_WINDOW {
        None
    } else {
        Some(min(min(window * 2, MAX_WINDOW as int), len))
    }
}

impl TailScan {
    pub closed spec fn len_view(&self) -> int {
        self.len as int
    }

    pub closed spec fn window_view(&self) -> int {
        self.window as int
    }

    /// The window in use lies within the file and the largest size.
    pub open spec fn wf(&self) -> bool {
        0 < self.window_view() <= self.len_view() && self.window_view() <= MAX_WINDOW
    }

    /// Starts a scan of a file of `len` bytes. An empty file resolves to the
    /// default token at once; otherwise the first window is the smaller of
    /// the initial size and the file.
    pub fn start(len: u64) -> (r: (TailScan, ScanStep))
        ensures
            r.0.len_view() == len,
            len == 0 ==> (r.1 matches ScanStep::Done(id) && id@ == default_job_id()),
            len > 0 ==> r.0.wf() && r.0.window_view() == min(INITIAL_WINDOW as int, len as int)
                && r.1 == (ScanStep::ReadTail { start: (len - r.0.window_view()) as u64 }),
    {
        if len == 0 {
            return (TailScan { len, window: 0 }, ScanStep::Done(default_job_id_string()));
        }
        let window = if INITIAL_WINDOW <= len { INITIAL_WINDOW } else { len };
        (TailScan { len, window }, ScanStep::ReadTail { start: len - window })
    }

    /// Takes what the last window resolved to. An event found ends the scan;
    /// otherwise the next, strictly larger window is read, or the whole file
    /// when no larger window is left.
    pub fn on_window(&mut self, found: Option<String>) -> (r: ScanStep)
        requires
            old(self).wf(),
        ensures
            final(self).wf(),
            final(self).len_view() == old(self).len_view(),
            match found {
                Some(id) => r == ScanStep::Done(id) && final(self).window_view() == old(
                    self,
                ).window_view(),
                None => match next_window(old(self).window_view(), old(self).len_view()) {
                    None => r == ScanStep::ReadAllLines && final(self).window_view() == old(
                        self,
                    ).window_view(),
                    Some(w) => final(self).window_view() == w && old(self).window_view() < w && r
                        == (ScanStep::ReadTail { start: (old(self).len_view() - w) as u64 }),
                },
            },
    {
        match found {
            Some(id) => ScanStep::Done(id),
            None => {
                if self.window >= self.len || self.window >= MAX_WINDOW {
                    return ScanStep::ReadAllLines;
                }
                let doubled = if self.window <= MAX_WINDOW / 2 {
                    self.window * 2
                } else {
                    MAX_WINDOW
                };
                let capped = if doubled <= MAX_WINDOW { doubled } else { MAX_WINDOW };
                let w = if capped <= self.len { capped } else { self.len };
                self.window = w;
                ScanStep::ReadTail { start: self.len - w }
            },
        }
    }
}

} // verus!
