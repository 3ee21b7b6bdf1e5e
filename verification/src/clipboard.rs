//! The clipboard capture protocol: its errors and the polling state machine
//! that decides, after each clipboard read, whether the selection has been
//! captured, the text is unusable, the attempt has timed out, or the next
//! read should wait a little longer. The actual clipboard reads, the
//! simulated copy keystroke and the sleeps happen outside the library; they
//! feed every outcome through `SelectionPoll::step`.

use vstd::prelude::*;

use crate::chars::spec_trim;
use crate::chars::str_to_chars;
use crate::chars::trim_bounds;

verus! {

/// Low-level clipboard failures.
#[derive(Debug, Clone)]
pub enum ClipboardError {
    AccessError(String),
    Timeout,
    SimulationError,
}

/// Why capturing the selection failed.
#[derive(Debug, Clone)]
pub enum SelectionError {
    NoSelection,
    EmptySelection,
    OnlyWhitespace,
    ClipboardTimeout(u64),
    ClipboardError(String),
    SimulationError,
}

/// What one poll of the clipboard decides.
pub enum PollStep {
    /// The selection arrived: the captured text, untrimmed.
    Done(String),
    /// Give up with this error.
    Fail(SelectionError),
    /// Nothing yet: sleep this many milliseconds and poll again.
    Sleep(u64),
}

/// The capture loop's state: the deadline, the current poll interval, and
/// the configured timeout (for the error it reports).
pub struct SelectionPoll {
    deadline_ms: u64,
    check_interval_ms: u64,
    timeout_ms: u64,
}

impl SelectionPoll {
    pub closed spec fn spec_deadline(&self) -> u64 {
        self.deadline_ms
    }

    pub closed spec fn spec_interval(&self) -> u64 {
        self.check_interval_ms
    }

    pub closed spec fn spec_timeout(&self) -> u64 {
        self.timeout_ms
    }

    /// A capture attempt started at `now_ms` with the configured timeout:
    /// the deadline is that much later, and polling starts at 10ms.
    pub fn new(now_ms: u64, timeout_ms: u64) -> (r: SelectionPoll)
        ensures
            r.spec_deadline() == if now_ms + timeout_ms <= u64::MAX {
                now_ms + timeout_ms
            } else {
                u64::MAX as int
            },
            r.spec_interval() == 10,
            r.spec_timeout() == timeout_ms,
    {
        let deadline: u64 = if timeout_ms <= u64::MAX - now_ms {
            now_ms + timeout_ms
        } else {
            u64::MAX
        };
        SelectionPoll { deadline_ms: deadline, check_interval_ms: 10, timeout_ms }
    }

    /// One poll: non-empty clipboard text is the captured selection —
    /// unless it is all whitespace, which fails the capture; with nothing
    /// captured, the attempt fails once `now_ms` has passed the deadline,
    /// and otherwise waits the current interval, which doubles up to 100ms.
    pub fn step(&mut self, now_ms: u64, read: Option<String>) -> (r: PollStep)
        ensures
            final(self).spec_deadline() == old(self).spec_deadline(),
            final(self).spec_timeout() == old(self).spec_timeout(),
            match read {
                Some(text) => if text@.len() > 0 {
                    &&& final(self).spec_interval() == old(self).spec_interval()
                    &&& if spec_trim(text@).len() == 0 {
                        r matches PollStep::Fail(SelectionError::OnlyWhitespace)
                    } else {
                        r matches PollStep::Done(t) && t == text
                    }
                } else {
                    final(self).spec_step_empty(old(self), now_ms, r)
                },
                None => final(self).spec_step_empty(old(self), now_ms, r),
            },
    {
        match read {
            Some(text) => {
                if text.unicode_len() > 0 {
                    let chars: Vec<char> = str_to_chars(text.as_str());
                    let (lo, hi): (usize, usize) = trim_bounds(&chars);
                    if hi - lo == 0 {
                        PollStep::Fail(SelectionError::OnlyWhitespace)
                    } else {
                        PollStep::Done(text)
                    }
                } else {
                    self.step_empty(now_ms)
                }
            },
            None => self.step_empty(now_ms),
        }
    }

    /// What `step` does when no text has arrived yet.
    pub open spec fn spec_step_empty(&self, pre: &SelectionPoll, now_ms: u64, r: PollStep) -> bool {
        if now_ms > pre.spec_deadline() {
            &&& r matches PollStep::Fail(SelectionError::ClipboardTimeout(t)) && t
                == pre.spec_timeout()
            &&& self.spec_interval() == pre.spec_interval()
        } else {
            &&& r matches PollStep::Sleep(w) && w == pre.spec_interval()
            &&& self.spec_interval() == if pre.spec_interval() <= 50 {
                2 * pre.spec_interval()
            } else {
                100int
            }
        }
    }

    fn step_empty(&mut self, now_ms: u64) -> (r: PollStep)
        ensures
            final(self).spec_deadline() == old(self).spec_deadline(),
            final(self).spec_timeout() == old(self).spec_timeout(),
            final(self).spec_step_empty(old(self), now_ms, r),
    {
        if now_ms > self.deadline_ms {
            PollStep::Fail(SelectionError::ClipboardTimeout(self.timeout_ms))
        } else {
            let wait: u64 = self.check_interval_ms;
            self.check_interval_ms = if self.check_interval_ms <= 50 {
                2 * self.check_interval_ms
            } else {
                100
            };
            PollStep::Sleep(wait)
        }
    }
}

} // verus!
