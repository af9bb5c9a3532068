use vstd::prelude::*;
use vstd::string::*;

use crate::conn::texts;

verus! {

/// How long progress lines are held back, in milliseconds, so that a slow
/// consumer gets them in batches.
pub const BATCH_WINDOW_MS: u64 = 100;

/// The shortest time, in milliseconds, between the start of a job and the
/// report of its outcome.
pub const MIN_JOB_MS: u64 = 1000;

/// The lines joined into one text, each pair separated by `\r\n`.
pub open spec fn joined_lines(lines: Seq<Seq<char>>) -> Seq<char>
    decreases lines.len(),
{
    if lines.len() == 0 {
        Seq::empty()
    } else if lines.len() == 1 {
        lines[0]
    } else {
        joined_lines(lines.drop_last()) + "\r\n"@ + lines.last()
    }
}

/// Joins lines into one text, each pair separated by `\r\n`.
pub fn join_lines(lines: &Vec<String>) -> (r: String)
    ensures
        r@ == joined_lines(texts(lines@)),
{
    let mut out = String::new();
    let mut i: usize = 0;
    while i < lines.len()
        invariant
            i <= lines@.len(),
            out@ == joined_lines(texts(lines@).take(i as int)),
        decreases lines@.len() - i,
    {
        proof {
            assert(texts(lines@).take(i + 1).drop_last() =~= texts(lines@).take(i as int));
        }
        if i > 0 {
            out.append("\r\n");
        } else {
            proof {
                assert(out@ =~= Seq::<char>::empty());
            }
        }
        out.append(lines[i].as_str());
        i = i + 1;
    }
    proof {
        assert(texts(lines@).take(i as int) =~= texts(lines@));
    }
    out
}

/// Progress lines of a running job held back for a consumer: lines that
/// arrive within the batch window of the last delivery are delivered
/// together.
pub struct ProgressBuffer {
    pub pending: Vec<String>,
    /// When the last batch was delivered, in milliseconds.
    pub last_delivered_ms: u64,
}

impl ProgressBuffer {
    pub fn new() -> (r: Self)
        ensures
            r.pending@.len() == 0,
            r.last_delivered_ms == 0,
    {
        ProgressBuffer { pending: Vec::new(), last_delivered_ms: 0 }
    }

    /// Takes a progress line at time `now_ms`; an empty line asks for the
    /// held lines at once. Returns the batch to deliver, if it is time.
    pub fn on_progress(&mut self, line: String, now_ms: u64) -> (r: Option<String>)
        ensures
            ({
                let held = if line@.len() == 0 {
                    texts(old(self).pending@)
                } else {
                    texts(old(self).pending@).push(line@)
                };
                let due = line@.len() == 0 || now_ms > old(self).last_delivered_ms
                    + BATCH_WINDOW_MS;
                &&& due ==> r is Some
                    && r->0@ == joined_lines(held) && final(self).pending@.len() == 0
                    && final(self).last_delivered_ms == now_ms
                &&& !due ==> r is None && texts(final(self).pending@) == held
                    && final(self).last_delivered_ms == old(self).last_delivered_ms
            }),
    {
        let flush = line.as_str().unicode_len() == 0;
        let ghost line_view = line@;
        if !flush {
            self.pending.push(line);
            proof {
                assert(texts(self.pending@) =~= texts(old(self).pending@).push(line_view));
            }
        }
        let due = flush || (now_ms > self.last_delivered_ms && now_ms - self.last_delivered_ms
            > BATCH_WINDOW_MS);
        if due {
            let joined = join_lines(&self.pending);
            self.pending = Vec::new();
            self.last_delivered_ms = now_ms;
            Some(joined)
        } else {
            None
        }
    }

    /// Takes the outcome of the job: a failure's message joins the held
    /// lines, and everything held is delivered before the outcome.
    pub fn on_complete(&mut self, error: String) -> (r: Option<String>)
        ensures
            ({
                let held = if error@.len() == 0 {
                    texts(old(self).pending@)
                } else {
                    texts(old(self).pending@).push(error@)
                };
                &&& held.len() > 0 ==> r is Some && r->0@ == joined_lines(held)
                &&& held.len() == 0 ==> r is None
                &&& final(self).pending@.len() == 0
            }),
    {
        let ghost error_view = error@;
        if error.as_str().unicode_len() > 0 {
            self.pending.push(error);
            proof {
                assert(texts(self.pending@) =~= texts(old(self).pending@).push(error_view));
            }
        }
        if self.pending.len() > 0 {
            let joined = join_lines(&self.pending);
            self.pending = Vec::new();
            Some(joined)
        } else {
            None
        }
    }
}

/// How long to hold back the outcome of a job that ran `elapsed_ms`, so
/// that no job appears to end in under a second.
pub fn completion_delay_ms(elapsed_ms: u64) -> (r: u64)
    ensures
        elapsed_ms < MIN_JOB_MS ==> r == MIN_JOB_MS - elapsed_ms,
        elapsed_ms >= MIN_JOB_MS ==> r == 0,
{
    if elapsed_ms < MIN_JOB_MS {
        MIN_JOB_MS - elapsed_ms
    } else {
        0
    }
}

} // verus!
