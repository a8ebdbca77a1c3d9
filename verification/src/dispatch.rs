//! The dispatch engine: encoded command streams, immediate and deferred
//! submission, and cooperative completion callbacks.
//!
//! Commands are either submitted at once, each as its own submission, or
//! appended to a shared pending stream that a flush submits as one batch.
//! A submission may carry callback tokens; the device's completion report
//! is handed in by the caller (there is no background thread), and the
//! tokens of newly completed submissions are drained in submission order.

use vstd::prelude::*;
use crate::handles::{BufferHandle, PipelineHandle};

verus! {

/// How many workgroups a compute dispatch runs, along each axis.
#[derive(Clone, Copy, PartialEq, Eq, Structural, Debug)]
pub struct Workgroups {
    pub x: u32,
    pub y: u32,
    pub z: u32,
}

/// One encoded operation, recorded in submission order.
#[derive(Clone, Copy, PartialEq, Eq, Structural, Debug)]
pub enum Command {
    /// Run a compute pipeline on the given workgroup counts.
    Dispatch { pipeline: PipelineHandle, workgroups: Workgroups },
    /// Map a buffer for reading back its contents.
    Readback { buffer: BufferHandle },
}

/// One batch of commands handed to the device queue, with the callback
/// tokens to fire once the device reports the batch complete.
pub struct Submission {
    pub commands: Vec<Command>,
    pub callbacks: Vec<u64>,
}

/// The callback tokens of submissions `a..b`, concatenated in submission
/// order.
pub open spec fn tokens_between(subs: Seq<Submission>, a: int, b: int) -> Seq<u64>
    decreases b - a,
{
    if b <= a {
        Seq::empty()
    } else {
        tokens_between(subs, a, b - 1) + subs[b - 1].callbacks@
    }
}

/// Callbacks fire in submission order, however completion reports are
/// split: polling up to `b` and later up to `c` drains the same tokens,
/// in the same order, as one poll up to `c`.
pub proof fn lemma_completion_order(subs: Seq<Submission>, a: int, b: int, c: int)
    requires
        a <= b <= c,
    ensures
        tokens_between(subs, a, c) == tokens_between(subs, a, b) + tokens_between(subs, b, c),
    decreases c - b,
{
    if c == b {
        assert(tokens_between(subs, b, c) =~= Seq::<u64>::empty());
        assert(tokens_between(subs, a, b) + Seq::<u64>::empty() =~= tokens_between(subs, a, b));
    } else {
        lemma_completion_order(subs, a, b, c - 1);
        assert(tokens_between(subs, a, c) == tokens_between(subs, a, c - 1) + subs[c
            - 1].callbacks@);
        assert((tokens_between(subs, a, b) + tokens_between(subs, b, c - 1)) + subs[c
            - 1].callbacks@ =~= tokens_between(subs, a, b) + (tokens_between(subs, b, c - 1)
            + subs[c - 1].callbacks@));
    }
}

/// Encodes and submits command streams: immediate submission, a deferred
/// queue flushed on demand, and a pending-callback queue drained inside
/// the completion report.
pub struct DispatchEngine {
    pub pending: Vec<Command>,
    pub pending_callbacks: Vec<u64>,
    pub submissions: Vec<Submission>,
    pub completed: usize,
}

impl DispatchEngine {
    /// The device's completion report never runs ahead of what was
    /// submitted.
    pub open spec fn wf(self) -> bool {
        self.completed <= self.submissions@.len()
    }

    pub fn new() -> (r: Self)
        ensures
            r.wf(),
            r.pending@.len() == 0,
            r.pending_callbacks@.len() == 0,
            r.submissions@.len() == 0,
            r.completed == 0,
    {
        DispatchEngine {
            pending: Vec::new(),
            pending_callbacks: Vec::new(),
            submissions: Vec::new(),
            completed: 0,
        }
    }

    /// Encodes one command alone and submits it to the queue at once.
    /// The deferred queue is untouched.
    pub fn submit_now(&mut self, cmd: Command, callback: Option<u64>)
        requires
            old(self).wf(),
        ensures
            final(self).wf(),
            final(self).pending == old(self).pending,
            final(self).pending_callbacks == old(self).pending_callbacks,
            final(self).completed == old(self).completed,
            final(self).submissions@.len() == old(self).submissions@.len() + 1,
            forall|i: int|
                0 <= i < old(self).submissions@.len() ==> #[trigger] final(self).submissions@[i]
                    == old(self).submissions@[i],
            final(self).submissions@.last().commands@ == seq![cmd],
            final(self).submissions@.last().callbacks@ == (match callback {
                Option::Some(t) => seq![t],
                Option::None => Seq::<u64>::empty(),
            }),
    {
        let mut commands: Vec<Command> = Vec::new();
        commands.push(cmd);
        let mut callbacks: Vec<u64> = Vec::new();
        if let Some(t) = callback {
            callbacks.push(t);
        }
        proof {
            assert(commands@ =~= seq![cmd]);
            match callback {
                Option::Some(t) => {
                    assert(callbacks@ =~= seq![t]);
                },
                Option::None => {
                    assert(callbacks@ =~= Seq::<u64>::empty());
                },
            }
        }
        self.submissions.push(Submission { commands, callbacks });
    }

    /// Appends one command to the shared pending stream without
    /// submitting it; a later flush submits the whole batch.
    pub fn enqueue(&mut self, cmd: Command, callback: Option<u64>)
        requires
            old(self).wf(),
        ensures
            final(self).wf(),
            final(self).submissions == old(self).submissions,
            final(self).completed == old(self).completed,
            final(self).pending@ == old(self).pending@.push(cmd),
            final(self).pending_callbacks@ == (match callback {
                Option::Some(t) => old(self).pending_callbacks@.push(t),
                Option::None => old(self).pending_callbacks@,
            }),
    {
        self.pending.push(cmd);
        if let Some(t) = callback {
            self.pending_callbacks.push(t);
        }
    }

    /// Submits all pending encoded commands as one batch, in the order
    /// they were queued.  With nothing pending, nothing is submitted.
    pub fn flush(&mut self)
        requires
            old(self).wf(),
        ensures
            final(self).wf(),
            final(self).completed == old(self).completed,
            final(self).pending@.len() == 0,
            final(self).pending_callbacks@.len() == 0,
            (old(self).pending@.len() == 0 && old(self).pending_callbacks@.len() == 0)
                ==> final(self).submissions == old(self).submissions,
            (old(self).pending@.len() > 0 || old(self).pending_callbacks@.len() > 0) ==> {
                &&& final(self).submissions@.len() == old(self).submissions@.len() + 1
                &&& forall|i: int|
                    0 <= i < old(self).submissions@.len()
                        ==> #[trigger] final(self).submissions@[i] == old(self).submissions@[i]
                &&& final(self).submissions@.last().commands@ == old(self).pending@
                &&& final(self).submissions@.last().callbacks@ == old(self).pending_callbacks@
            },
    {
        if self.pending.len() == 0 && self.pending_callbacks.len() == 0 {
            return ;
        }
        let mut commands: Vec<Command> = Vec::new();
        let mut callbacks: Vec<u64> = Vec::new();
        core::mem::swap(&mut commands, &mut self.pending);
        core::mem::swap(&mut callbacks, &mut self.pending_callbacks);
        self.submissions.push(Submission { commands, callbacks });
    }

    /// Takes the device's report that the first `n` submissions are now
    /// complete and drains the callback tokens of the newly completed
    /// submissions, in submission order.  Callbacks run on whichever
    /// thread polls; this engine only hands the tokens out.
    pub fn process_completions(&mut self, n: usize) -> (r: Vec<u64>)
        requires
            old(self).wf(),
            old(self).completed <= n <= old(self).submissions@.len(),
        ensures
            final(self).wf(),
            final(self).pending == old(self).pending,
            final(self).pending_callbacks == old(self).pending_callbacks,
            final(self).submissions == old(self).submissions,
            final(self).completed == n,
            r@ == tokens_between(old(self).submissions@, old(self).completed as int, n as int),
    {
        let ghost c0 = self.completed as int;
        let mut out: Vec<u64> = Vec::new();
        let mut j: usize = self.completed;
        proof {
            assert(out@ =~= tokens_between(self.submissions@, c0, c0));
        }
        while j < n
            invariant
                c0 <= j <= n <= self.submissions@.len(),
                self == old(self),
                out@ == tokens_between(self.submissions@, c0, j as int),
            decreases n - j,
        {
            let ghost out0 = out@;
            let cbs_len = self.submissions[j].callbacks.len();
            let mut k: usize = 0;
            while k < cbs_len
                invariant
                    c0 <= j < n <= self.submissions@.len(),
                    self == old(self),
                    cbs_len == self.submissions@[j as int].callbacks@.len(),
                    k <= cbs_len,
                    out@ == out0 + self.submissions@[j as int].callbacks@.subrange(0, k as int),
                decreases cbs_len - k,
            {
                let t = self.submissions[j].callbacks[k];
                out.push(t);
                proof {
                    let cbs = self.submissions@[j as int].callbacks@;
                    assert(cbs.subrange(0, k as int).push(t) =~= cbs.subrange(0, (k + 1) as int));
                    assert(out@ =~= out0 + cbs.subrange(0, (k + 1) as int));
                }
                k = k + 1;
            }
            proof {
                let cbs = self.submissions@[j as int].callbacks@;
                assert(cbs.subrange(0, cbs.len() as int) =~= cbs);
                assert(out@ == out0 + cbs);
                assert(tokens_between(self.submissions@, c0, j + 1) == tokens_between(
                    self.submissions@,
                    c0,
                    j as int,
                ) + cbs);
            }
            j = j + 1;
        }
        self.completed = n;
        out
    }
}

} // verus!
