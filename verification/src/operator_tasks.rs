//! Tasks that the operator starts with a word.
//!
//! They write and read files without asking the model, and say only what was done.
use vstd::prelude::*;

use crate::error::FamilyClawError;
use crate::text::{
    concat2, concat3, concat4, copy_of, decimal, decimal_text, occurs, occurs_at, views,
};

verus! {

// ---------------------------------------------------------------------------
// The bootstrap
// ---------------------------------------------------------------------------

/// The mathematical state of a [`Bootstrap`].
pub struct BootstrapState {
    /// The step of the turn.
    pub step: Seq<char>,
    /// The files to write, by the names that are shown.
    pub writes: Seq<Seq<char>>,
    /// How many are written.
    pub next: nat,
}

/// The mathematical value of a [`BootstrapRequest`].
pub enum BootstrapView {
    Replay { step: Seq<char> },
    Plan,
    Write { step: Seq<char>, index: nat },
    Blocked { reason: Seq<char> },
    Done { written: Seq<Seq<char>> },
    Failed { message: Seq<char> },
}

/// The journal step of a bootstrap's reply.
pub open spec fn bootstrap_step(step: Seq<char>) -> Seq<char> {
    step + "-operator-bootstrap"@
}

/// The step and key of one write.
pub open spec fn write_step(step: Seq<char>, index: nat) -> Seq<char> {
    step + "-bootstrap-"@ + decimal(index)
}

/// What came of a write.
#[derive(Debug)]
pub enum WriteOutcome {
    /// There is no tool to write with.
    Unregistered,
    /// It failed.
    Failed(FamilyClawError),
    /// It waits for an approval.
    AwaitingApproval {
        /// The task that waits.
        task: String,
    },
    /// It ended.
    Ended {
        /// Was it done?
        done: bool,
        /// Its status, in words.
        status: String,
    },
}

/// The next write, or the end.
pub open spec fn next_write(s: BootstrapState) -> BootstrapView {
    if s.next < s.writes.len() {
        BootstrapView::Write { step: write_step(s.step, s.next), index: s.next }
    } else {
        BootstrapView::Done { written: s.writes }
    }
}

/// A write came back. The first that is not done stops the bootstrap.
pub open spec fn after_write(s: BootstrapState, outcome: WriteOutcome) -> (
    BootstrapState,
    BootstrapView,
) {
    match outcome {
        WriteOutcome::Unregistered => (
            s,
            BootstrapView::Failed {
                message: "file_write_allowlisted not registered in ActionRuntime"@,
            },
        ),
        WriteOutcome::Failed(e) => (s, BootstrapView::Failed { message: e.message() }),
        WriteOutcome::AwaitingApproval { task } => (
            s,
            BootstrapView::Blocked {
                reason: "file_write odottaa hyvÃ¤ksyntÃ¤Ã¤ (task "@ + task@ + ")"@,
            },
        ),
        WriteOutcome::Ended { done, status } => if done {
            let t = BootstrapState { next: s.next + 1, ..s };
            (t, next_write(t))
        } else {
            (
                s,
                BootstrapView::Blocked {
                    reason: "file_write status "@ + status@ + " for "@ + s.writes[s.next as int],
                },
            )
        },
    }
}

/// What the caller has to do next.
#[derive(Debug)]
pub enum BootstrapRequest {
    /// Take the reply from the journal.
    Replay {
        /// The step.
        step: String,
    },
    /// Make the plan of writes.
    Plan,
    /// Make one write of the plan, once under this step.
    Write {
        /// The step and key.
        step: String,
        /// Which write.
        index: usize,
    },
    /// Tell why the bootstrap stopped, and write it to the journal under
    /// [`Bootstrap::reply_step`].
    Blocked {
        /// Why.
        reason: String,
    },
    /// Tell what was written, and write it to the journal under [`Bootstrap::reply_step`].
    Done {
        /// The files, by the names that are shown.
        written: Vec<String>,
    },
    /// The bootstrap failed.
    Failed(FamilyClawError),
}

impl View for BootstrapRequest {
    type V = BootstrapView;

    open spec fn view(&self) -> BootstrapView {
        match self {
            BootstrapRequest::Replay { step } => BootstrapView::Replay { step: step@ },
            BootstrapRequest::Plan => BootstrapView::Plan,
            BootstrapRequest::Write { step, index } => BootstrapView::Write {
                step: step@,
                index: *index as nat,
            },
            BootstrapRequest::Blocked { reason } => BootstrapView::Blocked { reason: reason@ },
            BootstrapRequest::Done { written } => BootstrapView::Done { written: views(written@) },
            BootstrapRequest::Failed(e) => BootstrapView::Failed { message: e.message() },
        }
    }
}

/// The operator's bootstrap in progress.
#[derive(Debug)]
pub struct Bootstrap {
    step: String,
    writes: Vec<String>,
    next: usize,
}

impl View for Bootstrap {
    type V = BootstrapState;

    closed spec fn view(&self) -> BootstrapState {
        BootstrapState {
            step: self.step@,
            writes: views(self.writes@),
            next: self.next as nat,
        }
    }
}

impl Bootstrap {
    /// Begins a bootstrap. A replayed one takes its reply from the journal; a fresh one
    /// needs actions and a directory to write to.
    pub fn new(step: &str, replaying: bool, has_actions: bool, has_home: bool) -> (r: (
        Bootstrap,
        BootstrapRequest,
    ))
        ensures
            r.0@.step == step@,
            r.0@.writes == Seq::<Seq<char>>::empty(),
            r.0@.next == 0,
            r.1@ == if replaying {
                BootstrapView::Replay { step: bootstrap_step(step@) }
            } else if !has_actions {
                BootstrapView::Failed { message: "operator bootstrap requires ActionRuntime"@ }
            } else if !has_home {
                BootstrapView::Failed {
                    message: "operator bootstrap requires FAMILYCLAW_FILE_WRITE_ALLOW or FAMILYCLAW_FS_READ_ALLOW"@,
                }
            } else {
                BootstrapView::Plan
            },
            r.1 is Failed ==> r.1->Failed_0 is Config,
    {
        let this = Bootstrap { step: copy_of(step), writes: Vec::new(), next: 0 };
        assert(this@.writes =~= Seq::<Seq<char>>::empty());
        let request = if replaying {
            BootstrapRequest::Replay { step: concat2(step, "-operator-bootstrap") }
        } else if !has_actions {
            BootstrapRequest::Failed(
                FamilyClawError::Config(copy_of("operator bootstrap requires ActionRuntime")),
            )
        } else if !has_home {
            BootstrapRequest::Failed(
                FamilyClawError::Config(
                    copy_of(
                        "operator bootstrap requires FAMILYCLAW_FILE_WRITE_ALLOW or FAMILYCLAW_FS_READ_ALLOW",
                    ),
                ),
            )
        } else {
            BootstrapRequest::Plan
        };
        (this, request)
    }

    fn go_on(&self) -> (r: BootstrapRequest)
        ensures
            r@ == next_write(self@),
    {
        if self.next < self.writes.len() {
            BootstrapRequest::Write {
                step: concat3(
                    self.step.as_str(),
                    "-bootstrap-",
                    decimal_text(self.next as u64).as_str(),
                ),
                index: self.next,
            }
        } else {
            BootstrapRequest::Done { written: crate::text::copy_list(&self.writes) }
        }
    }

    /// The journal step of what the operator is told, once the bootstrap is done or blocked.
    pub fn reply_step(&self) -> (r: String)
        ensures
            r@ == bootstrap_step(self@.step),
    {
        concat2(self.step.as_str(), "-operator-bootstrap")
    }

    /// Takes the plan: the files to write, by the names that are shown.
    pub fn on_planned(&mut self, writes: Vec<String>) -> (r: BootstrapRequest)
        ensures
            final(self)@ == (BootstrapState {
                step: old(self)@.step,
                writes: views(writes@),
                next: 0,
            }),
            r@ == next_write(final(self)@),
    {
        self.writes = writes;
        self.next = 0;
        self.go_on()
    }

    /// Takes what came of the write.
    pub fn on_written(&mut self, outcome: WriteOutcome) -> (r: BootstrapRequest)
        requires
            old(self)@.next < old(self)@.writes.len(),
        ensures
            (final(self)@, r@) == after_write(old(self)@, outcome),
            outcome is Unregistered ==> r is Failed && r->Failed_0 is Config,
            outcome is Failed ==> r is Failed && r->Failed_0 == outcome->Failed_0,
    {
        match outcome {
            WriteOutcome::Unregistered => BootstrapRequest::Failed(
                FamilyClawError::Config(
                    copy_of("file_write_allowlisted not registered in ActionRuntime"),
                ),
            ),
            WriteOutcome::Failed(e) => BootstrapRequest::Failed(e),
            WriteOutcome::AwaitingApproval { task } => BootstrapRequest::Blocked {
                reason: concat3("file_write odottaa hyvÃ¤ksyntÃ¤Ã¤ (task ", task.as_str(), ")"),
            },
            WriteOutcome::Ended { done, status } => if done {
                let total: usize = self.writes.len();
                assert(self.next < total);
                self.next = self.next + 1;
                self.go_on()
            } else {
                BootstrapRequest::Blocked {
                    reason: concat4(
                        "file_write status ",
                        status.as_str(),
                        " for ",
                        self.writes[self.next].as_str(),
                    ),
                }
            },
        }
    }
}

// ---------------------------------------------------------------------------
// The status report
// ---------------------------------------------------------------------------

/// How the operator's status report is made.
#[derive(Debug)]
pub enum StatusPlan {
    /// Take it from the journal.
    Replay {
        /// The step.
        step: String,
    },
    /// Look at the directory and write the report to the journal.
    Report {
        /// The step.
        step: String,
    },
}

/// Decides how the operator's status report is made. A fresh one needs a directory to look
/// at.
pub fn execute_operator_status_bootstrap(step: &str, replaying: bool, has_home: bool) -> (r: Result<
    StatusPlan,
    FamilyClawError,
>)
    ensures
        match r {
            Ok(StatusPlan::Replay { step: s }) => replaying && s@ == step@ + "-operator-status"@,
            Ok(StatusPlan::Report { step: s }) => !replaying && has_home && s@ == step@
                + "-operator-status"@,
            Err(e) => !replaying && !has_home && e is Config && e->Config_0@
                == "operator status requires FAMILYCLAW_FS_READ_ALLOW or FAMILYCLAW_FILE_WRITE_ALLOW"@,
        },
{
    let step = concat2(step, "-operator-status");
    if replaying {
        Ok(StatusPlan::Replay { step })
    } else if has_home {
        Ok(StatusPlan::Report { step })
    } else {
        Err(
            FamilyClawError::Config(
                copy_of(
                    "operator status requires FAMILYCLAW_FS_READ_ALLOW or FAMILYCLAW_FILE_WRITE_ALLOW",
                ),
            ),
        )
    }
}

// ---------------------------------------------------------------------------
// Laws
// ---------------------------------------------------------------------------

/// A bootstrap says that it is done only when every write of its plan was done: the one that
/// completes it is the last.
pub proof fn law_done_means_all_written(s: BootstrapState, outcome: WriteOutcome)
    requires
        s.next < s.writes.len(),
        after_write(s, outcome).1 is Done,
    ensures
        outcome is Ended,
        outcome->done,
        s.next + 1 == s.writes.len(),
        after_write(s, outcome).1->written == s.writes,
{
}

/// The writes of a bootstrap have different keys.
pub proof fn law_write_keys_differ(step: Seq<char>, a: nat, b: nat)
    requires
        a != b,
    ensures
        write_step(step, a) != write_step(step, b),
{
    let head = step + "-bootstrap-"@;
    if write_step(step, a) == write_step(step, b) {
        assert(decimal(a) =~= write_step(step, a).skip(head.len() as int));
        assert(decimal(b) =~= write_step(step, b).skip(head.len() as int));
        crate::text::lemma_decimal_injective(a, b);
    }
}

/// The writes of a plan are made one after the other, from the first to the last, each once.
pub proof fn law_every_write_is_made_in_turn(s: BootstrapState, status: String)
    requires
        s.next < s.writes.len(),
    ensures
        ({
            let (t, request) = after_write(s, WriteOutcome::Ended { done: true, status });
            &&& t.writes == s.writes
            &&& t.step == s.step
            &&& t.next == s.next + 1
            &&& t.next < s.writes.len() ==> request is Write && request->index == t.next
                && s.step.is_prefix_of(request->Write_step)
            &&& t.next == s.writes.len() ==> request is Done && request->written == s.writes
        }),
        next_write(BootstrapState { next: 0, ..s }) is Write,
        next_write(BootstrapState { next: 0, ..s })->index == 0,
{
    let (t, request) = after_write(s, WriteOutcome::Ended { done: true, status });
    if t.next < s.writes.len() {
        let step = request->Write_step;
        assert(step.subrange(0, s.step.len() as int) =~= s.step);
    }
}

/// A write that is not done stops the bootstrap, which says what came of it: the file and its
/// status, the task that waits, or the error.
pub proof fn law_stopped_bootstrap_says_why(s: BootstrapState, outcome: WriteOutcome)
    requires
        s.next < s.writes.len(),
        !(outcome is Ended && outcome->done),
    ensures
        after_write(s, outcome).0 == s,
        outcome is Ended ==> after_write(s, outcome).1 is Blocked && occurs(
            outcome->status@,
            after_write(s, outcome).1->reason,
        ) && s.writes[s.next as int].is_suffix_of(after_write(s, outcome).1->reason),
        outcome is AwaitingApproval ==> after_write(s, outcome).1 is Blocked && occurs(
            outcome->task@,
            after_write(s, outcome).1->reason,
        ),
        outcome is Failed ==> after_write(s, outcome).1 is Failed && after_write(
            s,
            outcome,
        ).1->message == outcome->Failed_0.message(),
        outcome is Unregistered ==> after_write(s, outcome).1 is Failed,
{
    let r = after_write(s, outcome).1->reason;
    if outcome is Ended {
        let t = outcome->status@;
        let file = s.writes[s.next as int];
        let at = "file_write status "@.len() as int;
        assert(r.subrange(at, at + t.len()) =~= t);
        assert(occurs_at(t, r, at));
        assert(r.subrange(r.len() - file.len(), r.len() as int) =~= file);
    } else if outcome is AwaitingApproval {
        let t = outcome->task@;
        let at = r.len() - t.len() - ")"@.len();
        assert(r.subrange(at, at + t.len()) =~= t);
        assert(occurs_at(t, r, at));
    }
}

/// What a bootstrap says and what it writes go to the journal under steps of their own, all of
/// them below the step of the turn.
pub proof fn law_bootstrap_steps_are_kept_apart(step: Seq<char>, index: nat)
    ensures
        step.is_prefix_of(bootstrap_step(step)),
        step.is_prefix_of(write_step(step, index)),
        bootstrap_step(step) != step,
        bootstrap_step(step) != write_step(step, index),
{
    reveal_strlit("-operator-bootstrap");
    reveal_strlit("-bootstrap-");
    let n = step.len() as int;
    let a = bootstrap_step(step);
    let b = write_step(step, index);
    assert(a.subrange(0, n) =~= step);
    assert(b.subrange(0, n) =~= step);
    assert(a.len() > step.len());
    assert(a[n + 1] == 'o');
    assert(b[n + 1] == 'b');
}

} // verus!
