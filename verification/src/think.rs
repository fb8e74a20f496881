//! From the end of a tool loop to the outcome of a thought.
//!
//! A loop that ended has to be closed: its end goes to the audit trail, in a turn to the
//! journal, and a call that waits for an approval has to be kept so that it can be
//! resumed. [`Closing`] takes these steps one by one. An approval is never announced
//! before the state that resumes it is kept: where keeping it fails, the approval is
//! rolled back and the thought fails.
use vstd::prelude::*;

use crate::error::{model_failure, recovery_fallback_reply, tagged, FamilyClawError, RECOVERY_REPLY};
use crate::llm::{opt_view, LlmError};
use crate::text::{
    concat2, concat3, concat4, copy_of, count_chars, decimal, decimal_text, first_chars, occurs,
    occurs_at, take_chars, views,
};

verus! {

/// What a thought came to.
#[derive(Debug, Clone, PartialEq, Eq)]
pub enum ThinkOutcome {
    /// An answer for the user. Nothing else crosses to the user.
    Reply(String),
    /// The thought waits for an approval.
    Suspended {
        /// The approval.
        approval_id: String,
        /// What is to be approved, without secrets.
        redacted_summary: String,
    },
    /// There is no answer.
    NoReply,
}

/// The kinds of lines in the audit trail of a turn.
#[derive(Debug, Clone, Copy, PartialEq, Eq, Structural)]
pub enum AuditKind {
    TurnStarted,
    ToolDispatched,
    TurnAnswered,
    TurnSuspended,
    TurnMaxIterations,
    TurnResumed,
}

/// How a thought is begun.
#[derive(Debug, Clone, PartialEq, Eq)]
pub enum ThinkPlan {
    /// There is no model: the thought has no reply.
    NoReply,
    /// Ask the model once, without tools.
    Once,
    /// Write a line to the audit trail, where there is one, and run a tool loop.
    Loop {
        /// What the line says; its kind is [`AuditKind::TurnStarted`].
        audit: Option<String>,
    },
}

/// Decides how a thought is begun: not without a model, with a tool loop where actions can be
/// taken, and else with one question. A loop that is `audited` leaves a line that it started.
pub fn think_with_origin(has_model: bool, has_actions: bool, audited: bool) -> (r: ThinkPlan)
    ensures
        match r {
            ThinkPlan::NoReply => !has_model,
            ThinkPlan::Once => has_model && !has_actions,
            ThinkPlan::Loop { audit } => has_model && has_actions && opt_view(audit) == (
            if audited {
                Some("turn started"@)
            } else {
                None
            }),
        },
{
    if !has_model {
        ThinkPlan::NoReply
    } else if !has_actions {
        ThinkPlan::Once
    } else {
        ThinkPlan::Loop {
            audit: if audited {
                Some(copy_of("turn started"))
            } else {
                None
            },
        }
    }
}

/// What one question to the model came to: its answer, as it is, or the model's error.
pub fn one_shot_outcome(answer: Result<String, LlmError>) -> (r: Result<
    ThinkOutcome,
    FamilyClawError,
>)
    ensures
        match r {
            Ok(o) => answer is Ok && o is Reply && o->Reply_0@ == answer->Ok_0@,
            Err(e) => answer is Err && e is Llm && e->Llm_0@ == tagged(answer->Err_0),
        },
{
    match answer {
        Ok(text) => Ok(ThinkOutcome::Reply(text)),
        Err(e) => Err(model_failure(&e)),
    }
}

/// How a tool loop ended.
#[derive(Debug)]
pub enum LoopEnd {
    /// With an answer, after so many dispatches.
    Answer {
        /// The answer.
        text: String,
        /// The number of dispatches.
        dispatches: u32,
    },
    /// With a call that waits for an approval.
    Suspend {
        /// The approval.
        approval_id: String,
        /// What is to be approved, without secrets.
        summary: String,
    },
    /// Without an answer, at the limit of its rounds.
    MaxIterations {
        /// The limit.
        iterations: u32,
    },
}

/// The mathematical value of a [`LoopEnd`].
pub enum EndView {
    Answer { text: Seq<char>, dispatches: nat },
    Suspend { approval_id: Seq<char>, summary: Seq<char> },
    MaxIterations { iterations: nat },
}

impl View for LoopEnd {
    type V = EndView;

    open spec fn view(&self) -> EndView {
        match self {
            LoopEnd::Answer { text, dispatches } => EndView::Answer {
                text: text@,
                dispatches: *dispatches as nat,
            },
            LoopEnd::Suspend { approval_id, summary } => EndView::Suspend {
                approval_id: approval_id@,
                summary: summary@,
            },
            LoopEnd::MaxIterations { iterations } => EndView::MaxIterations {
                iterations: *iterations as nat,
            },
        }
    }
}

/// What a closing waits for.
#[derive(Debug, Clone, Copy, PartialEq, Eq, Structural)]
pub enum ClosingStage {
    /// That the dispatches are remembered.
    Remember,
    /// That the state to resume is kept.
    Persist,
    /// That the approval is rolled back.
    Rollback,
    /// The audit trail.
    Audit,
    /// The thought in the journal.
    JournalThink,
    /// The suspension in the journal.
    JournalSuspend,
    /// Nothing.
    Done,
}

/// The mathematical state of a [`Closing`].
pub struct ClosingState {
    /// The turn whose journal is kept.
    pub turn: Option<nat>,
    /// Are lines written to the audit trail? They are not where the turn began as a replay.
    pub audited: bool,
    /// Is the turn replayed from the journal?
    pub replaying: bool,
    /// How the loop ended.
    pub end: EndView,
    /// Is the state to resume kept?
    pub persisted: bool,
    /// Why it could not be kept.
    pub persist_error: Seq<char>,
    /// What the closing waits for.
    pub stage: ClosingStage,
}

/// The mathematical value of a [`ClosingRequest`].
pub enum ClosingView {
    Remember { content: Seq<char>, source: Seq<char>, tags: Seq<Seq<char>> },
    Persist { approval_id: Seq<char> },
    Rollback { approval_id: Seq<char> },
    Audit { kind: AuditKind, detail: Seq<char> },
    JournalThink { step: Seq<char>, text: Seq<char> },
    JournalSuspend { step: Seq<char>, payload: Seq<char> },
    Reply(Seq<char>),
    Suspended { approval_id: Seq<char>, summary: Seq<char> },
    NoReply,
    Failed { message: Seq<char> },
}

/// The journal step of a turn's thought.
pub open spec fn think_step(turn: nat) -> Seq<char> {
    "turn-"@ + decimal(turn) + "-think"@
}

/// The journal step of a turn's suspension.
pub open spec fn suspend_step(turn: nat) -> Seq<char> {
    "turn-"@ + decimal(turn) + "-suspend"@
}

/// What the journal holds of a suspension: the approval and its summary.
pub open spec fn suspend_payload(approval_id: Seq<char>, summary: Seq<char>) -> Seq<char> {
    approval_id + "|"@ + summary
}

/// The memory of a turn that used tools: the beginning of its answer.
pub open spec fn tool_memory(dispatches: nat, text: Seq<char>) -> Seq<char> {
    "verified tool turn (dispatch="@ + decimal(dispatches) + "): "@ + first_chars(text, 240)
}

/// The memory of a turn that used tools.
pub fn verified_tool_memory(dispatches: u32, text: &str) -> (r: String)
    ensures
        r@ == tool_memory(dispatches as nat, text@),
{
    concat4(
        "verified tool turn (dispatch=",
        decimal_text(dispatches as u64).as_str(),
        "): ",
        take_chars(text, 240).as_str(),
    )
}

/// The audit line of an end. Of an answer only its length is kept.
pub open spec fn end_audit(end: EndView) -> (AuditKind, Seq<char>) {
    match end {
        EndView::Answer { text, dispatches } => (
            AuditKind::TurnAnswered,
            "answered ("@ + decimal(text.len()) + " chars)"@,
        ),
        EndView::Suspend { approval_id, summary } => (
            AuditKind::TurnSuspended,
            "suspended awaiting approval "@ + approval_id + ": "@ + summary,
        ),
        EndView::MaxIterations { iterations } => (
            AuditKind::TurnMaxIterations,
            "reached max iterations ("@ + decimal(iterations) + ") without answer"@,
        ),
    }
}

/// The text that the turn's journal keeps as the thought: the answer, the reply of a turn
/// that reached its limit, or nothing where the thought waits for an approval.
pub open spec fn thought_text(end: EndView) -> Seq<char> {
    match end {
        EndView::Answer { text, dispatches } => text,
        EndView::Suspend { approval_id, summary } => Seq::empty(),
        EndView::MaxIterations { iterations } => RECOVERY_REPLY@,
    }
}

/// The thought goes to the journal.
pub open spec fn to_journal(s: ClosingState) -> (ClosingState, ClosingView) {
    (
        ClosingState { stage: ClosingStage::JournalThink, ..s },
        ClosingView::JournalThink {
            step: think_step(s.turn->Some_0),
            text: thought_text(s.end),
        },
    )
}

/// The outcome of an end that is closed.
pub open spec fn outcome_of(end: EndView) -> ClosingView {
    match end {
        EndView::Suspend { approval_id, summary } => ClosingView::Suspended {
            approval_id,
            summary,
        },
        _ => ClosingView::Reply(thought_text(end)),
    }
}

/// The audit line is written, or there is none to write.
pub open spec fn after_audit(s: ClosingState) -> (ClosingState, ClosingView) {
    match s.turn {
        Some(turn) => match s.end {
            EndView::Suspend { approval_id, summary } => (
                ClosingState { stage: ClosingStage::JournalSuspend, ..s },
                ClosingView::JournalSuspend {
                    step: suspend_step(turn),
                    payload: suspend_payload(approval_id, summary),
                },
            ),
            _ => to_journal(s),
        },
        None => (ClosingState { stage: ClosingStage::Done, ..s }, outcome_of(s.end)),
    }
}

/// The audit line of the end, where lines are written.
pub open spec fn to_audit(s: ClosingState) -> (ClosingState, ClosingView) {
    if s.audited {
        let (kind, detail) = end_audit(s.end);
        (ClosingState { stage: ClosingStage::Audit, ..s }, ClosingView::Audit { kind, detail })
    } else {
        after_audit(s)
    }
}

/// The source of the memory of a turn that used tools.
pub const TOOL_MEMORY_SOURCE: &'static str = "tool_verified";

/// The tag of the memory of a turn that used tools.
pub const TOOL_MEMORY_TAG: &'static str = "verified:tool";

/// The first step of a closing. In a turn that used tools, this is remembered; a call
/// that waits for an approval is kept before anything is said of it. A replayed turn did
/// both before.
pub open spec fn first_step(s: ClosingState) -> (ClosingState, ClosingView) {
    match s.end {
        EndView::Answer { text, dispatches } => if s.turn is Some && dispatches > 0
            && !s.replaying {
            (
                ClosingState { stage: ClosingStage::Remember, ..s },
                ClosingView::Remember {
                    content: tool_memory(dispatches, text),
                    source: TOOL_MEMORY_SOURCE@,
                    tags: seq![TOOL_MEMORY_TAG@],
                },
            )
        } else {
            to_audit(s)
        },
        EndView::Suspend { approval_id, summary } => if !s.replaying {
            (
                ClosingState { stage: ClosingStage::Persist, ..s },
                ClosingView::Persist { approval_id },
            )
        } else if s.turn is Some {
            to_journal(s)
        } else {
            to_audit(s)
        },
        EndView::MaxIterations { iterations } => to_audit(s),
    }
}

/// The state to resume was kept, or not.
pub open spec fn after_persist(s: ClosingState, error: Option<Seq<char>>) -> (
    ClosingState,
    ClosingView,
) {
    match error {
        None => {
            let t = ClosingState { persisted: true, ..s };
            if s.turn is Some {
                to_journal(t)
            } else {
                to_audit(t)
            }
        },
        Some(e) => (
            ClosingState { persist_error: e, stage: ClosingStage::Rollback, ..s },
            ClosingView::Rollback { approval_id: s.end->Suspend_approval_id },
        ),
    }
}

/// The error of a suspension that could not be kept.
pub open spec fn persist_failure(error: Seq<char>, cleanup: Option<Seq<char>>) -> Seq<char> {
    match cleanup {
        None => "resumable persist failed: "@ + error,
        Some(c) => "resumable persist failed: "@ + error + "; "@ + c,
    }
}

/// The approval is rolled back; the thought has failed.
pub open spec fn after_rollback(s: ClosingState, cleanup: Option<Seq<char>>) -> (
    ClosingState,
    ClosingView,
) {
    (
        ClosingState { stage: ClosingStage::Done, ..s },
        ClosingView::Failed { message: persist_failure(s.persist_error, cleanup) },
    )
}

/// The journal gave the thought back, or failed. An empty thought is no answer.
pub open spec fn after_journal(s: ClosingState, stored: Result<Seq<char>, Seq<char>>) -> (
    ClosingState,
    ClosingView,
) {
    match stored {
        Err(e) => (
            ClosingState { stage: ClosingStage::Done, ..s },
            ClosingView::Failed { message: "durable think step failed: "@ + e },
        ),
        Ok(text) => match s.end {
            EndView::Suspend { approval_id, summary } => to_audit(s),
            _ => (
                ClosingState { stage: ClosingStage::Done, ..s },
                if text.len() == 0 {
                    ClosingView::NoReply
                } else {
                    ClosingView::Reply(text)
                },
            ),
        },
    }
}

/// What holds of every state of a closing: of a fresh suspension nothing is said before
/// it is kept, and what is rolled back was not kept.
pub open spec fn closing_valid(s: ClosingState) -> bool {
    &&& s.stage == ClosingStage::Persist || s.stage == ClosingStage::Rollback ==> s.end is Suspend
        && !s.persisted && !s.replaying
    &&& s.stage == ClosingStage::JournalSuspend ==> s.end is Suspend && s.turn is Some
    &&& s.stage == ClosingStage::JournalThink ==> s.turn is Some
    &&& s.stage == ClosingStage::Remember ==> s.end is Answer
    &&& s.end is Suspend && !s.replaying && (s.stage == ClosingStage::Audit || s.stage
        == ClosingStage::JournalThink || s.stage == ClosingStage::JournalSuspend) ==> s.persisted
}

/// How many requests may still come at most: a closing always ends.
pub open spec fn steps_left(s: ClosingState) -> nat {
    match s.stage {
        ClosingStage::Remember => 5,
        ClosingStage::Persist => 6,
        ClosingStage::JournalThink => if s.end is Suspend {
            5
        } else {
            3
        },
        ClosingStage::Audit => 4,
        ClosingStage::JournalSuspend => 3,
        ClosingStage::Rollback => 2,
        ClosingStage::Done => 1,
    }
}

/// The request asks for what the stage waits for, so that whoever answers it can always go on.
pub open spec fn waits_for(stage: ClosingStage, request: ClosingView) -> bool {
    match stage {
        ClosingStage::Remember => request is Remember,
        ClosingStage::Persist => request is Persist,
        ClosingStage::Rollback => request is Rollback,
        ClosingStage::Audit => request is Audit,
        ClosingStage::JournalThink => request is JournalThink,
        ClosingStage::JournalSuspend => request is JournalSuspend,
        ClosingStage::Done => request is Reply || request is Suspended || request is NoReply
            || request is Failed,
    }
}

/// What the caller has to do next.
#[derive(Debug)]
pub enum ClosingRequest {
    /// Remember that the turn used tools.
    Remember {
        /// What to remember.
        content: String,
        /// Its source.
        source: String,
        /// Its tags.
        tags: Vec<String>,
    },
    /// Keep the state that resumes the call, while nobody can approve it.
    Persist {
        /// The approval.
        approval_id: String,
    },
    /// Close the approval and remove what was kept of it.
    Rollback {
        /// The approval.
        approval_id: String,
    },
    /// Write a line to the audit trail.
    Audit {
        /// Its kind.
        kind: AuditKind,
        /// What it says.
        detail: String,
    },
    /// Write the thought to the journal, or read it from there.
    JournalThink {
        /// The step.
        step: String,
        /// The thought.
        text: String,
    },
    /// Write the suspension to the journal. A failure does no harm.
    JournalSuspend {
        /// The step.
        step: String,
        /// What is written.
        payload: String,
    },
    /// The thought is closed.
    Done(ThinkOutcome),
    /// The thought has failed.
    Failed(FamilyClawError),
}

impl View for ClosingRequest {
    type V = ClosingView;

    open spec fn view(&self) -> ClosingView {
        match self {
            ClosingRequest::Remember { content, source, tags } => ClosingView::Remember {
                content: content@,
                source: source@,
                tags: views(tags@),
            },
            ClosingRequest::Persist { approval_id } => ClosingView::Persist {
                approval_id: approval_id@,
            },
            ClosingRequest::Rollback { approval_id } => ClosingView::Rollback {
                approval_id: approval_id@,
            },
            ClosingRequest::Audit { kind, detail } => ClosingView::Audit {
                kind: *kind,
                detail: detail@,
            },
            ClosingRequest::JournalThink { step, text } => ClosingView::JournalThink {
                step: step@,
                text: text@,
            },
            ClosingRequest::JournalSuspend { step, payload } => ClosingView::JournalSuspend {
                step: step@,
                payload: payload@,
            },
            ClosingRequest::Done(o) => match o {
                ThinkOutcome::Reply(t) => ClosingView::Reply(t@),
                ThinkOutcome::Suspended { approval_id, redacted_summary } => ClosingView::Suspended {
                    approval_id: approval_id@,
                    summary: redacted_summary@,
                },
                ThinkOutcome::NoReply => ClosingView::NoReply,
            },
            ClosingRequest::Failed(e) => ClosingView::Failed { message: e.message() },
        }
    }
}

/// The closing of a tool loop.
#[derive(Debug)]
pub struct Closing {
    turn: Option<u64>,
    audited: bool,
    replaying: bool,
    end: LoopEnd,
    persisted: bool,
    persist_error: String,
    stage: ClosingStage,
}

impl View for Closing {
    type V = ClosingState;

    closed spec fn view(&self) -> ClosingState {
        ClosingState {
            turn: match self.turn {
                Some(t) => Some(t as nat),
                None => None,
            },
            audited: self.audited,
            replaying: self.replaying,
            end: self.end@,
            persisted: self.persisted,
            persist_error: self.persist_error@,
            stage: self.stage,
        }
    }
}

impl Closing {
    /// What always holds of a closing.
    pub open spec fn wf(&self) -> bool {
        closing_valid(self@)
    }

    /// Begins to close a loop that ended. `turn` is given where the loop belongs to a turn
    /// with a journal. `audited` tells whether the turn was fresh when it began, `replaying`
    /// whether it is replayed now.
    pub fn new(turn: Option<u64>, audited: bool, replaying: bool, end: LoopEnd) -> (r: (
        Closing,
        ClosingRequest,
    ))
        ensures
            r.0.wf(),
            waits_for(r.0@.stage, r.1@),
            (r.0@, r.1@) == first_step(
                ClosingState {
                    turn: match turn {
                        Some(t) => Some(t as nat),
                        None => None,
                    },
                    audited,
                    replaying,
                    end: end@,
                    persisted: false,
                    persist_error: Seq::empty(),
                    stage: ClosingStage::Done,
                },
            ),
    {
        let mut this = Closing {
            turn,
            audited,
            replaying,
            end,
            persisted: false,
            persist_error: String::new(),
            stage: ClosingStage::Done,
        };
        let request = match &this.end {
            LoopEnd::Answer { text, dispatches } => if this.turn.is_some() && *dispatches > 0
                && !this.replaying {
                let content = verified_tool_memory(*dispatches, text.as_str());
                this.stage = ClosingStage::Remember;
                let tags: Vec<String> = vec![copy_of(TOOL_MEMORY_TAG)];
                assert(views(tags@) =~= seq![TOOL_MEMORY_TAG@]);
                ClosingRequest::Remember { content, source: copy_of(TOOL_MEMORY_SOURCE), tags }
            } else {
                this.audit()
            },
            LoopEnd::Suspend { approval_id, summary: _ } => if !this.replaying {
                let approval_id = copy_of(approval_id.as_str());
                this.stage = ClosingStage::Persist;
                ClosingRequest::Persist { approval_id }
            } else {
                match this.turn {
                    Some(turn) => this.journal(turn),
                    None => this.audit(),
                }
            },
            LoopEnd::MaxIterations { .. } => this.audit(),
        };
        (this, request)
    }

    fn audit(&mut self) -> (r: ClosingRequest)
        ensures
            (final(self)@, r@) == to_audit(old(self)@),
    {
        if !self.audited {
            return self.proceed();
        }
        self.stage = ClosingStage::Audit;
        match &self.end {
            LoopEnd::Answer { text, dispatches: _ } => ClosingRequest::Audit {
                kind: AuditKind::TurnAnswered,
                detail: concat3(
                    "answered (",
                    decimal_text(count_chars(text.as_str()) as u64).as_str(),
                    " chars)",
                ),
            },
            LoopEnd::Suspend { approval_id, summary } => ClosingRequest::Audit {
                kind: AuditKind::TurnSuspended,
                detail: concat4(
                    "suspended awaiting approval ",
                    approval_id.as_str(),
                    ": ",
                    summary.as_str(),
                ),
            },
            LoopEnd::MaxIterations { iterations } => ClosingRequest::Audit {
                kind: AuditKind::TurnMaxIterations,
                detail: concat3(
                    "reached max iterations (",
                    decimal_text(*iterations as u64).as_str(),
                    ") without answer",
                ),
            },
        }
    }

    fn proceed(&mut self) -> (r: ClosingRequest)
        ensures
            (final(self)@, r@) == after_audit(old(self)@),
    {
        match self.turn {
            Some(turn) => match &self.end {
                LoopEnd::Suspend { approval_id, summary } => {
                    let payload = concat3(approval_id.as_str(), "|", summary.as_str());
                    self.stage = ClosingStage::JournalSuspend;
                    ClosingRequest::JournalSuspend {
                        step: concat3("turn-", decimal_text(turn).as_str(), "-suspend"),
                        payload,
                    }
                },
                _ => self.journal(turn),
            },
            None => {
                self.stage = ClosingStage::Done;
                self.outcome()
            },
        }
    }

    fn thought(&self) -> (r: String)
        ensures
            r@ == thought_text(self@.end),
    {
        match &self.end {
            LoopEnd::Answer { text, dispatches: _ } => copy_of(text.as_str()),
            LoopEnd::Suspend { .. } => String::new(),
            LoopEnd::MaxIterations { .. } => recovery_fallback_reply(),
        }
    }

    fn journal(&mut self, turn: u64) -> (r: ClosingRequest)
        requires
            old(self)@.turn == Some(turn as nat),
        ensures
            (final(self)@, r@) == to_journal(old(self)@),
    {
        self.stage = ClosingStage::JournalThink;
        ClosingRequest::JournalThink {
            step: concat3("turn-", decimal_text(turn).as_str(), "-think"),
            text: self.thought(),
        }
    }

    fn outcome(&self) -> (r: ClosingRequest)
        ensures
            r@ == outcome_of(self@.end),
    {
        match &self.end {
            LoopEnd::Suspend { approval_id, summary } => ClosingRequest::Done(
                ThinkOutcome::Suspended {
                    approval_id: copy_of(approval_id.as_str()),
                    redacted_summary: copy_of(summary.as_str()),
                },
            ),
            _ => ClosingRequest::Done(ThinkOutcome::Reply(self.thought())),
        }
    }

    /// Goes on once the dispatches are remembered, or could not be.
    pub fn on_remembered(&mut self) -> (r: ClosingRequest)
        requires
            old(self).wf(),
            old(self)@.stage == ClosingStage::Remember,
        ensures
            final(self).wf(),
            waits_for(final(self)@.stage, r@),
            steps_left(final(self)@) < steps_left(old(self)@),
            (final(self)@, r@) == to_audit(old(self)@),
    {
        self.audit()
    }

    /// Takes whether the state to resume could be kept.
    pub fn on_persisted(&mut self, error: Option<String>) -> (r: ClosingRequest)
        requires
            old(self).wf(),
            old(self)@.stage == ClosingStage::Persist,
        ensures
            final(self).wf(),
            waits_for(final(self)@.stage, r@),
            steps_left(final(self)@) < steps_left(old(self)@),
            (final(self)@, r@) == after_persist(old(self)@, opt_view(error)),
    {
        match error {
            None => {
                self.persisted = true;
                match self.turn {
                    Some(turn) => self.journal(turn),
                    None => self.audit(),
                }
            },
            Some(e) => {
                self.persist_error = e;
                self.stage = ClosingStage::Rollback;
                let approval_id = match &self.end {
                    LoopEnd::Suspend { approval_id, summary: _ } => copy_of(approval_id.as_str()),
                    _ => String::new(),
                };
                ClosingRequest::Rollback { approval_id }
            },
        }
    }

    /// Takes what went wrong in the rollback, if anything.
    pub fn on_rolled_back(&mut self, cleanup: Option<String>) -> (r: ClosingRequest)
        requires
            old(self).wf(),
            old(self)@.stage == ClosingStage::Rollback,
        ensures
            final(self).wf(),
            waits_for(final(self)@.stage, r@),
            steps_left(final(self)@) < steps_left(old(self)@),
            (final(self)@, r@) == after_rollback(old(self)@, opt_view(cleanup)),
            r->Failed_0 is Bus,
    {
        self.stage = ClosingStage::Done;
        let message = match cleanup {
            None => concat2("resumable persist failed: ", self.persist_error.as_str()),
            Some(c) => concat4(
                "resumable persist failed: ",
                self.persist_error.as_str(),
                "; ",
                c.as_str(),
            ),
        };
        ClosingRequest::Failed(FamilyClawError::Bus(message))
    }

    /// Goes on once the audit line is written.
    pub fn on_noted(&mut self) -> (r: ClosingRequest)
        requires
            old(self).wf(),
            old(self)@.stage == ClosingStage::Audit,
        ensures
            final(self).wf(),
            waits_for(final(self)@.stage, r@),
            steps_left(final(self)@) < steps_left(old(self)@),
            (final(self)@, r@) == after_audit(old(self)@),
    {
        self.proceed()
    }

    /// Takes the thought that the journal gave back, or its error.
    pub fn on_journaled(&mut self, stored: Result<String, String>) -> (r: ClosingRequest)
        requires
            old(self).wf(),
            old(self)@.stage == ClosingStage::JournalThink,
        ensures
            final(self).wf(),
            waits_for(final(self)@.stage, r@),
            steps_left(final(self)@) < steps_left(old(self)@),
            (final(self)@, r@) == after_journal(
                old(self)@,
                match stored {
                    Ok(t) => Ok(t@),
                    Err(e) => Err(e@),
                },
            ),
            r is Failed ==> r->Failed_0 is Bus,
    {
        match stored {
            Err(e) => {
                self.stage = ClosingStage::Done;
                ClosingRequest::Failed(
                    FamilyClawError::Bus(concat2("durable think step failed: ", e.as_str())),
                )
            },
            Ok(text) => match &self.end {
                LoopEnd::Suspend { .. } => self.audit(),
                _ => {
                    self.stage = ClosingStage::Done;
                    if text.as_str().is_empty() {
                        ClosingRequest::Done(ThinkOutcome::NoReply)
                    } else {
                        ClosingRequest::Done(ThinkOutcome::Reply(text))
                    }
                },
            },
        }
    }

    /// Ends once the suspension is in the journal, or could not be written.
    pub fn on_suspend_journaled(&mut self) -> (r: ClosingRequest)
        requires
            old(self).wf(),
            old(self)@.stage == ClosingStage::JournalSuspend,
        ensures
            final(self).wf(),
            waits_for(final(self)@.stage, r@),
            steps_left(final(self)@) < steps_left(old(self)@),
            final(self)@ == (ClosingState { stage: ClosingStage::Done, ..old(self)@ }),
            r@ == outcome_of(old(self)@.end),
    {
        self.stage = ClosingStage::Done;
        self.outcome()
    }
}

/// What became of an attempt to close an approval.
#[derive(Debug)]
pub enum Denial {
    /// It is closed now.
    Closed,
    /// It was closed before, or never existed.
    Missing,
    /// It could not be closed.
    Failed(String),
}

/// What went wrong in a rollback: that the approval could not be closed, that what was
/// kept of it could not be removed, or both. An approval that was closed before is no
/// error.
pub open spec fn rollback_error(denial: Denial, removal: Option<Seq<char>>) -> Option<Seq<char>> {
    match (denial, removal) {
        (Denial::Failed(e), None) => Some("approval rollback failed: "@ + e@),
        (Denial::Failed(e), Some(m)) => Some(
            "approval rollback failed: "@ + e@ + "; resumable rollback failed: "@ + m,
        ),
        (_, Some(m)) => Some("resumable rollback failed: "@ + m),
        (_, None) => None,
    }
}

/// What went wrong in a rollback. Both parts are tried whatever comes of the other.
pub fn rollback_non_durable_suspend(denial: Denial, removal: Option<String>) -> (r: Option<String>)
    ensures
        opt_view(r) == rollback_error(denial, opt_view(removal)),
{
    match denial {
        Denial::Failed(e) => match removal {
            None => Some(concat2("approval rollback failed: ", e.as_str())),
            Some(m) => Some(
                concat4(
                    "approval rollback failed: ",
                    e.as_str(),
                    "; resumable rollback failed: ",
                    m.as_str(),
                ),
            ),
        },
        _ => match removal {
            None => None,
            Some(m) => Some(concat2("resumable rollback failed: ", m.as_str())),
        },
    }
}

// ---------------------------------------------------------------------------
// Laws
// ---------------------------------------------------------------------------

/// A fresh suspension is announced, in the audit trail, in the journal or to the caller,
/// only when the state that resumes it is kept.
pub proof fn law_suspension_is_kept_before_it_is_announced(s: ClosingState)
    requires
        closing_valid(s),
        s.end is Suspend,
        !s.replaying,
        s.stage == ClosingStage::Audit || s.stage == ClosingStage::JournalThink || s.stage
            == ClosingStage::JournalSuspend,
    ensures
        s.persisted,
{
}

/// A suspension that could not be kept fails: whatever the rollback brings, the thought
/// ends in an error that says so, and neither a suspension nor a reply.
pub proof fn law_unkept_suspension_fails(
    s: ClosingState,
    error: Seq<char>,
    cleanup: Option<Seq<char>>,
)
    requires
        closing_valid(s),
        s.stage == ClosingStage::Persist,
    ensures
        ({
            let (t, request) = after_persist(s, Some(error));
            &&& request is Rollback
            &&& !t.persisted
            &&& after_rollback(t, cleanup).1 is Failed
            &&& crate::text::begins(
                "resumable persist failed: "@,
                after_rollback(t, cleanup).1->message,
            )
        }),
{
    let (t, request) = after_persist(s, Some(error));
    let m = after_rollback(t, cleanup).1->message;
    let head = "resumable persist failed: "@;
    assert(m.subrange(0, head.len() as int) =~= head);
}

/// Only an answer, or the reply of a turn that reached its limit, ever becomes a reply; a
/// call that waits for an approval never does.
pub proof fn law_suspension_is_no_reply(s: ClosingState, stored: Result<Seq<char>, Seq<char>>)
    requires
        s.end is Suspend,
    ensures
        !(to_audit(s).1 is Reply),
        !(after_audit(s).1 is Reply),
        !(after_journal(s, stored).1 is Reply),
        !(outcome_of(s.end) is Reply),
        !(first_step(s).1 is Reply),
{
}

/// Of an answer the audit trail keeps its length and nothing else.
pub proof fn law_audit_keeps_only_the_length(a: Seq<char>, b: Seq<char>, m: nat, n: nat)
    requires
        a.len() == b.len(),
    ensures
        end_audit(EndView::Answer { text: a, dispatches: m }) == end_audit(
            EndView::Answer { text: b, dispatches: n },
        ),
{
}

/// A replayed turn neither remembers nor keeps anything again.
pub proof fn law_replay_repeats_no_effect(s: ClosingState)
    requires
        s.replaying,
    ensures
        !(first_step(s).1 is Remember),
        !(first_step(s).1 is Persist),
{
}

/// A turn that began as a replay leaves no line in the audit trail.
pub proof fn law_replay_is_not_audited(
    s: ClosingState,
    error: Option<Seq<char>>,
    stored: Result<Seq<char>, Seq<char>>,
)
    requires
        !s.audited,
    ensures
        !(first_step(s).1 is Audit),
        !(to_audit(s).1 is Audit),
        !(after_persist(s, error).1 is Audit),
        !(after_journal(s, stored).1 is Audit),
{
}

// ---------------------------------------------------------------------------
// What a closing is for
// ---------------------------------------------------------------------------

/// The closing goes on for at most `n` steps, with a memory and an audit trail that work, with
/// what keeping the state gives, and with a journal that gives back `stored`, or what it is
/// handed where it holds nothing yet.
pub open spec fn closed(
    p: (ClosingState, ClosingView),
    error: Option<Seq<char>>,
    stored: Option<Seq<char>>,
    n: nat,
) -> (ClosingState, ClosingView)
    decreases n,
{
    if n == 0 || p.0.stage == ClosingStage::Done {
        p
    } else {
        let q = match p.0.stage {
            ClosingStage::Remember => to_audit(p.0),
            ClosingStage::Persist => after_persist(p.0, error),
            ClosingStage::Rollback => after_rollback(p.0, None),
            ClosingStage::Audit => after_audit(p.0),
            ClosingStage::JournalThink => after_journal(
                p.0,
                Ok(
                    match stored {
                        Some(t) => t,
                        None => p.1->JournalThink_text,
                    },
                ),
            ),
            _ => (ClosingState { stage: ClosingStage::Done, ..p.0 }, outcome_of(p.0.end)),
        };
        closed(q, error, stored, (n - 1) as nat)
    }
}

/// A loop that answers is closed with its answer as the reply, with a journal and without one,
/// however many tools it used.
pub proof fn law_answer_becomes_the_reply(s: ClosingState)
    requires
        s.end is Answer,
        s.end->text.len() > 0,
        s.stage == ClosingStage::Done,
    ensures
        closed(first_step(s), None, None, 6).0.stage == ClosingStage::Done,
        closed(first_step(s), None, None, 6).1 == ClosingView::Reply(s.end->text),
{
    reveal_with_fuel(closed, 7);
}

/// A turn whose thought is in the journal replies with the thought that is there.
pub proof fn law_journaled_thought_is_the_reply(s: ClosingState, kept: Seq<char>)
    requires
        s.turn is Some,
        !(s.end is Suspend),
        kept.len() > 0,
        s.stage == ClosingStage::Done,
    ensures
        closed(first_step(s), None, Some(kept), 6).1 == ClosingView::Reply(kept),
{
    reveal_with_fuel(closed, 7);
}

/// A loop that waits for an approval is closed as suspended, with its approval and what is to be
/// approved; a fresh one is kept first, under its approval.
pub proof fn law_suspension_is_handed_on(s: ClosingState)
    requires
        s.end is Suspend,
        s.stage == ClosingStage::Done,
    ensures
        closed(first_step(s), None, None, 6).0.stage == ClosingStage::Done,
        closed(first_step(s), None, None, 6).1 == (ClosingView::Suspended {
            approval_id: s.end->Suspend_approval_id,
            summary: s.end->Suspend_summary,
        }),
        !s.replaying ==> first_step(s).1 == (ClosingView::Persist {
            approval_id: s.end->Suspend_approval_id,
        }),
{
    reveal_with_fuel(closed, 7);
}

/// A fresh suspension that cannot be kept is rolled back, under its approval, and fails with
/// what went wrong.
pub proof fn law_unkept_suspension_is_rolled_back(s: ClosingState, error: Seq<char>)
    requires
        s.end is Suspend,
        !s.replaying,
        s.stage == ClosingStage::Done,
    ensures
        after_persist(first_step(s).0, Some(error)).1 == (ClosingView::Rollback {
            approval_id: s.end->Suspend_approval_id,
        }),
        closed(first_step(s), Some(error), None, 6).1 is Failed,
        error.is_suffix_of(closed(first_step(s), Some(error), None, 6).1->message),
{
    reveal_with_fuel(closed, 7);
    let m = closed(first_step(s), Some(error), None, 6).1->message;
    assert(m.subrange(m.len() - error.len(), m.len() as int) =~= error);
}

/// What went wrong with a journal is said.
pub proof fn law_journal_failure_is_said(s: ClosingState, error: Seq<char>)
    ensures
        after_journal(s, Err(error)).1 is Failed,
        error.is_suffix_of(after_journal(s, Err(error)).1->message),
{
    let m = after_journal(s, Err(error)).1->message;
    assert(m.subrange(m.len() - error.len(), m.len() as int) =~= error);
}

/// A loop that reaches its limit still replies: that it could not finish.
pub proof fn law_limit_is_answered(s: ClosingState)
    requires
        s.end is MaxIterations,
        s.stage == ClosingStage::Done,
    ensures
        closed(first_step(s), None, None, 6).1 == ClosingView::Reply(RECOVERY_REPLY@),
        RECOVERY_REPLY@.len() > 0,
{
    reveal_with_fuel(closed, 7);
    reveal_strlit(
        "En saanut vuoroa valmiiksi: työkalu epäonnistui tai turvaraja tuli vastaan. Yritä uudelleen tai rajaa pyyntöä.",
    );
}

/// A fresh turn that used tools is remembered: how often it did, and the beginning of its
/// answer, or all of a short one.
pub proof fn law_tool_use_is_remembered(s: ClosingState)
    requires
        s.turn is Some,
        s.end is Answer,
        s.end->dispatches > 0,
        !s.replaying,
    ensures
        ({
            let text = s.end->text;
            let r = first_step(s).1;
            &&& r is Remember
            &&& occurs(decimal(s.end->dispatches), r->content)
            &&& text.len() <= 240 ==> text.is_suffix_of(r->content)
            &&& text.len() > 240 ==> text.take(240).is_suffix_of(r->content)
            &&& r->source == TOOL_MEMORY_SOURCE@
            &&& r->tags.contains(TOOL_MEMORY_TAG@)
        }),
{
    let text = s.end->text;
    let r = first_step(s).1;
    let c = r->content;
    let kept = first_chars(text, 240);
    assert(c.subrange(c.len() - kept.len(), c.len() as int) =~= kept);
    let n = decimal(s.end->dispatches);
    let at = "verified tool turn (dispatch="@.len() as int;
    assert(c.subrange(at, at + n.len()) =~= n);
    assert(occurs_at(n, c, at));
    assert(r->tags[0] == TOOL_MEMORY_TAG@);
}

/// What the journal keeps of a thought is the thought, under the step of its turn.
pub proof fn law_thought_is_journaled_as_it_is(s: ClosingState)
    requires
        s.turn is Some,
        s.end is Answer,
    ensures
        after_audit(s).1 is JournalThink,
        after_audit(s).1->JournalThink_text == s.end->text,
        occurs(decimal(s.turn->Some_0), after_audit(s).1->JournalThink_step),
{
    let n = decimal(s.turn->Some_0);
    let t = after_audit(s).1->JournalThink_step;
    let at = "turn-"@.len() as int;
    assert(t.subrange(at, at + n.len()) =~= n);
    assert(occurs_at(n, t, at));
}

/// The journal and the audit trail name the approval that a turn waits for and say what is to
/// be approved.
pub proof fn law_suspension_is_recorded(s: ClosingState)
    requires
        s.turn is Some,
        s.end is Suspend,
    ensures
        after_audit(s).1 is JournalSuspend,
        s.end->Suspend_approval_id.is_prefix_of(after_audit(s).1->payload),
        s.end->Suspend_summary.is_suffix_of(after_audit(s).1->payload),
        end_audit(s.end).0 == AuditKind::TurnSuspended,
        occurs(s.end->Suspend_approval_id, end_audit(s.end).1),
        s.end->Suspend_summary.is_suffix_of(end_audit(s.end).1),
{
    let id = s.end->Suspend_approval_id;
    let about = s.end->Suspend_summary;
    let p = after_audit(s).1->payload;
    assert(p.subrange(0, id.len() as int) =~= id);
    assert(p.subrange(p.len() - about.len(), p.len() as int) =~= about);
    let d = end_audit(s.end).1;
    let at = "suspended awaiting approval "@.len() as int;
    assert(d.subrange(at, at + id.len()) =~= id);
    assert(occurs_at(id, d, at));
    assert(d.subrange(d.len() - about.len(), d.len() as int) =~= about);
}

/// Nothing that goes wrong in a rollback is passed over, and a rollback in which nothing does
/// says nothing.
pub proof fn law_rollback_errors_are_said(denial: Denial, removal: Option<Seq<char>>)
    ensures
        rollback_error(denial, removal) is None <==> !(denial is Failed) && removal is None,
        denial is Failed ==> occurs(denial->Failed_0@, rollback_error(denial, removal)->Some_0),
        removal is Some ==> occurs(removal->Some_0, rollback_error(denial, removal)->Some_0),
{
    let t = rollback_error(denial, removal)->Some_0;
    if denial is Failed {
        let e = denial->Failed_0@;
        let at = "approval rollback failed: "@.len() as int;
        assert(t.subrange(at, at + e.len()) =~= e);
        assert(occurs_at(e, t, at));
    }
    if removal is Some {
        let m = removal->Some_0;
        let at = t.len() - m.len();
        assert(t.subrange(at, at + m.len()) =~= m);
        assert(occurs_at(m, t, at));
    }
}

/// In a fresh turn the audit trail is told how the loop ended: with an answer of so many
/// characters, with a call that waits, or at its limit.
pub proof fn law_end_is_told_to_the_audit_trail(s: ClosingState)
    requires
        s.audited,
    ensures
        to_audit(s).1 is Audit,
        s.end is Answer ==> to_audit(s).1->kind == AuditKind::TurnAnswered && occurs(
            decimal(s.end->text.len()),
            to_audit(s).1->detail,
        ),
        s.end is Suspend ==> to_audit(s).1->kind == AuditKind::TurnSuspended,
        s.end is MaxIterations ==> to_audit(s).1->kind == AuditKind::TurnMaxIterations && occurs(
            decimal(s.end->iterations),
            to_audit(s).1->detail,
        ),
{
    let d = to_audit(s).1->detail;
    if s.end is Answer {
        let n = decimal(s.end->text.len());
        let at = "answered ("@.len() as int;
        assert(d.subrange(at, at + n.len()) =~= n);
        assert(occurs_at(n, d, at));
    } else if s.end is MaxIterations {
        let n = decimal(s.end->iterations);
        let at = "reached max iterations ("@.len() as int;
        assert(d.subrange(at, at + n.len()) =~= n);
        assert(occurs_at(n, d, at));
    }
}

/// Where the rollback of a suspension fails too, both errors are said.
pub proof fn law_failed_rollback_is_said(s: ClosingState, cleanup: Seq<char>)
    ensures
        after_rollback(s, Some(cleanup)).1 is Failed,
        occurs(s.persist_error, after_rollback(s, Some(cleanup)).1->message),
        cleanup.is_suffix_of(after_rollback(s, Some(cleanup)).1->message),
{
    let m = after_rollback(s, Some(cleanup)).1->message;
    let e = s.persist_error;
    let at = "resumable persist failed: "@.len() as int;
    assert(m.subrange(at, at + e.len()) =~= e);
    assert(occurs_at(e, m, at));
    assert(m.subrange(m.len() - cleanup.len(), m.len() as int) =~= cleanup);
}

} // verus!
