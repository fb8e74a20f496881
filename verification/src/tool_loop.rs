//! The tool loop: a model that works with tools until it answers.
//!
//! The model is asked; where it wants tools, each call is resolved and dispatched and its
//! result goes back to the model; where it wants none, it has answered. [`ToolLoop`]
//! decides each step. Asking the model, looking tools up, dispatching them and keeping
//! the journal is the caller's work: it performs the [`LoopRequest`] that it is given
//! and reports what came of it.
//!
//! There are two kinds of loops. A durable loop belongs to a turn: every answer of the model
//! and every dispatch is a step of the turn's journal. What the journal holds of a step is
//! taken from it, and the model is not asked and the tool not run again; what it does not
//! hold is done, and written to it before it takes effect. In a durable loop tools have a
//! budget, a request for work may force the model to use a tool, and answers pass the
//! grounding guard. A plain loop has none of these; where it continues an approved turn, its
//! dispatches carry keys that stay the same across a restart.
use vstd::prelude::*;

use crate::error::{model_failure, tagged, FamilyClawError};
use crate::grounding::{
    apply_grounding_guard, asks_for_action, guarded, law_guard_only_appends,
    looks_like_action_request,
};
use crate::json::{Json, Tree};
use crate::llm::{
    calls_view, copy_messages, copy_opt, copy_opt_calls, messages_view, opt_calls_view, opt_view,
    tool_message, CallView, LlmError, LlmMessage, LlmRole, MessageView, ToolCall,
};
use crate::text::{
    concat3, concat4, contains, copy_of, decimal, decimal_text, lowercase, occurs, occurs_at, same,
    trimmed, views,
};

verus! {

// ---------------------------------------------------------------------------
// Texts
// ---------------------------------------------------------------------------

/// What the model is told where a tool is out of budget.
pub const BUDGET_EXCEEDED: &'static str =
    "SYSTEM: Tool budget exceeded for this turn. Reply to the operator now with your best answer â€” do not call more tools.";

/// The journal step of the model's answer in a round.
pub open spec fn model_step(prefix: Seq<char>, iteration: nat) -> Seq<char> {
    prefix + "-llm-"@ + decimal(iteration)
}

/// The journal step and the key of a dispatch.
pub open spec fn dispatch_key(prefix: Seq<char>, index: nat) -> Seq<char> {
    prefix + "-dispatch-"@ + decimal(index)
}

/// What the audit trail says of a call.
pub open spec fn audit_text(tool: Seq<char>, what: Seq<char>) -> Seq<char> {
    "tool '"@ + tool + "' "@ + what
}

/// What the model is told where it calls a tool that does not exist.
pub open spec fn unknown_tool_text(tool: Seq<char>) -> Seq<char> {
    "error: unknown tool '"@ + tool + "'"@
}

/// What the model is told where a tool failed.
pub open spec fn tool_failure_text(tool: Seq<char>, error: Seq<char>) -> Seq<char> {
    "error: tool '"@ + tool + "' failed: "@ + error
}

/// What the model is told where a tool failed.
pub fn format_tool_failure_for_model(tool: &str, error: &str) -> (r: String)
    ensures
        r@ == tool_failure_text(tool@, error@),
{
    concat4("error: tool '", tool, "' failed: ", error)
}

// ---------------------------------------------------------------------------
// The state
// ---------------------------------------------------------------------------

/// What the loop waits for.
#[derive(Debug, Clone, Copy, PartialEq, Eq, Structural)]
pub enum Stage {
    /// What the journal holds of the model's answer.
    RecallAnswer,
    /// The answer of the model.
    Model,
    /// The answer of the model that has to use a tool.
    Retry,
    /// The journal that takes the answer.
    Journal,
    /// The audit trail.
    Note,
    /// Whether a tool exists.
    Resolve,
    /// What the journal holds of a dispatch.
    RecallDispatch,
    /// The record of a dispatch.
    Dispatch,
    /// The journal that takes the record.
    JournalDispatch,
    /// The summary of a call that waits for an approval.
    Summarize,
    /// The result of a dispatch that was done.
    Fetch,
    /// A last answer of the model, without tools.
    Recover,
    /// Nothing: the loop has ended.
    Done,
}

/// An answer of the model.
pub struct Answer {
    pub content: Option<Seq<char>>,
    pub calls: Option<Seq<CallView>>,
}

/// The mathematical value of a [`DispatchRecord`].
pub struct RecordView {
    pub task_id: Seq<char>,
    pub status: Seq<char>,
    pub pending_approval: Option<Seq<char>>,
    pub error: Option<Seq<char>>,
}

/// When the metric of a dispatch is counted.
#[derive(Debug, Clone, Copy, PartialEq, Eq, Structural)]
pub enum Metric {
    /// Now.
    Count,
    /// Now, unless the journal is being replayed.
    CountIfFresh,
    /// Not at all.
    Skip,
}

/// The mathematical state of a [`ToolLoop`].
pub struct LoopState {
    /// Is this the loop of a turn, with a journal?
    pub durable: bool,
    /// What the names of the steps and keys begin with.
    pub prefix: Option<Seq<char>>,
    /// Does the user ask for work?
    pub asks: bool,
    /// How often the model may be asked.
    pub budget: nat,
    /// How often one tool may be called.
    pub per_name: nat,
    /// How often files may be read.
    pub fs_limit: nat,
    /// The number of the first dispatch.
    pub base: nat,
    /// The conversation so far.
    pub messages: Seq<MessageView>,
    /// The last text of the model.
    pub last_text: Seq<char>,
    /// How many rounds have asked for tools.
    pub iteration: nat,
    /// The number of the next dispatch.
    pub index: nat,
    /// How many dispatches were done.
    pub count: nat,
    /// The tools that were called, in order.
    pub called: Seq<Seq<char>>,
    /// The keys and tools of the dispatches, in order.
    pub log: Seq<(Option<Seq<char>>, Seq<char>)>,
    /// Of each of them, whether the tool was to be run. The others come from the journal.
    pub submitted: Seq<bool>,
    /// The answer that waits for the journal.
    pub pending: Answer,
    /// The record of the current dispatch.
    pub record: Option<RecordView>,
    /// The calls of the current round.
    pub calls: Seq<CallView>,
    /// How many of them are settled.
    pub next: nat,
    /// What the loop waits for.
    pub stage: Stage,
}

/// The mathematical value of a [`LoopRequest`].
pub enum RequestView {
    RecallAnswer { step: Seq<char> },
    Model { required: bool },
    Journal { step: Seq<char>, answer: Answer },
    Note { audit: Seq<char>, metric: Metric },
    Resolve { name: Seq<char> },
    RecallDispatch { step: Seq<char> },
    Dispatch { key: Option<Seq<char>>, call: CallView },
    JournalDispatch { step: Seq<char>, record: RecordView },
    Summarize { approval_id: Seq<char> },
    Fetch { task_id: Seq<char>, status: Seq<char> },
    Recover,
    Answer { text: Seq<char>, dispatches: nat },
    Suspend {
        tool: Seq<char>,
        approval_id: Seq<char>,
        summary: Seq<char>,
        messages: Seq<MessageView>,
        call_id: Seq<char>,
        arguments: Tree,
        audit: Seq<char>,
        metric: Metric,
    },
    MaxIterations { iterations: nat },
    Failed { message: Seq<char> },
}

/// How often `name` stands in `names`.
pub open spec fn occurrences(names: Seq<Seq<char>>, name: Seq<char>) -> nat
    decreases names.len(),
{
    if names.len() == 0 {
        0
    } else {
        occurrences(names.drop_last(), name) + if names.last() == name {
            1nat
        } else {
            0nat
        }
    }
}

/// A tool that reads files.
pub open spec fn reads_files(name: Seq<char>) -> bool {
    occurs("fs_read"@, name)
}

/// How many of `names` read files.
pub open spec fn file_reads(names: Seq<Seq<char>>) -> nat
    decreases names.len(),
{
    if names.len() == 0 {
        0
    } else {
        file_reads(names.drop_last()) + if reads_files(names.last()) {
            1nat
        } else {
            0nat
        }
    }
}

/// The last of `called` is one call too many: its tool, or the reading of files, is out
/// of budget.
pub open spec fn over_budget(s: LoopState, called: Seq<Seq<char>>) -> bool {
    let name = called.last();
    occurrences(called, name) > s.per_name || (reads_files(name) && file_reads(called)
        > s.fs_limit)
}

/// The answer as it leaves the loop.
pub open spec fn outgoing(s: LoopState, text: Seq<char>) -> RequestView {
    RequestView::Answer {
        text: if s.durable {
            guarded(text, s.count)
        } else {
            text
        },
        dispatches: s.count,
    }
}

/// No answer waits for the journal.
pub open spec fn no_answer() -> Answer {
    Answer { content: None, calls: None }
}

/// The loop ends with an error.
pub open spec fn failed(s: LoopState, message: Seq<char>) -> (LoopState, RequestView) {
    (LoopState { stage: Stage::Done, ..s }, RequestView::Failed { message })
}

/// The next round: the model is asked, unless the budget is used up; in a durable loop the
/// journal is asked first. Where the budget is used up, the last text is the answer, or, where
/// there is none, a last one is asked for.
pub open spec fn next_round(s: LoopState) -> (LoopState, RequestView) {
    if s.iteration < s.budget {
        if s.durable && s.prefix is Some {
            (
                LoopState { stage: Stage::RecallAnswer, ..s },
                RequestView::RecallAnswer { step: model_step(s.prefix->Some_0, s.iteration) },
            )
        } else {
            (LoopState { stage: Stage::Model, ..s }, RequestView::Model { required: false })
        }
    } else if s.last_text.len() == 0 {
        (LoopState { stage: Stage::Recover, ..s }, RequestView::Recover)
    } else {
        (LoopState { stage: Stage::Done, ..s }, outgoing(s, s.last_text))
    }
}

/// The current call is settled with `result`.
pub open spec fn settled(s: LoopState, result: Seq<char>) -> LoopState {
    LoopState {
        messages: s.messages.push(tool_message(s.calls[s.next as int].id, result)),
        next: s.next + 1,
        stage: Stage::Note,
        ..s
    }
}

/// The metric of a call that is not dispatched.
pub open spec fn idle_metric(s: LoopState) -> Metric {
    if s.durable {
        Metric::CountIfFresh
    } else {
        Metric::Skip
    }
}

/// The metric of the current dispatch: it is counted where the tool was to be run, and not
/// where the dispatch comes from the journal.
pub open spec fn dispatch_metric(s: LoopState) -> Metric {
    if s.durable && s.submitted.last() {
        Metric::Count
    } else {
        Metric::Skip
    }
}

/// The next call of the round, or the next round.
pub open spec fn next_call(s: LoopState) -> (LoopState, RequestView) {
    if s.next >= s.calls.len() {
        next_round(s)
    } else {
        let name = s.calls[s.next as int].name;
        let called = s.called.push(name);
        let t = LoopState { called, ..s };
        if s.durable && over_budget(s, called) {
            (
                settled(t, BUDGET_EXCEEDED@),
                RequestView::Note {
                    audit: audit_text(name, "skipped: per-turn budget exceeded"@),
                    metric: idle_metric(s),
                },
            )
        } else {
            (LoopState { stage: Stage::Resolve, ..t }, RequestView::Resolve { name })
        }
    }
}

/// The answer asks for no tool.
pub open spec fn is_final(a: Answer) -> bool {
    a.calls is None || a.calls->Some_0.len() == 0
}

/// The text of an answer.
pub open spec fn content_of(a: Answer) -> Seq<char> {
    match a.content {
        Some(t) => t,
        None => Seq::empty(),
    }
}

/// An answer takes effect: one without calls ends the loop with its text, or the last
/// text that there was; one with calls opens a round.
pub open spec fn accept(s: LoopState, a: Answer) -> (LoopState, RequestView) {
    let text = content_of(a);
    let last_text = if text.len() > 0 {
        text
    } else {
        s.last_text
    };
    if is_final(a) {
        let t = LoopState { last_text, pending: no_answer(), stage: Stage::Done, ..s };
        (t, outgoing(t, last_text))
    } else {
        let calls = a.calls->Some_0;
        let spoken = MessageView {
            role: LlmRole::Assistant,
            content: text,
            tool_call_id: None,
            tool_calls: Some(calls),
        };
        next_call(
            LoopState {
                last_text,
                pending: no_answer(),
                messages: s.messages.push(spoken),
                calls,
                next: 0,
                iteration: s.iteration + 1,
                ..s
            },
        )
    }
}

/// What the journal holds of the model's answer: it takes effect; where it holds nothing, the
/// model is asked.
pub open spec fn after_answer_recall(s: LoopState, stored: Result<Option<Answer>, Seq<char>>) -> (
    LoopState,
    RequestView,
) {
    match stored {
        Err(e) => failed(s, "durable llm replay failed: "@ + e),
        Ok(Some(a)) => accept(s, a),
        Ok(None) => (
            LoopState { stage: Stage::Model, ..s },
            RequestView::Model { required: false },
        ),
    }
}

/// Is the model to be asked again, with a tool required? In the first round of a turn,
/// before any dispatch, where the user asks for work, tools were offered and none was
/// called.
pub open spec fn escalates(s: LoopState, a: Answer, tools_offered: bool) -> bool {
    &&& s.durable
    &&& s.stage == Stage::Model
    &&& is_final(a)
    &&& s.iteration == 0
    &&& s.index == s.base
    &&& tools_offered
    &&& s.asks
}

/// A fresh answer of the model: it may be asked for again; in a durable loop it goes to
/// the journal first.
pub open spec fn after_model(s: LoopState, a: Answer, tools_offered: bool) -> (
    LoopState,
    RequestView,
) {
    if escalates(s, a, tools_offered) {
        (
            LoopState { stage: Stage::Retry, ..s },
            RequestView::Model { required: true },
        )
    } else if s.durable && s.prefix is Some {
        (
            LoopState { pending: a, stage: Stage::Journal, ..s },
            RequestView::Journal { step: model_step(s.prefix->Some_0, s.iteration), answer: a },
        )
    } else {
        accept(s, a)
    }
}

/// The answer is in the journal, and takes effect, or could not be written there.
pub open spec fn after_journal(s: LoopState, written: Result<(), Seq<char>>) -> (
    LoopState,
    RequestView,
) {
    match written {
        Ok(_) => accept(s, s.pending),
        Err(e) => failed(
            LoopState { pending: no_answer(), ..s },
            "durable llm step failed: "@ + e,
        ),
    }
}

/// The tool of the current call is looked up. One that does not exist is an error for the
/// model. For one that exists, a durable loop asks the journal first; a plain one dispatches
/// the call.
pub open spec fn after_resolve(s: LoopState, known: bool) -> (LoopState, RequestView) {
    let call = s.calls[s.next as int];
    if !known {
        (
            settled(s, unknown_tool_text(call.name)),
            RequestView::Note {
                audit: audit_text(call.name, "dispatched: unknown tool"@),
                metric: idle_metric(s),
            },
        )
    } else {
        match s.prefix {
            Some(p) => {
                let key = dispatch_key(p, s.index);
                let t = LoopState {
                    index: s.index + 1,
                    log: s.log.push((Some(key), call.name)),
                    submitted: s.submitted.push(!s.durable),
                    ..s
                };
                if s.durable {
                    (
                        LoopState { stage: Stage::RecallDispatch, ..t },
                        RequestView::RecallDispatch { step: key },
                    )
                } else {
                    (
                        LoopState { stage: Stage::Dispatch, ..t },
                        RequestView::Dispatch { key: Some(key), call },
                    )
                }
            },
            None => (
                LoopState {
                    log: s.log.push((None, call.name)),
                    submitted: s.submitted.push(true),
                    stage: Stage::Dispatch,
                    ..s
                },
                RequestView::Dispatch { key: None, call },
            ),
        }
    }
}

/// The record of the current dispatch takes effect. A failure goes to the model; of a call
/// that waits for an approval the summary is asked for, and of one that was done the result.
pub open spec fn after_record(s: LoopState, record: RecordView) -> (LoopState, RequestView) {
    let call = s.calls[s.next as int];
    match (record.error, record.pending_approval) {
        (Some(error), _) => (
            settled(LoopState { record: None, ..s }, tool_failure_text(call.name, error)),
            RequestView::Note {
                audit: audit_text(call.name, "dispatched: failed: "@ + error),
                metric: dispatch_metric(s),
            },
        ),
        (None, Some(approval_id)) => (
            LoopState { record: Some(record), stage: Stage::Summarize, ..s },
            RequestView::Summarize { approval_id },
        ),
        (None, None) => (
            LoopState {
                record: Some(record),
                count: saturating_next(s.count),
                stage: Stage::Fetch,
                ..s
            },
            RequestView::Fetch { task_id: record.task_id, status: record.status },
        ),
    }
}

/// What the journal holds of the current dispatch: it takes effect, and the tool is not run;
/// where it holds nothing, the call is dispatched.
pub open spec fn after_dispatch_recall(
    s: LoopState,
    stored: Result<Option<RecordView>, Seq<char>>,
) -> (LoopState, RequestView) {
    match stored {
        Err(e) => failed(s, "durable dispatch replay failed: "@ + e),
        Ok(Some(record)) => after_record(s, record),
        Ok(None) => (
            LoopState {
                submitted: s.submitted.drop_last().push(true),
                stage: Stage::Dispatch,
                ..s
            },
            RequestView::Dispatch { key: s.log.last().0, call: s.calls[s.next as int] },
        ),
    }
}

/// The call was dispatched. In a durable loop the record goes to the journal before it takes
/// effect.
pub open spec fn after_dispatch(s: LoopState, record: RecordView) -> (LoopState, RequestView) {
    if s.durable {
        (
            LoopState { record: Some(record), stage: Stage::JournalDispatch, ..s },
            RequestView::JournalDispatch { step: s.log.last().0->Some_0, record },
        )
    } else {
        after_record(s, record)
    }
}

/// The record is in the journal, and takes effect, or could not be written there.
pub open spec fn after_dispatch_journal(s: LoopState, written: Result<(), Seq<char>>) -> (
    LoopState,
    RequestView,
) {
    match written {
        Ok(_) => after_record(s, s.record->Some_0),
        Err(e) => failed(
            LoopState { record: None, ..s },
            "durable dispatch step failed: "@ + e,
        ),
    }
}

/// The summary of a call that waits for an approval came, or there is none. The loop ends,
/// with the call still open.
pub open spec fn after_summary(s: LoopState, summary: Option<Seq<char>>) -> (
    LoopState,
    RequestView,
) {
    let call = s.calls[s.next as int];
    let text = approval_summary(call.name, summary);
    (
        LoopState { record: None, stage: Stage::Done, ..s },
        RequestView::Suspend {
            tool: call.name,
            approval_id: s.record->Some_0.pending_approval->Some_0,
            summary: text,
            messages: s.messages,
            call_id: call.id,
            arguments: call.arguments,
            audit: audit_text(call.name, "dispatched: awaiting approval ("@ + text + ")"@),
            metric: dispatch_metric(s),
        },
    )
}

/// The result of a dispatch that was done came, and goes to the model.
pub open spec fn after_fetch(s: LoopState, result: Seq<char>) -> (LoopState, RequestView) {
    let call = s.calls[s.next as int];
    (
        settled(LoopState { record: None, ..s }, result),
        RequestView::Note {
            audit: audit_text(call.name, "dispatched: "@ + result),
            metric: dispatch_metric(s),
        },
    )
}

/// The request asks for what the stage waits for, so that whoever answers it can always go on.
pub open spec fn waits_for(stage: Stage, request: RequestView) -> bool {
    match stage {
        Stage::RecallAnswer => request is RecallAnswer,
        Stage::Model => request is Model && !request->required,
        Stage::Retry => request is Model && request->required,
        Stage::Journal => request is Journal,
        Stage::Note => request is Note,
        Stage::Resolve => request is Resolve,
        Stage::RecallDispatch => request is RecallDispatch,
        Stage::Dispatch => request is Dispatch,
        Stage::JournalDispatch => request is JournalDispatch,
        Stage::Summarize => request is Summarize,
        Stage::Fetch => request is Fetch,
        Stage::Recover => request is Recover,
        Stage::Done => request is Answer || request is Suspend || request is MaxIterations
            || request is Failed,
    }
}

/// What came of a dispatch, as the journal keeps it.
#[derive(Debug, Clone, PartialEq, Eq)]
pub struct DispatchRecord {
    /// The task that the call became.
    pub task_id: String,
    /// Its status.
    pub status: String,
    /// The approval that it waits for, if it does.
    pub pending_approval: Option<String>,
    /// Why it failed, if it did.
    pub error: Option<String>,
}

impl View for DispatchRecord {
    type V = RecordView;

    open spec fn view(&self) -> RecordView {
        RecordView {
            task_id: self.task_id@,
            status: self.status@,
            pending_approval: opt_view(self.pending_approval),
            error: opt_view(self.error),
        }
    }
}

impl DispatchRecord {
    /// A copy of the record.
    pub fn copy(&self) -> (r: Self)
        ensures
            r@ == self@,
    {
        DispatchRecord {
            task_id: copy_of(self.task_id.as_str()),
            status: copy_of(self.status.as_str()),
            pending_approval: copy_opt(&self.pending_approval),
            error: copy_opt(&self.error),
        }
    }
}

/// The value of an optional record.
pub open spec fn opt_record_view(r: Option<DispatchRecord>) -> Option<RecordView> {
    match r {
        Some(x) => Some(x@),
        None => None,
    }
}

/// The summary of a call that waits for an approval.
pub open spec fn approval_summary(tool: Seq<char>, summary: Option<Seq<char>>) -> Seq<char> {
    match summary {
        Some(s) => s,
        None => "tool '"@ + tool + "' awaiting human approval"@,
    }
}

/// One more, as far as numbers go.
pub open spec fn saturating_next(n: nat) -> nat {
    if n < u32::MAX {
        n + 1
    } else {
        n
    }
}

/// The last answer that was asked for came, or did not.
pub open spec fn after_recovery(s: LoopState, text: Option<Seq<char>>) -> (
    LoopState,
    RequestView,
) {
    (
        LoopState { stage: Stage::Done, ..s },
        match text {
            Some(t) => outgoing(s, t),
            None => RequestView::MaxIterations { iterations: s.budget },
        },
    )
}

/// A loop to which nothing has happened.
pub open spec fn initial(
    durable: bool,
    prefix: Option<Seq<char>>,
    asks: bool,
    budget: nat,
    per_name: nat,
    fs_limit: nat,
    base: nat,
    messages: Seq<MessageView>,
) -> LoopState {
    LoopState {
        durable,
        prefix,
        asks,
        budget,
        per_name,
        fs_limit,
        base,
        messages,
        last_text: Seq::empty(),
        iteration: 0,
        index: base,
        count: 0,
        called: Seq::empty(),
        log: Seq::empty(),
        submitted: Seq::empty(),
        pending: no_answer(),
        record: None,
        calls: Seq::empty(),
        next: 0,
        stage: Stage::Model,
    }
}

// ---------------------------------------------------------------------------
// What always holds
// ---------------------------------------------------------------------------

/// The tools of the dispatches that were asked for.
pub open spec fn dispatched(s: LoopState) -> Seq<Seq<char>> {
    s.log.map_values(|e: (Option<Seq<char>>, Seq<char>)| e.1)
}

/// The round is answered in order: behind the message that asks for the calls stand the
/// results of the first `next` of them.
pub open spec fn answered_in_order(s: LoopState) -> bool {
    let at = s.messages.len() - s.next - 1;
    s.calls.len() > 0 ==> {
        &&& at >= 0
        &&& s.messages[at].role is Assistant
        &&& s.messages[at].tool_calls == Some(s.calls)
        &&& forall|i: int|
            0 <= i < s.next ==> (#[trigger] s.messages[at + 1 + i]).role is Tool
                && s.messages[at + 1 + i].tool_call_id == Some(s.calls[i].id)
    }
}

/// Every dispatch has the key of its number.
pub open spec fn keys_in_order(s: LoopState) -> bool {
    match s.prefix {
        Some(p) => s.index == s.base + s.log.len() && forall|i: int|
            0 <= i < s.log.len() ==> (#[trigger] s.log[i]).0 == Some(
                dispatch_key(p, (s.base + i) as nat),
            ),
        None => s.index == s.base && forall|i: int|
            0 <= i < s.log.len() ==> (#[trigger] s.log[i]).0 is None,
    }
}

/// No tool was dispatched more often than it was called, nor than its budget allows; the
/// same holds of the reading of files.
pub open spec fn within_budget(s: LoopState) -> bool {
    &&& forall|name: Seq<char>|
        #[trigger] occurrences(dispatched(s), name) <= occurrences(s.called, name)
    &&& s.durable ==> forall|name: Seq<char>|
        #[trigger] occurrences(dispatched(s), name) <= s.per_name
    &&& file_reads(dispatched(s)) <= file_reads(s.called)
    &&& s.durable ==> file_reads(dispatched(s)) <= s.fs_limit
}

/// The current call was counted, is not dispatched yet, and is within its budget.
pub open spec fn call_is_open(s: LoopState) -> bool {
    let name = s.calls[s.next as int].name;
    &&& s.next < s.calls.len()
    &&& occurrences(dispatched(s), name) + 1 <= occurrences(s.called, name)
    &&& s.durable ==> occurrences(s.called, name) <= s.per_name
    &&& reads_files(name) ==> file_reads(dispatched(s)) + 1 <= file_reads(s.called)
    &&& s.durable && reads_files(name) ==> file_reads(s.called) <= s.fs_limit
}

/// Does the stage belong to a question to the model?
pub open spec fn asks_model(stage: Stage) -> bool {
    stage == Stage::RecallAnswer || stage == Stage::Model || stage == Stage::Retry || stage
        == Stage::Journal
}

/// Does the stage belong to a dispatch?
pub open spec fn dispatches(stage: Stage) -> bool {
    stage == Stage::RecallDispatch || stage == Stage::Dispatch || stage == Stage::JournalDispatch
        || stage == Stage::Summarize || stage == Stage::Fetch
}

/// What holds of every state that a loop reaches.
pub open spec fn valid(s: LoopState) -> bool {
    &&& s.next <= s.calls.len()
    &&& s.iteration <= s.budget
    &&& answered_in_order(s)
    &&& keys_in_order(s)
    &&& within_budget(s)
    &&& s.durable ==> s.prefix is Some
    &&& s.submitted.len() == s.log.len()
    &&& asks_model(s.stage) ==> s.next == s.calls.len() && s.iteration < s.budget
    &&& s.stage == Stage::Journal || s.stage == Stage::RecallAnswer ==> s.durable
    &&& s.stage == Stage::Retry ==> s.durable && s.iteration == 0
    &&& s.stage == Stage::Resolve ==> call_is_open(s)
    &&& dispatches(s.stage) ==> s.next < s.calls.len() && s.log.len() > 0
    &&& s.stage == Stage::RecallDispatch || s.stage == Stage::JournalDispatch ==> s.durable
    &&& s.stage == Stage::RecallDispatch ==> !s.submitted.last()
    &&& s.stage == Stage::Dispatch || s.stage == Stage::JournalDispatch ==> s.submitted.last()
    &&& s.stage != Stage::Journal ==> s.pending == no_answer()
    &&& s.record is Some <==> s.stage == Stage::JournalDispatch || s.stage == Stage::Summarize
        || s.stage == Stage::Fetch
    &&& s.stage == Stage::Summarize ==> s.record->Some_0.pending_approval is Some
    &&& s.stage == Stage::Recover ==> s.last_text.len() == 0 && s.iteration == s.budget
}

/// How far a stage is from the end of its call or round.
pub open spec fn rank(stage: Stage) -> nat {
    match stage {
        Stage::Note => 8,
        Stage::RecallAnswer => 7,
        Stage::Model => 6,
        Stage::Retry => 5,
        Stage::Journal => 4,
        Stage::Resolve => 5,
        Stage::RecallDispatch => 4,
        Stage::Dispatch => 3,
        Stage::JournalDispatch => 2,
        Stage::Summarize => 1,
        Stage::Fetch => 1,
        Stage::Recover => 1,
        Stage::Done => 0,
    }
}

/// `b` is nearer to the end than `a`: fewer rounds are left, or as many with fewer calls,
/// or as many of both with a nearer stage.
pub open spec fn nearer(a: LoopState, b: LoopState) -> bool {
    let rounds_a = a.budget - a.iteration;
    let rounds_b = b.budget - b.iteration;
    let calls_a = a.calls.len() - a.next;
    let calls_b = b.calls.len() - b.next;
    ||| b.stage == Stage::Done
    ||| rounds_b < rounds_a
    ||| rounds_b == rounds_a && calls_b < calls_a
    ||| rounds_b == rounds_a && calls_b == calls_a && rank(b.stage) < rank(a.stage)
}

proof fn lemma_occurrences_push(names: Seq<Seq<char>>, name: Seq<char>, other: Seq<char>)
    ensures
        occurrences(names.push(name), other) == occurrences(names, other) + if name == other {
            1nat
        } else {
            0nat
        },
        file_reads(names.push(name)) == file_reads(names) + if reads_files(name) {
            1nat
        } else {
            0nat
        },
{
    assert(names.push(name).drop_last() =~= names);
}

/// Settling a call keeps what always holds.
proof fn lemma_settled(s: LoopState, result: Seq<char>)
    requires
        valid(LoopState { stage: Stage::Note, ..s }),
        s.next < s.calls.len(),
    ensures
        valid(settled(s, result)),
{
    let t = settled(s, result);
    assert(dispatched(t) =~= dispatched(s));
    let at = s.messages.len() - s.next - 1;
    assert(t.messages.len() - t.next - 1 == at);
    assert forall|i: int| 0 <= i < t.next implies (#[trigger] t.messages[at + 1 + i]).role is Tool
        && t.messages[at + 1 + i].tool_call_id == Some(t.calls[i].id) by {
        if i < s.next {
            assert(t.messages[at + 1 + i] == s.messages[at + 1 + i]);
        }
    }
}

proof fn lemma_next_round(s: LoopState)
    requires
        valid(LoopState { stage: Stage::Note, ..s }),
        s.next == s.calls.len(),
    ensures
        valid(next_round(s).0),
{
    let t = next_round(s).0;
    assert(dispatched(t) =~= dispatched(s));
}

proof fn lemma_next_call(s: LoopState)
    requires
        valid(LoopState { stage: Stage::Note, ..s }),
    ensures
        valid(next_call(s).0),
        s.stage == Stage::Note ==> nearer(s, next_call(s).0),
{
    if s.next >= s.calls.len() {
        lemma_next_round(s);
    } else {
        let name = s.calls[s.next as int].name;
        let called = s.called.push(name);
        let t = LoopState { called, ..s };
        let u = LoopState { called, stage: Stage::Note, ..s };
        assert(dispatched(t) =~= dispatched(s));
        assert(dispatched(u) =~= dispatched(s));
        assert forall|n: Seq<char>| #[trigger]
            occurrences(dispatched(s), n) <= occurrences(called, n) by {
            lemma_occurrences_push(s.called, name, n);
            assert(dispatched(LoopState { stage: Stage::Note, ..s }) =~= dispatched(s));
        }
        assert(dispatched(LoopState { stage: Stage::Note, ..s }) =~= dispatched(s));
        lemma_occurrences_push(s.called, name, name);
        assert(valid(u));
        assert(called.last() == name);
        if s.durable && over_budget(s, called) {
            assert(LoopState { stage: Stage::Note, ..t } == u);
            lemma_settled(t, BUDGET_EXCEEDED@);
        } else {
            let r = LoopState { stage: Stage::Resolve, ..t };
            assert(dispatched(r) =~= dispatched(s));
            assert(call_is_open(r));
        }
    }
}

/// A loop that fails keeps what always holds.
proof fn lemma_failed(s: LoopState)
    requires
        valid(s),
    ensures
        valid(LoopState { pending: no_answer(), record: None, stage: Stage::Done, ..s }),
{
    let t = LoopState { pending: no_answer(), record: None, stage: Stage::Done, ..s };
    assert(dispatched(t) =~= dispatched(s));
}

/// A record that takes effect keeps what always holds.
proof fn lemma_record(s: LoopState, record: RecordView)
    requires
        valid(s),
        s.stage == Stage::RecallDispatch || s.stage == Stage::Dispatch || s.stage
            == Stage::JournalDispatch,
    ensures
        valid(after_record(s, record).0),
        nearer(s, after_record(s, record).0),
{
    let t = LoopState { record: None, ..s };
    let u = LoopState { stage: Stage::Note, ..t };
    assert(dispatched(u) =~= dispatched(s));
    assert(valid(u));
    if record.error is Some {
        lemma_settled(t, tool_failure_text(s.calls[s.next as int].name, record.error->Some_0));
    } else {
        assert(dispatched(after_record(s, record).0) =~= dispatched(s));
    }
}

proof fn lemma_accept(s: LoopState, a: Answer)
    requires
        valid(s),
        asks_model(s.stage),
    ensures
        valid(accept(s, a).0),
        nearer(s, accept(s, a).0),
{
    let text = content_of(a);
    let last_text = if text.len() > 0 {
        text
    } else {
        s.last_text
    };
    if is_final(a) {
        let t = LoopState { last_text, pending: no_answer(), stage: Stage::Done, ..s };
        assert(dispatched(t) =~= dispatched(s));
    } else {
        let calls = a.calls->Some_0;
        let spoken = MessageView {
            role: LlmRole::Assistant,
            content: text,
            tool_call_id: None,
            tool_calls: Some(calls),
        };
        let t = LoopState {
            last_text,
            pending: no_answer(),
            messages: s.messages.push(spoken),
            calls,
            next: 0,
            iteration: s.iteration + 1,
            ..s
        };
        let u = LoopState { stage: Stage::Note, ..t };
        assert(dispatched(u) =~= dispatched(s));
        assert(dispatched(t) =~= dispatched(s));
        assert(valid(u));
        lemma_next_call(t);
        assert(next_call(t).0.iteration == s.iteration + 1);
    }
}

// ---------------------------------------------------------------------------
// The loop
// ---------------------------------------------------------------------------

/// What the caller has to do next.
#[derive(Debug)]
pub enum LoopRequest {
    /// Look into the journal for the answer of a step. A journal that is not being replayed
    /// holds nothing of it.
    RecallAnswer {
        /// The step.
        step: String,
    },
    /// Ask the model, offering tools.
    Model {
        /// Does the model have to use a tool?
        required: bool,
    },
    /// Write the answer to the journal.
    Journal {
        /// The step.
        step: String,
        /// The text of the answer.
        content: Option<String>,
        /// The calls of the answer.
        calls: Option<Vec<ToolCall>>,
    },
    /// Write a line to the audit trail.
    Note {
        /// The line.
        audit: String,
        /// Whether the dispatch is counted.
        metric: Metric,
    },
    /// Look a tool up.
    Resolve {
        /// The name by which the model called it.
        name: String,
    },
    /// Look into the journal for the record of a step. A journal that is not being replayed
    /// holds nothing of it.
    RecallDispatch {
        /// The step.
        step: String,
    },
    /// Run the tool of a call.
    Dispatch {
        /// The key under which the runtime runs it once.
        key: Option<String>,
        /// The call.
        call: ToolCall,
    },
    /// Write the record of a dispatch to the journal.
    JournalDispatch {
        /// The step.
        step: String,
        /// The record.
        record: DispatchRecord,
    },
    /// Look up the summary of a call that waits for an approval.
    Summarize {
        /// The approval.
        approval_id: String,
    },
    /// Look up the result of a dispatch that was done.
    Fetch {
        /// The task.
        task_id: String,
        /// Its status.
        status: String,
    },
    /// Ask the model for a last answer, without tools.
    Recover,
    /// The loop has ended: the model answered.
    Answer {
        /// What the user is told.
        text: String,
        /// How many dispatches were done.
        dispatches: u32,
    },
    /// The loop has ended: a call waits for an approval.
    Suspend {
        /// The tool.
        tool: String,
        /// The approval.
        approval_id: String,
        /// What is to be approved, without secrets.
        summary: String,
        /// The conversation; the call is not answered in it.
        messages: Vec<LlmMessage>,
        /// The call.
        call_id: String,
        /// Its arguments.
        arguments: Json,
        /// A line for the audit trail.
        audit: String,
        /// Whether the dispatch is counted.
        metric: Metric,
    },
    /// The loop has ended: the budget is used up and there is no text.
    MaxIterations {
        /// The budget.
        iterations: u32,
    },
    /// The loop has ended: the model or the journal failed.
    Failed(FamilyClawError),
}

/// What the journal holds of an answer.
pub open spec fn stored_answer_view(
    stored: Result<Option<(Option<String>, Option<Vec<ToolCall>>)>, String>,
) -> Result<Option<Answer>, Seq<char>> {
    match stored {
        Ok(Some((content, calls))) => Ok(Some(answer_view(content, calls))),
        Ok(None) => Ok(None),
        Err(e) => Err(e@),
    }
}

/// What the journal holds of a dispatch.
pub open spec fn stored_record_view(stored: Result<Option<DispatchRecord>, String>) -> Result<
    Option<RecordView>,
    Seq<char>,
> {
    match stored {
        Ok(r) => Ok(opt_record_view(r)),
        Err(e) => Err(e@),
    }
}

/// Whether something was written.
pub open spec fn written_view(written: Result<(), String>) -> Result<(), Seq<char>> {
    match written {
        Ok(_) => Ok(()),
        Err(e) => Err(e@),
    }
}

/// The value of an answer.
pub open spec fn answer_view(content: Option<String>, calls: Option<Vec<ToolCall>>) -> Answer {
    Answer { content: opt_view(content), calls: opt_calls_view(calls) }
}

impl View for LoopRequest {
    type V = RequestView;

    open spec fn view(&self) -> RequestView {
        match self {
            LoopRequest::RecallAnswer { step } => RequestView::RecallAnswer { step: step@ },
            LoopRequest::Model { required } => RequestView::Model { required: *required },
            LoopRequest::Journal { step, content, calls } => RequestView::Journal {
                step: step@,
                answer: answer_view(*content, *calls),
            },
            LoopRequest::Note { audit, metric } => RequestView::Note {
                audit: audit@,
                metric: *metric,
            },
            LoopRequest::Resolve { name } => RequestView::Resolve { name: name@ },
            LoopRequest::Dispatch { key, call } => RequestView::Dispatch {
                key: opt_view(*key),
                call: call@,
            },
            LoopRequest::RecallDispatch { step } => RequestView::RecallDispatch { step: step@ },
            LoopRequest::JournalDispatch { step, record } => RequestView::JournalDispatch {
                step: step@,
                record: record@,
            },
            LoopRequest::Summarize { approval_id } => RequestView::Summarize {
                approval_id: approval_id@,
            },
            LoopRequest::Fetch { task_id, status } => RequestView::Fetch {
                task_id: task_id@,
                status: status@,
            },
            LoopRequest::Recover => RequestView::Recover,
            LoopRequest::Answer { text, dispatches } => RequestView::Answer {
                text: text@,
                dispatches: *dispatches as nat,
            },
            LoopRequest::Suspend {
                tool,
                approval_id,
                summary,
                messages,
                call_id,
                arguments,
                audit,
                metric,
            } => RequestView::Suspend {
                tool: tool@,
                approval_id: approval_id@,
                summary: summary@,
                messages: messages_view(messages@),
                call_id: call_id@,
                arguments: arguments@,
                audit: audit@,
                metric: *metric,
            },
            LoopRequest::MaxIterations { iterations } => RequestView::MaxIterations {
                iterations: *iterations as nat,
            },
            LoopRequest::Failed(e) => RequestView::Failed { message: e.message() },
        }
    }
}

/// A tool loop in progress.
pub struct ToolLoop {
    durable: bool,
    prefix: Option<String>,
    asks: bool,
    budget: u32,
    per_name: u32,
    fs_limit: u32,
    base: u64,
    messages: Vec<LlmMessage>,
    last_text: String,
    iteration: u32,
    index: u64,
    count: u32,
    called: Vec<String>,
    log: Ghost<Seq<(Option<Seq<char>>, Seq<char>)>>,
    submitted: Vec<bool>,
    pending_content: Option<String>,
    pending_calls: Option<Vec<ToolCall>>,
    record: Option<DispatchRecord>,
    calls: Vec<ToolCall>,
    next: usize,
    stage: Stage,
}

impl View for ToolLoop {
    type V = LoopState;

    closed spec fn view(&self) -> LoopState {
        LoopState {
            durable: self.durable,
            prefix: opt_view(self.prefix),
            asks: self.asks,
            budget: self.budget as nat,
            per_name: self.per_name as nat,
            fs_limit: self.fs_limit as nat,
            base: self.base as nat,
            messages: messages_view(self.messages@),
            last_text: self.last_text@,
            iteration: self.iteration as nat,
            index: self.index as nat,
            count: self.count as nat,
            called: views(self.called@),
            log: self.log@,
            submitted: self.submitted@,
            pending: answer_view(self.pending_content, self.pending_calls),
            record: opt_record_view(self.record),
            calls: calls_view(self.calls@),
            next: self.next as nat,
            stage: self.stage,
        }
    }
}

/// How often `name` stands in `names`.
fn count_name(names: &Vec<String>, name: &str) -> (r: usize)
    ensures
        r == occurrences(views(names@), name@),
        r <= names@.len(),
{
    let ghost all = views(names@);
    let mut n: usize = 0;
    let mut i: usize = 0;
    assert(all.take(0) =~= Seq::<Seq<char>>::empty());
    while i < names.len()
        invariant
            i <= names@.len(),
            n <= i,
            all == views(names@),
            n == occurrences(all.take(i as int), name@),
        decreases names@.len() - i,
    {
        assert(all.take(i + 1).drop_last() =~= all.take(i as int));
        assert(all.take(i + 1).last() == names@[i as int]@);
        if same(names[i].as_str(), name) {
            n += 1;
        }
        i += 1;
    }
    assert(all.take(i as int) =~= all);
    n
}

/// How many of `names` read files.
fn count_file_reads(names: &Vec<String>) -> (r: usize)
    ensures
        r == file_reads(views(names@)),
        r <= names@.len(),
{
    let ghost all = views(names@);
    let mut n: usize = 0;
    let mut i: usize = 0;
    assert(all.take(0) =~= Seq::<Seq<char>>::empty());
    while i < names.len()
        invariant
            i <= names@.len(),
            n <= i,
            all == views(names@),
            n == file_reads(all.take(i as int)),
        decreases names@.len() - i,
    {
        assert(all.take(i + 1).drop_last() =~= all.take(i as int));
        assert(all.take(i + 1).last() == names@[i as int]@);
        if contains(names[i].as_str(), "fs_read") {
            n += 1;
        }
        i += 1;
    }
    assert(all.take(i as int) =~= all);
    n
}

impl ToolLoop {
    /// What always holds of a loop.
    pub open spec fn wf(&self) -> bool {
        valid(self@)
    }

    /// The loop of turn `turn`. The model may be asked `budget` times; one tool may be
    /// called `per_name` times and files may be read `fs_limit` times.
    pub fn durable(
        turn: u64,
        user_query: &str,
        messages: &[LlmMessage],
        budget: u32,
        per_name: u32,
        fs_limit: u32,
        dispatch_base: u64,
    ) -> (r: (ToolLoop, LoopRequest))
        ensures
            r.0.wf(),
            waits_for(r.0@.stage, r.1@),
            (r.0@, r.1@) == next_round(
                initial(
                    true,
                    Some("turn-"@ + decimal(turn as nat)),
                    asks_for_action(lowercase(trimmed(user_query@))),
                    budget as nat,
                    per_name as nat,
                    fs_limit as nat,
                    dispatch_base as nat,
                    messages_view(messages@),
                ),
            ),
    {
        let asks = looks_like_action_request(user_query);
        let prefix = crate::text::concat2("turn-", decimal_text(turn).as_str());
        Self::begin(
            true,
            Some(prefix),
            asks,
            messages,
            budget,
            per_name,
            fs_limit,
            dispatch_base,
        )
    }

    /// A loop without a journal. Its dispatches carry keys where `key_prefix` is given.
    pub fn plain(key_prefix: Option<String>, messages: &[LlmMessage], budget: u32) -> (r: (
        ToolLoop,
        LoopRequest,
    ))
        ensures
            r.0.wf(),
            waits_for(r.0@.stage, r.1@),
            (r.0@, r.1@) == next_round(
                initial(
                    false,
                    opt_view(key_prefix),
                    false,
                    budget as nat,
                    0,
                    0,
                    0,
                    messages_view(messages@),
                ),
            ),
    {
        Self::begin(false, key_prefix, false, messages, budget, 0, 0, 0)
    }

    fn begin(
        durable: bool,
        prefix: Option<String>,
        asks: bool,
        messages: &[LlmMessage],
        budget: u32,
        per_name: u32,
        fs_limit: u32,
        base: u64,
    ) -> (r: (ToolLoop, LoopRequest))
        requires
            durable ==> prefix is Some,
        ensures
            r.0.wf(),
            (r.0@, r.1@) == next_round(
                initial(
                    durable,
                    opt_view(prefix),
                    asks,
                    budget as nat,
                    per_name as nat,
                    fs_limit as nat,
                    base as nat,
                    messages_view(messages@),
                ),
            ),
    {
        let mut this = ToolLoop {
            durable,
            prefix,
            asks,
            budget,
            per_name,
            fs_limit,
            base,
            messages: copy_messages(messages),
            last_text: String::new(),
            iteration: 0,
            index: base,
            count: 0,
            called: Vec::new(),
            log: Ghost(Seq::empty()),
            submitted: Vec::new(),
            pending_content: None,
            pending_calls: None,
            record: None,
            calls: Vec::new(),
            next: 0,
            stage: Stage::Model,
        };
        proof {
            assert(this@.called =~= Seq::<Seq<char>>::empty());
            assert(this@.calls =~= Seq::<CallView>::empty());
            let t = LoopState { stage: Stage::Note, ..this@ };
            assert(dispatched(t) =~= Seq::<Seq<char>>::empty());
            assert(valid(t));
            lemma_next_round(this@);
        }
        let request = this.ask();
        (this, request)
    }

    /// The next round.
    fn ask(&mut self) -> (r: LoopRequest)
        ensures
            (final(self)@, r@) == next_round(old(self)@),
    {
        if self.iteration < self.budget {
            match self.step() {
                Some(step) => {
                    self.stage = Stage::RecallAnswer;
                    LoopRequest::RecallAnswer { step }
                },
                None => {
                    self.stage = Stage::Model;
                    LoopRequest::Model { required: false }
                },
            }
        } else if self.last_text.as_str().is_empty() {
            self.stage = Stage::Recover;
            LoopRequest::Recover
        } else {
            self.stage = Stage::Done;
            let text = self.guard(self.last_text.as_str());
            LoopRequest::Answer { text, dispatches: self.count }
        }
    }

    /// The journal step of the next answer of the model.
    fn step(&self) -> (r: Option<String>)
        ensures
            opt_view(r) == if self@.durable && self@.prefix is Some {
                Some(model_step(self@.prefix->Some_0, self@.iteration))
            } else {
                None
            },
    {
        if self.durable {
            match &self.prefix {
                Some(p) => Some(
                    concat3(p.as_str(), "-llm-", decimal_text(self.iteration as u64).as_str()),
                ),
                None => None,
            }
        } else {
            None
        }
    }

    /// The text as it leaves the loop.
    fn guard(&self, text: &str) -> (r: String)
        ensures
            outgoing(self@, text@) == (RequestView::Answer { text: r@, dispatches: self@.count }),
    {
        if self.durable {
            apply_grounding_guard(text, self.count)
        } else {
            copy_of(text)
        }
    }

    /// The metric of a call that is not dispatched.
    fn idle(&self) -> (r: Metric)
        ensures
            r == idle_metric(self@),
    {
        if self.durable {
            Metric::CountIfFresh
        } else {
            Metric::Skip
        }
    }

    /// The metric of the current dispatch.
    fn counted(&self) -> (r: Metric)
        requires
            self@.submitted.len() > 0,
        ensures
            r == dispatch_metric(self@),
    {
        let last: usize = self.submitted.len() - 1;
        if self.durable && self.submitted[last] {
            Metric::Count
        } else {
            Metric::Skip
        }
    }

    /// Ends the loop with an error of the journal.
    fn fail(&mut self, what: &str, error: &str) -> (r: LoopRequest)
        ensures
            (final(self)@, r@) == failed(old(self)@, what@ + error@),
            r is Failed,
            r->Failed_0 is Bus,
    {
        self.stage = Stage::Done;
        LoopRequest::Failed(FamilyClawError::Bus(crate::text::concat2(what, error)))
    }

    /// Settles the current call with `result`.
    fn settle(&mut self, result: &str)
        requires
            old(self)@.next < old(self)@.calls.len(),
        ensures
            final(self)@ == settled(old(self)@, result@),
    {
        let ghost before = self.messages@;
        let total: usize = self.calls.len();
        assert(self.next < total);
        let message = LlmMessage::tool_result(self.calls[self.next].id.as_str(), result);
        let ghost m = message@;
        self.messages.push(message);
        assert(messages_view(self.messages@) =~= messages_view(before).push(m));
        self.next = self.next + 1;
        self.stage = Stage::Note;
    }

    /// The next call of the round, or the next round.
    fn advance(&mut self) -> (r: LoopRequest)
        requires
            old(self)@.next <= old(self)@.calls.len(),
        ensures
            (final(self)@, r@) == next_call(old(self)@),
    {
        if self.next >= self.calls.len() {
            return self.ask();
        }
        let ghost start = self@;
        let ghost before = self.called@;
        let name = copy_of(self.calls[self.next].name.as_str());
        self.called.push(copy_of(name.as_str()));
        assert(views(self.called@) =~= views(before).push(name@));
        assert(self@ == LoopState { called: start.called.push(name@), ..start });
        let over = self.durable && (count_name(&self.called, name.as_str())
            > self.per_name as usize || (contains(name.as_str(), "fs_read") && count_file_reads(
            &self.called,
        ) > self.fs_limit as usize));
        if over {
            self.settle(BUDGET_EXCEEDED);
            LoopRequest::Note {
                audit: concat4("tool '", name.as_str(), "' ", "skipped: per-turn budget exceeded"),
                metric: self.idle(),
            }
        } else {
            self.stage = Stage::Resolve;
            LoopRequest::Resolve { name }
        }
    }

    /// Lets an answer of the model take effect.
    fn take(&mut self, content: Option<String>, calls: Option<Vec<ToolCall>>) -> (r: LoopRequest)
        requires
            old(self)@.iteration < old(self)@.budget,
        ensures
            (final(self)@, r@) == accept(old(self)@, answer_view(content, calls)),
    {
        let ghost start = self@;
        let ghost a = answer_view(content, calls);
        let text = match content {
            Some(t) => t,
            None => String::new(),
        };
        assert(text@ == content_of(a));
        self.pending_content = None;
        self.pending_calls = None;
        if !text.as_str().is_empty() {
            self.last_text = copy_of(text.as_str());
        }
        let wanted: Vec<ToolCall> = match calls {
            Some(c) => c,
            None => Vec::new(),
        };
        if wanted.len() == 0 {
            self.stage = Stage::Done;
            let answer = self.guard(self.last_text.as_str());
            return LoopRequest::Answer { text: answer, dispatches: self.count };
        }
        let ghost before = self.messages@;
        let message = LlmMessage::assistant(text.as_str()).with_tool_calls(
            crate::llm::copy_calls(&wanted),
        );
        let ghost m = message@;
        self.messages.push(message);
        assert(messages_view(self.messages@) =~= messages_view(before).push(m));
        self.calls = wanted;
        self.next = 0;
        self.iteration = self.iteration + 1;
        self.advance()
    }

    /// Takes a fresh answer of the model. `tools_offered` tells whether it was offered
    /// any tool.
    pub fn on_model(
        &mut self,
        content: Option<String>,
        calls: Option<Vec<ToolCall>>,
        tools_offered: bool,
    ) -> (r: LoopRequest)
        requires
            old(self).wf(),
            old(self)@.stage == Stage::Model || old(self)@.stage == Stage::Retry,
        ensures
            final(self).wf(),
            waits_for(final(self)@.stage, r@),
            (final(self)@, r@) == after_model(
                old(self)@,
                answer_view(content, calls),
                tools_offered,
            ),
            nearer(old(self)@, final(self)@),
    {
        let ghost start = self@;
        let ghost a = answer_view(content, calls);
        let empty = match &calls {
            Some(c) => c.len() == 0,
            None => true,
        };
        let at_start = match self.stage {
            Stage::Model => true,
            _ => false,
        };
        if self.durable && at_start && empty && self.iteration == 0 && self.index == self.base
            && tools_offered && self.asks {
            self.stage = Stage::Retry;
            proof {
                assert(dispatched(self@) =~= dispatched(start));
            }
            return LoopRequest::Model { required: true };
        }
        if self.durable {
            match self.step() {
                Some(step) => {
                    self.pending_content = copy_opt(&content);
                    self.pending_calls = copy_opt_calls(&calls);
                    self.stage = Stage::Journal;
                    proof {
                        assert(dispatched(self@) =~= dispatched(start));
                    }
                    return LoopRequest::Journal { step, content, calls };
                },
                None => {},
            }
        }
        proof {
            lemma_accept(self@, a);
        }
        self.take(content, calls)
    }

    /// The model could not answer: the loop ends with its error.
    pub fn on_model_failed(&mut self, error: &LlmError) -> (r: LoopRequest)
        requires
            old(self).wf(),
            old(self)@.stage == Stage::Model || old(self)@.stage == Stage::Retry,
        ensures
            final(self).wf(),
            waits_for(final(self)@.stage, r@),
            (final(self)@, r@) == failed(old(self)@, tagged(*error)),
            r->Failed_0 is Llm,
            nearer(old(self)@, final(self)@),
    {
        proof {
            lemma_failed(self@);
        }
        self.stage = Stage::Done;
        LoopRequest::Failed(model_failure(error))
    }

    /// Takes what the journal holds of the model's answer.
    pub fn on_answer_recalled(
        &mut self,
        stored: Result<Option<(Option<String>, Option<Vec<ToolCall>>)>, String>,
    ) -> (r: LoopRequest)
        requires
            old(self).wf(),
            old(self)@.stage == Stage::RecallAnswer,
        ensures
            final(self).wf(),
            waits_for(final(self)@.stage, r@),
            (final(self)@, r@) == after_answer_recall(old(self)@, stored_answer_view(stored)),
            r is Failed ==> r->Failed_0 is Bus,
            nearer(old(self)@, final(self)@),
    {
        let ghost start = self@;
        match stored {
            Err(e) => {
                proof {
                    lemma_failed(self@);
                }
                self.fail("durable llm replay failed: ", e.as_str())
            },
            Ok(Some((content, calls))) => {
                proof {
                    lemma_accept(self@, answer_view(content, calls));
                }
                self.take(content, calls)
            },
            Ok(None) => {
                self.stage = Stage::Model;
                assert(dispatched(self@) =~= dispatched(start));
                LoopRequest::Model { required: false }
            },
        }
    }

    /// Goes on once the answer is in the journal, or could not be written there.
    pub fn on_journaled(&mut self, written: Result<(), String>) -> (r: LoopRequest)
        requires
            old(self).wf(),
            old(self)@.stage == Stage::Journal,
        ensures
            final(self).wf(),
            waits_for(final(self)@.stage, r@),
            (final(self)@, r@) == after_journal(old(self)@, written_view(written)),
            r is Failed ==> r->Failed_0 is Bus,
            nearer(old(self)@, final(self)@),
    {
        match written {
            Ok(_) => {
                proof {
                    lemma_accept(self@, self@.pending);
                }
                let content = copy_opt(&self.pending_content);
                let calls = copy_opt_calls(&self.pending_calls);
                self.take(content, calls)
            },
            Err(e) => {
                proof {
                    lemma_failed(self@);
                }
                self.pending_content = None;
                self.pending_calls = None;
                self.fail("durable llm step failed: ", e.as_str())
            },
        }
    }

    /// Goes on once the line is in the audit trail.
    pub fn on_noted(&mut self) -> (r: LoopRequest)
        requires
            old(self).wf(),
            old(self)@.stage == Stage::Note,
        ensures
            final(self).wf(),
            waits_for(final(self)@.stage, r@),
            (final(self)@, r@) == next_call(old(self)@),
            nearer(old(self)@, final(self)@),
    {
        proof {
            assert(LoopState { stage: Stage::Note, ..self@ } == self@);
            lemma_next_call(self@);
        }
        self.advance()
    }

    /// Takes whether the tool exists.
    pub fn on_resolved(&mut self, known: bool) -> (r: LoopRequest)
        requires
            old(self).wf(),
            old(self)@.stage == Stage::Resolve,
            old(self)@.index < u64::MAX,
        ensures
            final(self).wf(),
            waits_for(final(self)@.stage, r@),
            (final(self)@, r@) == after_resolve(old(self)@, known),
            nearer(old(self)@, final(self)@),
    {
        let ghost start = self@;
        let name = copy_of(self.calls[self.next].name.as_str());
        if !known {
            let text = concat3("error: unknown tool '", name.as_str(), "'");
            proof {
                let t = LoopState { stage: Stage::Note, ..start };
                assert(dispatched(t) =~= dispatched(start));
                assert(valid(t));
                lemma_settled(start, text@);
            }
            self.settle(text.as_str());
            return LoopRequest::Note {
                audit: concat4("tool '", name.as_str(), "' ", "dispatched: unknown tool"),
                metric: self.idle(),
            };
        }
        let key = match &self.prefix {
            Some(p) => Some(
                concat3(p.as_str(), "-dispatch-", decimal_text(self.index).as_str()),
            ),
            None => None,
        };
        if self.prefix.is_some() {
            self.index = self.index + 1;
        }
        self.log = Ghost(self.log@.push((opt_view(key), name@)));
        self.submitted.push(!self.durable);
        self.stage = if self.durable {
            Stage::RecallDispatch
        } else {
            Stage::Dispatch
        };
        proof {
            assert(dispatched(self@) =~= dispatched(start).push(name@));
            assert forall|n: Seq<char>| #[trigger]
                occurrences(dispatched(self@), n) <= occurrences(self@.called, n) && (self@.durable
                    ==> occurrences(dispatched(self@), n) <= self@.per_name) by {
                lemma_occurrences_push(dispatched(start), name@, n);
                assert(occurrences(dispatched(start), n) <= occurrences(start.called, n));
            }
            lemma_occurrences_push(dispatched(start), name@, name@);
            assert(valid(self@));
        }
        if self.durable {
            match key {
                Some(step) => {
                    return LoopRequest::RecallDispatch { step };
                },
                None => {},
            }
        }
        let call = self.calls[self.next].copy();
        LoopRequest::Dispatch { key, call }
    }

    /// The journal step of the current dispatch.
    fn dispatch_step(&self) -> (r: Option<String>)
        requires
            self.wf(),
            dispatches(self@.stage),
        ensures
            opt_view(r) == self@.log.last().0,
    {
        match &self.prefix {
            Some(p) => {
                let number: u64 = self.index - 1;
                Some(concat3(p.as_str(), "-dispatch-", decimal_text(number).as_str()))
            },
            None => None,
        }
    }

    /// Takes what the journal holds of the current dispatch.
    pub fn on_dispatch_recalled(&mut self, stored: Result<Option<DispatchRecord>, String>) -> (r:
        LoopRequest)
        requires
            old(self).wf(),
            old(self)@.stage == Stage::RecallDispatch,
        ensures
            final(self).wf(),
            waits_for(final(self)@.stage, r@),
            (final(self)@, r@) == after_dispatch_recall(old(self)@, stored_record_view(stored)),
            r is Failed ==> r->Failed_0 is Bus,
            nearer(old(self)@, final(self)@),
    {
        let ghost start = self@;
        match stored {
            Err(e) => {
                proof {
                    lemma_failed(self@);
                }
                self.fail("durable dispatch replay failed: ", e.as_str())
            },
            Ok(Some(record)) => {
                proof {
                    lemma_record(self@, record@);
                }
                self.apply(record)
            },
            Ok(None) => {
                let key = self.dispatch_step();
                let call = self.calls[self.next].copy();
                self.submitted.pop();
                self.submitted.push(true);
                self.stage = Stage::Dispatch;
                assert(self@.submitted =~= start.submitted.drop_last().push(true));
                assert(dispatched(self@) =~= dispatched(start));
                LoopRequest::Dispatch { key, call }
            },
        }
    }

    /// Takes what came of the dispatch.
    pub fn on_dispatched(&mut self, record: DispatchRecord) -> (r: LoopRequest)
        requires
            old(self).wf(),
            old(self)@.stage == Stage::Dispatch,
        ensures
            final(self).wf(),
            waits_for(final(self)@.stage, r@),
            (final(self)@, r@) == after_dispatch(old(self)@, record@),
            nearer(old(self)@, final(self)@),
    {
        let ghost start = self@;
        if self.durable {
            match self.dispatch_step() {
                Some(step) => {
                    self.record = Some(record.copy());
                    self.stage = Stage::JournalDispatch;
                    assert(dispatched(self@) =~= dispatched(start));
                    return LoopRequest::JournalDispatch { step, record };
                },
                None => {},
            }
        }
        proof {
            lemma_record(self@, record@);
        }
        self.apply(record)
    }

    /// Goes on once the record is in the journal, or could not be written there.
    pub fn on_dispatch_journaled(&mut self, written: Result<(), String>) -> (r: LoopRequest)
        requires
            old(self).wf(),
            old(self)@.stage == Stage::JournalDispatch,
        ensures
            final(self).wf(),
            waits_for(final(self)@.stage, r@),
            (final(self)@, r@) == after_dispatch_journal(old(self)@, written_view(written)),
            r is Failed ==> r->Failed_0 is Bus,
            nearer(old(self)@, final(self)@),
    {
        match written {
            Ok(_) => match &self.record {
                Some(kept) => {
                    let record = kept.copy();
                    proof {
                        lemma_record(self@, record@);
                    }
                    self.apply(record)
                },
                None => LoopRequest::Recover,
            },
            Err(e) => {
                proof {
                    lemma_failed(self@);
                }
                self.record = None;
                self.fail("durable dispatch step failed: ", e.as_str())
            },
        }
    }

    /// Lets the record of the current dispatch take effect.
    fn apply(&mut self, record: DispatchRecord) -> (r: LoopRequest)
        requires
            old(self)@.next < old(self)@.calls.len(),
            old(self)@.submitted.len() > 0,
        ensures
            (final(self)@, r@) == after_record(old(self)@, record@),
            !(r is Failed),
    {
        let metric = self.counted();
        match copy_opt(&record.error) {
            Some(error) => {
                let name = copy_of(self.calls[self.next].name.as_str());
                let text = format_tool_failure_for_model(name.as_str(), error.as_str());
                self.record = None;
                self.settle(text.as_str());
                let what = crate::text::concat2("dispatched: failed: ", error.as_str());
                LoopRequest::Note {
                    audit: concat4("tool '", name.as_str(), "' ", what.as_str()),
                    metric,
                }
            },
            None => match copy_opt(&record.pending_approval) {
                Some(approval_id) => {
                    self.record = Some(record);
                    self.stage = Stage::Summarize;
                    LoopRequest::Summarize { approval_id }
                },
                None => {
                    let task_id = copy_of(record.task_id.as_str());
                    let status = copy_of(record.status.as_str());
                    self.record = Some(record);
                    if self.count < u32::MAX {
                        self.count = self.count + 1;
                    }
                    self.stage = Stage::Fetch;
                    LoopRequest::Fetch { task_id, status }
                },
            },
        }
    }

    /// Takes the summary of the call that waits for an approval, where there is one.
    pub fn on_summarized(&mut self, summary: Option<String>) -> (r: LoopRequest)
        requires
            old(self).wf(),
            old(self)@.stage == Stage::Summarize,
        ensures
            final(self).wf(),
            waits_for(final(self)@.stage, r@),
            (final(self)@, r@) == after_summary(old(self)@, opt_view(summary)),
            nearer(old(self)@, final(self)@),
    {
        let ghost start = self@;
        let metric = self.counted();
        let name = copy_of(self.calls[self.next].name.as_str());
        let text = match summary {
            Some(t) => t,
            None => concat3("tool '", name.as_str(), "' awaiting human approval"),
        };
        let approval_id = match &self.record {
            Some(record) => match &record.pending_approval {
                Some(id) => copy_of(id.as_str()),
                None => String::new(),
            },
            None => String::new(),
        };
        self.record = None;
        self.stage = Stage::Done;
        assert(dispatched(self@) =~= dispatched(start));
        let what = concat3("dispatched: awaiting approval (", text.as_str(), ")");
        LoopRequest::Suspend {
            tool: copy_of(name.as_str()),
            approval_id,
            summary: text,
            messages: copy_messages(self.messages.as_slice()),
            call_id: copy_of(self.calls[self.next].id.as_str()),
            arguments: self.calls[self.next].arguments.copy(),
            audit: concat4("tool '", name.as_str(), "' ", what.as_str()),
            metric,
        }
    }

    /// Takes the result of the dispatch that was done.
    pub fn on_fetched(&mut self, result: &str) -> (r: LoopRequest)
        requires
            old(self).wf(),
            old(self)@.stage == Stage::Fetch,
        ensures
            final(self).wf(),
            waits_for(final(self)@.stage, r@),
            (final(self)@, r@) == after_fetch(old(self)@, result@),
            nearer(old(self)@, final(self)@),
    {
        let ghost start = self@;
        let metric = self.counted();
        let name = copy_of(self.calls[self.next].name.as_str());
        proof {
            let t = LoopState { record: None, ..start };
            let u = LoopState { stage: Stage::Note, ..t };
            assert(dispatched(u) =~= dispatched(start));
            assert(valid(u));
            lemma_settled(t, result@);
        }
        self.record = None;
        self.settle(result);
        let what = crate::text::concat2("dispatched: ", result);
        LoopRequest::Note { audit: concat4("tool '", name.as_str(), "' ", what.as_str()), metric }
    }

    /// Takes the last answer that was asked for.
    pub fn on_recovered(&mut self, text: Option<String>) -> (r: LoopRequest)
        requires
            old(self).wf(),
            old(self)@.stage == Stage::Recover,
        ensures
            final(self).wf(),
            waits_for(final(self)@.stage, r@),
            (final(self)@, r@) == after_recovery(old(self)@, opt_view(text)),
            nearer(old(self)@, final(self)@),
    {
        let ghost start = self@;
        self.stage = Stage::Done;
        proof {
            assert(dispatched(self@) =~= dispatched(start));
        }
        match text {
            Some(t) => {
                let answer = self.guard(t.as_str());
                LoopRequest::Answer { text: answer, dispatches: self.count }
            },
            None => LoopRequest::MaxIterations { iterations: self.budget },
        }
    }

    /// Is there a number left for another dispatch?
    pub fn can_dispatch(&self) -> (r: bool)
        ensures
            r == (self@.index < u64::MAX),
    {
        self.index < u64::MAX
    }

    /// The number of the next dispatch.
    pub fn next_dispatch(&self) -> (r: u64)
        ensures
            r == self@.index,
    {
        self.index
    }

    /// The conversation so far, for the next question to the model.
    pub fn messages(&self) -> (r: &Vec<LlmMessage>)
        ensures
            messages_view(r@) == self@.messages,
    {
        &self.messages
    }
}

// ---------------------------------------------------------------------------
// Laws
// ---------------------------------------------------------------------------

/// Dispatches of different numbers have different keys.
pub proof fn lemma_keys_differ(prefix: Seq<char>, i: nat, j: nat)
    requires
        i != j,
    ensures
        dispatch_key(prefix, i) != dispatch_key(prefix, j),
{
    let head = prefix + "-dispatch-"@;
    if dispatch_key(prefix, i) == dispatch_key(prefix, j) {
        assert(decimal(i) =~= dispatch_key(prefix, i).skip(head.len() as int));
        assert(decimal(j) =~= dispatch_key(prefix, j).skip(head.len() as int));
        crate::text::lemma_decimal_injective(i, j);
    }
}

/// Dispatches under different prefixes have different keys, whatever their numbers.
pub proof fn law_prefixes_share_no_key(p: Seq<char>, q: Seq<char>, i: nat, j: nat)
    requires
        p != q,
    ensures
        dispatch_key(p, i) != dispatch_key(q, j),
{
    reveal_strlit("-dispatch-");
    let x = dispatch_key(p, i);
    let y = dispatch_key(q, j);
    let m = decimal(i);
    let n = decimal(j);
    crate::text::lemma_decimal_digits(i);
    crate::text::lemma_decimal_digits(j);
    if x == y {
        assert(x[x.len() - m.len() - 1] == '-');
        assert(y[y.len() - n.len() - 1] == '-');
        if m.len() < n.len() {
            assert(y[x.len() - m.len() - 1] == n[n.len() - m.len() - 1]);
            assert(crate::text::is_digit(n[n.len() - m.len() - 1]));
        } else if n.len() < m.len() {
            assert(x[y.len() - n.len() - 1] == m[m.len() - n.len() - 1]);
            assert(crate::text::is_digit(m[m.len() - n.len() - 1]));
        }
        assert(p =~= x.take(p.len() as int));
        assert(q =~= y.take(p.len() as int));
    }
}

/// A runtime that runs a key once: the keys that it has run, and how often it ran a tool.
pub struct Outbox {
    pub done: Set<Seq<char>>,
    pub runs: nat,
}

/// A dispatch is submitted: its tool is run, unless its key was run before.
pub open spec fn submit(o: Outbox, key: Option<Seq<char>>) -> Outbox {
    match key {
        Some(k) => if o.done.contains(k) {
            o
        } else {
            Outbox { done: o.done.insert(k), runs: o.runs + 1 }
        },
        None => Outbox { runs: o.runs + 1, ..o },
    }
}

/// The first `n` dispatches of a loop are submitted.
pub open spec fn submit_all(o: Outbox, s: LoopState, n: nat) -> Outbox
    decreases n,
{
    if n == 0 {
        o
    } else {
        submit(submit_all(o, s, (n - 1) as nat), s.log[n - 1].0)
    }
}

proof fn lemma_submitted(o: Outbox, s: LoopState, n: nat)
    requires
        valid(s),
        s.prefix is Some,
        n <= s.log.len(),
    ensures
        forall|i: int|
            0 <= i < n ==> submit_all(o, s, n).done.contains(
                #[trigger] dispatch_key(s.prefix->Some_0, (s.base + i) as nat),
            ),
        forall|k: Seq<char>|
            #[trigger] submit_all(o, s, n).done.contains(k) ==> o.done.contains(k) || exists|i: int|
                0 <= i < n && k == #[trigger] dispatch_key(s.prefix->Some_0, (s.base + i) as nat),
    decreases n,
{
    if n > 0 {
        lemma_submitted(o, s, (n - 1) as nat);
        let p = s.prefix->Some_0;
        let key = dispatch_key(p, (s.base + (n - 1)) as nat);
        assert(s.log[n - 1].0 == Some(key));
        assert forall|i: int| 0 <= i < n implies submit_all(o, s, n).done.contains(
            #[trigger] dispatch_key(p, (s.base + i) as nat),
        ) by {
            if i < n - 1 {
                assert(submit_all(o, s, (n - 1) as nat).done.contains(
                    dispatch_key(p, (s.base + i) as nat),
                ));
            }
        }
        assert forall|k: Seq<char>| #[trigger] submit_all(o, s, n).done.contains(k) implies o.done.contains(
            k,
        ) || exists|i: int|
            0 <= i < n && k == #[trigger] dispatch_key(p, (s.base + i) as nat) by {
            if k != key {
                assert(submit_all(o, s, (n - 1) as nat).done.contains(k));
            } else {
                assert(k == dispatch_key(p, (s.base + (n - 1)) as nat));
            }
        }
    }
}

proof fn lemma_nothing_runs_again(o: Outbox, s: LoopState, t: LoopState, n: nat)
    requires
        valid(s),
        valid(t),
        s.prefix is Some,
        t.prefix == s.prefix,
        t.base == s.base,
        n <= t.log.len() <= s.log.len(),
    ensures
        submit_all(submit_all(o, s, s.log.len()), t, n) == submit_all(o, s, s.log.len()),
    decreases n,
{
    if n > 0 {
        lemma_nothing_runs_again(o, s, t, (n - 1) as nat);
        lemma_submitted(o, s, s.log.len());
        let key = dispatch_key(s.prefix->Some_0, (s.base + (n - 1)) as nat);
        assert(t.log[n - 1].0 == Some(key));
    }
}

/// A loop that is run again under the same prefix runs no tool again, as far as the first run
/// came, where the runtime runs a key once.
pub proof fn law_same_prefix_runs_nothing_again(o: Outbox, s: LoopState, t: LoopState)
    requires
        valid(s),
        valid(t),
        s.prefix is Some,
        t.prefix == s.prefix,
        t.base == s.base,
        t.log.len() <= s.log.len(),
    ensures
        submit_all(submit_all(o, s, s.log.len()), t, t.log.len()) == submit_all(
            o,
            s,
            s.log.len(),
        ),
{
    lemma_nothing_runs_again(o, s, t, t.log.len());
}

proof fn lemma_fresh_keys_run(o: Outbox, t: LoopState, n: nat)
    requires
        valid(t),
        t.prefix is Some,
        n <= t.log.len(),
        forall|i: nat| !o.done.contains(#[trigger] dispatch_key(t.prefix->Some_0, i)),
    ensures
        submit_all(o, t, n).runs == o.runs + n,
    decreases n,
{
    if n > 0 {
        lemma_fresh_keys_run(o, t, (n - 1) as nat);
        lemma_submitted(o, t, (n - 1) as nat);
        let p = t.prefix->Some_0;
        let key = dispatch_key(p, (t.base + (n - 1)) as nat);
        assert(t.log[n - 1].0 == Some(key));
        let before = submit_all(o, t, (n - 1) as nat);
        if before.done.contains(key) {
            let i = choose|i: int|
                0 <= i < n - 1 && key == #[trigger] dispatch_key(p, (t.base + i) as nat);
            lemma_keys_differ(p, (t.base + i) as nat, (t.base + (n - 1)) as nat);
        }
    }
}

/// A loop runs the tool of each of its dispatches once, also behind a loop with another prefix,
/// where none of its keys was run before.
pub proof fn law_other_prefix_runs_its_own(o: Outbox, s: LoopState, t: LoopState)
    requires
        valid(s),
        valid(t),
        s.prefix is Some,
        t.prefix is Some,
        s.prefix != t.prefix,
        forall|i: nat| !o.done.contains(#[trigger] dispatch_key(s.prefix->Some_0, i)),
        forall|i: nat| !o.done.contains(#[trigger] dispatch_key(t.prefix->Some_0, i)),
    ensures
        submit_all(o, s, s.log.len()).runs == o.runs + s.log.len(),
        submit_all(submit_all(o, s, s.log.len()), t, t.log.len()).runs == o.runs + s.log.len()
            + t.log.len(),
{
    let after = submit_all(o, s, s.log.len());
    lemma_fresh_keys_run(o, s, s.log.len());
    lemma_submitted(o, s, s.log.len());
    assert forall|i: nat| !after.done.contains(#[trigger] dispatch_key(t.prefix->Some_0, i)) by {
        let key = dispatch_key(t.prefix->Some_0, i);
        if after.done.contains(key) {
            let j = choose|j: int|
                0 <= j < s.log.len() && key == #[trigger] dispatch_key(
                    s.prefix->Some_0,
                    (s.base + j) as nat,
                );
            law_prefixes_share_no_key(s.prefix->Some_0, t.prefix->Some_0, (s.base + j) as nat, i);
        }
    }
    lemma_fresh_keys_run(after, t, t.log.len());
}

/// No two dispatches of a loop share a key, and the key of each is fixed by the prefix
/// and its number: a restart of the same loop asks for the same keys in the same order.
pub proof fn law_dispatch_keys_are_unique_and_stable(s: LoopState, i: int, j: int)
    requires
        valid(s),
        s.prefix is Some,
        0 <= i < s.log.len(),
        0 <= j < s.log.len(),
    ensures
        s.log[i].0 == Some(dispatch_key(s.prefix->Some_0, (s.base + i) as nat)),
        i != j ==> s.log[i].0 != s.log[j].0,
{
    if i != j {
        lemma_keys_differ(s.prefix->Some_0, (s.base + i) as nat, (s.base + j) as nat);
    }
}

/// In a turn no tool is dispatched more often than its budget allows, and files are not
/// read more often than theirs.
pub proof fn law_tool_budget_is_kept(s: LoopState, name: Seq<char>)
    requires
        valid(s),
        s.durable,
    ensures
        occurrences(dispatched(s), name) <= s.per_name,
        file_reads(dispatched(s)) <= s.fs_limit,
{
}

/// Whenever the model is asked, every call of the round before it has its result, in
/// order, right behind the message that asked for the calls.
pub proof fn law_every_call_is_answered(s: LoopState)
    requires
        valid(s),
        s.stage == Stage::Model,
        s.calls.len() > 0,
    ensures
        s.messages.len() > s.calls.len(),
        s.messages[s.messages.len() - s.calls.len() - 1].tool_calls == Some(s.calls),
        forall|i: int|
            0 <= i < s.calls.len() ==> (#[trigger] s.messages[s.messages.len() - s.calls.len()
                + i]).tool_call_id == Some(s.calls[i].id),
{
    let at = s.messages.len() - s.next - 1;
    assert forall|i: int| 0 <= i < s.calls.len() implies (#[trigger] s.messages[s.messages.len()
        - s.calls.len() + i]).tool_call_id == Some(s.calls[i].id) by {
        assert(s.messages[at + 1 + i].tool_call_id == Some(s.calls[i].id));
    }
}

/// The model is asked at most `budget` times, but for one repetition in the first round:
/// each round that asks for tools uses up one.
pub proof fn law_rounds_are_bounded(s: LoopState)
    requires
        valid(s),
    ensures
        s.iteration <= s.budget,
        s.stage == Stage::Model ==> s.iteration < s.budget,
        s.stage == Stage::Retry ==> s.iteration == 0,
{
}

/// A call that needs an approval ends the loop with the call still open: the conversation
/// that is kept does not answer it, and its result completes the round up to it.
pub proof fn law_suspended_call_is_open(
    s: LoopState,
    summary: Option<Seq<char>>,
    result: Seq<char>,
)
    requires
        valid(s),
        s.stage == Stage::Summarize,
    ensures
        ({
            let request = after_summary(s, summary).1;
            &&& request is Suspend
            &&& request->call_id == s.calls[s.next as int].id
            &&& request->Suspend_messages == s.messages
            &&& settled(s, result).messages == request->Suspend_messages.push(
                tool_message(request->call_id, result),
            )
            &&& answered_in_order(settled(s, result))
        }),
{
    let t = LoopState { record: None, ..s };
    let u = LoopState { stage: Stage::Note, ..t };
    assert(dispatched(u) =~= dispatched(s));
    assert(valid(u));
    lemma_settled(t, result);
}

/// An answer that the journal holds takes effect, and the model is not asked for it.
pub proof fn law_recorded_answer_is_not_asked_for_again(s: LoopState, a: Answer)
    ensures
        after_answer_recall(s, Ok(Some(a))) == accept(s, a),
        !(after_answer_recall(s, Ok(Some(a))).1 is Model),
{
}

/// A dispatch that the journal holds takes effect as it was recorded: the tool is not run, and
/// the dispatch is not counted again.
pub proof fn law_recorded_dispatch_is_not_run_again(s: LoopState, record: RecordView)
    requires
        valid(s),
        s.stage == Stage::RecallDispatch,
    ensures
        ({
            let (t, request) = after_dispatch_recall(s, Ok(Some(record)));
            &&& (t, request) == after_record(s, record)
            &&& !(request is Dispatch)
            &&& t.submitted == s.submitted
            &&& !t.submitted.last()
            &&& dispatch_metric(t) == Metric::Skip
        }),
{
}

/// A tool is run in a durable loop only where the journal holds nothing of the dispatch, under
/// the key that is the dispatch's step, and is counted then.
pub proof fn law_tool_is_run_only_without_a_record(
    s: LoopState,
    stored: Result<Option<RecordView>, Seq<char>>,
    known: bool,
)
    requires
        valid(s),
        s.durable,
    ensures
        s.stage == Stage::Resolve ==> !(after_resolve(s, known).1 is Dispatch),
        s.stage == Stage::RecallDispatch && after_dispatch_recall(s, stored).1 is Dispatch ==> {
            let (t, request) = after_dispatch_recall(s, stored);
            &&& stored == Ok::<Option<RecordView>, Seq<char>>(None)
            &&& request->key == Some(dispatch_key(s.prefix->Some_0, (s.index - 1) as nat))
            &&& dispatch_metric(t) == Metric::Count
        },
{
}

/// In a durable loop a fresh record is written to the journal, under the dispatch's step,
/// before it has any effect; one that cannot be written ends the loop without effect.
pub proof fn law_record_is_kept_before_it_takes_effect(
    s: LoopState,
    record: RecordView,
    error: Seq<char>,
)
    requires
        valid(s),
        s.durable,
        s.stage == Stage::Dispatch,
    ensures
        ({
            let (t, request) = after_dispatch(s, record);
            let (u, end) = after_dispatch_journal(t, Err(error));
            &&& request == (RequestView::JournalDispatch {
                step: dispatch_key(s.prefix->Some_0, (s.index - 1) as nat),
                record,
            })
            &&& t.messages == s.messages && t.count == s.count && t.next == s.next
            &&& end == (RequestView::Failed { message: "durable dispatch step failed: "@ + error })
            &&& u.stage == Stage::Done
            &&& u.messages == s.messages && u.count == s.count && u.next == s.next
        }),
{
}

/// What happens to a durable loop between two questions to the journal and the runtime.
pub enum Input {
    /// The model says `first`, and `last` where it is asked again; tools are offered or not.
    Answer { first: Answer, last: Answer, offered: bool },
    /// The audit line is written.
    Noted,
    /// The tool exists or not.
    Resolved(bool),
    /// The tool gives this record.
    Record(RecordView),
    /// The summary of a call that waits.
    Summary(Option<Seq<char>>),
    /// The result of a dispatch.
    Result(Seq<char>),
    /// The last answer.
    Recovered(Option<Seq<char>>),
}

/// The answer that goes to the journal.
pub open spec fn kept_answer(s: LoopState, first: Answer, last: Answer, offered: bool) -> Answer {
    if escalates(LoopState { stage: Stage::Model, ..s }, first, offered) {
        last
    } else {
        first
    }
}

/// The state after an input, where the journal holds the answers of the first `answers` rounds
/// and the records of the first `records` dispatches, and takes what is fresh. An input that
/// the loop does not wait for changes nothing.
pub open spec fn feed(s: LoopState, input: Input, answers: nat, records: nat) -> LoopState {
    match input {
        Input::Answer { first, last, offered } => if s.stage != Stage::RecallAnswer {
            s
        } else if s.iteration < answers {
            after_answer_recall(s, Ok(Some(kept_answer(s, first, last, offered)))).0
        } else {
            let asked = after_answer_recall(s, Ok(None)).0;
            let once = after_model(asked, first, offered).0;
            let told = if once.stage == Stage::Retry {
                after_model(once, last, offered).0
            } else {
                once
            };
            after_journal(told, Ok(())).0
        },
        Input::Noted => if s.stage != Stage::Note {
            s
        } else {
            next_call(s).0
        },
        Input::Resolved(known) => if s.stage != Stage::Resolve {
            s
        } else {
            after_resolve(s, known).0
        },
        Input::Record(record) => if s.stage != Stage::RecallDispatch {
            s
        } else if s.log.len() <= records {
            after_dispatch_recall(s, Ok(Some(record))).0
        } else {
            let sent = after_dispatch_recall(s, Ok(None)).0;
            after_dispatch_journal(after_dispatch(sent, record).0, Ok(())).0
        },
        Input::Summary(summary) => if s.stage != Stage::Summarize {
            s
        } else {
            after_summary(s, summary).0
        },
        Input::Result(text) => if s.stage != Stage::Fetch {
            s
        } else {
            after_fetch(s, text).0
        },
        Input::Recovered(text) => if s.stage != Stage::Recover {
            s
        } else {
            after_recovery(s, text).0
        },
    }
}

/// The state after the first `n` inputs.
pub open spec fn play(s: LoopState, inputs: Seq<Input>, n: nat, answers: nat, records: nat) -> LoopState
    decreases n,
{
    if n == 0 {
        s
    } else {
        feed(play(s, inputs, (n - 1) as nat, answers, records), inputs[n - 1], answers, records)
    }
}

/// The two states are the same, whichever dispatches were run.
pub open spec fn same_but_runs(a: LoopState, b: LoopState) -> bool {
    a == (LoopState { submitted: a.submitted, ..b })
}

/// The dispatches past the first `records` were run, and no others; of the last one this is
/// open while the journal is asked.
pub open spec fn runs_past(s: LoopState, records: nat) -> bool {
    &&& s.submitted.len() == s.log.len()
    &&& s.stage == Stage::RecallDispatch ==> s.log.len() > 0 && !s.submitted.last()
    &&& forall|i: int|
        0 <= i < s.log.len() && !(s.stage == Stage::RecallDispatch && i == s.log.len() - 1) ==> (
        #[trigger] s.submitted[i]) == (i >= records)
}

proof fn lemma_feed(a: LoopState, b: LoopState, input: Input, answers: nat, records: nat)
    requires
        same_but_runs(a, b),
        b.durable,
        b.prefix is Some,
        runs_past(a, records),
    ensures
        same_but_runs(feed(a, input, answers, records), feed(b, input, 0, 0)),
        runs_past(feed(a, input, answers, records), records),
        feed(b, input, 0, 0).durable,
        feed(b, input, 0, 0).prefix is Some,
{
}

/// A run whose first answers and dispatches are in the journal reaches the same state as the
/// run that made them, and only the dispatches past those in the journal are run.
pub proof fn law_replay_reaches_the_same_state(
    s: LoopState,
    inputs: Seq<Input>,
    n: nat,
    answers: nat,
    records: nat,
)
    requires
        s.durable,
        s.prefix is Some,
        s.log.len() == 0,
        s.submitted.len() == 0,
        s.stage != Stage::RecallDispatch,
    ensures
        same_but_runs(play(s, inputs, n, answers, records), play(s, inputs, n, 0, 0)),
        runs_past(play(s, inputs, n, answers, records), records),
{
    lemma_play_durable(s, inputs, n, answers, records);
}

proof fn lemma_play_durable(
    s: LoopState,
    inputs: Seq<Input>,
    n: nat,
    answers: nat,
    records: nat,
)
    requires
        s.durable,
        s.prefix is Some,
        s.log.len() == 0,
        s.submitted.len() == 0,
        s.stage != Stage::RecallDispatch,
    ensures
        same_but_runs(play(s, inputs, n, answers, records), play(s, inputs, n, 0, 0)),
        runs_past(play(s, inputs, n, answers, records), records),
        play(s, inputs, n, 0, 0).durable,
        play(s, inputs, n, 0, 0).prefix is Some,
    decreases n,
{
    if n > 0 {
        let m = (n - 1) as nat;
        lemma_play_durable(s, inputs, m, answers, records);
        lemma_feed(
            play(s, inputs, m, answers, records),
            play(s, inputs, m, 0, 0),
            inputs[n - 1],
            answers,
            records,
        );
    }
}

/// In a turn that dispatched nothing, an answer that claims work leaves with a warning.
pub proof fn law_answers_pass_the_guard(s: LoopState, text: Seq<char>)
    requires
        s.durable,
    ensures
        outgoing(s, text) == (RequestView::Answer {
            text: guarded(text, s.count),
            dispatches: s.count,
        }),
{
}

// ---------------------------------------------------------------------------
// What the loop is for
// ---------------------------------------------------------------------------

/// A reply without calls that says something ends the loop, and what it says is the answer,
/// whatever was said before. In a durable loop only a warning may follow it, and none follows
/// where a tool was used.
pub proof fn law_final_words_are_the_answer(s: LoopState, a: Answer, words: Seq<char>)
    requires
        a.calls is None || a.calls->Some_0.len() == 0,
        a.content == Some(words),
        words.len() > 0,
    ensures
        accept(s, a).0.stage == Stage::Done,
        accept(s, a).1 is Answer,
        accept(s, a).1->Answer_dispatches == s.count,
        !s.durable || s.count > 0 ==> accept(s, a).1->Answer_text == words,
        words.is_prefix_of(accept(s, a).1->Answer_text),
        accept(s, a).1->Answer_text == if s.durable {
            guarded(words, s.count)
        } else {
            words
        },
{
    law_guard_only_appends(words, s.count);
    assert(words.subrange(0, words.len() as int) =~= words);
}

/// A reply without calls that says nothing ends the loop with the last words before it.
pub proof fn law_last_words_stand_in_for_silence(s: LoopState, a: Answer)
    requires
        a.calls is None || a.calls->Some_0.len() == 0,
        a.content is None || a.content->Some_0.len() == 0,
    ensures
        accept(s, a).0.stage == Stage::Done,
        accept(s, a).1 is Answer,
        !s.durable || s.count > 0 ==> accept(s, a).1->Answer_text == s.last_text,
        s.last_text.is_prefix_of(accept(s, a).1->Answer_text),
{
    law_guard_only_appends(s.last_text, s.count);
    assert(s.last_text.subrange(0, s.last_text.len() as int) =~= s.last_text);
}

/// The last words are the latest that the model said: a reply with words replaces them, one
/// without leaves them, and nothing else touches them.
pub proof fn law_last_words_are_the_latest(
    s: LoopState,
    a: Answer,
    record: RecordView,
    known: bool,
    text: Seq<char>,
    summary: Option<Seq<char>>,
)
    ensures
        a.content is Some && a.content->Some_0.len() > 0 ==> accept(s, a).0.last_text
            == a.content->Some_0,
        a.content is None || a.content->Some_0.len() == 0 ==> accept(s, a).0.last_text
            == s.last_text,
        next_call(s).0.last_text == s.last_text,
        next_round(s).0.last_text == s.last_text,
        after_resolve(s, known).0.last_text == s.last_text,
        after_record(s, record).0.last_text == s.last_text,
        after_dispatch(s, record).0.last_text == s.last_text,
        after_dispatch_recall(s, Ok(None)).0.last_text == s.last_text,
        after_dispatch_recall(s, Ok(Some(record))).0.last_text == s.last_text,
        after_dispatch_journal(s, Ok(())).0.last_text == s.last_text,
        after_fetch(s, text).0.last_text == s.last_text,
        after_summary(s, summary).0.last_text == s.last_text,
        after_model(s, a, known).0.stage == Stage::Journal ==> after_model(s, a, known).0.last_text
            == s.last_text,
{
}

/// Where the model may not be asked any more, the last words are the answer; where there are
/// none, a last answer is asked for, and that is the answer.
pub proof fn law_used_up_loop_still_answers(s: LoopState, text: Seq<char>)
    requires
        s.iteration >= s.budget,
    ensures
        s.last_text.len() > 0 ==> {
            &&& next_round(s).1 is Answer
            &&& s.last_text.is_prefix_of(next_round(s).1->Answer_text)
            &&& !s.durable || s.count > 0 ==> next_round(s).1->Answer_text == s.last_text
        },
        s.last_text.len() == 0 ==> next_round(s).1 is Recover,
        after_recovery(s, Some(text)).1 is Answer,
        text.is_prefix_of(after_recovery(s, Some(text)).1->Answer_text),
        !s.durable || s.count > 0 ==> after_recovery(s, Some(text)).1->Answer_text == text,
        after_recovery(s, None).1 == (RequestView::MaxIterations { iterations: s.budget }),
{
    law_guard_only_appends(s.last_text, s.count);
    law_guard_only_appends(text, s.count);
    assert(s.last_text.subrange(0, s.last_text.len() as int) =~= s.last_text);
    assert(text.subrange(0, text.len() as int) =~= text);
}

/// Where rounds are left, the next round asks: a plain loop the model, a durable one the
/// journal, and the model where the journal holds nothing.
pub proof fn law_rounds_that_are_left_are_used(s: LoopState)
    requires
        s.iteration < s.budget,
        s.durable ==> s.prefix is Some,
    ensures
        !s.durable ==> next_round(s).1 == (RequestView::Model { required: false }),
        s.durable ==> next_round(s).1 is RecallAnswer,
        after_answer_recall(s, Ok(None)).1 == (RequestView::Model { required: false }),
        s.next >= s.calls.len() ==> next_call(s) == next_round(s),
{
}

/// Two rounds of a turn never share a journal step, and no round shares one with a dispatch.
pub proof fn law_rounds_have_steps_of_their_own(p: Seq<char>, i: nat, j: nat)
    ensures
        i != j ==> model_step(p, i) != model_step(p, j),
        model_step(p, i) != dispatch_key(p, j),
{
    reveal_strlit("-llm-");
    reveal_strlit("-dispatch-");
    let head = p + "-llm-"@;
    if model_step(p, i) == model_step(p, j) {
        assert(decimal(i) =~= model_step(p, i).skip(head.len() as int));
        assert(decimal(j) =~= model_step(p, j).skip(head.len() as int));
        crate::text::lemma_decimal_injective(i, j);
    }
    assert(model_step(p, i)[p.len() as int + 1] == 'l');
    assert(dispatch_key(p, j)[p.len() as int + 1] == 'd');
}

/// A fresh answer that does not have to be asked for again goes to the journal as it is, under
/// the step of its round.
pub proof fn law_answer_is_journaled_as_it_is(s: LoopState, a: Answer, offered: bool)
    requires
        s.durable,
        s.prefix is Some,
        s.stage == Stage::Retry || !offered || !s.asks || s.iteration > 0,
    ensures
        after_model(s, a, offered).1 == (RequestView::Journal {
            step: model_step(s.prefix->Some_0, s.iteration),
            answer: a,
        }),
        after_model(s, a, offered).0.pending == a,
        after_journal(after_model(s, a, offered).0, Ok(())).0 == accept(
            after_model(s, a, offered).0,
            a,
        ).0,
{
}

/// A user who asks for work is not put off with words: the first reply of a turn that calls no
/// tool, where tools are offered and none was dispatched, is asked for once more, with a tool
/// required. In all other cases the model is not asked again for the same round.
pub proof fn law_work_is_asked_for_once_more(s: LoopState, a: Answer, offered: bool)
    requires
        s.stage == Stage::Model || s.stage == Stage::Retry,
    ensures
        after_model(s, a, offered).1 == (RequestView::Model { required: true }) <==> s.durable
            && s.stage == Stage::Model && s.iteration == 0 && s.index == s.base && s.asks
            && offered && (a.calls is None || a.calls->Some_0.len() == 0),
        after_model(s, a, offered).1 != (RequestView::Model { required: false }),
{
}

/// A reply with calls opens a round: it stands in the conversation behind all that was said,
/// with its words and its calls, and its calls are the calls of the round.
pub proof fn law_round_opens_with_the_reply(s: LoopState, a: Answer)
    requires
        a.calls is Some,
        a.calls->Some_0.len() > 0,
    ensures
        ({
            let t = accept(s, a).0;
            let n = s.messages.len() as int;
            &&& t.messages.len() > n
            &&& t.messages.take(n) == s.messages
            &&& t.messages[n].role == LlmRole::Assistant
            &&& t.messages[n].tool_calls == a.calls
            &&& t.messages[n].tool_call_id is None
            &&& a.content is Some ==> t.messages[n].content == a.content->Some_0
            &&& a.content is None ==> t.messages[n].content.len() == 0
            &&& t.calls == a.calls->Some_0
            &&& t.iteration == s.iteration + 1
            &&& t.stage == Stage::Resolve || t.stage == Stage::Note
        }),
{
    let t = accept(s, a).0;
    assert(t.messages.take(s.messages.len() as int) =~= s.messages);
}

/// `t` answers the current call of `s` with `content`: the conversation grows by one message,
/// which is a tool's, refers to the call, and says that.
pub open spec fn answers_call(s: LoopState, t: LoopState, content: Seq<char>) -> bool {
    let n = s.messages.len() as int;
    &&& t.messages.len() == n + 1
    &&& t.messages.take(n) == s.messages
    &&& t.messages[n].role == LlmRole::Tool
    &&& t.messages[n].tool_call_id == Some(s.calls[s.next as int].id)
    &&& t.messages[n].content == content
    &&& t.messages[n].tool_calls is None
    &&& t.next == s.next + 1
    &&& t.calls == s.calls
}

/// The result of a tool goes to the model, as the answer to the call that it belongs to.
pub proof fn law_result_goes_to_the_model(s: LoopState, result: Seq<char>)
    ensures
        answers_call(s, after_fetch(s, result).0, result),
        after_fetch(s, result).1 is Note,
        occurs(result, after_fetch(s, result).1->Note_audit),
{
    let t = after_fetch(s, result).0;
    assert(t.messages.take(s.messages.len() as int) =~= s.messages);
    let name = s.calls[s.next as int].name;
    let audit = after_fetch(s, result).1->Note_audit;
    let head = "tool '"@ + name + "' "@ + "dispatched: "@;
    assert(audit =~= head + result);
    assert(audit.subrange(head.len() as int, audit.len() as int) =~= result);
    assert(occurs_at(result, audit, head.len() as int));
}

/// A tool that fails does not end the loop: its error goes to the model, with the name of the
/// tool, as the answer to the call, and is not counted as done.
pub proof fn law_failure_goes_to_the_model(s: LoopState, record: RecordView)
    requires
        record.error is Some,
    ensures
        ({
            let (t, request) = after_record(s, record);
            let said = t.messages[s.messages.len() as int].content;
            &&& request is Note
            &&& answers_call(s, t, said)
            &&& occurs(record.error->Some_0, said)
            &&& occurs(s.calls[s.next as int].name, said)
            &&& t.count == s.count
        }),
{
    let (t, request) = after_record(s, record);
    let error = record.error->Some_0;
    let name = s.calls[s.next as int].name;
    let said = t.messages[s.messages.len() as int].content;
    assert(t.messages.take(s.messages.len() as int) =~= s.messages);
    let head = "error: tool '"@;
    let middle = head + name + "' failed: "@;
    assert(said =~= middle + error);
    assert(said.subrange(middle.len() as int, said.len() as int) =~= error);
    assert(occurs_at(error, said, middle.len() as int));
    assert(said.subrange(head.len() as int, (head.len() + name.len()) as int) =~= name);
    assert(occurs_at(name, said, head.len() as int));
}

/// A tool that does not exist does not end the loop: the model is told its name, as the answer
/// to the call, and nothing is dispatched.
pub proof fn law_unknown_tool_is_told_to_the_model(s: LoopState)
    ensures
        ({
            let (t, request) = after_resolve(s, false);
            let said = t.messages[s.messages.len() as int].content;
            &&& request is Note
            &&& answers_call(s, t, said)
            &&& occurs(s.calls[s.next as int].name, said)
            &&& t.log == s.log
            &&& t.count == s.count
        }),
{
    let (t, request) = after_resolve(s, false);
    let name = s.calls[s.next as int].name;
    let said = t.messages[s.messages.len() as int].content;
    assert(t.messages.take(s.messages.len() as int) =~= s.messages);
    let head = "error: unknown tool '"@;
    assert(said.subrange(head.len() as int, (head.len() + name.len()) as int) =~= name);
    assert(occurs_at(name, said, head.len() as int));
}

/// What is dispatched is the call that the model asked for, with its name and its arguments,
/// and the tool that is looked up is that of the call.
pub proof fn law_the_call_itself_is_dispatched(s: LoopState)
    ensures
        !s.durable ==> {
            &&& after_resolve(s, true).1 is Dispatch
            &&& after_resolve(s, true).1->call == s.calls[s.next as int]
        },
        after_dispatch_recall(s, Ok(None)).1 is Dispatch,
        after_dispatch_recall(s, Ok(None)).1->call == s.calls[s.next as int],
        next_call(s).1 is Resolve ==> next_call(s).1->name == s.calls[s.next as int].name
            && s.next < s.calls.len(),
{
}

/// A call is left out for its budget only where the budget is used up: a tool that was called
/// less often than it may be, and that reads no file too many, is looked up.
pub proof fn law_budget_that_is_left_is_used(s: LoopState)
    requires
        s.next < s.calls.len(),
        !s.durable || {
            let name = s.calls[s.next as int].name;
            &&& occurrences(s.called, name) < s.per_name
            &&& occurs("fs_read"@, name) ==> file_reads(s.called) < s.fs_limit
        },
    ensures
        next_call(s).1 is Resolve,
{
    let name = s.calls[s.next as int].name;
    lemma_occurrences_push(s.called, name, name);
    assert(s.called.push(name).last() == name);
}

/// A call over its budget is answered all the same, by a word that the budget is used up, and
/// is not dispatched.
pub proof fn law_skipped_call_is_answered(s: LoopState)
    requires
        s.next < s.calls.len(),
        !(next_call(s).1 is Resolve),
    ensures
        s.durable,
        next_call(s).1 is Note,
        answers_call(s, next_call(s).0, BUDGET_EXCEEDED@),
        next_call(s).0.log == s.log,
{
    assert(next_call(s).0.messages.take(s.messages.len() as int) =~= s.messages);
}

/// A record of a dispatch that was done is counted, and its result is asked for by its task; of
/// one that waits, the approval is asked for, and that approval is the one that the loop ends
/// with.
pub proof fn law_record_says_what_follows(
    s: LoopState,
    record: RecordView,
    summary: Option<Seq<char>>,
)
    requires
        record.error is None,
    ensures
        record.pending_approval is None ==> {
            let (t, request) = after_record(s, record);
            &&& request == (RequestView::Fetch { task_id: record.task_id, status: record.status })
            &&& s.count < u32::MAX ==> t.count == s.count + 1
            &&& t.messages == s.messages
        },
        record.pending_approval is Some ==> {
            let (t, request) = after_record(s, record);
            let end = after_summary(t, summary).1;
            &&& request == (RequestView::Summarize {
                approval_id: record.pending_approval->Some_0,
            })
            &&& t.count == s.count
            &&& end is Suspend
            &&& end->Suspend_approval_id == record.pending_approval->Some_0
            &&& end->tool == s.calls[s.next as int].name
            &&& end->call_id == s.calls[s.next as int].id
            &&& end->arguments == s.calls[s.next as int].arguments
            &&& end->Suspend_messages == s.messages
            &&& summary is Some ==> end->summary == summary->Some_0
            &&& summary is None ==> occurs(s.calls[s.next as int].name, end->summary)
        },
{
    let name = s.calls[s.next as int].name;
    let head = "tool '"@;
    let text = head + name + "' awaiting human approval"@;
    assert(text.subrange(head.len() as int, (head.len() + name.len()) as int) =~= name);
    assert(occurs_at(name, text, head.len() as int));
}

/// A loop begins with the messages that it is given and with nothing said, called or counted.
pub proof fn law_loop_begins_with_its_messages(
    durable: bool,
    prefix: Option<Seq<char>>,
    asks: bool,
    budget: nat,
    per_name: nat,
    fs_limit: nat,
    base: nat,
    messages: Seq<MessageView>,
)
    ensures
        ({
            let s = next_round(
                initial(durable, prefix, asks, budget, per_name, fs_limit, base, messages),
            ).0;
            &&& s.messages == messages
            &&& s.last_text.len() == 0
            &&& s.iteration == 0 && s.count == 0 && s.index == base
            &&& s.called.len() == 0 && s.log.len() == 0 && s.calls.len() == 0
            &&& s.budget == budget && s.per_name == per_name && s.fs_limit == fs_limit
            &&& s.asks == asks && s.durable == durable && s.prefix == prefix
        }),
{
}

/// Calls are counted by their names, and reads of files by what their names hold.
pub proof fn law_calls_are_counted(names: Seq<Seq<char>>, name: Seq<char>, other: Seq<char>)
    ensures
        occurrences(Seq::empty(), name) == 0,
        occurrences(names.push(name), name) == occurrences(names, name) + 1,
        other != name ==> occurrences(names.push(other), name) == occurrences(names, name),
        file_reads(Seq::empty()) == 0,
        occurs("fs_read"@, name) ==> file_reads(names.push(name)) == file_reads(names) + 1,
        !occurs("fs_read"@, name) ==> file_reads(names.push(name)) == file_reads(names),
{
    assert(names.push(name).drop_last() =~= names);
    assert(names.push(other).drop_last() =~= names);
}

/// In a durable loop a tool that was called as often as it may be is not looked up again, and
/// neither is one that reads files where as many were read as may be.
pub proof fn law_budget_that_is_used_up_is_kept_to(s: LoopState)
    requires
        s.durable,
        s.next < s.calls.len(),
        ({
            let name = s.calls[s.next as int].name;
            occurrences(s.called, name) >= s.per_name || occurs("fs_read"@, name) && file_reads(
                s.called,
            ) >= s.fs_limit
        }),
    ensures
        !(next_call(s).1 is Resolve),
        next_call(s).0.log == s.log,
{
    let name = s.calls[s.next as int].name;
    law_calls_are_counted(s.called, name, name);
    assert(s.called.push(name).last() == name);
}

/// Every dispatch of a turn has a key of its own, made from what the turn's keys begin with and
/// from its number; the journal is asked, and written, under that key.
pub proof fn law_dispatch_goes_under_its_number(s: LoopState, record: RecordView)
    requires
        s.prefix is Some,
    ensures
        ({
            let (t, request) = after_resolve(s, true);
            let key = s.prefix->Some_0 + "-dispatch-"@ + decimal(s.index);
            &&& t.index == s.index + 1
            &&& !s.durable ==> request is Dispatch && request->key == Some(key)
            &&& s.durable ==> {
                &&& request == (RequestView::RecallDispatch { step: key })
                &&& after_dispatch_recall(t, Ok(None)).1 is Dispatch
                &&& after_dispatch_recall(t, Ok(None)).1->key == Some(key)
                &&& after_dispatch(after_dispatch_recall(t, Ok(None)).0, record).1 == (
                RequestView::JournalDispatch { step: key, record })
            }
        }),
{
    let key = s.prefix->Some_0 + "-dispatch-"@ + decimal(s.index);
    assert(dispatch_key(s.prefix->Some_0, s.index) =~= key);
    let t = after_resolve(s, true).0;
    assert(t.log.last().0 == Some(key));
}

/// What breaks a loop is said: the error of the journal stands at the end of the message.
pub proof fn law_broken_loop_says_why(s: LoopState, error: Seq<char>)
    ensures
        after_answer_recall(s, Err(error)).1 is Failed,
        error.is_suffix_of(after_answer_recall(s, Err(error)).1->message),
        after_journal(s, Err(error)).1 is Failed,
        error.is_suffix_of(after_journal(s, Err(error)).1->message),
        after_dispatch_recall(s, Err(error)).1 is Failed,
        error.is_suffix_of(after_dispatch_recall(s, Err(error)).1->message),
        after_dispatch_journal(s, Err(error)).1 is Failed,
        error.is_suffix_of(after_dispatch_journal(s, Err(error)).1->message),
{
    let a = after_answer_recall(s, Err(error)).1->message;
    let b = after_journal(s, Err(error)).1->message;
    let c = after_dispatch_recall(s, Err(error)).1->message;
    let d = after_dispatch_journal(s, Err(error)).1->message;
    assert(a.subrange(a.len() - error.len(), a.len() as int) =~= error);
    assert(b.subrange(b.len() - error.len(), b.len() as int) =~= error);
    assert(c.subrange(c.len() - error.len(), c.len() as int) =~= error);
    assert(d.subrange(d.len() - error.len(), d.len() as int) =~= error);
}

/// The audit trail names the tool of every call, and says of one that failed what went wrong and
/// of one that waits what is to be approved.
pub proof fn law_audit_tells_what_became_of_a_call(
    s: LoopState,
    record: RecordView,
    summary: Seq<char>,
)
    requires
        s.next < s.calls.len(),
    ensures
        ({
            let name = s.calls[s.next as int].name;
            let skipped = next_call(s).1;
            let unknown = after_resolve(s, false).1;
            let failed = after_record(s, record).1;
            let waits = after_summary(s, Some(summary)).1;
            &&& skipped is Note ==> occurs(name, skipped->Note_audit)
            &&& occurs(name, unknown->Note_audit)
            &&& record.error is Some ==> occurs(name, failed->Note_audit)
                && record.error->Some_0.is_suffix_of(failed->Note_audit)
            &&& occurs(name, waits->Suspend_audit)
            &&& occurs(summary, waits->Suspend_audit)
        }),
{
    let name = s.calls[s.next as int].name;
    lemma_audit_names_the_tool(name, "skipped: per-turn budget exceeded"@);
    lemma_audit_names_the_tool(name, "dispatched: unknown tool"@);
    if record.error is Some {
        let e = record.error->Some_0;
        let what = "dispatched: failed: "@ + e;
        lemma_audit_names_the_tool(name, what);
        let audit = audit_text(name, what);
        assert(audit.subrange(audit.len() - e.len(), audit.len() as int) =~= e);
    }
    let what = "dispatched: awaiting approval ("@ + summary + ")"@;
    lemma_audit_names_the_tool(name, what);
    let audit = audit_text(name, what);
    let at = audit.len() - ")"@.len() - summary.len();
    assert(audit.subrange(at, at + summary.len()) =~= summary);
    assert(occurs_at(summary, audit, at));
}

proof fn lemma_audit_names_the_tool(name: Seq<char>, what: Seq<char>)
    ensures
        occurs(name, audit_text(name, what)),
{
    let audit = audit_text(name, what);
    let at = "tool '"@.len() as int;
    assert(audit.subrange(at, at + name.len()) =~= name);
    assert(occurs_at(name, audit, at));
}

/// A durable loop counts every call: one that it ran always, one that it left out where the turn
/// is fresh; a plain loop counts none.
pub proof fn law_calls_are_measured(s: LoopState, result: Seq<char>)
    requires
        s.submitted.len() > 0,
        s.next < s.calls.len(),
    ensures
        s.durable ==> after_resolve(s, false).1->Note_metric == Metric::CountIfFresh,
        !s.durable ==> after_resolve(s, false).1->Note_metric == Metric::Skip,
        s.durable && next_call(s).1 is Note ==> next_call(s).1->Note_metric
            == Metric::CountIfFresh,
        s.durable && s.submitted.last() ==> after_fetch(s, result).1->Note_metric == Metric::Count,
        !s.durable || !s.submitted.last() ==> after_fetch(s, result).1->Note_metric
            == Metric::Skip,
{
}

} // verus!
