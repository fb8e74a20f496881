//! Resuming a turn once its approval is granted.
//!
//! A [`ResumableTurn`] is what is kept of a turn that waits for an approval. [`Resume`]
//! takes a granted approval through its checks to the point where the tool loop goes on.
//! Every check stands before the approval is used: a turn that is unknown, belongs to
//! another being or has expired is refused without a trace.
use vstd::prelude::*;

use crate::error::FamilyClawError;
use crate::identity::{from_operator, is_operator_origin};
use crate::llm::{copy_messages, messages_view, tool_message, LlmMessage, LlmRole, MessageView};
use crate::message::{reply_target, target_of, BusMessage, MessageOrigin};
use crate::text::{
    ascii_lower, ascii_lowered, begins, concat2, concat3, copy_of, is_white_space, occurs,
    occurs_at, same, starts_with, to_ascii_lower, trim, trimmed,
};
use crate::think::{
    after_audit, first_step, AuditKind, ClosingStage, ClosingState, ClosingView, EndView,
    ThinkOutcome,
};
use crate::tool_loop::{
    accept, dispatch_key, initial, law_prefixes_share_no_key, next_round, Answer, RequestView,
};

verus! {

/// What is kept of a turn that waits for an approval. It holds no secret: the messages
/// are redacted, and of the arguments only a hash is kept.
#[derive(Debug)]
pub struct ResumableTurn {
    /// The approval.
    pub approval_id: String,
    /// The being whose turn it is.
    pub being_id: String,
    /// The conversation that the turn belongs to.
    pub conversation_origin: Option<MessageOrigin>,
    /// The conversation with the model, redacted.
    pub messages: Vec<LlmMessage>,
    /// The call that waits.
    pub tool_call_id: String,
    /// Its tool.
    pub tool_name: String,
    /// A hash of its arguments.
    pub arguments_hash: String,
    /// What is to be approved, without secrets.
    pub redacted_arguments: String,
    /// When the turn began to wait.
    pub created_at: i64,
    /// When it ceases to.
    pub expires_at: i64,
    /// Why it waits.
    pub policy_snapshot: String,
    /// The turn in the journal.
    pub turn: u64,
}

/// When a turn ceases to wait: when its approval does, else `ttl` seconds from now.
pub open spec fn expiry(pending: Option<i64>, now: i64, ttl: i64) -> int {
    match pending {
        Some(t) => t as int,
        None => now + ttl,
    }
}

impl ResumableTurn {
    /// What is kept of a turn that waits for `approval_id`.
    pub fn new(
        approval_id: &str,
        being_id: &str,
        conversation_origin: Option<MessageOrigin>,
        redacted_messages: Vec<LlmMessage>,
        tool_call_id: &str,
        tool_name: &str,
        arguments_hash: &str,
        summary: &str,
        now: i64,
        pending_expiry: Option<i64>,
        ttl: i64,
        turn: u64,
    ) -> (r: Self)
        requires
            pending_expiry is None ==> i64::MIN <= now + ttl <= i64::MAX,
        ensures
            r.approval_id@ == approval_id@,
            r.being_id@ == being_id@,
            r.conversation_origin == conversation_origin,
            r.messages == redacted_messages,
            r.tool_call_id@ == tool_call_id@,
            r.tool_name@ == tool_name@,
            r.arguments_hash@ == arguments_hash@,
            r.redacted_arguments@ == summary@,
            r.created_at == now,
            r.expires_at == expiry(pending_expiry, now, ttl),
            r.policy_snapshot@ == "tool '"@ + tool_name@ + "' requires human approval"@,
            r.turn == turn,
    {
        ResumableTurn {
            approval_id: copy_of(approval_id),
            being_id: copy_of(being_id),
            conversation_origin,
            messages: redacted_messages,
            tool_call_id: copy_of(tool_call_id),
            tool_name: copy_of(tool_name),
            arguments_hash: copy_of(arguments_hash),
            redacted_arguments: copy_of(summary),
            created_at: now,
            expires_at: match pending_expiry {
                Some(t) => t,
                None => now + ttl,
            },
            policy_snapshot: concat3("tool '", tool_name, "' requires human approval"),
            turn,
        }
    }

    /// Has the turn ceased to wait?
    pub fn is_expired(&self, now: i64) -> (r: bool)
        ensures
            r == (now >= self.expires_at),
    {
        now >= self.expires_at
    }
}

// ---------------------------------------------------------------------------
// The checks
// ---------------------------------------------------------------------------

/// Why a turn is not resumed.
pub open spec fn refusal(
    approval_id: Seq<char>,
    being_id: Seq<char>,
    now: i64,
    has_actions: bool,
    loaded: Result<Option<ResumableTurn>, String>,
) -> Option<Seq<char>> {
    match loaded {
        Err(e) => Some("resumable load failed: "@ + e@),
        Ok(None) => Some(
            "no resumable turn for approval "@ + approval_id + " (unknown or already resumed)"@,
        ),
        Ok(Some(turn)) => if turn.being_id@ != being_id {
            Some(
                "resumable turn for approval "@ + approval_id
                    + " belongs to another being (owner mismatch) â€” refusing to resume across beings"@,
            )
        } else if now >= turn.expires_at {
            Some("resumable turn for approval "@ + approval_id + " expired"@)
        } else if !has_actions {
            Some("resume_approved requires an ActionRuntime (call with_actions first)"@)
        } else {
            None
        },
    }
}

/// What a resumption waits for.
#[derive(Debug, Clone, Copy, PartialEq, Eq, Structural)]
pub enum ResumeStage {
    /// What was kept of the turn.
    Load,
    /// The approved call.
    Approve,
    /// That what was kept is removed.
    Remove,
    /// The audit trail.
    Audit,
    /// Nothing.
    Done,
}

/// The mathematical state of a [`Resume`].
pub struct ResumeState {
    pub approval_id: Seq<char>,
    pub being_id: Seq<char>,
    pub now: i64,
    pub has_actions: bool,
    pub has_model: bool,
    pub messages: Seq<MessageView>,
    pub call_id: Seq<char>,
    pub origin: Option<MessageOrigin>,
    pub stage: ResumeStage,
}

/// The mathematical value of a [`ResumeRequest`].
pub enum ResumeView {
    Load { approval_id: Seq<char> },
    Approve { approval_id: Seq<char> },
    Remove { approval_id: Seq<char> },
    Audit { kind: AuditKind, detail: Seq<char> },
    Continue { prefix: Seq<char>, messages: Seq<MessageView> },
    NoReply,
    Refused { message: Seq<char> },
}

/// What was kept of the turn is loaded: it is refused, or the approved call is made.
pub open spec fn after_load(
    s: ResumeState,
    loaded: Result<Option<ResumableTurn>, String>,
) -> (ResumeState, ResumeView) {
    match refusal(s.approval_id, s.being_id, s.now, s.has_actions, loaded) {
        Some(message) => (
            ResumeState { stage: ResumeStage::Done, ..s },
            ResumeView::Refused { message },
        ),
        None => {
            let turn = loaded->Ok_0->Some_0;
            (
                ResumeState {
                    messages: messages_view(turn.messages@),
                    call_id: turn.tool_call_id@,
                    origin: turn.conversation_origin,
                    stage: ResumeStage::Approve,
                    ..s
                },
                ResumeView::Approve { approval_id: s.approval_id },
            )
        },
    }
}

/// The approved call is made, or refused. Its result answers the call that waited.
pub open spec fn after_approve(s: ResumeState, result: Result<Seq<char>, Seq<char>>) -> (
    ResumeState,
    ResumeView,
) {
    match result {
        Err(e) => (
            ResumeState { stage: ResumeStage::Done, ..s },
            ResumeView::Refused { message: "approve failed: "@ + e },
        ),
        Ok(text) => (
            ResumeState {
                messages: s.messages.push(tool_message(s.call_id, text)),
                stage: ResumeStage::Remove,
                ..s
            },
            ResumeView::Remove { approval_id: s.approval_id },
        ),
    }
}

/// The audit line of a resumed turn.
pub open spec fn after_remove(s: ResumeState) -> (ResumeState, ResumeView) {
    (
        ResumeState { stage: ResumeStage::Audit, ..s },
        ResumeView::Audit {
            kind: AuditKind::TurnResumed,
            detail: "turn resumed after approval "@ + s.approval_id,
        },
    )
}

/// What the keys of the dispatches of a resumed turn begin with.
pub open spec fn resume_prefix(approval_id: Seq<char>) -> Seq<char> {
    "resume-"@ + approval_id
}

/// The loop goes on, where there is a model.
pub open spec fn after_resume_audit(s: ResumeState) -> (ResumeState, ResumeView) {
    (
        ResumeState { stage: ResumeStage::Done, ..s },
        if s.has_model {
            ResumeView::Continue {
                prefix: resume_prefix(s.approval_id),
                messages: s.messages,
            }
        } else {
            ResumeView::NoReply
        },
    )
}

/// How many requests may still come at most: a resumption always ends.
pub open spec fn steps_left(s: ResumeState) -> nat {
    match s.stage {
        ResumeStage::Load => 5,
        ResumeStage::Approve => 4,
        ResumeStage::Remove => 3,
        ResumeStage::Audit => 2,
        ResumeStage::Done => 1,
    }
}

/// The request asks for what the stage waits for, so that whoever answers it can always go on.
pub open spec fn waits_for(stage: ResumeStage, request: ResumeView) -> bool {
    match stage {
        ResumeStage::Load => request is Load,
        ResumeStage::Approve => request is Approve,
        ResumeStage::Remove => request is Remove,
        ResumeStage::Audit => request is Audit,
        ResumeStage::Done => request is Continue || request is NoReply || request is Refused,
    }
}

/// What the caller has to do next.
#[derive(Debug)]
pub enum ResumeRequest {
    /// Load what was kept of the turn.
    Load {
        /// The approval.
        approval_id: String,
    },
    /// Use the approval: make the call that waits, once.
    Approve {
        /// The approval.
        approval_id: String,
    },
    /// Remove what was kept of the turn. A failure does no harm.
    Remove {
        /// The approval.
        approval_id: String,
    },
    /// Write a line to the audit trail.
    Audit {
        /// Its kind.
        kind: AuditKind,
        /// What it says.
        detail: String,
    },
    /// Go on with a plain tool loop with these keys and messages.
    Continue {
        /// What its keys begin with.
        prefix: String,
        /// The conversation.
        messages: Vec<LlmMessage>,
    },
    /// There is no model: the turn ends without a reply.
    NoReply,
    /// The turn is not resumed.
    Refused(FamilyClawError),
}

impl View for ResumeRequest {
    type V = ResumeView;

    open spec fn view(&self) -> ResumeView {
        match self {
            ResumeRequest::Load { approval_id } => ResumeView::Load { approval_id: approval_id@ },
            ResumeRequest::Approve { approval_id } => ResumeView::Approve {
                approval_id: approval_id@,
            },
            ResumeRequest::Remove { approval_id } => ResumeView::Remove {
                approval_id: approval_id@,
            },
            ResumeRequest::Audit { kind, detail } => ResumeView::Audit {
                kind: *kind,
                detail: detail@,
            },
            ResumeRequest::Continue { prefix, messages } => ResumeView::Continue {
                prefix: prefix@,
                messages: messages_view(messages@),
            },
            ResumeRequest::NoReply => ResumeView::NoReply,
            ResumeRequest::Refused(e) => ResumeView::Refused { message: e.message() },
        }
    }
}

/// The resumption of a turn.
#[derive(Debug)]
pub struct Resume {
    approval_id: String,
    being_id: String,
    now: i64,
    has_actions: bool,
    has_model: bool,
    messages: Vec<LlmMessage>,
    call_id: String,
    origin: Option<MessageOrigin>,
    stage: ResumeStage,
}

impl View for Resume {
    type V = ResumeState;

    closed spec fn view(&self) -> ResumeState {
        ResumeState {
            approval_id: self.approval_id@,
            being_id: self.being_id@,
            now: self.now,
            has_actions: self.has_actions,
            has_model: self.has_model,
            messages: messages_view(self.messages@),
            call_id: self.call_id@,
            origin: self.origin,
            stage: self.stage,
        }
    }
}

impl Resume {
    /// Begins to resume the turn that waits for `approval_id`, as the being `being_id`.
    pub fn new(
        approval_id: &str,
        being_id: &str,
        now: i64,
        has_actions: bool,
        has_model: bool,
    ) -> (r: (Resume, ResumeRequest))
        ensures
            waits_for(r.0@.stage, r.1@),
            r.0@ == (ResumeState {
                approval_id: approval_id@,
                being_id: being_id@,
                now,
                has_actions,
                has_model,
                messages: Seq::empty(),
                call_id: Seq::empty(),
                origin: None,
                stage: ResumeStage::Load,
            }),
            r.1@ == (ResumeView::Load { approval_id: approval_id@ }),
    {
        let this = Resume {
            approval_id: copy_of(approval_id),
            being_id: copy_of(being_id),
            now,
            has_actions,
            has_model,
            messages: Vec::new(),
            call_id: String::new(),
            origin: None,
            stage: ResumeStage::Load,
        };
        assert(this@.messages =~= Seq::<MessageView>::empty());
        (this, ResumeRequest::Load { approval_id: copy_of(approval_id) })
    }

    /// Takes what was kept of the turn.
    pub fn on_loaded(&mut self, loaded: Result<Option<ResumableTurn>, String>) -> (r: ResumeRequest)
        requires
            old(self)@.stage == ResumeStage::Load,
        ensures
            waits_for(final(self)@.stage, r@),
            steps_left(final(self)@) < steps_left(old(self)@),
            (final(self)@, r@) == after_load(old(self)@, loaded),
            r is Refused ==> r->Refused_0 is InvalidInput,
    {
        let turn = match loaded {
            Err(e) => {
                self.stage = ResumeStage::Done;
                return ResumeRequest::Refused(
                    FamilyClawError::InvalidInput(concat2("resumable load failed: ", e.as_str())),
                );
            },
            Ok(None) => {
                self.stage = ResumeStage::Done;
                return ResumeRequest::Refused(
                    FamilyClawError::InvalidInput(
                        concat3(
                            "no resumable turn for approval ",
                            self.approval_id.as_str(),
                            " (unknown or already resumed)",
                        ),
                    ),
                );
            },
            Ok(Some(turn)) => turn,
        };
        if !same(turn.being_id.as_str(), self.being_id.as_str()) {
            self.stage = ResumeStage::Done;
            return ResumeRequest::Refused(
                FamilyClawError::InvalidInput(
                    concat3(
                        "resumable turn for approval ",
                        self.approval_id.as_str(),
                        " belongs to another being (owner mismatch) â€” refusing to resume across beings",
                    ),
                ),
            );
        }
        if turn.is_expired(self.now) {
            self.stage = ResumeStage::Done;
            return ResumeRequest::Refused(
                FamilyClawError::InvalidInput(
                    concat3("resumable turn for approval ", self.approval_id.as_str(), " expired"),
                ),
            );
        }
        if !self.has_actions {
            self.stage = ResumeStage::Done;
            return ResumeRequest::Refused(
                FamilyClawError::invalid_input(
                    "resume_approved requires an ActionRuntime (call with_actions first)",
                ),
            );
        }
        self.messages = turn.messages;
        self.call_id = turn.tool_call_id;
        self.origin = turn.conversation_origin;
        self.stage = ResumeStage::Approve;
        ResumeRequest::Approve { approval_id: copy_of(self.approval_id.as_str()) }
    }

    /// Takes the result of the approved call, or why it was refused.
    pub fn on_approved(&mut self, result: Result<String, String>) -> (r: ResumeRequest)
        requires
            old(self)@.stage == ResumeStage::Approve,
        ensures
            waits_for(final(self)@.stage, r@),
            steps_left(final(self)@) < steps_left(old(self)@),
            (final(self)@, r@) == after_approve(
                old(self)@,
                match result {
                    Ok(t) => Ok(t@),
                    Err(e) => Err(e@),
                },
            ),
            r is Refused ==> r->Refused_0 is InvalidInput,
    {
        match result {
            Err(e) => {
                self.stage = ResumeStage::Done;
                ResumeRequest::Refused(
                    FamilyClawError::InvalidInput(concat2("approve failed: ", e.as_str())),
                )
            },
            Ok(text) => {
                let ghost before = self.messages@;
                let message = LlmMessage::tool_result(self.call_id.as_str(), text.as_str());
                let ghost m = message@;
                self.messages.push(message);
                assert(messages_view(self.messages@) =~= messages_view(before).push(m));
                self.stage = ResumeStage::Remove;
                ResumeRequest::Remove { approval_id: copy_of(self.approval_id.as_str()) }
            },
        }
    }

    /// Goes on once what was kept is removed, or could not be.
    pub fn on_removed(&mut self) -> (r: ResumeRequest)
        requires
            old(self)@.stage == ResumeStage::Remove,
        ensures
            waits_for(final(self)@.stage, r@),
            steps_left(final(self)@) < steps_left(old(self)@),
            (final(self)@, r@) == after_remove(old(self)@),
    {
        self.stage = ResumeStage::Audit;
        ResumeRequest::Audit {
            kind: AuditKind::TurnResumed,
            detail: concat2("turn resumed after approval ", self.approval_id.as_str()),
        }
    }

    /// Goes on once the audit line is written.
    pub fn on_noted(&mut self) -> (r: ResumeRequest)
        requires
            old(self)@.stage == ResumeStage::Audit,
        ensures
            waits_for(final(self)@.stage, r@),
            steps_left(final(self)@) < steps_left(old(self)@),
            (final(self)@, r@) == after_resume_audit(old(self)@),
    {
        self.stage = ResumeStage::Done;
        if self.has_model {
            ResumeRequest::Continue {
                prefix: concat2("resume-", self.approval_id.as_str()),
                messages: copy_messages(self.messages.as_slice()),
            }
        } else {
            ResumeRequest::NoReply
        }
    }

    /// The conversation that the turn belongs to. A suspension that follows keeps it.
    pub fn origin(&self) -> (r: &Option<MessageOrigin>)
        ensures
            *r == self@.origin,
    {
        &self.origin
    }
}

// ---------------------------------------------------------------------------
// The signal and the command
// ---------------------------------------------------------------------------

/// The conversation of a turn, as far as it can be told before the turn is resumed. That it
/// cannot be told does not keep the turn from being resumed.
pub fn peeked_origin(peeked: Result<Option<ResumableTurn>, String>) -> (r: Option<MessageOrigin>)
    ensures
        r == match peeked {
            Ok(Some(turn)) => turn.conversation_origin,
            _ => None,
        },
{
    match peeked {
        Ok(Some(turn)) => turn.conversation_origin,
        _ => None,
    }
}

/// The message that a resumed turn sends: its reply, to the conversation that the turn
/// belongs to or else to the configured target. An error, a further suspension and the
/// lack of a reply or of a target send nothing, and neither do an empty reply or target.
pub fn resume_signal_reply(
    outcome: Result<ThinkOutcome, FamilyClawError>,
    origin: &Option<MessageOrigin>,
    configured: &Option<String>,
) -> (r: Option<(String, String)>)
    ensures
        match r {
            Some((target, body)) => outcome is Ok && outcome->Ok_0 is Reply && body@
                == outcome->Ok_0->Reply_0@ && target_of(*origin, *configured) == Some(target@)
                && body@.len() > 0 && target@.len() > 0,
            None => outcome is Err || !(outcome->Ok_0 is Reply)
                || outcome->Ok_0->Reply_0@.len() == 0 || target_of(*origin, *configured) is None
                || target_of(*origin, *configured)->Some_0.len() == 0,
        },
{
    match outcome {
        Ok(ThinkOutcome::Reply(text)) => match reply_target(origin, configured) {
            Some(target) => if target.as_str().is_empty() || text.as_str().is_empty() {
                None
            } else {
                Some((target, text))
            },
            None => None,
        },
        _ => None,
    }
}

/// A command of the operator on an approval.
#[derive(Debug, Clone, PartialEq, Eq)]
pub enum OperatorApprovalCommand {
    /// Grant it.
    Approve(String),
    /// Deny it.
    Deny(String),
}

/// The command in a text: `approve` or `deny`, in any case, and an approval.
pub open spec fn command_in(words: Seq<char>) -> Option<(bool, Seq<char>)> {
    let t = trimmed(words);
    let lower = ascii_lowered(t);
    if begins("approve "@, lower) && trimmed(t.skip(8)).len() > 0 {
        Some((true, trimmed(t.skip(8))))
    } else if begins("deny "@, lower) && trimmed(t.skip(5)).len() > 0 {
        Some((false, trimmed(t.skip(5))))
    } else {
        None
    }
}

/// The text from the character `from` on.
fn text_from(s: &str, from: usize) -> (r: String)
    requires
        from <= s@.len(),
    ensures
        r@ == s@.skip(from as int),
{
    let cs = crate::text::chars_of(s);
    let n: usize = cs.len();
    let r = crate::text::string_of(&cs, from, n);
    assert(r@ =~= s@.skip(from as int));
    r
}

/// Reads a command of the operator on an approval.
pub fn parse_operator_approval_command(message: &BusMessage) -> (r: Option<OperatorApprovalCommand>)
    ensures
        match r {
            Some(OperatorApprovalCommand::Approve(id)) => message.words() is Some && command_in(
                message.words()->Some_0,
            ) == Some((true, id@)),
            Some(OperatorApprovalCommand::Deny(id)) => message.words() is Some && command_in(
                message.words()->Some_0,
            ) == Some((false, id@)),
            None => message.words() is None || command_in(message.words()->Some_0) is None,
        },
{
    let words = match message.spoken() {
        Some(w) => w,
        None => {
            return None;
        },
    };
    proof {
        reveal_strlit("approve ");
        reveal_strlit("deny ");
    }
    let t = trim(words);
    let lower = to_ascii_lower(t.as_str());
    assert(lower@.len() == t@.len());
    if starts_with(lower.as_str(), "approve ") {
        let id = trim(text_from(t.as_str(), 8).as_str());
        if !id.as_str().is_empty() {
            return Some(OperatorApprovalCommand::Approve(id));
        }
    }
    if starts_with(lower.as_str(), "deny ") {
        let id = trim(text_from(t.as_str(), 5).as_str());
        if !id.as_str().is_empty() {
            return Some(OperatorApprovalCommand::Deny(id));
        }
    }
    None
}

/// What to do with a message that may be a command of the operator.
#[derive(Debug, Clone, PartialEq, Eq)]
pub enum CommandPlan {
    /// It is no command.
    Nothing,
    /// Nothing can be approved.
    NoRuntime(String),
    /// Resume the turn that waits for this approval. The resumption uses the approval.
    Resume(String),
    /// Deny this approval.
    Deny(String),
}

/// Is the message a command to be followed? Only the operator commands, and only once: a
/// replayed turn followed it before.
pub open spec fn is_command(
    message: BusMessage,
    operator: Option<u64>,
    origin: Option<MessageOrigin>,
    replaying: bool,
) -> bool {
    from_operator(operator, origin) && !replaying && message.words() is Some && command_in(
        message.words()->Some_0,
    ) is Some
}

/// Decides what to do with a message that may be a command of the operator.
pub fn plan_operator_command(
    message: &BusMessage,
    operator: Option<u64>,
    origin: &Option<MessageOrigin>,
    replaying: bool,
    has_actions: bool,
) -> (r: CommandPlan)
    ensures
        match r {
            CommandPlan::Nothing => !is_command(*message, operator, *origin, replaying),
            CommandPlan::NoRuntime(m) => is_command(*message, operator, *origin, replaying)
                && !has_actions && m@ == "ActionRuntime ei ole kytketty."@,
            CommandPlan::Resume(id) => is_command(*message, operator, *origin, replaying)
                && has_actions && command_in(message.words()->Some_0) == Some((true, id@)),
            CommandPlan::Deny(id) => is_command(*message, operator, *origin, replaying)
                && has_actions && command_in(message.words()->Some_0) == Some((false, id@)),
        },
{
    if !is_operator_origin(operator, origin) || replaying {
        return CommandPlan::Nothing;
    }
    match parse_operator_approval_command(message) {
        None => CommandPlan::Nothing,
        Some(command) => if !has_actions {
            CommandPlan::NoRuntime(copy_of("ActionRuntime ei ole kytketty."))
        } else {
            match command {
                OperatorApprovalCommand::Approve(id) => CommandPlan::Resume(id),
                OperatorApprovalCommand::Deny(id) => CommandPlan::Deny(id),
            }
        },
    }
}

/// The error of a command whose approval cannot be read.
pub fn invalid_approval_id(id: &str) -> (r: FamilyClawError)
    ensures
        r is Config,
        r->Config_0@ == "invalid approval id: "@ + id@,
{
    FamilyClawError::Config(concat2("invalid approval id: ", id))
}

/// The reply to a command that was followed.
pub open spec fn command_reply_text(approved: bool, id: Seq<char>) -> Seq<char> {
    if approved {
        "APPROVE OK: "@ + id + " â€” resume signaali lÃ¤hetetty."@
    } else {
        "DENY OK: "@ + id + " â€” tehtÃ¤vÃ¤ peruutettu."@
    }
}

/// The reply to a command that was followed, or the error of an approval or a denial that was
/// refused.
pub fn command_reply(approved: bool, id: &str, error: Option<String>) -> (r: Result<
    String,
    FamilyClawError,
>)
    ensures
        match r {
            Ok(s) => error is None && s@ == command_reply_text(approved, id@),
            Err(e) => error is Some && e is Bus && e->Bus_0@ == error->Some_0@,
        },
{
    match error {
        Some(e) => Err(FamilyClawError::Bus(e)),
        None => Ok(
            if approved {
                concat3("APPROVE OK: ", id, " â€” resume signaali lÃ¤hetetty.")
            } else {
                concat3("DENY OK: ", id, " â€” tehtÃ¤vÃ¤ peruutettu.")
            },
        ),
    }
}

// ---------------------------------------------------------------------------
// Laws
// ---------------------------------------------------------------------------

/// An approval is used only for a turn that was kept, belongs to the being that resumes it
/// and has not expired, and only where actions can be taken.
pub proof fn law_approval_is_used_only_after_all_checks(
    s: ResumeState,
    loaded: Result<Option<ResumableTurn>, String>,
)
    requires
        after_load(s, loaded).1 is Approve,
    ensures
        loaded is Ok,
        loaded->Ok_0 is Some,
        loaded->Ok_0->Some_0.being_id@ == s.being_id,
        s.now < loaded->Ok_0->Some_0.expires_at,
        s.has_actions,
{
}

/// A being cannot resume the turn of another one: it is refused before anything is used or
/// removed.
pub proof fn law_no_resumption_across_beings(
    s: ResumeState,
    loaded: Result<Option<ResumableTurn>, String>,
)
    requires
        loaded is Ok,
        loaded->Ok_0 is Some,
        loaded->Ok_0->Some_0.being_id@ != s.being_id,
    ensures
        after_load(s, loaded).1 is Refused,
        after_load(s, loaded).0.stage == ResumeStage::Done,
{
}

/// The owner of a turn that is kept and has not expired is never refused for the turn's
/// sake.
pub proof fn law_owner_may_resume(s: ResumeState, turn: ResumableTurn)
    requires
        turn.being_id@ == s.being_id,
        s.now < turn.expires_at,
        s.has_actions,
    ensures
        after_load(s, Ok(Some(turn))).1 == (ResumeView::Approve { approval_id: s.approval_id }),
{
}

/// What was kept of a turn is removed, and the loop goes on, only after the approval was
/// used; a refused approval leaves both as they are.
pub proof fn law_refused_approval_changes_nothing(s: ResumeState, error: Seq<char>)
    ensures
        after_approve(s, Err(error)).1 is Refused,
        after_approve(s, Err(error)).0.stage == ResumeStage::Done,
        after_approve(s, Err(error)).0.messages == s.messages,
{
}

/// Resumptions of different approvals use different keys.
pub proof fn law_resumptions_share_no_key(a: Seq<char>, b: Seq<char>, i: nat, j: nat)
    requires
        a != b,
    ensures
        dispatch_key(resume_prefix(a), i) != dispatch_key(resume_prefix(b), j),
{
    let n = "resume-"@.len() as int;
    assert(resume_prefix(a).skip(n) =~= a);
    assert(resume_prefix(b).skip(n) =~= b);
    law_prefixes_share_no_key(resume_prefix(a), resume_prefix(b), i, j);
}

/// What is kept outside of a resumption: the turns that wait, the approvals that are open, and
/// how often an approved call was run.
pub struct Desk {
    pub turns: Map<Seq<char>, ResumableTurn>,
    pub open: Set<Seq<char>>,
    pub runs: nat,
}

/// A whole resumption: the desk that it leaves, and its last request. An open approval is used
/// up and its call gives `result`; one that is not open is refused. `removed` tells whether the
/// turn could be removed.
pub open spec fn resumption(
    s: ResumeState,
    desk: Desk,
    result: Result<Seq<char>, Seq<char>>,
    removed: bool,
) -> (Desk, ResumeView) {
    let id = s.approval_id;
    let stored = if desk.turns.contains_key(id) {
        Some(desk.turns[id])
    } else {
        None
    };
    let (loaded, request) = after_load(s, Ok(stored));
    if !(request is Approve) {
        (desk, request)
    } else if desk.open.contains(id) && result is Ok {
        let approved = after_approve(loaded, result).0;
        (
            Desk {
                turns: if removed {
                    desk.turns.remove(id)
                } else {
                    desk.turns
                },
                open: desk.open.remove(id),
                runs: desk.runs + 1,
            },
            after_resume_audit(after_remove(approved).0).1,
        )
    } else {
        let error = match result {
            Ok(text) => text,
            Err(e) => e,
        };
        (desk, after_approve(loaded, Err(error)).1)
    }
}

/// A turn is resumed at most once: the first resumption that passes all checks runs the call
/// once and goes on; whoever asks again is refused, and runs nothing, even where the turn could
/// not be removed.
pub proof fn law_turn_is_resumed_once(
    s: ResumeState,
    again: ResumeState,
    desk: Desk,
    first: Result<Seq<char>, Seq<char>>,
    second: Result<Seq<char>, Seq<char>>,
    removed: bool,
    removed_again: bool,
)
    requires
        again.approval_id == s.approval_id,
    ensures
        ({
            let (after, end) = resumption(s, desk, first, removed);
            let (later, answer) = resumption(again, after, second, removed_again);
            &&& after.runs == desk.runs ==> after == desk && end is Refused
            &&& after.runs != desk.runs ==> {
                &&& after.runs == desk.runs + 1
                &&& removed ==> !after.turns.contains_key(s.approval_id)
                &&& s.has_model ==> end is Continue
                &&& later == after
                &&& answer is Refused
            }
        }),
{
}

/// A turn that is kept, belongs to the being that resumes it and has not expired, is resumed
/// where its approval is open and its call succeeds; and the next being that asks for it finds
/// it gone.
pub proof fn law_open_approval_resumes_its_turn(
    s: ResumeState,
    desk: Desk,
    result: Seq<char>,
)
    requires
        desk.turns.contains_key(s.approval_id),
        desk.turns[s.approval_id].being_id@ == s.being_id,
        s.now < desk.turns[s.approval_id].expires_at,
        s.has_actions,
        desk.open.contains(s.approval_id),
    ensures
        ({
            let (after, end) = resumption(s, desk, Ok(result), true);
            &&& after.runs == desk.runs + 1
            &&& !after.turns.contains_key(s.approval_id)
            &&& s.has_model ==> end == (ResumeView::Continue {
                prefix: resume_prefix(s.approval_id),
                messages: messages_view(desk.turns[s.approval_id].messages@).push(
                    tool_message(desk.turns[s.approval_id].tool_call_id@, result),
                ),
            })
        }),
{
}

/// Where the model answers a resumed turn with a text, that text is the reply.
pub proof fn law_resumed_turn_replies_with_the_answer(
    prefix: Seq<char>,
    messages: Seq<MessageView>,
    budget: nat,
    text: Seq<char>,
)
    requires
        budget > 0,
        text.len() > 0,
    ensures
        ({
            let asked = next_round(
                initial(false, Some(prefix), false, budget, 0, 0, 0, messages),
            ).0;
            let answer = Answer { content: Some(text), calls: None };
            let closing = ClosingState {
                turn: None,
                audited: true,
                replaying: false,
                end: EndView::Answer { text, dispatches: 0 },
                persisted: false,
                persist_error: Seq::empty(),
                stage: ClosingStage::Done,
            };
            &&& accept(asked, answer).1 == (RequestView::Answer { text, dispatches: 0 })
            &&& first_step(closing).1 is Audit
            &&& after_audit(first_step(closing).0).1 == ClosingView::Reply(text)
        }),
{
}

/// Nobody but the operator commands, and no command is followed twice.
pub proof fn law_only_the_operator_commands(
    message: BusMessage,
    operator: Option<u64>,
    origin: Option<MessageOrigin>,
    replaying: bool,
)
    requires
        !from_operator(operator, origin) || replaying,
    ensures
        !is_command(message, operator, origin, replaying),
{
}

// ---------------------------------------------------------------------------
// What a resumption is for
// ---------------------------------------------------------------------------

/// A resumed turn goes on where it stopped: with the messages that were kept of it, as they
/// were, and behind them one more, which answers the call that waited with what it gave.
pub proof fn law_resumed_turn_goes_on_where_it_stopped(s: ResumeState, desk: Desk, result: Seq<char>)
    requires
        desk.turns.contains_key(s.approval_id),
        desk.turns[s.approval_id].being_id@ == s.being_id,
        s.now < desk.turns[s.approval_id].expires_at,
        s.has_actions,
        s.has_model,
        desk.open.contains(s.approval_id),
    ensures
        ({
            let turn = desk.turns[s.approval_id];
            let end = resumption(s, desk, Ok(result), true).1;
            let n = turn.messages@.len() as int;
            &&& end is Continue
            &&& end->messages.len() == n + 1
            &&& forall|i: int|
                0 <= i < n ==> end->messages[i] == (#[trigger] turn.messages@[i])@
            &&& end->messages[n].role == LlmRole::Tool
            &&& end->messages[n].content == result
            &&& end->messages[n].tool_call_id == Some(turn.tool_call_id@)
            &&& s.approval_id.is_suffix_of(end->prefix)
        }),
{
    let turn = desk.turns[s.approval_id];
    let end = resumption(s, desk, Ok(result), true).1;
    assert(end->prefix.subrange(
        end->prefix.len() - s.approval_id.len(),
        end->prefix.len() as int,
    ) =~= s.approval_id);
    assert forall|i: int| 0 <= i < turn.messages@.len() implies end->messages[i] == (
    #[trigger] turn.messages@[i])@ by {
        assert(messages_view(turn.messages@)[i] == turn.messages@[i]@);
    }
}

/// A resumed turn keeps the conversation that it belongs to.
pub proof fn law_resumed_turn_keeps_its_conversation(
    s: ResumeState,
    turn: ResumableTurn,
    result: Seq<char>,
)
    requires
        turn.being_id@ == s.being_id,
        s.now < turn.expires_at,
        s.has_actions,
    ensures
        after_load(s, Ok(Some(turn))).0.origin == turn.conversation_origin,
        after_approve(after_load(s, Ok(Some(turn))).0, Ok(result)).0.origin
            == turn.conversation_origin,
{
}

/// Every request of a resumption is for the approval that it was begun with, and so is what the
/// audit trail says of it.
pub proof fn law_resumption_is_for_its_approval(
    s: ResumeState,
    loaded: Result<Option<ResumableTurn>, String>,
    result: Result<Seq<char>, Seq<char>>,
)
    ensures
        after_load(s, loaded).0.approval_id == s.approval_id,
        after_load(s, loaded).1 is Approve ==> after_load(s, loaded).1->Approve_approval_id
            == s.approval_id,
        after_approve(s, result).0.approval_id == s.approval_id,
        after_approve(s, result).1 is Remove <==> result is Ok,
        result is Ok ==> after_approve(s, result).1->Remove_approval_id == s.approval_id,
        after_remove(s).1 is Audit,
        after_remove(s).1->kind == AuditKind::TurnResumed,
        s.approval_id.is_suffix_of(after_remove(s).1->detail),
{
    let d = after_remove(s).1->detail;
    assert(d.subrange(d.len() - s.approval_id.len(), d.len() as int) =~= s.approval_id);
}

/// A turn that is not resumed says why: it names the approval, or says what went wrong.
pub proof fn law_refusal_says_why(
    s: ResumeState,
    loaded: Result<Option<ResumableTurn>, String>,
    error: Seq<char>,
)
    ensures
        loaded is Err ==> after_load(s, loaded).1 is Refused && loaded->Err_0@.is_suffix_of(
            after_load(s, loaded).1->message,
        ),
        loaded is Ok && loaded->Ok_0 is None ==> after_load(s, loaded).1 is Refused && occurs(
            s.approval_id,
            after_load(s, loaded).1->message,
        ),
        loaded is Ok && loaded->Ok_0 is Some && s.now >= loaded->Ok_0->Some_0.expires_at
            ==> after_load(s, loaded).1 is Refused && occurs(
            s.approval_id,
            after_load(s, loaded).1->message,
        ),
        error.is_suffix_of(after_approve(s, Err(error)).1->message),
{
    let id = s.approval_id;
    let m = after_load(s, loaded).1->message;
    if loaded is Err {
        let e = loaded->Err_0@;
        assert(m.subrange(m.len() - e.len(), m.len() as int) =~= e);
    } else if loaded->Ok_0 is None {
        let at = "no resumable turn for approval "@.len() as int;
        assert(m.subrange(at, at + id.len()) =~= id);
        assert(occurs_at(id, m, at));
    } else if s.now >= loaded->Ok_0->Some_0.expires_at {
        let at = "resumable turn for approval "@.len() as int;
        assert(m.subrange(at, at + id.len()) =~= id);
        assert(occurs_at(id, m, at));
    }
    let t = after_approve(s, Err(error)).1->message;
    assert(t.subrange(t.len() - error.len(), t.len() as int) =~= error);
}

/// `approve` or `deny`, in any case, and behind it an approval: that is the command, for that
/// approval.
pub proof fn law_command_is_for_the_approval_it_names(verb: Seq<char>, id: Seq<char>)
    requires
        id.len() > 0,
        !is_white_space(id[0]),
        !is_white_space(id.last()),
    ensures
        ascii_lowered(verb) == "approve "@ ==> command_in(verb + id) == Some((true, id)),
        ascii_lowered(verb) == "deny "@ ==> command_in(verb + id) == Some((false, id)),
{
    reveal_strlit("approve ");
    reveal_strlit("deny ");
    let s = verb + id;
    if ascii_lowered(verb) == "approve "@ || ascii_lowered(verb) == "deny "@ {
        let low = ascii_lowered(verb);
        assert(low.len() == verb.len());
        assert(low[0] == ascii_lower(verb[0]));
        assert(low[0] == 'a' || low[0] == 'd');
        assert(!is_white_space(s[0]));
        assert(s.last() == id.last());
        assert(trimmed(s) == s);
        assert(s.skip(verb.len() as int) =~= id);
        assert(trimmed(id) == id);
        let lower = ascii_lowered(s);
        assert(lower.subrange(0, verb.len() as int) =~= low);
        if low == "deny "@ {
            assert(lower[0] == 'd');
            assert("approve "@[0] == 'a');
            if begins("approve "@, lower) {
                assert(lower.subrange(0, 8)[0] == 'a');
            }
        }
    }
}

/// The operator is told which approval was granted or denied.
pub proof fn law_command_reply_names_the_approval(id: Seq<char>)
    ensures
        occurs(id, command_reply_text(true, id)),
        occurs(id, command_reply_text(false, id)),
        "APPROVE OK: "@.is_prefix_of(command_reply_text(true, id)),
        "DENY OK: "@.is_prefix_of(command_reply_text(false, id)),
{
    let a = command_reply_text(true, id);
    let d = command_reply_text(false, id);
    let m = "APPROVE OK: "@.len() as int;
    let n = "DENY OK: "@.len() as int;
    assert(a.subrange(m, m + id.len()) =~= id);
    assert(d.subrange(n, n + id.len()) =~= id);
    assert(occurs_at(id, a, m));
    assert(occurs_at(id, d, n));
    assert(a.subrange(0, m) =~= "APPROVE OK: "@);
    assert(d.subrange(0, n) =~= "DENY OK: "@);
}

/// A turn waits until its approval does, and where that is not known for as long as turns wait.
pub proof fn law_turn_waits_as_long_as_its_approval(pending: i64, now: i64, ttl: i64)
    ensures
        expiry(Some(pending), now, ttl) == pending,
        expiry(None, now, ttl) - now == ttl,
{
}

/// What the operator commands in a fresh turn is a command: to grant or to deny the approval
/// that is named.
pub proof fn law_operator_is_obeyed(
    message: BusMessage,
    operator: u64,
    origin: MessageOrigin,
    verb: Seq<char>,
    id: Seq<char>,
)
    requires
        from_operator(Some(operator), Some(origin)),
        message is Text,
        message->body@ == verb + id,
        ascii_lowered(verb) == "approve "@ || ascii_lowered(verb) == "deny "@,
        id.len() > 0,
        !is_white_space(id[0]),
        !is_white_space(id.last()),
    ensures
        is_command(message, Some(operator), Some(origin), false),
{
    law_command_is_for_the_approval_it_names(verb, id);
}

} // verus!
