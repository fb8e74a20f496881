use familyclaw_agent::error::{recovery_fallback_reply, FamilyClawError};
use familyclaw_agent::identity::RecalledMemory;
use familyclaw_agent::llm::LlmMessage;
use familyclaw_agent::message::{BusMessage, MessageOrigin};
use familyclaw_agent::resume::{
    command_reply, invalid_approval_id, parse_operator_approval_command, peeked_origin,
    plan_operator_command, resume_signal_reply, CommandPlan, OperatorApprovalCommand, ResumableTurn,
    Resume, ResumeRequest,
};
use familyclaw_agent::think::{AuditKind, ThinkOutcome};
use familyclaw_agent::tool_loop::{LoopRequest, ToolLoop};
use familyclaw_agent::turn::{
    build_think_context, suspended_approval_user_reply, ActionDecision,
    Turn, TurnRequest, TurnSetup,
};

fn origin() -> MessageOrigin {
    MessageOrigin::new("discord-1", "100", "42")
}

fn setup(text: &str) -> TurnSetup {
    TurnSetup {
        turn: 7,
        agent_name: "agent_a".into(),
        message: BusMessage::text(text),
        origin: Some(origin()),
        reply_target: Some("ops".into()),
        operator: Some(42),
        has_model: true,
        has_actions: false,
        has_governor: false,
        asks_status: false,
        asks_execute: false,
    }
}

/// A turn whose message was recorded, remembered and felt.
fn felt(setup: TurnSetup, decision: ActionDecision, replaying: bool) -> (Turn, TurnRequest) {
    let (mut turn, request) = Turn::new(setup);
    let remembered = match request {
        TurnRequest::Record { step, remembered } => {
            assert_eq!(step, "turn-7");
            remembered
        }
        other => panic!("{other:?}"),
    };
    match turn.on_recorded(Ok((remembered, "text".into()))) {
        TurnRequest::Remember { turn_key } => {
            assert_eq!(turn_key, "agent_a:turn-7");
            assert!(matches!(turn.on_remembered(None), TurnRequest::Feel));
        }
        TurnRequest::Feel => {}
        other => panic!("{other:?}"),
    }
    let request = turn.on_felt(decision, replaying);
    (turn, request)
}

struct End {
    history: Option<String>,
    outbound: Option<(String, String)>,
    suppressed: bool,
    summary: String,
}

fn settle(mut turn: Turn, decision: ActionDecision, replaying: bool) -> End {
    match turn.on_settled(decision, replaying) {
        TurnRequest::Finish {
            history,
            outbound,
            suppressed,
            summary,
            next_turn,
        } => {
            assert_eq!(next_turn, 8);
            End {
                history,
                outbound,
                suppressed,
                summary,
            }
        }
        other => panic!("{other:?}"),
    }
}

#[test]
fn a_reply_is_journaled_and_sent_to_its_conversation() {
    let (mut turn, request) = felt(setup("kerro tarina"), ActionDecision::Act, false);
    assert!(matches!(request, TurnRequest::ThinkOnce { announce: true }));
    match turn.on_thought(Ok(ThinkOutcome::Reply("olipa kerran".into()))) {
        TurnRequest::Journal { step, text } => {
            assert_eq!((step.as_str(), text.as_str()), ("turn-7-think", "olipa kerran"));
        }
        other => panic!("{other:?}"),
    }
    assert!(matches!(
        turn.on_journaled(Ok("olipa kerran".into())),
        TurnRequest::Settle
    ));
    let end = settle(turn, ActionDecision::Act, false);
    assert_eq!(
        end.outbound,
        Some(("100".to_string(), "olipa kerran".to_string()))
    );
    assert_eq!(end.history.as_deref(), Some("olipa kerran"));
    assert_eq!(end.summary, "text | thought: olipa kerran");
    assert!(!end.suppressed);
}

#[test]
fn a_replayed_turn_is_silent() {
    let (mut turn, request) = felt(setup("kerro tarina"), ActionDecision::Act, true);
    assert!(matches!(request, TurnRequest::Journal { .. }));
    turn.on_journaled(Ok("olipa kerran".into()));
    let end = settle(turn, ActionDecision::Act, true);
    assert_eq!(end.outbound, None);
    assert_eq!(end.history, None);
    assert_eq!(end.summary, "text | thought: olipa kerran");
}

#[test]
fn suspended_turn_produces_no_user_reply() {
    let with_actions = TurnSetup {
        has_actions: true,
        ..setup("aja hyväksyntä-työkalu")
    };
    let (mut turn, request) = felt(with_actions, ActionDecision::Act, false);
    assert!(matches!(
        request,
        TurnRequest::ThinkWithActions { announce: true }
    ));
    turn.on_thought(Ok(ThinkOutcome::Suspended {
        approval_id: "a-1".into(),
        redacted_summary: "tool 'x' awaiting human approval".into(),
    }));
    let end = settle(turn, ActionDecision::Act, false);
    let (_, body) = end.outbound.expect("the user is told");
    assert!(body.contains("hyväksyntää"));
    assert_eq!(
        body,
        suspended_approval_user_reply("a-1", "tool 'x' awaiting human approval")
    );
    assert!(end.summary.contains("suspended(approval="));
    assert!(!end.summary.contains("do-it"));
    assert_eq!(end.history, None);
}

#[test]
fn default_governor_filters_emotion_pulse_from_think() {
    let pulse = TurnSetup {
        message: BusMessage::EmotionPulse,
        has_governor: true,
        ..setup("")
    };
    let (turn, request) = felt(pulse, ActionDecision::Act, false);
    assert!(matches!(request, TurnRequest::Journal { .. }));
    let mut turn = turn;
    turn.on_journaled(Ok(String::new()));
    let end = settle(turn, ActionDecision::Act, false);
    assert!(end.suppressed);
    assert_eq!(end.outbound, None);
}

#[test]
fn governor_hesitate_blocks_reply() {
    let governed = TurnSetup {
        has_governor: true,
        ..setup("kerro tarina")
    };
    let (mut turn, request) = felt(governed, ActionDecision::Hesitate, false);
    match request {
        TurnRequest::Journal { text, .. } => assert_eq!(text, ""),
        other => panic!("{other:?}"),
    }
    turn.on_journaled(Ok(String::new()));
    let end = settle(turn, ActionDecision::Hesitate, false);
    assert_eq!(end.outbound, None);
    assert!(end.suppressed);
}

#[test]
fn no_governor_means_legacy_behavior() {
    let (_, request) = felt(setup("kerro tarina"), ActionDecision::Hesitate, false);
    assert!(matches!(request, TurnRequest::ThinkOnce { .. }));
}

#[test]
fn an_agent_that_reflects_keeps_its_reply_to_itself() {
    let governed = TurnSetup {
        has_governor: true,
        ..setup("kerro tarina")
    };
    let (mut turn, _) = felt(governed, ActionDecision::Act, false);
    turn.on_thought(Ok(ThinkOutcome::Reply("x".into())));
    turn.on_journaled(Ok("x".into()));
    let end = settle(turn, ActionDecision::Reflect, false);
    assert_eq!(end.outbound, None);
    assert_eq!(end.history.as_deref(), Some("x"));
}

#[test]
fn a_ping_is_answered_without_the_model() {
    let (mut turn, request) = felt(setup("agent_a?"), ActionDecision::Act, false);
    match request {
        TurnRequest::Journal { step, text } => {
            assert_eq!(step, "turn-7-think");
            assert!(text.contains("agent_a kuulee"));
        }
        other => panic!("{other:?}"),
    }
    turn.on_journaled(Err("gone".into()));
    let end = settle(turn, ActionDecision::Act, false);
    assert!(end.outbound.expect("answered").1.contains("agent_a kuulee"));
}

#[test]
fn a_failed_thought_is_answered_in_plain_words() {
    let (mut turn, _) = felt(setup("kerro tarina"), ActionDecision::Act, false);
    turn.on_thought(Err(FamilyClawError::bus("mailbox closed")));
    let end = settle(turn, ActionDecision::Act, false);
    assert_eq!(
        end.outbound.map(|o| o.1),
        Some(recovery_fallback_reply())
    );
}

#[test]
fn an_agent_without_a_model_only_remembers() {
    let silent = TurnSetup {
        has_model: false,
        ..setup("kerro tarina")
    };
    let (turn, request) = felt(silent, ActionDecision::Act, false);
    assert!(matches!(request, TurnRequest::Settle));
    let end = settle(turn, ActionDecision::Act, false);
    assert_eq!(end.outbound, None);
    assert_eq!(end.summary, "text");
}

#[test]
fn an_order_of_the_operator_starts_the_bootstrap() {
    let order = TurnSetup {
        has_actions: true,
        asks_execute: true,
        ..setup("Tee se!")
    };
    let (mut turn, request) = felt(order, ActionDecision::Act, false);
    match request {
        TurnRequest::Bootstrap { step } => assert_eq!(step, "turn-7"),
        other => panic!("{other:?}"),
    }
    match turn.on_bootstrapped("tehty".into()) {
        TurnRequest::Journal { text, .. } => assert_eq!(text, "tehty"),
        other => panic!("{other:?}"),
    }
}

#[test]
fn a_status_report_and_a_command_are_answered_directly() {
    let asks = TurnSetup {
        asks_status: true,
        has_actions: true,
        ..setup("APPROVE a-1")
    };
    let (mut turn, request) = felt(asks, ActionDecision::Act, false);
    assert!(matches!(request, TurnRequest::Status { .. }));
    match turn.on_reported(Err("no home".into())) {
        TurnRequest::Command { approve, id } => {
            assert_eq!((approve, id.as_str()), (true, "a-1"));
        }
        other => panic!("{other:?}"),
    }
    match turn.on_commanded(Ok("APPROVE OK".into())) {
        TurnRequest::Journal { text, .. } => assert_eq!(text, "APPROVE OK"),
        other => panic!("{other:?}"),
    }
}

#[test]
fn failures_of_the_journal_and_the_memory_end_a_turn() {
    let (mut turn, _) = Turn::new(setup("x"));
    match turn.on_recorded(Err("gone".into())) {
        TurnRequest::Failed(e) => assert_eq!(e.to_text(), "durable turn step failed: gone"),
        other => panic!("{other:?}"),
    }
    let (mut turn, _) = Turn::new(setup("x"));
    turn.on_recorded(Ok((true, "s".into())));
    match turn.on_remembered(Some("full".into())) {
        TurnRequest::Failed(e) => assert_eq!(e.to_text(), "remember failed: full"),
        other => panic!("{other:?}"),
    }
}

#[test]
fn the_prompt_holds_the_essence_and_the_memories() {
    let memory = RecalledMemory {
        content: "likes tea".into(),
        relevance: "0.91".into(),
    };
    let prompt = build_think_context("I am agent_a.", vec![memory], None, &None, true);
    assert!(prompt.contains("I am agent_a."));
    assert!(prompt.contains("likes tea"));
    assert!(prompt.contains("0.91"));
    let guarded = build_think_context("x", vec![], Some(42), &Some(origin()), false);
    assert!(guarded.contains("OPERATOR IDENTITY GUARD"));
}

fn waiting() -> ResumableTurn {
    ResumableTurn::new(
        "a-1",
        "being-1",
        Some(origin()),
        vec![LlmMessage::user("q")],
        "call_1",
        "mailer",
        "hash",
        "redacted",
        1000,
        None,
        600,
        7,
    )
}

#[test]
fn a_turn_waits_until_it_expires() {
    let turn = waiting();
    assert_eq!(turn.expires_at, 1600);
    assert!(!turn.is_expired(1599));
    assert!(turn.is_expired(1600));
    assert_eq!(turn.policy_snapshot, "tool 'mailer' requires human approval");
}

#[test]
fn an_approved_turn_is_resumed_with_the_result() {
    let (mut resume, request) = Resume::new("a-1", "being-1", 1100, true, true);
    assert!(matches!(request, ResumeRequest::Load { .. }));
    assert!(matches!(
        resume.on_loaded(Ok(Some(waiting()))),
        ResumeRequest::Approve { .. }
    ));
    assert!(matches!(
        resume.on_approved(Ok("sent".into())),
        ResumeRequest::Remove { .. }
    ));
    match resume.on_removed() {
        ResumeRequest::Audit { kind, detail } => {
            assert_eq!(kind, AuditKind::TurnResumed);
            assert_eq!(detail, "turn resumed after approval a-1");
        }
        other => panic!("{other:?}"),
    }
    match resume.on_noted() {
        ResumeRequest::Continue { prefix, messages } => {
            assert_eq!(prefix, "resume-a-1");
            assert_eq!(messages.len(), 2);
            assert_eq!(messages[1].tool_call_id.as_deref(), Some("call_1"));
            assert!(messages[1].content.contains("sent"));
        }
        other => panic!("{other:?}"),
    }
    assert_eq!(resume.origin(), &Some(origin()));
}

#[test]
fn resume_unknown_or_expired_fails_closed() {
    for loaded in [Ok(None), Err("torn file".to_string()), Ok(Some(waiting()))] {
        let (mut resume, _) = Resume::new("a-1", "being-1", 1600, true, true);
        match resume.on_loaded(loaded) {
            ResumeRequest::Refused(e) => assert!(matches!(e, FamilyClawError::InvalidInput(_))),
            other => panic!("{other:?}"),
        }
    }
}

#[test]
fn resume_rejects_cross_being_owner_mismatch_fails_closed() {
    let (alpha, beta) = ("being-1", "being-2");
    assert_ne!(alpha, beta, "kahden olennon tunnisteiden on oltava erilliset");
    let mut store = Some(waiting());
    let mut runs = 0;
    assert_eq!(
        store.as_ref().expect("present").being_id,
        alpha,
        "jatkettava vuoro kuuluu sen keskeyttäneelle olennolle (A)"
    );

    let (mut foreign, _) = Resume::new("a-1", beta, 1100, true, true);
    match foreign.on_loaded(Ok(store.as_ref().map(|_| waiting()))) {
        ResumeRequest::Refused(err) => assert!(
            matches!(err, FamilyClawError::InvalidInput(_)),
            "vieras olento → InvalidInput (omistajuus-epätäsmäys), sai: {err:?}"
        ),
        other => panic!("cross-being resume must fail closed: {other:?}"),
    }
    assert_eq!(runs, 0, "A:n hyväksyntää ei kulutettu vieraan resumen kautta");
    assert_eq!(
        store.as_ref().expect("still present").being_id,
        alpha,
        "A:n jatkettava vuoro säilyi koskemattomana hylätyn yrityksen jälkeen"
    );

    let (mut owner, mut request) = Resume::new("a-1", alpha, 1100, true, true);
    let messages = loop {
        request = match request {
            ResumeRequest::Load { .. } => owner.on_loaded(Ok(store.as_ref().map(|_| waiting()))),
            ResumeRequest::Approve { .. } => {
                runs += 1;
                owner.on_approved(Ok("sent".into()))
            }
            ResumeRequest::Remove { .. } => {
                store = None;
                owner.on_removed()
            }
            ResumeRequest::Audit { .. } => owner.on_noted(),
            ResumeRequest::Continue { messages, .. } => break messages,
            other => panic!("oikean omistajan resume ok: {other:?}"),
        }
    };
    let (mut tool_loop, _) = ToolLoop::plain(Some("resume-a-1".into()), &messages, 5);
    match tool_loop.on_model(Some("alkuperäisen olennon vastaus".into()), None, true) {
        LoopRequest::Answer { text, .. } => assert_eq!(
            text, "alkuperäisen olennon vastaus",
            "oikea omistaja vie vuoron loppuun"
        ),
        other => panic!("{other:?}"),
    }
    assert_eq!(runs, 1, "oikean omistajan resume ajaa sivuvaikutuksen tasan kerran");
    assert!(
        store.is_none(),
        "jatkettava vuoro kulutettu oikean omistajan resumen jälkeen"
    );
}

#[test]
fn a_turn_that_was_resumed_is_refused_the_second_time() {
    let (mut again, _) = Resume::new("a-1", "being-1", 1100, true, true);
    assert!(matches!(
        again.on_loaded(Ok(None)),
        ResumeRequest::Refused(FamilyClawError::InvalidInput(_))
    ));
}

#[test]
fn a_message_without_a_body_or_a_target_is_not_sent() {
    let nowhere = Some(MessageOrigin::new("discord-1", "", "42"));
    let reply = |text: &str| Ok(ThinkOutcome::Reply(text.into()));
    assert_eq!(resume_signal_reply(reply(""), &Some(origin()), &None), None);
    assert_eq!(resume_signal_reply(reply("x"), &nowhere, &None), None);
    let lost = TurnSetup {
        origin: nowhere,
        ..setup("kerro tarina")
    };
    let (mut turn, _) = felt(lost, ActionDecision::Act, false);
    turn.on_thought(Ok(ThinkOutcome::Reply("x".into())));
    turn.on_journaled(Ok("x".into()));
    assert_eq!(settle(turn, ActionDecision::Act, false).outbound, None);
}

#[test]
fn a_replayed_turn_is_remembered_under_the_same_key() {
    let key = |number: u64| {
        let (mut turn, _) = Turn::new(TurnSetup {
            turn: number,
            ..setup("a")
        });
        match turn.on_recorded(Ok((true, "text".into()))) {
            TurnRequest::Remember { turn_key } => turn_key,
            other => panic!("{other:?}"),
        }
    };
    assert_eq!(key(0), "agent_a:turn-0");
    assert_eq!(key(0), key(0));
    assert_ne!(key(0), key(1));
}

#[test]
fn a_refused_approval_changes_nothing() {
    let (mut resume, _) = Resume::new("a-1", "being-1", 1100, true, true);
    resume.on_loaded(Ok(Some(waiting())));
    assert!(matches!(
        resume.on_approved(Err("denied".into())),
        ResumeRequest::Refused(_)
    ));
}

#[test]
fn resume_signal_routes_to_reply_sink() {
    let reply = || Ok(ThinkOutcome::Reply("valmis".into()));
    assert_eq!(
        resume_signal_reply(reply(), &peeked_origin(Ok(Some(waiting()))), &None),
        Some(("100".to_string(), "valmis".to_string()))
    );
    assert_eq!(
        resume_signal_reply(reply(), &peeked_origin(Err("x".into())), &Some("ops".into())),
        Some(("ops".to_string(), "valmis".to_string()))
    );
    assert_eq!(
        resume_signal_reply(Ok(ThinkOutcome::NoReply), &Some(origin()), &None),
        None
    );
    assert_eq!(
        resume_signal_reply(Err(FamilyClawError::bus("x")), &Some(origin()), &None),
        None
    );
}

#[test]
fn only_the_operator_commands() {
    let message = BusMessage::text(" approve  a-1 ");
    assert_eq!(
        parse_operator_approval_command(&message),
        Some(OperatorApprovalCommand::Approve("a-1".into()))
    );
    assert_eq!(
        parse_operator_approval_command(&BusMessage::text("DENY a-2")),
        Some(OperatorApprovalCommand::Deny("a-2".into()))
    );
    assert_eq!(
        parse_operator_approval_command(&BusMessage::text("approve")),
        None
    );
    let from = Some(origin());
    assert_eq!(
        plan_operator_command(&message, Some(42), &from, false, true),
        CommandPlan::Resume("a-1".into())
    );
    assert_eq!(
        plan_operator_command(&message, Some(42), &from, false, false),
        CommandPlan::NoRuntime("ActionRuntime ei ole kytketty.".into())
    );
    assert_eq!(
        plan_operator_command(&message, Some(42), &from, true, true),
        CommandPlan::Nothing
    );
    assert_eq!(
        plan_operator_command(&message, Some(41), &from, false, true),
        CommandPlan::Nothing
    );
}

#[test]
fn a_command_is_acknowledged() {
    assert_eq!(
        command_reply(true, "a-1", None),
        Ok("APPROVE OK: a-1 â€” resume signaali lÃ¤hetetty.".to_string())
    );
    assert_eq!(
        command_reply(false, "a-1", None),
        Ok("DENY OK: a-1 â€” tehtÃ¤vÃ¤ peruutettu.".to_string())
    );
    assert_eq!(
        command_reply(false, "a-1", Some("gone".into())),
        Err(FamilyClawError::bus("gone"))
    );
    assert_eq!(
        command_reply(true, "a-1", Some("expired".into())),
        Err(FamilyClawError::bus("expired"))
    );
    assert_eq!(
        invalid_approval_id("x").to_text(),
        "invalid approval id: x"
    );
}

#[test]
fn durable_replay_does_not_double_record_memory() {
    let mut store: std::collections::BTreeMap<String, String> = Default::default();
    for _ in 0..2 {
        for (number, text) in [(0, "a"), (1, "b")] {
            let (mut turn, request) = Turn::new(TurnSetup {
                turn: number,
                has_model: false,
                ..setup(text)
            });
            assert!(matches!(
                request,
                TurnRequest::Record {
                    remembered: true,
                    ..
                }
            ));
            match turn.on_recorded(Ok((true, "text".into()))) {
                TurnRequest::Remember { turn_key } => {
                    store.entry(turn_key).or_insert_with(|| text.to_string());
                }
                other => panic!("{other:?}"),
            }
        }
        assert_eq!(store.len(), 2);
    }
}
