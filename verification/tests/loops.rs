use familyclaw_agent::error::{recovery_fallback_reply, tag_llm_error, FamilyClawError};
use familyclaw_agent::json::{parse, Json};
use familyclaw_agent::llm::{LlmError, LlmMessage, LlmRole, ToolCall};
use familyclaw_agent::think::{
    one_shot_outcome, rollback_non_durable_suspend, think_with_origin, verified_tool_memory,
    AuditKind, Closing, ClosingRequest, Denial, LoopEnd, ThinkOutcome, ThinkPlan,
};
use familyclaw_agent::tool_loop::{
    format_tool_failure_for_model, DispatchRecord, LoopRequest, Metric, ToolLoop,
};

/// What a scripted model answers.
enum Say {
    Text(&'static str),
    Call(&'static str, &'static str, &'static str),
}

/// What happened while a loop ran.
#[derive(Default)]
struct Trace {
    keys: Vec<Option<String>>,
    steps: Vec<String>,
    notes: Vec<String>,
    asked: usize,
    required: usize,
    counted: usize,
}

/// A journal of the answers and the records of a turn.
#[derive(Default)]
struct Journal {
    answers: Vec<(String, Option<String>, Option<Vec<ToolCall>>)>,
    records: Vec<(String, DispatchRecord)>,
}

fn json(text: &str) -> Json {
    parse(text).expect("valid JSON")
}

fn answer(say: &Say) -> (Option<String>, Option<Vec<ToolCall>>) {
    match say {
        Say::Text(t) => (Some(t.to_string()), None),
        Say::Call(id, name, arguments) => (
            None,
            Some(vec![ToolCall {
                id: id.to_string(),
                name: name.to_string(),
                arguments: json(arguments),
            }]),
        ),
    }
}

fn record(call: &ToolCall, run: usize) -> DispatchRecord {
    DispatchRecord {
        task_id: format!("task-{run}"),
        status: "Done".into(),
        pending_approval: if call.name.starts_with("approval") {
            Some(format!("a-{run}"))
        } else {
            None
        },
        error: if call.name.starts_with("broken") {
            Some("boom".into())
        } else {
            None
        },
    }
}

/// Runs a loop to its end with a journal. Tools named `echo...` answer, `approval...` wait,
/// `broken...` fail, and the others do not exist. The result of a task is its name.
fn run_with(
    start: (ToolLoop, LoopRequest),
    script: &[Say],
    journal: &mut Journal,
) -> (LoopRequest, ToolLoop, Trace) {
    let (mut tool_loop, mut request) = start;
    let mut trace = Trace::default();
    loop {
        request = match request {
            LoopRequest::RecallAnswer { step } => {
                let held = journal.answers.iter().find(|e| e.0 == step);
                tool_loop.on_answer_recalled(Ok(held.map(|e| {
                    let calls = e
                        .2
                        .as_ref()
                        .map(|c| c.iter().map(|x| x.copy()).collect::<Vec<ToolCall>>());
                    (e.1.clone(), calls)
                })))
            }
            LoopRequest::Model { required } => {
                let (content, calls) = answer(&script[trace.asked]);
                trace.asked += 1;
                trace.required += usize::from(required);
                tool_loop.on_model(content, calls, true)
            }
            LoopRequest::Journal {
                step,
                content,
                calls,
            } => {
                trace.steps.push(step.clone());
                journal.answers.push((step, content, calls));
                tool_loop.on_journaled(Ok(()))
            }
            LoopRequest::Note { audit, metric } => {
                trace.notes.push(audit);
                trace.counted += usize::from(metric == Metric::Count);
                tool_loop.on_noted()
            }
            LoopRequest::Resolve { name } => {
                assert!(tool_loop.can_dispatch());
                let known = ["echo", "approval", "broken", "fs_read"]
                    .iter()
                    .any(|k| name.starts_with(k));
                tool_loop.on_resolved(known)
            }
            LoopRequest::RecallDispatch { step } => {
                let held = journal.records.iter().find(|e| e.0 == step);
                tool_loop.on_dispatch_recalled(Ok(held.map(|e| e.1.clone())))
            }
            LoopRequest::Dispatch { key, call } => {
                trace.keys.push(key);
                tool_loop.on_dispatched(record(&call, trace.keys.len()))
            }
            LoopRequest::JournalDispatch { step, record } => {
                trace.steps.push(step.clone());
                journal.records.push((step, record));
                tool_loop.on_dispatch_journaled(Ok(()))
            }
            LoopRequest::Summarize { .. } => tool_loop.on_summarized(None),
            LoopRequest::Fetch { task_id, status } => {
                tool_loop.on_fetched(&format!("{task_id}: {status}"))
            }
            LoopRequest::Recover => tool_loop.on_recovered(None),
            end => return (end, tool_loop, trace),
        }
    }
}

fn run(start: (ToolLoop, LoopRequest), script: &[Say]) -> (LoopRequest, ToolLoop, Trace) {
    run_with(start, script, &mut Journal::default())
}

fn durable(query: &str, budget: u32) -> (ToolLoop, LoopRequest) {
    ToolLoop::durable(7, query, &[LlmMessage::user(query)], budget, 2, 3, 0)
}

fn plain(query: &str, budget: u32) -> (ToolLoop, LoopRequest) {
    ToolLoop::plain(None, &[LlmMessage::user(query)], budget)
}

fn text_of(end: &LoopRequest) -> &str {
    match end {
        LoopRequest::Answer { text, .. } => text,
        other => panic!("{other:?}"),
    }
}

#[test]
fn tool_loop_none_keeps_one_shot() {
    assert_eq!(think_with_origin(true, false, true), ThinkPlan::Once);
    let out = one_shot_outcome(Ok("yksi vastaus".to_string())).expect("one-shot ok");
    assert_eq!(out, ThinkOutcome::Reply("yksi vastaus".to_string()));
}

#[test]
fn thinking_needs_a_model() {
    assert_eq!(think_with_origin(false, true, true), ThinkPlan::NoReply);
    assert_eq!(
        think_with_origin(true, true, true),
        ThinkPlan::Loop {
            audit: Some("turn started".into())
        }
    );
    assert_eq!(
        think_with_origin(true, true, false),
        ThinkPlan::Loop { audit: None }
    );
    assert_eq!(
        one_shot_outcome(Err(LlmError::NoContent)),
        Err(FamilyClawError::llm(&tag_llm_error(&LlmError::NoContent)))
    );
}

#[test]
fn tool_loop_stops_on_no_tool_calls() {
    let (end, _, trace) = run(plain("kysymys", 5), &[Say::Text("ei työkaluja tarvita")]);
    assert_eq!(text_of(&end), "ei työkaluja tarvita");
    assert_eq!(trace.asked, 1);
}

#[test]
fn tool_loop_dispatches_tool_and_feeds_result_back() {
    let (end, tool_loop, trace) = run(
        plain("aja työkalu", 5),
        &[
            Say::Call("call_1", "echo", "{\"q\":\"ping\"}"),
            Say::Text("työkalu vastasi, valmis"),
        ],
    );
    assert_eq!(text_of(&end), "työkalu vastasi, valmis");
    assert_eq!(trace.keys, vec![None]);
    let messages = tool_loop.messages();
    assert_eq!(messages.len(), 3);
    assert!(messages[1].has_tool_calls());
    assert_eq!(messages[2].role, LlmRole::Tool);
    assert_eq!(messages[2].tool_call_id.as_deref(), Some("call_1"));
    assert_eq!(messages[2].content, "task-1: Done");
    assert_eq!(
        messages[1].tool_calls.as_ref().expect("calls")[0].arguments,
        json("{\"q\":\"ping\"}")
    );
}

#[test]
fn tool_loop_unknown_tool_does_not_abort() {
    let (end, tool_loop, trace) = run(
        plain("kokeile tuntematonta", 5),
        &[
            Say::Call("call_x", "does_not_exist", "{}"),
            Say::Text("ok, jatketaan ilman sitä työkalua"),
        ],
    );
    assert_eq!(text_of(&end), "ok, jatketaan ilman sitä työkalua");
    assert!(trace.keys.is_empty());
    assert_eq!(
        tool_loop.messages()[2].content,
        "error: unknown tool 'does_not_exist'"
    );
}

#[test]
fn tool_loop_max_iterations_does_not_leak_marker_to_user() {
    let (end, _, trace) = run(
        plain("ikuinen työkalupyyntö", 3),
        &[
            Say::Call("call_0", "echo", "{\"q\":0}"),
            Say::Call("call_1", "echo", "{\"q\":1}"),
            Say::Call("call_2", "echo", "{\"q\":2}"),
        ],
    );
    assert_eq!(trace.asked, 3);
    let iterations = match end {
        LoopRequest::MaxIterations { iterations } => iterations,
        other => panic!("{other:?}"),
    };
    let (mut closing, request) =
        Closing::new(None, true, false, LoopEnd::MaxIterations { iterations });
    match request {
        ClosingRequest::Audit { kind, detail } => {
            assert_eq!(kind, AuditKind::TurnMaxIterations);
            assert_eq!(detail, "reached max iterations (3) without answer");
        }
        other => panic!("{other:?}"),
    }
    match closing.on_noted() {
        ClosingRequest::Done(out) => {
            assert_eq!(out, ThinkOutcome::Reply(recovery_fallback_reply()));
        }
        other => panic!("{other:?}"),
    }
}

#[test]
fn a_failed_tool_is_told_to_the_model() {
    let (end, tool_loop, _) = run(
        plain("q", 5),
        &[Say::Call("c", "broken", "{}"), Say::Text("sorry")],
    );
    assert_eq!(text_of(&end), "sorry");
    assert_eq!(
        tool_loop.messages()[2].content,
        format_tool_failure_for_model("broken", "boom")
    );
}

#[test]
fn tool_loop_awaiting_approval_returns_suspended_not_reply() {
    let (end, _, _) = run(
        plain("aja hyväksyntä-työkalu", 5),
        &[Say::Call("call_approve", "approval_skill", "{\"q\":\"do-it\"}")],
    );
    match end {
        LoopRequest::Suspend {
            tool,
            approval_id,
            summary,
            messages,
            call_id,
            arguments,
            ..
        } => {
            assert_eq!(tool, "approval_skill");
            assert_eq!(approval_id, "a-1");
            assert!(!summary.contains("do-it"));
            assert!(!summary.is_empty());
            assert_eq!(call_id, "call_approve");
            assert_eq!(arguments, json("{\"q\":\"do-it\"}"));
            assert!(messages.iter().all(|m| m.tool_call_id.is_none()));
        }
        other => panic!("{other:?}"),
    }
}

#[test]
fn dispatches_of_a_turn_have_keys_of_their_own() {
    let script = || {
        vec![
            Say::Call("c0", "echo", "{}"),
            Say::Call("c1", "echo", "{}"),
            Say::Text("done"),
        ]
    };
    let (_, _, first) = run(durable("hei", 5), &script());
    assert_eq!(first.keys.len(), 2);
    assert_eq!(first.keys[0].as_deref(), Some("turn-7-dispatch-0"));
    assert_eq!(first.keys[1].as_deref(), Some("turn-7-dispatch-1"));
    let (_, _, again) = run(durable("hei", 5), &script());
    assert_eq!(again.keys, first.keys);
    assert_eq!(again.steps, first.steps);
    let resumed = ToolLoop::plain(Some("resume-a-1".into()), &[], 5);
    let (_, _, trace) = run(resumed, &[Say::Call("c", "echo", "{}"), Say::Text("x")]);
    assert_eq!(trace.keys[0].as_deref(), Some("resume-a-1-dispatch-0"));
}

#[test]
fn a_tool_over_its_budget_is_skipped_and_still_answered() {
    let (end, tool_loop, trace) = run(
        durable("hei", 9),
        &[
            Say::Call("c0", "echo", "{}"),
            Say::Call("c1", "echo", "{}"),
            Say::Call("c2", "echo", "{}"),
            Say::Text("done"),
        ],
    );
    assert_eq!(text_of(&end), "done");
    assert_eq!(trace.keys.len(), 2);
    assert!(trace.notes.iter().any(|n| n.contains("budget exceeded")));
    let answered = tool_loop
        .messages()
        .iter()
        .filter(|m| m.role == LlmRole::Tool)
        .count();
    assert_eq!(answered, 3);
}

#[test]
fn files_are_read_within_a_common_budget() {
    let (_, _, trace) = run(
        durable("hei", 9),
        &[
            Say::Call("c0", "fs_read_a", "{}"),
            Say::Call("c1", "fs_read_b", "{}"),
            Say::Call("c2", "fs_read_c", "{}"),
            Say::Call("c3", "fs_read_d", "{}"),
            Say::Text("done"),
        ],
    );
    assert_eq!(trace.keys.len(), 3);
}

#[test]
fn an_order_that_is_only_talked_about_is_asked_for_again() {
    let (end, _, trace) = run(
        durable("Tee se nyt", 5),
        &[Say::Text("I will"), Say::Text("still talking")],
    );
    assert_eq!((trace.asked, trace.required), (2, 1));
    assert_eq!(text_of(&end), "still talking");
    let (_, _, chat) = run(durable("Hei, mitä kuuluu?", 5), &[Say::Text("hyvää")]);
    assert_eq!((chat.asked, chat.required), (1, 0));
}

#[test]
fn a_durable_answer_passes_the_guard() {
    let claim = "DONE: updated E:\\Agent\\home\\memory.md";
    let (end, _, _) = run(durable("hei", 5), &[Say::Text(claim)]);
    assert!(text_of(&end).contains("Vahvistamaton"));
    let (end, _, _) = run(
        durable("hei", 5),
        &[Say::Call("c", "echo", "{}"), Say::Text(claim)],
    );
    assert_eq!(text_of(&end), claim);
}

#[test]
fn a_replayed_answer_is_not_journaled_again() {
    let (mut tool_loop, request) = durable("hei", 5);
    match request {
        LoopRequest::RecallAnswer { step } => assert_eq!(step, "turn-7-llm-0"),
        other => panic!("{other:?}"),
    }
    match tool_loop.on_answer_recalled(Ok(Some((Some("hyvää".into()), None)))) {
        LoopRequest::Answer { text, dispatches } => {
            assert_eq!((text.as_str(), dispatches), ("hyvää", 0));
        }
        other => panic!("{other:?}"),
    }
}

fn two_tools() -> Vec<Say> {
    vec![
        Say::Call("call_a", "echo_counter", "{\"n\":1}"),
        Say::Call("call_b", "approval_skill", "{\"q\":\"do-it\"}"),
    ]
}

fn suspended_id(end: &LoopRequest) -> &str {
    match end {
        LoopRequest::Suspend { approval_id, .. } => approval_id,
        other => panic!("{other:?}"),
    }
}

#[test]
fn crash_replay_tool_loop_is_deterministic_and_crash_safe() {
    let start = || {
        let query = "aja kaksi työkalua";
        ToolLoop::durable(0, query, &[LlmMessage::user(query)], 5, 2, 3, 0)
    };
    let mut journal = Journal::default();

    let (end, _, fresh) = run_with(start(), &two_tools(), &mut journal);
    let approval = suspended_id(&end).to_string();
    assert_eq!(fresh.keys.len(), 2);
    assert_eq!(fresh.counted, 1);
    assert_eq!(
        fresh.steps,
        vec![
            "turn-0-llm-0",
            "turn-0-dispatch-0",
            "turn-0-llm-1",
            "turn-0-dispatch-1"
        ]
    );
    assert_eq!(journal.records[0].0, "turn-0-dispatch-0");
    let first_record = journal.records[0].1.clone();

    let (end, replayed_loop, replayed) = run_with(start(), &[], &mut journal);
    assert_eq!(suspended_id(&end), approval);
    assert_eq!(replayed.asked, 0, "the model is not asked again");
    assert!(replayed.keys.is_empty(), "no tool is run again");
    assert!(replayed.steps.is_empty(), "nothing is recorded again");
    assert_eq!(replayed.counted, 0, "nothing is counted again");
    assert_eq!(journal.records[0].1, first_record);
    assert_eq!(replayed_loop.messages().len(), 4);

    journal.records.truncate(1);
    journal.answers.truncate(1);
    let (end, _, partial) = run_with(start(), &two_tools()[1..], &mut journal);
    suspended_id(&end);
    assert_eq!(partial.asked, 1);
    assert_eq!(
        partial.keys,
        vec![Some("turn-0-dispatch-1".to_string())],
        "only what came after the crash is run"
    );
    assert_eq!(partial.steps, vec!["turn-0-llm-1", "turn-0-dispatch-1"]);
    assert_eq!(journal.records[0].1, first_record);
}

/// A durable loop that waits for what the journal holds of its first dispatch.
fn at_first_dispatch() -> ToolLoop {
    let (mut tool_loop, _) = durable("hei", 5);
    let (content, calls) = answer(&Say::Call("c", "echo", "{}"));
    tool_loop.on_answer_recalled(Ok(Some((content, calls))));
    match tool_loop.on_resolved(true) {
        LoopRequest::RecallDispatch { step } => assert_eq!(step, "turn-7-dispatch-0"),
        other => panic!("{other:?}"),
    }
    assert_eq!(tool_loop.next_dispatch(), 1);
    tool_loop
}

fn bus_error(request: &LoopRequest) -> &str {
    match request {
        LoopRequest::Failed(FamilyClawError::Bus(m)) => m,
        other => panic!("{other:?}"),
    }
}

#[test]
fn a_dispatch_is_recorded_before_it_takes_effect() {
    let mut tool_loop = at_first_dispatch();
    assert!(matches!(
        tool_loop.on_dispatch_recalled(Ok(None)),
        LoopRequest::Dispatch { .. }
    ));
    let kept = DispatchRecord {
        task_id: "t1".into(),
        status: "Done".into(),
        pending_approval: None,
        error: None,
    };
    match tool_loop.on_dispatched(kept.clone()) {
        LoopRequest::JournalDispatch { step, record } => {
            assert_eq!(step, "turn-7-dispatch-0");
            assert_eq!(record, kept);
        }
        other => panic!("{other:?}"),
    }
    assert_eq!(tool_loop.messages().len(), 2);
    let end = tool_loop.on_dispatch_journaled(Err("disk full".into()));
    assert_eq!(bus_error(&end), "durable dispatch step failed: disk full");
    assert_eq!(tool_loop.messages().len(), 2);
}

#[test]
fn a_recorded_dispatch_takes_effect_without_a_run() {
    let mut tool_loop = at_first_dispatch();
    let failed = DispatchRecord {
        task_id: "t1".into(),
        status: "Failed".into(),
        pending_approval: None,
        error: Some("boom".into()),
    };
    match tool_loop.on_dispatch_recalled(Ok(Some(failed))) {
        LoopRequest::Note { audit, metric } => {
            assert_eq!(audit, "tool 'echo' dispatched: failed: boom");
            assert_eq!(metric, Metric::Skip);
        }
        other => panic!("{other:?}"),
    }
    let mut broken = at_first_dispatch();
    let end = broken.on_dispatch_recalled(Err("torn".into()));
    assert_eq!(bus_error(&end), "durable dispatch replay failed: torn");
}

#[test]
fn a_journal_or_a_model_that_fails_ends_the_loop() {
    let (mut tool_loop, _) = durable("hei", 5);
    let end = tool_loop.on_answer_recalled(Err("torn".into()));
    assert_eq!(bus_error(&end), "durable llm replay failed: torn");

    let (mut tool_loop, _) = durable("hei", 5);
    tool_loop.on_answer_recalled(Ok(None));
    tool_loop.on_model(Some("x".into()), None, true);
    let end = tool_loop.on_journaled(Err("disk full".into()));
    assert_eq!(bus_error(&end), "durable llm step failed: disk full");

    let (mut tool_loop, _) = plain("hei", 5);
    match tool_loop.on_model_failed(&LlmError::NoContent) {
        LoopRequest::Failed(e) => {
            assert_eq!(e, FamilyClawError::llm(&tag_llm_error(&LlmError::NoContent)));
        }
        other => panic!("{other:?}"),
    }
}

#[test]
fn calls_that_are_not_dispatched_are_counted_on_a_fresh_run_only() {
    let (mut tool_loop, _) = durable("hei", 5);
    let (content, calls) = answer(&Say::Call("c", "nowhere", "{}"));
    tool_loop.on_answer_recalled(Ok(Some((content, calls))));
    match tool_loop.on_resolved(false) {
        LoopRequest::Note { metric, .. } => assert_eq!(metric, Metric::CountIfFresh),
        other => panic!("{other:?}"),
    }
    let (_, _, trace) = run(plain("q", 5), &[Say::Call("c", "echo", "{}"), Say::Text("x")]);
    assert_eq!(trace.counted, 0);
}

#[test]
fn a_last_answer_is_asked_for_when_nothing_was_said() {
    let (mut tool_loop, request) = ToolLoop::plain(None, &[], 0);
    assert!(matches!(request, LoopRequest::Recover));
    match tool_loop.on_recovered(Some("finally".into())) {
        LoopRequest::Answer { text, .. } => assert_eq!(text, "finally"),
        other => panic!("{other:?}"),
    }
}

fn suspension() -> LoopEnd {
    LoopEnd::Suspend {
        approval_id: "a-1".into(),
        summary: "waits".into(),
    }
}

#[test]
fn a_suspension_is_kept_before_it_is_announced() {
    let (mut closing, request) = Closing::new(Some(7), true, false, suspension());
    assert!(matches!(request, ClosingRequest::Persist { .. }));
    match closing.on_persisted(None) {
        ClosingRequest::JournalThink { step, text } => {
            assert_eq!((step.as_str(), text.as_str()), ("turn-7-think", ""));
        }
        other => panic!("{other:?}"),
    }
    match closing.on_journaled(Ok(String::new())) {
        ClosingRequest::Audit { kind, detail } => {
            assert_eq!(kind, AuditKind::TurnSuspended);
            assert_eq!(detail, "suspended awaiting approval a-1: waits");
        }
        other => panic!("{other:?}"),
    }
    match closing.on_noted() {
        ClosingRequest::JournalSuspend { step, payload } => {
            assert_eq!(step, "turn-7-suspend");
            assert_eq!(payload, "a-1|waits");
        }
        other => panic!("{other:?}"),
    }
    match closing.on_suspend_journaled() {
        ClosingRequest::Done(ThinkOutcome::Suspended { approval_id, .. }) => {
            assert_eq!(approval_id, "a-1");
        }
        other => panic!("{other:?}"),
    }
}

#[test]
fn suspend_fails_closed_when_resumable_state_cannot_be_persisted() {
    for turn in [None, Some(7)] {
        let (mut closing, _) = Closing::new(turn, true, false, suspension());
        match closing.on_persisted(Some("disk full".into())) {
            ClosingRequest::Rollback { approval_id } => assert_eq!(approval_id, "a-1"),
            other => panic!("{other:?}"),
        }
        match closing.on_rolled_back(rollback_non_durable_suspend(Denial::Closed, None)) {
            ClosingRequest::Failed(e) => {
                assert!(e.to_text().contains("resumable persist failed: disk full"));
            }
            other => panic!("{other:?}"),
        }
    }
}

#[test]
fn both_parts_of_a_rollback_are_reported() {
    assert_eq!(rollback_non_durable_suspend(Denial::Closed, None), None);
    assert_eq!(rollback_non_durable_suspend(Denial::Missing, None), None);
    assert_eq!(
        rollback_non_durable_suspend(Denial::Failed("x".into()), Some("y".into())).as_deref(),
        Some("approval rollback failed: x; resumable rollback failed: y")
    );
    assert_eq!(
        rollback_non_durable_suspend(Denial::Missing, Some("y".into())).as_deref(),
        Some("resumable rollback failed: y")
    );
}

#[test]
fn the_audit_keeps_only_the_length_of_an_answer() {
    let (_, request) = Closing::new(
        None,
        true,
        false,
        LoopEnd::Answer {
            text: "sala-ä".into(),
            dispatches: 0,
        },
    );
    match request {
        ClosingRequest::Audit { kind, detail } => {
            assert_eq!(kind, AuditKind::TurnAnswered);
            assert_eq!(detail, "answered (6 chars)");
        }
        other => panic!("{other:?}"),
    }
}

#[test]
fn a_turn_with_tools_is_remembered_once() {
    let end = || LoopEnd::Answer {
        text: "tehty".into(),
        dispatches: 2,
    };
    let (mut closing, request) = Closing::new(Some(7), true, false, end());
    match request {
        ClosingRequest::Remember {
            content,
            source,
            tags,
        } => {
            assert_eq!(source, "tool_verified");
            assert_eq!(tags, vec!["verified:tool"]);
            assert_eq!(content, "verified tool turn (dispatch=2): tehty");
            assert_eq!(content, verified_tool_memory(2, "tehty"));
        }
        other => panic!("{other:?}"),
    }
    assert!(matches!(
        closing.on_remembered(),
        ClosingRequest::Audit { .. }
    ));
    assert!(matches!(
        closing.on_noted(),
        ClosingRequest::JournalThink { .. }
    ));
    match closing.on_journaled(Ok("tehty".into())) {
        ClosingRequest::Done(ThinkOutcome::Reply(text)) => assert_eq!(text, "tehty"),
        other => panic!("{other:?}"),
    }
    let (_, replayed) = Closing::new(Some(7), true, true, end());
    assert!(!matches!(replayed, ClosingRequest::Remember { .. }));
}

#[test]
fn a_journal_that_fails_fails_the_thought() {
    let (mut closing, _) = Closing::new(
        Some(7),
        true,
        false,
        LoopEnd::Answer {
            text: "x".into(),
            dispatches: 0,
        },
    );
    closing.on_noted();
    match closing.on_journaled(Err("gone".into())) {
        ClosingRequest::Failed(e) => assert_eq!(e.to_text(), "durable think step failed: gone"),
        other => panic!("{other:?}"),
    }
}

#[test]
fn a_turn_that_began_as_a_replay_is_not_audited() {
    let (mut closing, request) = Closing::new(
        Some(7),
        false,
        true,
        LoopEnd::Answer {
            text: "tehty".into(),
            dispatches: 2,
        },
    );
    assert!(matches!(request, ClosingRequest::JournalThink { .. }));
    assert!(matches!(
        closing.on_journaled(Ok("tehty".into())),
        ClosingRequest::Done(ThinkOutcome::Reply(_))
    ));
}

#[test]
fn resume_continuation_dispatch_is_idempotent_across_replay() {
    let mut outbox: std::collections::BTreeSet<String> = Default::default();
    let mut executed = 0;
    for (prefix, expected) in [("resume-a", 1), ("resume-a", 1), ("resume-b", 2)] {
        let start = ToolLoop::plain(Some(prefix.into()), &[LlmMessage::user("q")], 5);
        let (end, _, trace) = run(
            start,
            &[
                Say::Call("call_1", "echo_counter", "{\"n\":1}"),
                Say::Text("jatko valmis"),
            ],
        );
        assert_eq!(text_of(&end), "jatko valmis");
        for key in trace.keys {
            let key = key.expect("a key");
            assert_eq!(key, format!("{prefix}-dispatch-0"));
            executed += usize::from(outbox.insert(key));
        }
        assert_eq!(executed, expected);
    }
}
