use familyclaw_agent::continuity::{
    check_demo_files, check_recall, count_task_memories, memory_key, protected_core_intact,
    result_line, run_resume, run_start, step_name, step_payload, subcommand, task_tag, top_memory,
    torn_line, CrashAt, StartRequest, Subcommand,
};
use familyclaw_agent::error::FamilyClawError;
use familyclaw_agent::json::{parse, Json};
use familyclaw_agent::live_executor::{
    build_messages, deliver, wrap_payload, LiveTurnExecutor, LlmFailover, OrchestratedTurn,
};
use familyclaw_agent::llm::{LlmConfig, LlmError, LlmRole};
use familyclaw_agent::operator_tasks::{
    execute_operator_status_bootstrap, Bootstrap, BootstrapRequest, StatusPlan, WriteOutcome,
};
use familyclaw_agent::progress::{llm_streaming_enabled, tool_progress_note, Draft};

fn turn_with(input: &str) -> OrchestratedTurn {
    OrchestratedTurn {
        assignee: "agent_a".into(),
        title: "Write a greeting".into(),
        description: "Greet the audience warmly.".into(),
        input: parse(input).expect("valid JSON"),
        now: 1000,
    }
}

fn text(s: &str) -> Json {
    Json::Text(s.to_string())
}

#[test]
fn wrap_payload_keeps_valid_json_object() {
    let payload = wrap_payload(r#"{"headline":"Hi","ok":true}"#);
    assert_eq!(payload.get("headline"), Some(&text("Hi")));
    assert_eq!(payload.get("ok"), Some(&Json::Bool(true)));
    assert!(payload.get("result").is_none());
}

#[test]
fn wrap_payload_wraps_plain_text_under_result() {
    let payload = wrap_payload("just some prose, not json");
    assert_eq!(
        payload.get("result"),
        Some(&text("just some prose, not json"))
    );
}

#[test]
fn wrap_payload_wraps_json_array_under_result() {
    let raw = "[1, 2, 3]";
    let payload = wrap_payload(raw);
    assert_eq!(payload.get("result"), Some(&text(raw)));
    assert!(!matches!(payload, Json::List(_)));
}

#[test]
fn wrap_payload_wraps_bare_json_string_under_result() {
    let raw = "\"hello\"";
    let payload = wrap_payload(raw);
    assert_eq!(payload.get("result"), Some(&text(raw)));
}

#[test]
fn wrap_payload_always_yields_object() {
    for raw in ["plain", "[1]", "\"s\"", "42", "{\"a\":1}", "not json {"] {
        assert!(
            wrap_payload(raw).is_object(),
            "payload for {raw:?} must be a JSON object"
        );
    }
}

#[test]
fn build_messages_has_system_then_user() {
    let msgs = build_messages(&turn_with("{ \"x\": 1 }"));
    assert_eq!(msgs.len(), 2);
    assert_eq!(msgs[0].role, LlmRole::System);
    assert_eq!(msgs[1].role, LlmRole::User);
}

#[test]
fn build_messages_user_contains_title_description_and_input() {
    let msgs = build_messages(&turn_with("{ \"brand\": \"DuckUps\" }"));
    let user = &msgs[1].content;
    assert!(user.contains("Write a greeting"), "title present");
    assert!(user.contains("Greet the audience warmly."), "desc present");
    assert!(user.contains("DuckUps"), "input value present");
}

#[test]
fn build_messages_is_deterministic_for_same_turn() {
    let a = build_messages(&turn_with("{ \"topic\": \"rust\" }"));
    let b = build_messages(&turn_with("{ \"topic\": \"rust\" }"));
    assert_eq!(a.len(), b.len());
    assert_eq!(a[0].content, b[0].content);
    assert_eq!(a[1].content, b[1].content);
}

#[test]
fn the_task_prompt_shows_the_input_as_pretty_json() {
    let msgs = build_messages(&turn_with("{ \"topic\": \"rust\" }"));
    assert_eq!(
        msgs[1].content,
        "# Task: Write a greeting\n\nGreet the audience warmly.\n\n## Input\n```json\n{\n  \"topic\": \"rust\"\n}\n```"
    );
}

#[test]
fn an_executor_goes_by_the_first_model_of_its_chain() {
    let config = |model: &str| LlmConfig::new("https://api.openai.com/v1", "k", model);
    let chain = LlmFailover::new(config("openai/gpt-4o"), vec![config("other")]);
    assert_eq!(chain.len(), 2);
    let exec = LiveTurnExecutor::new(chain);
    assert_eq!(exec.primary_model(), "openai/gpt-4o");
}

#[test]
fn a_deliverable_comes_from_the_assignee_at_the_time_of_the_task() {
    let turn = turn_with("{}");
    let d = deliver(&turn, Ok("done".into())).expect("delivered");
    assert_eq!((d.from.as_str(), d.at), ("agent_a", 1000));
    assert_eq!(d.payload.get("result"), Some(&text("done")));
    let e = deliver(&turn, Err(LlmError::NoContent)).expect_err("no model answered");
    assert_eq!(e, FamilyClawError::llm("No content in response"));
}

#[test]
fn steps_of_a_task_have_names_of_their_own() {
    assert_eq!(step_name("t", 3), "t-step-3");
    assert_eq!(step_payload("t", 3), "t completed step 3");
    assert_eq!(memory_key("t", 3), "t:step-3");
    assert_eq!(task_tag("t"), "task:t");
    assert!(torn_line("t-step-3").ends_with("\"name\":\"t-step-3\",\"out"));
    assert_ne!(step_name("t", 1), step_name("t", 11));
}

#[test]
fn a_clean_run_takes_every_step_and_ends() {
    for index in 0..3 {
        match run_start("t", 3, CrashAt::Clean, 0, index) {
            StartRequest::Step { name, payload, remember } => {
                assert_eq!(name, step_name("t", index));
                assert_eq!(payload, step_payload("t", index));
                assert_eq!(remember, Some(memory_key("t", index)));
            }
            other => panic!("{other:?}"),
        }
    }
    assert!(matches!(
        run_start("t", 3, CrashAt::Clean, 0, 3),
        StartRequest::Done { .. }
    ));
}

#[test]
fn crashes_come_where_they_are_asked_for() {
    assert!(matches!(
        run_start("t", 3, CrashAt::BeforeWrite, 0, 0),
        StartRequest::Crash { .. }
    ));
    assert!(matches!(
        run_start("t", 3, CrashAt::MidWrite, 0, 1),
        StartRequest::Step { .. }
    ));
    match run_start("t", 3, CrashAt::MidWrite, 0, 2) {
        StartRequest::Tear { line, .. } => assert_eq!(line, torn_line("t-step-2")),
        other => panic!("{other:?}"),
    }
}

#[test]
fn a_resumed_task_is_clean_when_every_step_is_there_once() {
    let out = run_resume(3, 2, true, &vec![false, false, true], 3, 3);
    assert_eq!(out.steps_replayed, 2);
    assert!(out.was_replaying);
    assert_eq!(out.fresh_steps, 1);
    assert!(out.resumed_clean);
    assert!(!run_resume(3, 2, true, &vec![false, false, true], 3, 4).resumed_clean);
    assert!(!run_resume(3, 2, true, &vec![], 2, 3).resumed_clean);
    assert_eq!(run_resume(3, 9, true, &vec![], 3, 3).steps_replayed, 3);
}

#[test]
fn memories_of_a_task_are_counted_by_tag() {
    let memories: Vec<Vec<String>> = vec![
        vec!["task:t".into()],
        vec!["x".into(), "task:t".into()],
        vec!["task:tt".into()],
        vec![],
    ];
    assert_eq!(count_task_memories(&memories, "t"), 2);
    assert!(protected_core_intact(&vec![true, false], &vec![true]));
    assert!(!protected_core_intact(&vec![true, true], &vec![true]));
    assert_eq!(result_line("{}"), "RESULT {}");
}

#[test]
fn the_first_argument_chooses_the_subcommand() {
    let args = |words: &[&str]| words.iter().map(|w| w.to_string()).collect::<Vec<String>>();
    assert_eq!(subcommand(&args(&[])), Subcommand::Demo);
    assert_eq!(subcommand(&args(&["demo", "x"])), Subcommand::Demo);
    assert_eq!(
        subcommand(&args(&["replay", "a", "b"])),
        Subcommand::Replay(args(&["a", "b"]))
    );
    assert_eq!(
        subcommand(&args(&["import"])),
        Subcommand::Import(args(&[]))
    );
}

#[test]
fn the_demonstration_checks_its_files_and_its_memory() {
    assert!(check_demo_files(true, true).is_ok());
    assert_eq!(
        check_demo_files(true, false),
        Err(FamilyClawError::Memory("Demo files not found".into()))
    );
    assert!(check_recall(1).is_ok());
    assert_eq!(
        check_recall(0),
        Err(FamilyClawError::Memory("Memory not found after restart".into()))
    );
    assert_eq!(top_memory(&vec![]), "(no matches)");
    assert_eq!(top_memory(&vec!["a".into(), "b".into()]), "a");
}

#[test]
fn streaming_is_off_unless_it_is_switched_on() {
    assert!(llm_streaming_enabled(Some("1")));
    assert!(llm_streaming_enabled(Some("TRUE")));
    assert!(!llm_streaming_enabled(Some("yes")));
    assert!(!llm_streaming_enabled(None));
}

#[test]
fn a_draft_keeps_every_piece() {
    let mut draft = Draft::new();
    assert_eq!(draft.on_piece("he", false, true), None);
    let shown = draft.on_piece("i", true, true).expect("due");
    assert_eq!(shown, "â†³ â–±â–±â–± Drafting responseâ€¦");
    assert_eq!(draft.on_piece("!", true, false), None);
    assert_eq!(draft.finish(), "hei!");
}

#[test]
fn a_progress_note_is_not_repeated() {
    assert_eq!(
        tool_progress_note(&None, "fs_read", 2, true).as_deref(),
        Some("â†³ Step 2 Â· fs_read")
    );
    assert_eq!(
        tool_progress_note(&Some("fs_read".into()), "fs_read", 3, true),
        None
    );
    assert_eq!(tool_progress_note(&None, "fs_read", 2, false), None);
}

#[test]
fn a_bootstrap_is_done_when_all_is_written() {
    let (mut b, first) = Bootstrap::new("turn-7", false, true, true);
    assert!(matches!(first, BootstrapRequest::Plan));
    let done = || WriteOutcome::Ended {
        done: true,
        status: "completed".into(),
    };
    match b.on_planned(vec!["a.md".into(), "b.md".into()]) {
        BootstrapRequest::Write { step, index } => {
            assert_eq!((step.as_str(), index), ("turn-7-bootstrap-0", 0));
        }
        other => panic!("{other:?}"),
    }
    match b.on_written(done()) {
        BootstrapRequest::Write { step, index } => {
            assert_eq!((step.as_str(), index), ("turn-7-bootstrap-1", 1));
        }
        other => panic!("{other:?}"),
    }
    match b.on_written(done()) {
        BootstrapRequest::Done { written, .. } => assert_eq!(written, vec!["a.md", "b.md"]),
        other => panic!("{other:?}"),
    }
    assert_eq!(b.reply_step(), "turn-7-operator-bootstrap");
}

#[test]
fn a_bootstrap_replays_without_writing() {
    let (_, first) = Bootstrap::new("turn-7", true, true, true);
    match first {
        BootstrapRequest::Replay { step } => assert_eq!(step, "turn-7-operator-bootstrap"),
        other => panic!("{other:?}"),
    }
    let (_, blocked) = Bootstrap::new("turn-7", false, true, false);
    assert!(!matches!(
        blocked,
        BootstrapRequest::Plan | BootstrapRequest::Done { .. }
    ));
}

#[test]
fn a_bootstrap_stops_where_a_write_fails() {
    for (outcome, blocked) in [
        (WriteOutcome::Unregistered, false),
        (
            WriteOutcome::Failed(FamilyClawError::bus("disk full")),
            false,
        ),
        (WriteOutcome::AwaitingApproval { task: "t9".into() }, true),
        (
            WriteOutcome::Ended {
                done: false,
                status: "denied".into(),
            },
            true,
        ),
    ] {
        let (mut b, _) = Bootstrap::new("turn-7", false, true, true);
        b.on_planned(vec!["a.md".into()]);
        match b.on_written(outcome) {
            BootstrapRequest::Blocked { .. } => assert!(blocked),
            BootstrapRequest::Failed(_) => assert!(!blocked),
            other => panic!("{other:?}"),
        }
    }
}

#[test]
fn a_status_report_needs_a_home() {
    match execute_operator_status_bootstrap("turn-7", false, true) {
        Ok(StatusPlan::Report { step }) => assert_eq!(step, "turn-7-operator-status"),
        other => panic!("{other:?}"),
    }
    assert!(matches!(
        execute_operator_status_bootstrap("turn-7", true, false),
        Ok(StatusPlan::Replay { .. })
    ));
    assert!(execute_operator_status_bootstrap("turn-7", false, false).is_err());
}
