use familyclaw_agent::channel_bridge::{
    envelope_origin, envelope_to_bus_message, publish_envelope, InboundEnvelope,
};
use familyclaw_agent::error::{
    journal_error, model_failure, parse_llm_class_tag, recovery_fallback_reply,
    recovery_fallback_reply_for_error, tag_llm_error, FamilyClawError,
};
use familyclaw_agent::history::{
    build_message_stack, compact_history, compaction_zone, conversation_history,
    conversation_key, history_max_chars_per_msg, hydrate_history_from_store, persist_chat_turn,
    session_tag_for_recall, truncate_for_history, CompactionConfig, ConversationHistory,
    StoredMemory, HISTORY_MAX_CHARS_PER_MSG, HISTORY_MAX_MESSAGES,
};
use familyclaw_agent::llm::{LlmError, LlmMessage, LlmRole};
use familyclaw_agent::message::{reply_target, should_remember, BusMessage, MessageOrigin};
use familyclaw_agent::version;

#[test]
fn version_is_nonempty() {
    assert!(!version().is_empty());
}

#[test]
fn should_remember_logic() {
    assert!(should_remember(&BusMessage::text("x")));
    assert!(!should_remember(&BusMessage::EmotionPulse));
    assert!(!should_remember(&BusMessage::TaskEvent {
        task_id: "t1".into(),
    }));
    assert!(!should_remember(&BusMessage::ResumeApproval {
        approval_id: "any".into(),
    }));
    assert!(should_remember(&BusMessage::Latent {
        text_shadow: "x".into(),
    }));
}

#[test]
fn provider_not_found_reply_names_cause_without_leaking_body() {
    let raw = LlmError::NotFound(
        "HTTP 404: {\"error\":\"Function id acct_9f8e7d6c5b4a not found\"}".to_string(),
    );
    let tagged = FamilyClawError::llm(&tag_llm_error(&raw));

    let reply = recovery_fallback_reply_for_error(&tagged);

    assert!(
        reply.contains("404"),
        "reply should surface the status code: {reply}"
    );
    assert!(
        reply.contains("FAMILYCLAW_PROVIDER_MODEL"),
        "reply should point at the config knob: {reply}"
    );
    assert!(
        !reply.contains("acct_9f8e7d6c5b4a"),
        "reply must NEVER contain the raw provider body/account id: {reply}"
    );
    assert!(
        !reply.contains("Function id"),
        "reply must NEVER contain raw provider body text: {reply}"
    );
    assert_eq!(
        reply,
        "LLM-palveluihin ei saatu yhteyttä (viimeisin virhe: HTTP 404 — malli on \
         mahdollisesti poistettu). Tarkista FAMILYCLAW_PROVIDER_MODEL / provider-konfiguraatio."
    );
}

#[test]
fn think_error_reply_differs_from_max_iterations_reply() {
    let raw = LlmError::NotFound("HTTP 404: [redacted]".to_string());
    let tagged = FamilyClawError::llm(&tag_llm_error(&raw));
    assert_ne!(
        recovery_fallback_reply_for_error(&tagged),
        recovery_fallback_reply()
    );
}

#[test]
fn other_llm_failure_classes_get_redacted_non_generic_reply() {
    let raw = LlmError::Timeout("connect timed out after 10s to 10.0.0.5".to_string());
    let tagged = FamilyClawError::llm(&tag_llm_error(&raw));
    let reply = recovery_fallback_reply_for_error(&tagged);
    assert!(reply.contains("timeout"), "got: {reply}");
    assert!(
        !reply.contains("10.0.0.5"),
        "reply must not leak raw error detail: {reply}"
    );
}

#[test]
fn non_llm_error_falls_back_to_generic_reply() {
    let e = FamilyClawError::bus("mailbox closed");
    assert_eq!(
        recovery_fallback_reply_for_error(&e),
        recovery_fallback_reply()
    );
}

#[test]
fn llm_error_tag_round_trips_class_and_status_line() {
    let cases: Vec<(LlmError, &str, &str)> = vec![
        (
            LlmError::NotFound("HTTP 404: x".into()),
            "provider_not_found",
            "HTTP 404",
        ),
        (
            LlmError::AuthFailed("HTTP 401: [redacted]".into()),
            "auth_failed",
            "HTTP 401",
        ),
        (LlmError::Timeout("slow".into()), "timeout", "timeout"),
        (LlmError::NoContent, "no_content", "no_content"),
    ];
    for (err, expected_class, expected_status_line) in cases {
        let tagged = tag_llm_error(&err);
        let (class, status_line) = parse_llm_class_tag(&tagged).expect("tagged message parses");
        assert_eq!(class, expected_class);
        assert_eq!(status_line, expected_status_line);
    }
}

#[test]
fn an_untagged_text_has_no_class() {
    assert_eq!(parse_llm_class_tag("mailbox closed"), None);
    assert_eq!(parse_llm_class_tag(""), None);
}

#[test]
fn model_failures_are_tagged_and_journal_failures_are_not() {
    let e = model_failure(&LlmError::NoContent);
    assert!(matches!(e, FamilyClawError::Llm(_)));
    assert_eq!(e.to_text(), tag_llm_error(&LlmError::NoContent));
    assert_eq!(
        journal_error("turn", true, "gone").to_text(),
        "turn replay failed: gone"
    );
    assert_eq!(
        journal_error("turn", false, "gone").to_text(),
        "turn step failed: gone"
    );
}

#[test]
fn build_message_stack_orders_system_history_then_user() {
    let history = vec![
        LlmMessage::user("aiempi kysymys"),
        LlmMessage::assistant("aiempi vastaus"),
    ];
    let stack = build_message_stack("SYSTEM", &history, "uusi");
    assert_eq!(stack.len(), 4);
    assert_eq!(stack[0].role, LlmRole::System);
    assert_eq!(stack[1].role, LlmRole::User);
    assert_eq!(stack[1].content, "aiempi kysymys");
    assert_eq!(stack[2].role, LlmRole::Assistant);
    assert_eq!(stack[3].role, LlmRole::User);
    assert_eq!(stack[3].content, "uusi");
}

#[test]
fn build_message_stack_empty_history_is_just_system_user() {
    let stack = build_message_stack("SYSTEM", &[], "kysymys");
    assert_eq!(stack.len(), 2);
    assert_eq!(stack[0].role, LlmRole::System);
    assert_eq!(stack[1].role, LlmRole::User);
}

#[test]
fn truncate_for_history_keeps_short_and_caps_long_at_utf8_boundary() {
    let max = history_max_chars_per_msg(None);
    assert_eq!(truncate_for_history("lyhyt", max), "lyhyt");
    let long = "ä".repeat(HISTORY_MAX_CHARS_PER_MSG);
    let out = truncate_for_history(&long, max);
    assert!(out.ends_with('…'));
    let body = out.trim_end_matches('…');
    assert!(body.len() <= HISTORY_MAX_CHARS_PER_MSG);
    assert!(body.is_char_boundary(body.len()));
}

#[test]
fn a_character_across_the_limit_is_dropped_whole() {
    assert_eq!(truncate_for_history("aää", 5), "aää");
    assert_eq!(truncate_for_history("aää", 4), "aä…");
    assert_eq!(truncate_for_history("aää", 3), "aä…");
    assert_eq!(truncate_for_history("aää", 2), "a…");
    assert_eq!(truncate_for_history("ä", 0), "…");
}

#[test]
fn history_max_chars_per_msg_reads_env_override() {
    assert_eq!(history_max_chars_per_msg(Some("500")), 500);
    let long = "x".repeat(1000);
    let out = truncate_for_history(&long, history_max_chars_per_msg(Some("500")));
    let body = out.trim_end_matches('…');
    assert_eq!(
        body.len(),
        500,
        "truncate_for_history must respect the env override"
    );
    assert_eq!(
        history_max_chars_per_msg(Some("50")),
        HISTORY_MAX_CHARS_PER_MSG,
        "a value below HISTORY_MAX_CHARS_MIN must fall back to the default"
    );
    assert_eq!(history_max_chars_per_msg(None), HISTORY_MAX_CHARS_PER_MSG);
    assert_eq!(
        history_max_chars_per_msg(Some("not-a-number")),
        HISTORY_MAX_CHARS_PER_MSG
    );
}

fn append(h: &mut ConversationHistory, key: &str, user: &str, assistant: &str) {
    let max = history_max_chars_per_msg(None);
    h.append_history(key, user, assistant, max, &CompactionConfig::default());
}

#[test]
fn append_history_is_a_sliding_window() {
    let mut agent = ConversationHistory::new();
    let key = "discord-main:general";
    for i in 0..HISTORY_MAX_MESSAGES {
        append(
            &mut agent,
            key,
            &format!("kysymys {i}"),
            &format!("vastaus {i}"),
        );
    }
    let hist = agent.history_for(key);
    assert_eq!(hist.len(), HISTORY_MAX_MESSAGES);
    assert_eq!(hist.last().expect("last").role, LlmRole::Assistant);
    let newest = &hist.last().expect("last").content;
    assert!(newest.starts_with("vastaus"));
    assert_eq!(*newest, format!("vastaus {}", HISTORY_MAX_MESSAGES - 1));
}

#[test]
fn append_history_skips_empty_messages() {
    let mut agent = ConversationHistory::new();
    let key = "k";
    append(&mut agent, key, "", "vastaus");
    append(&mut agent, key, "kysymys", "   ");
    assert!(agent.history_for(key).is_empty(), "tyhjiä ei tallenneta");
    append(&mut agent, key, "kysymys", "vastaus");
    assert_eq!(agent.history_for(key).len(), 2);
}

fn msg(i: usize) -> LlmMessage {
    LlmMessage::user(&format!("m{i}"))
}

fn window(n: usize) -> Vec<LlmMessage> {
    (0..n).map(msg).collect()
}

#[test]
fn compact_history_default_matches_old_drop_oldest_window() {
    let config = CompactionConfig::default();
    let mut dq = window(HISTORY_MAX_MESSAGES + 5);
    compact_history(&mut dq, &config, None);
    assert_eq!(dq.len(), HISTORY_MAX_MESSAGES);
    assert_eq!(dq.first().unwrap().content, format!("m{}", 5));
    assert_eq!(
        dq.last().unwrap().content,
        format!("m{}", HISTORY_MAX_MESSAGES + 4)
    );
}

#[test]
fn compact_history_zero_threshold_disables_compaction() {
    let config = CompactionConfig {
        max_messages: 0,
        ..CompactionConfig::default()
    };
    let mut dq = window(50);
    compact_history(&mut dq, &config, None);
    assert_eq!(dq.len(), 50, "max_messages = 0 must disable compaction");
}

#[test]
fn compact_history_protects_first_n_even_over_threshold() {
    let config = CompactionConfig {
        max_messages: 5,
        protect_first_n: 3,
        protect_last_n: 0,
    };
    let mut dq = window(10);
    compact_history(&mut dq, &config, None);
    assert_eq!(dq.len(), 5);
    assert_eq!(dq[0].content, "m0");
    assert_eq!(dq[1].content, "m1");
    assert_eq!(dq[2].content, "m2");
}

#[test]
fn compact_history_stops_when_protections_cover_whole_window() {
    let config = CompactionConfig {
        max_messages: 4,
        protect_first_n: 3,
        protect_last_n: 3,
    };
    let mut dq = window(6);
    compact_history(&mut dq, &config, None);
    assert_eq!(
        dq.len(),
        6,
        "fully protected window must not be evicted despite exceeding max_messages"
    );
}

#[test]
fn compact_history_summarizer_collapses_the_evictable_middle_zone() {
    let config = CompactionConfig {
        max_messages: 5,
        protect_first_n: 0,
        protect_last_n: 3,
    };
    let mut dq = window(10);
    let (from, to) = compaction_zone(dq.len(), &config).expect("something is to be summed up");
    let evicted = &dq[from..to];
    let summary = LlmMessage::assistant(&format!("summary of {} messages", evicted.len()));
    compact_history(&mut dq, &config, Some(summary));
    assert_eq!(dq.len(), 4);
    assert_eq!(dq.first().unwrap().content, "summary of 7 messages");
    assert_eq!(dq.last().unwrap().content, "m9");
}

#[test]
fn compact_history_summarizer_none_falls_back_to_plain_eviction() {
    let config = CompactionConfig {
        max_messages: 5,
        protect_first_n: 0,
        protect_last_n: 3,
    };
    let mut dq = window(10);
    compact_history(&mut dq, &config, None);
    assert_eq!(dq.len(), 5);
    assert_eq!(dq.last().unwrap().content, "m9");
}

#[test]
fn a_window_that_is_short_enough_needs_no_summary() {
    let config = CompactionConfig::default();
    assert_eq!(compaction_zone(HISTORY_MAX_MESSAGES, &config), None);
    let mut dq = window(3);
    compact_history(&mut dq, &config, Some(LlmMessage::assistant("unused")));
    assert_eq!(dq, window(3));
}

#[test]
fn compaction_config_from_env_reads_overrides_and_defaults() {
    let cfg = CompactionConfig::from_settings(None, None, None);
    assert_eq!(cfg.max_messages, CompactionConfig::DEFAULT_MAX_MESSAGES);
    assert_eq!(cfg.protect_first_n, 0);
    assert_eq!(cfg.protect_last_n, CompactionConfig::DEFAULT_MAX_MESSAGES);

    let cfg = CompactionConfig::from_settings(Some("8"), Some("2"), Some("4"));
    assert_eq!(cfg.max_messages, 8);
    assert_eq!(cfg.protect_first_n, 2);
    assert_eq!(cfg.protect_last_n, 4);
}

#[test]
fn agent_with_compaction_overrides_the_default_policy() {
    let config = CompactionConfig {
        max_messages: 4,
        protect_first_n: 0,
        protect_last_n: 4,
    };
    assert_eq!(config.max_messages, 4);
    let mut agent = ConversationHistory::new();
    let key = "discord-main:general";
    for i in 0..10 {
        agent.append_history(
            key,
            &format!("kysymys {i}"),
            &format!("vastaus {i}"),
            history_max_chars_per_msg(None),
            &config,
        );
    }
    assert_eq!(agent.history_for(key).len(), 4);
}

#[test]
fn conversation_key_separates_channels_and_conversations() {
    let a = Some(MessageOrigin::new("discord-main", "general", "u1"));
    let b = Some(MessageOrigin::new("discord-main", "random", "u1"));
    let c = Some(MessageOrigin::new("telegram", "general", "u1"));
    assert_ne!(conversation_key(&a, &None), conversation_key(&b, &None));
    assert_ne!(conversation_key(&a, &None), conversation_key(&c, &None));
    assert_eq!(conversation_key(&a, &None), "discord-main:general");
    assert_eq!(conversation_key(&None, &None), "default");
    assert_eq!(conversation_key(&None, &Some("ops".into())), "ops");
}

#[test]
fn separate_conversations_keep_independent_history() {
    let mut agent = ConversationHistory::new();
    append(&mut agent, "chan:a", "ka", "va");
    append(&mut agent, "chan:b", "kb", "vb");
    assert_eq!(agent.history_for("chan:a").len(), 2);
    assert_eq!(agent.history_for("chan:b").len(), 2);
    assert!(agent.history_for("chan:a")[0].content.contains("ka"));
    assert!(agent.history_for("chan:b")[0].content.contains("kb"));
}

#[test]
fn a_chat_turn_is_found_again_in_its_session_only() {
    let here = MessageOrigin::new("discord", "general", "u1");
    let there = MessageOrigin::new("discord", "random", "u1");
    let mut store: Vec<StoredMemory> = vec![];
    for (at, origin, role, text) in [
        (3, &here, "chat:assistant", "vastaus"),
        (2, &here, "chat:user", "kysymys"),
        (1, &there, "chat:user", "muualla"),
    ] {
        store.extend(persist_chat_turn(origin, role, text, 2000, at));
    }
    assert!(persist_chat_turn(&here, "chat:user", "   ", 2000, 4).is_none());
    let tag = session_tag_for_recall(&Some(here.copy()), &None).expect("a session");
    assert_eq!(tag, here.session_tag());
    let found = hydrate_history_from_store(&store, &tag, 2000, 20);
    let texts: Vec<&str> = found.iter().map(|m| m.content.as_str()).collect();
    assert!(!texts.contains(&"muualla"));
    let windows = ConversationHistory::new();
    let same = conversation_history(&windows, "discord:general", &store, &Some(tag), 2000, 20);
    assert_eq!(same, found);
    let none = conversation_history(&windows, "discord:general", &store, &None, 2000, 20);
    assert!(none.is_empty());
}

#[test]
fn a_reply_goes_to_the_origin_before_the_configured_target() {
    let origin = Some(MessageOrigin::new("discord", "general", "u1"));
    let configured = Some("ops".to_string());
    assert_eq!(reply_target(&origin, &configured).as_deref(), Some("general"));
    assert_eq!(reply_target(&None, &configured).as_deref(), Some("ops"));
    assert_eq!(reply_target(&None, &None), None);
}

fn envelope(body: &str) -> InboundEnvelope {
    InboundEnvelope {
        channel_id: "mock-1".into(),
        conversation: "general".into(),
        sender: "user-1".into(),
        body: body.into(),
    }
}

#[test]
fn envelope_converts_to_text_bus_message() {
    let bus_msg = envelope_to_bus_message(envelope("hello bus"));
    match bus_msg {
        BusMessage::Text { body } => assert_eq!(body, "hello bus"),
        other => panic!("expected Text, got {other:?}"),
    }
}

#[test]
fn an_envelope_is_published_with_its_origin() {
    let (message, origin) = publish_envelope(envelope("hello bus"));
    assert_eq!(message, BusMessage::text("hello bus"));
    assert_eq!(origin, MessageOrigin::new("mock-1", "general", "user-1"));
    assert_eq!(origin, envelope_origin(&envelope("")));
}
