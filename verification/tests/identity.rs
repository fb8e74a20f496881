use familyclaw_agent::grounding::{
    apply_grounding_guard, looks_like_action_request, lowered_asks_for_action,
    lowered_claims_work, lowered_is_claim_memory, memory_is_unverified_tool_claim,
    response_claims_tool_use,
};
use familyclaw_agent::identity::{
    brief_ping_reply, filter_memories_for_operator, identity_guard_prompt, is_brief_ping,
    is_operator_continue, is_operator_go_ahead, is_operator_origin, lowered_calls_name,
    memory_is_roleplay_noise, operator_diagnostic_reply, operator_id, peer_tag,
    scope_operator_tag, RecalledMemory,
};
use familyclaw_agent::message::{BusMessage, MessageOrigin};

#[test]
fn action_request_detects_operator_status() {
    assert!(looks_like_action_request("Toimitko?"));
    assert!(looks_like_action_request("Tee se nyt"));
    assert!(!looks_like_action_request("Hei, mitä kuuluu?"));
}

#[test]
fn grounding_guard_flags_hallucinated_done() {
    let text = "DONE: updated E:\\Agent\\home\\memory.md";
    let out = apply_grounding_guard(text, 0);
    assert!(out.contains("Vahvistamaton"));
    assert_eq!(apply_grounding_guard(text, 1), text);
}

#[test]
fn the_guard_only_appends_and_does_so_once() {
    let text = "DONE: updated E:\\Agent\\home\\memory.md";
    let once = apply_grounding_guard(text, 0);
    assert!(once.starts_with(text));
    assert!(!response_claims_tool_use(&once));
    assert_eq!(apply_grounding_guard(&once, 0), once);
    assert_eq!(apply_grounding_guard("all is well", 0), "all is well");
}

#[test]
fn capital_letters_do_not_hide_a_claim() {
    assert!(response_claims_tool_use("DONE: E:\\AGENT\\home\\memory.md"));
    assert!(!lowered_claims_work("DONE: E:\\AGENT\\home\\memory.md"));
    assert!(memory_is_unverified_tool_claim("the AGENT_LEDGER says so"));
    assert!(lowered_is_claim_memory("the agent_ledger says so"));
    assert!(!lowered_is_claim_memory("the AGENT_LEDGER says so"));
    assert!(!lowered_asks_for_action(""));
}

#[test]
fn brief_ping_detects_short_call() {
    assert!(is_brief_ping("agent_delta?!", "agent_delta"));
    assert!(is_brief_ping("agent_delta?", "agent_delta"));
    assert!(!is_brief_ping(
        "agent_delta, read your SOUL and write a full report",
        "agent_delta"
    ));
}

#[test]
fn a_ping_is_short_in_characters() {
    let at_the_limit = format!("agent_delta{}", "?".repeat(37));
    let over_the_limit = format!("agent_delta{}", "?".repeat(38));
    assert_eq!(at_the_limit.chars().count(), 48);
    assert!(is_brief_ping(&at_the_limit, "agent_delta"));
    assert!(!is_brief_ping(&over_the_limit, "agent_delta"));
    assert!(!is_brief_ping("  ", "agent_delta"));
    assert!(lowered_calls_name("agent_delta?", "agent_delta"));
}

#[test]
fn a_ping_is_answered_by_name() {
    assert_eq!(
        brief_ping_reply("agent_delta", &BusMessage::text("Agent_Delta?")).as_deref(),
        Some("Tässä! ✦ (agent_delta kuulee — mitä tarvitset?)")
    );
    assert_eq!(brief_ping_reply("agent_delta", &BusMessage::text("hei")), None);
    assert_eq!(brief_ping_reply("agent_delta", &BusMessage::EmotionPulse), None);
}

fn memory(content: &str) -> RecalledMemory {
    RecalledMemory {
        content: content.to_string(),
        relevance: "0.5".to_string(),
    }
}

#[test]
fn operator_identity_guard_and_recall_filter() {
    let operator = operator_id(Some("42"));
    let origin = Some(MessageOrigin::new("discord-1", "100", "42"));
    let memories = vec![
        memory("normal operator question"),
        memory("Hei agent_delta! Sisaresi agent_epsilon täältä."),
    ];
    let filtered = filter_memories_for_operator(memories, operator, &origin);
    assert_eq!(filtered.len(), 1);
    assert!(filtered[0].content.contains("normal"));
    assert!(identity_guard_prompt(operator, &origin).contains("OPERATOR IDENTITY GUARD"));
    let other = Some(MessageOrigin::new("c", "conv", "1"));
    assert!(identity_guard_prompt(operator, &other).is_empty());
}

#[test]
fn others_keep_all_of_their_memories() {
    let operator = operator_id(Some("42"));
    let other = Some(MessageOrigin::new("c", "conv", "1"));
    let kept = filter_memories_for_operator(
        vec![memory("a"), memory("Your SISTER was here")],
        operator,
        &other,
    );
    assert_eq!(kept.len(), 2);
    assert!(memory_is_roleplay_noise("Your SISTER was here"));
}

#[test]
fn nobody_is_the_operator_where_none_is_set() {
    let origin = Some(MessageOrigin::new("discord-1", "100", "0"));
    for setting in [None, Some(""), Some("0"), Some("x"), Some("-1")] {
        assert_eq!(operator_id(setting), None, "{setting:?}");
    }
    assert!(!is_operator_origin(None, &origin));
    assert!(!is_operator_origin(Some(42), &None));
    assert!(is_operator_origin(
        Some(42),
        &Some(MessageOrigin::new("a", "b", "42"))
    ));
}

#[test]
fn tags_name_the_peer_and_the_scope() {
    assert_eq!(peer_tag("42"), "peer:42");
    assert_eq!(scope_operator_tag(), "scope:operator");
}

#[test]
fn operator_diagnostic_fast_paths_cover_direct_questions() {
    let operator = operator_id(Some("42"));
    let origin = Some(MessageOrigin::new("discord-1", "100", "42"));
    let moved = operator_diagnostic_reply(&BusMessage::text("Minne siirrät?"), operator, &origin)
        .expect("direct move question should be fast-pathed");
    assert!(moved.contains("E:\\agent_delta\\home\\research\\legacy\\2026-07"));
    let can_work =
        operator_diagnostic_reply(&BusMessage::text("Pystyt nyt toimimaan?"), operator, &origin)
            .expect("direct status question should be fast-pathed");
    assert!(can_work.to_lowercase().contains("pystyn toimimaan"));
    let go = operator_diagnostic_reply(&BusMessage::text("Tee se!"), operator, &origin)
        .expect("go-ahead should be fast-pathed");
    assert!(go.contains("TOP 20 #1"));
    let cont = operator_diagnostic_reply(&BusMessage::text("JATKA."), operator, &origin)
        .expect("continue should be fast-pathed");
    assert!(cont.contains("gateway"));
    assert!(!cont.contains("turn-timeoutit"));
    let how = operator_diagnostic_reply(
        &BusMessage::text("Miten sinusta saadaan kunnolla toimiva!"),
        operator,
        &origin,
    )
    .expect("how-to-work should be fast-pathed");
    assert!(how.contains("read_full_content"));
}

#[test]
fn only_the_operator_has_fast_paths() {
    let origin = Some(MessageOrigin::new("discord-1", "100", "7"));
    let asked = BusMessage::text("JATKA.");
    assert_eq!(operator_diagnostic_reply(&asked, Some(42), &origin), None);
    assert!(is_operator_continue(" JATKA. "));
    assert!(is_operator_go_ahead("HYVÄKSYN!"));
    assert!(!is_operator_go_ahead("ehkä"));
}
