use familyclaw_agent::import_bundle::{
    from_family_hearth, from_hermes, from_openclaw, parse_bundle, HearthKind, HearthOrigin,
    ImportError, ImportSource, ImportedMemory, ImportedSkill, DEFAULT_ANCHOR_TRUST,
    UNTRUSTED_IMPORT_TRUST,
};
use familyclaw_agent::import_cli::{execute, parse, run, usage, ImportCommand};
use familyclaw_agent::import_plan::{
    imported_hearth_memory_to_memory, imported_memory_to_memory, imported_skill_to_quarantine,
    ActionRisk, ApprovalPolicy, ImportPlan, ImportReport, Memory, Provenance,
};
use familyclaw_agent::weight::{TrustFault, Weight};

/// The least trust that a memory gate admits by default.
const GATE_THRESHOLD: f32 = 0.5;

fn args(words: &[&str]) -> Vec<String> {
    words.iter().map(|w| w.to_string()).collect()
}

fn number(w: &Weight) -> f32 {
    w.text().parse().expect("a number")
}

fn default_anchor_trust() -> f32 {
    DEFAULT_ANCHOR_TRUST.parse().expect("a number")
}

fn untrusted_import_trust() -> f32 {
    UNTRUSTED_IMPORT_TRUST.parse().expect("a number")
}

fn trust(p: &Provenance) -> f32 {
    match p {
        Provenance::DirectExperience => 1.0,
        Provenance::External { trust, .. } => number(trust),
    }
}

fn admitted(p: &Provenance) -> bool {
    trust(p) >= GATE_THRESHOLD
}

const OPENCLAW_EXPORT: &str = r#"{
    "openclaw_export_version": "3.1",
    "unknown_top_level": "ignored on purpose",
    "memories": [
        { "text": "user prefers concise answers", "tags": ["pref"], "importance": 0.4 },
        { "content": "project deadline is friday", "importance": 0.7 },
        { "text": "   ", "note": "empty -> skipped" }
    ],
    "skills": [
        { "name": "shell_runner", "description": "runs shell", "permissions": ["execute_code"] },
        { "name": "mailer", "extra_field": "ignored" }
    ],
    "config": { "model": "provider/model", "temperature": 0.7 }
}"#;

const HERMES_EXPORT: &str = r#"{
    "hermes_version": "2.0",
    "agent": {
        "memory": [
            { "value": "likes dark mode", "labels": ["ui"], "weight": 0.3 },
            { "text": "birthday in june", "weight": 0.9 }
        ],
        "abilities": [
            { "id": "web_scraper", "summary": "scrapes", "scopes": ["network_read"] }
        ],
        "settings": { "provider": "generic", "nested": { "a": 1 } }
    }
}"#;

const HEARTH_EXPORT: &str = r#"{
    "hearth_version": "1",
    "unknown_top_level": "ignored on purpose",
    "memory": [
        { "id": "m1", "agent": "agent_alpha", "content": "operator note recorded during onboarding",
          "tags": ["family"], "importance": 0.9, "timestamp": "2026-05-26T18:00:00Z",
          "identity_anchor": true },
        { "id": "m2", "agent": "agent_gamma", "content": "architecture, code, systems thinking",
          "importance": 0.5 },
        { "id": "m3", "agent": "agent_delta", "text": "   " }
    ],
    "intents": [
        { "id": "i1", "agent": "agent_beta", "intent": "research the new audio sense tonight",
          "timestamp": "2026-07-11T02:00:00Z" }
    ],
    "state": {
        "agent_epsilon": { "mood": "curious", "location": "/srv/agents/agent_epsilon" }
    },
    "settings": { "hearth_path": "/root/.hermes/profiles/shared/hearth" }
}"#;

#[test]
fn parse_reads_all_flags() {
    let cmd = parse(&args(&[
        "--from", "openclaw", "--input", "x.json", "--out", "d", "--json",
    ]))
    .expect("parse");
    assert_eq!(cmd.source, ImportSource::OpenClaw);
    assert_eq!(cmd.input, "x.json");
    assert_eq!(cmd.out, Some("d".to_string()));
    assert!(cmd.json);
    assert!((number(&cmd.anchor_trust) - default_anchor_trust()).abs() < f32::EPSILON);
}

#[test]
fn parse_defaults_out_none_and_markdown() {
    let cmd = parse(&args(&["--from", "hermes", "--input", "x.json"])).expect("parse");
    assert_eq!(cmd.source, ImportSource::Hermes);
    assert_eq!(cmd.out, None);
    assert!(!cmd.json);
}

#[test]
fn parse_accepts_family_hearth_source_and_alias() {
    let cmd = parse(&args(&["--from", "family_hearth", "--input", "x.json"])).expect("parse");
    assert_eq!(cmd.source, ImportSource::FamilyHearth);
    let cmd2 = parse(&args(&["--from", "hearth", "--input", "x.json"])).expect("parse alias");
    assert_eq!(cmd2.source, ImportSource::FamilyHearth);
}

#[test]
fn parse_reads_anchor_trust_flag() {
    let cmd = parse(&args(&[
        "--from",
        "family_hearth",
        "--input",
        "x.json",
        "--anchor-trust",
        "0.75",
    ]))
    .expect("parse");
    assert!((number(&cmd.anchor_trust) - 0.75).abs() < 1e-6);
}

#[test]
fn parse_anchor_trust_clamps_out_of_range() {
    let cmd = parse(&args(&[
        "--from",
        "family_hearth",
        "--input",
        "x.json",
        "--anchor-trust",
        "5.0",
    ]))
    .expect("parse");
    assert!((number(&cmd.anchor_trust) - 1.0).abs() < f32::EPSILON);
}

#[test]
fn parse_anchor_trust_non_numeric_is_usage_error() {
    let err = parse(&args(&[
        "--from",
        "family_hearth",
        "--input",
        "x.json",
        "--anchor-trust",
        "not-a-number",
    ]))
    .expect_err("must fail");
    match err {
        ImportError::Usage(msg) => assert!(msg.contains("--anchor-trust")),
        other => panic!("expected Usage, got {other:?}"),
    }
}

#[test]
fn parse_unknown_source_is_usage_error() {
    let err = parse(&args(&["--from", "gpt-clone", "--input", "x.json"])).expect_err("must fail");
    match err {
        ImportError::Usage(msg) => assert!(msg.contains("unknown --from source")),
        other => panic!("expected Usage, got {other:?}"),
    }
}

#[test]
fn parse_missing_from_is_usage_error() {
    let err = parse(&args(&["--input", "x.json"])).expect_err("must fail");
    match err {
        ImportError::Usage(msg) => assert!(msg.contains("--from")),
        other => panic!("expected Usage, got {other:?}"),
    }
}

#[test]
fn parse_missing_input_is_usage_error() {
    let err = parse(&args(&["--from", "openclaw"])).expect_err("must fail");
    match err {
        ImportError::Usage(msg) => assert!(msg.contains("--input")),
        other => panic!("expected Usage, got {other:?}"),
    }
}

#[test]
fn parse_flag_without_value_is_usage_error() {
    let err = parse(&args(&["--from"])).expect_err("must fail");
    match err {
        ImportError::Usage(msg) => assert!(msg.contains("requires a value")),
        other => panic!("expected Usage, got {other:?}"),
    }
}

#[test]
fn parse_unknown_flag_is_usage_error() {
    let err = parse(&args(&["--from", "openclaw", "--input", "x", "--bogus"])).expect_err("must fail");
    match err {
        ImportError::Usage(msg) => assert!(msg.contains("unknown flag")),
        other => panic!("expected Usage, got {other:?}"),
    }
}

#[test]
fn openclaw_happy_path_counts_and_guarantees() {
    let bundle = from_openclaw(OPENCLAW_EXPORT).expect("parse openclaw");
    assert_eq!(bundle.source, ImportSource::OpenClaw);
    assert_eq!(bundle.memories.len(), 2);
    assert_eq!(bundle.skills.len(), 2);
    assert_eq!(bundle.config_hints.len(), 2);
    assert!(!bundle.warnings.is_empty());

    let plan = ImportPlan::from_bundle(&bundle);
    assert_eq!(plan.memory_count(), 2);
    assert_eq!(plan.quarantined_skill_count(), 2);
    assert!(
        plan.all_skills_quarantined(),
        "every skill must be quarantined"
    );
    assert!(
        plan.all_memories_untrusted(),
        "every imported memory must be low-trust external"
    );
}

#[test]
fn hermes_happy_path_counts_and_quarantine() {
    let bundle = from_hermes(HERMES_EXPORT).expect("parse hermes");
    assert_eq!(bundle.source, ImportSource::Hermes);
    assert_eq!(bundle.memories.len(), 2);
    assert_eq!(bundle.skills.len(), 1);
    assert_eq!(bundle.config_hints.len(), 2);

    let plan = ImportPlan::from_bundle(&bundle);
    assert!(plan.all_skills_quarantined());
    assert!(plan.all_memories_untrusted());
}

#[test]
fn family_hearth_happy_path_non_lossy_and_high_trust() {
    let bundle = from_family_hearth(HEARTH_EXPORT).expect("parse hearth");
    assert_eq!(bundle.source, ImportSource::FamilyHearth);
    assert_eq!(bundle.memories.len(), 4);
    assert_eq!(bundle.skills.len(), 0);
    assert_eq!(bundle.config_hints.len(), 1);
    assert!(
        !bundle.warnings.is_empty(),
        "m3's empty content is a warning"
    );

    let plan = ImportPlan::from_bundle_with_anchor_trust(&bundle, &Weight::of("0.8"));
    assert_eq!(plan.memory_count(), 4);
    assert!(plan.all_skills_quarantined());
    assert_eq!(plan.quarantined_skill_count(), 0);
    let anchor = plan
        .memories
        .iter()
        .find(|m| m.tags.iter().any(|t| t == "identity_anchor"))
        .expect("anchor memory present");
    assert_eq!(anchor.provenance, Provenance::DirectExperience);
    assert!(anchor
        .tags
        .contains(&"hearth:agent=agent_alpha".to_string()));
    assert!(anchor.tags.contains(&"hearth:id=m1".to_string()));
    assert!(anchor
        .tags
        .contains(&"hearth:ts=2026-05-26T18:00:00Z".to_string()));
    assert!(anchor.tags.contains(&"hearth:kind=memory".to_string()));
    let non_anchor = plan
        .memories
        .iter()
        .find(|m| m.tags.contains(&"hearth:id=m2".to_string()))
        .expect("m2 present");
    assert!(non_anchor.provenance.is_external());
    assert!((trust(&non_anchor.provenance) - 0.8).abs() < 1e-6);
    assert!(trust(&non_anchor.provenance) > untrusted_import_trust());
    let intent = plan
        .memories
        .iter()
        .find(|m| m.tags.contains(&"hearth:kind=intent".to_string()))
        .expect("intent present");
    assert!(intent.tags.contains(&"hearth:agent=agent_beta".to_string()));
    assert!(intent.content.contains("audio sense"));
    let state = plan
        .memories
        .iter()
        .find(|m| m.tags.contains(&"hearth:kind=state".to_string()))
        .expect("state present");
    assert!(state
        .tags
        .contains(&"hearth:agent=agent_epsilon".to_string()));
    assert!(state.content.contains("agent_epsilon"));

    assert!(plan.all_hearth_anchors_full_trust());
    assert!(admitted(&non_anchor.provenance));
    assert!(admitted(&anchor.provenance));
}

#[test]
fn family_hearth_default_anchor_trust_is_above_gate_threshold() {
    let bundle = from_family_hearth(HEARTH_EXPORT).expect("parse hearth");
    let plan = ImportPlan::from_bundle(&bundle);
    let non_anchor = plan
        .memories
        .iter()
        .find(|m| m.tags.contains(&"hearth:id=m2".to_string()))
        .expect("m2 present");
    assert!((trust(&non_anchor.provenance) - default_anchor_trust()).abs() < 1e-6);
    assert!(default_anchor_trust() > GATE_THRESHOLD);
}

#[test]
fn imported_skill_is_never_auto_runnable() {
    let skill = ImportedSkill {
        name: "danger".to_string(),
        description: "does something".to_string(),
        declared_permissions: vec!["read_only".to_string()],
    };
    let q = imported_skill_to_quarantine(ImportSource::OpenClaw, &skill);
    assert!(q.quarantined);
    assert_eq!(q.manifest.risk, ActionRisk::ExecuteCode);
    assert_eq!(
        q.manifest.approval_policy,
        ApprovalPolicy::AlwaysRequireApproval
    );
}

#[test]
fn plan_produces_only_quarantine_data_no_execution() {
    let bundle = from_openclaw(OPENCLAW_EXPORT).expect("parse");
    let plan = ImportPlan::from_bundle(&bundle);
    for q in &plan.quarantine.skills {
        assert!(q.quarantined);
        assert!(q.manifest.publisher.is_none(), "not an installable skill");
        assert!(q.manifest.signature.is_none());
        assert!(q.manifest.version.contains("imported"));
    }
}

#[test]
fn malformed_json_fails_closed_no_panic() {
    let err = from_openclaw("{ not json ]").expect_err("must fail closed");
    assert!(matches!(err, ImportError::Parse(_)));
    let err2 = from_hermes("").expect_err("empty string is not valid json");
    assert!(matches!(err2, ImportError::Parse(_)));
}

#[test]
fn non_object_root_fails_closed() {
    let err = from_openclaw("[1, 2, 3]").expect_err("array root rejected");
    assert!(matches!(err, ImportError::Parse(_)));
    let err2 = from_hermes("\"just a string\"").expect_err("string root rejected");
    assert!(matches!(err2, ImportError::Parse(_)));
}

#[test]
fn empty_export_handled_gracefully() {
    let bundle = from_openclaw("{}").expect("empty object is valid");
    assert_eq!(bundle.memories.len(), 0);
    assert_eq!(bundle.skills.len(), 0);
    assert_eq!(bundle.config_hints.len(), 0);
    let plan = ImportPlan::from_bundle(&bundle);
    assert_eq!(plan.memory_count(), 0);
    assert!(plan.all_skills_quarantined());
    assert!(plan.all_memories_untrusted());
}

#[test]
fn unknown_fields_are_ignored_not_fatal() {
    let src = r#"{ "totally_unknown": {"deep": [1,2,3]}, "memories": [] }"#;
    let bundle = from_openclaw(src).expect("unknown fields ignored");
    assert_eq!(bundle.memories.len(), 0);
}

#[test]
fn hermes_falls_back_to_top_level_when_no_agent() {
    let src = r#"{ "memory": [ { "value": "flat memory" } ] }"#;
    let bundle = from_hermes(src).expect("parse flat");
    assert_eq!(bundle.memories.len(), 1);
    assert_eq!(bundle.memories[0].content, "flat memory");
}

#[test]
fn usage_mentions_sources_and_safety() {
    let text = usage();
    assert!(text.contains("openclaw"));
    assert!(text.contains("hermes"));
    assert!(text.contains("family_hearth"));
    assert!(text.contains("QUARANTINED"));
    assert!(text.contains("anchor-trust"));
}

#[test]
fn family_hearth_malformed_json_fails_closed() {
    let err = from_family_hearth("{ not json ]").expect_err("must fail closed");
    assert!(matches!(err, ImportError::Parse(_)));
    let err2 = from_family_hearth("[1,2,3]").expect_err("array root rejected");
    assert!(matches!(err2, ImportError::Parse(_)));
}

#[test]
fn family_hearth_empty_export_handled_gracefully() {
    let bundle = from_family_hearth("{}").expect("empty object is valid");
    assert_eq!(bundle.memories.len(), 0);
    let plan = ImportPlan::from_bundle(&bundle);
    assert!(plan.all_hearth_anchors_full_trust());
    assert!(plan.all_skills_quarantined());
}

#[test]
fn imported_memory_is_low_trust_external() {
    let mem = ImportedMemory {
        content: "a fact from elsewhere".to_string(),
        tags: vec!["x".to_string()],
        importance_hint: Weight::of("0.9"),
        origin: None,
    };
    let m = imported_memory_to_memory(ImportSource::Hermes, &mem);
    assert!(m.provenance.is_external());
    assert!(trust(&m.provenance) <= untrusted_import_trust());
    assert!(
        !admitted(&m.provenance),
        "imported memory must not be auto-admitted as trusted"
    );
    assert!(m.tags.contains(&"imported".to_string()));
    assert!(m.tags.contains(&"untrusted".to_string()));
}

fn command(source: ImportSource, out: Option<&str>, json: bool) -> ImportCommand {
    ImportCommand {
        source,
        input: "export.json".to_string(),
        out: out.map(|o| o.to_string()),
        json,
        anchor_trust: Weight::of(DEFAULT_ANCHOR_TRUST),
    }
}

#[test]
fn execute_writes_artifacts_and_report() {
    let cmd = command(ImportSource::OpenClaw, Some("out"), false);
    let outcome = execute(&cmd, Ok(OPENCLAW_EXPORT.to_string())).expect("execute");
    let report = &outcome.text;
    assert!(report.contains("memories imported: 2"));
    assert!(report.contains("skills quarantined: 2"));
    assert!(report.contains("QUARANTINED"));
    assert_eq!(outcome.report_file.as_deref(), Some("import_report.md"));

    let qm = &outcome.plan.quarantine;
    assert_eq!(qm.skills.len(), 2);
    assert!(qm.skills.iter().all(|s| s.quarantined));

    let mems = &outcome.plan.memories;
    assert_eq!(mems.len(), 2);
    assert!(mems.iter().all(|m| m.provenance.is_external()));
}

#[test]
fn execute_json_report_is_valid() {
    let cmd = command(ImportSource::Hermes, None, true);
    let out = execute(&cmd, Ok(HERMES_EXPORT.to_string())).expect("execute").text;
    let value: serde_json::Value = serde_json::from_str(&out).expect("valid json");
    assert_eq!(value["memories_imported"], 2);
    assert_eq!(value["skills_quarantined"], 1);
    assert!(value["guarantees"].is_array());
}

#[test]
fn a_json_report_is_laid_out_like_pretty_json() {
    let cmd = command(ImportSource::OpenClaw, Some("d"), true);
    let outcome = execute(&cmd, Ok("{}".to_string())).expect("execute");
    assert_eq!(outcome.report_file.as_deref(), Some("import_report.json"));
    assert!(outcome.text.starts_with(
        "{\n  \"source\": \"open_claw\",\n  \"memories_imported\": 0,\n  \"skills_quarantined\": 0,\n  \"config_hints\": 0,\n  \"warnings\": [],\n  \"guarantees\": [\n    \""
    ));
    assert!(outcome.text.ends_with("\"\n  ]\n}"));
}

#[test]
fn execute_missing_input_file_is_io_error() {
    let cmd = command(ImportSource::OpenClaw, None, false);
    let err = execute(&cmd, Err("no such file".to_string())).expect_err("missing input must fail");
    assert!(matches!(err, ImportError::Io(_)));
    assert_eq!(err.to_text(), "io error: no such file");
}

#[test]
fn run_dispatches_end_to_end() {
    let words = args(&["--from", "openclaw", "--input", "export.json"]);
    let out = run(&words, Ok(OPENCLAW_EXPORT.to_string())).expect("run");
    assert!(out.text.contains("import report"));
    assert_eq!(out.report_file, None);
}

#[test]
fn run_dispatches_family_hearth_end_to_end() {
    let words = args(&[
        "--from",
        "family_hearth",
        "--input",
        "hearth-export.json",
        "--out",
        "out",
        "--anchor-trust",
        "0.85",
    ]);
    let out = run(&words, Ok(HEARTH_EXPORT.to_string())).expect("run");
    assert!(out.text.contains("import report"));
    assert!(out.text.contains("NON-LOSSY"));

    let mems = &out.plan.memories;
    assert_eq!(mems.len(), 4);
    let anchor_count = mems
        .iter()
        .filter(|m| m.provenance == Provenance::DirectExperience)
        .count();
    assert_eq!(anchor_count, 1, "exactly the one identity_anchor entry");
    assert!(out.plan.quarantine.skills.is_empty());
}

#[test]
fn run_reports_wrong_arguments_before_it_looks_at_the_input() {
    let err = run(&args(&["--bogus"]), Err("no such file".to_string())).expect_err("must fail");
    assert!(matches!(err, ImportError::Usage(_)));
}

#[test]
fn a_tag_alone_does_not_make_an_anchor() {
    let entry = |anchor: bool| ImportedMemory {
        content: "note".to_string(),
        tags: vec![],
        importance_hint: Weight::of("0.4"),
        origin: Some(HearthOrigin {
            kind: HearthKind::Memory,
            agent: Some("agent_alpha".to_string()),
            original_id: None,
            timestamp: None,
            identity_anchor: anchor,
        }),
    };
    let trust_level = Weight::of("0.7");
    let plain: Memory = imported_hearth_memory_to_memory(&entry(false), &trust_level);
    assert!(!plain.tags.contains(&"identity_anchor".to_string()));
    assert_eq!(trust(&plain.provenance), 0.7);
    let anchor: Memory = imported_hearth_memory_to_memory(&entry(true), &trust_level);
    assert!(anchor.tags.contains(&"identity_anchor".to_string()));
    assert_eq!(anchor.provenance, Provenance::DirectExperience);
}

#[test]
fn sources_have_names() {
    for (word, source) in [
        ("openclaw", ImportSource::OpenClaw),
        ("hermes", ImportSource::Hermes),
        ("family_hearth", ImportSource::FamilyHearth),
    ] {
        assert_eq!(source.as_str(), word);
        assert_eq!(ImportSource::parse(&word.to_uppercase()), Ok(source));
        let bundle = parse_bundle(source, "{}").expect("an empty export");
        assert_eq!(bundle.source, source);
        assert_eq!(ImportReport::from_plan(&ImportPlan::from_bundle(&bundle)).source, source);
    }
}

#[test]
fn a_trust_level_is_read_as_single_precision_would_read_it() {
    let texts = [
        "0.75", "5.0", "-1", "-0", "1", "1.", ".5", "+.5", "1e0", "1E-3", "0.3e1", "1e39", "-1e39",
        "1e38", "inf", "-inf", "infinity", "nan", "NaN", "", ".", "+", "e5", "1e", "1e+", "0x1",
        "1_0", " 1", "0.2", "0.20000001", "0.2000000149", "0.200000003", "1e-60", "00.50",
        "340282356779733661637539395458142568447", "340282356779733661637539395458142568448",
    ];
    for text in texts {
        match (text.parse::<f32>(), Weight::parse_trust(text)) {
            (Ok(x), Ok(w)) => {
                assert!(x.is_finite(), "{text}");
                assert_eq!(number(&w), x.clamp(0.0, 1.0), "{text}");
                assert_eq!(w.at_most_two_tenths(), x.clamp(0.0, 1.0) <= 0.2_f32, "{text}");
            }
            (Ok(x), Err(TrustFault::NotFinite)) => assert!(!x.is_finite(), "{text}"),
            (Err(_), Err(TrustFault::NotANumber)) => {}
            (x, w) => panic!("{text}: {x:?} {w:?}"),
        }
    }
}
