//! The `import` command.
use vstd::prelude::*;

use crate::import_bundle::{
    import_of, parse_bundle, source_named, unknown_source, BundleView, ImportError, ImportSource,
    DEFAULT_ANCHOR_TRUST,
};
use crate::import_plan::{
    guarantees_of, is_plan, law_plan_keeps_the_memories, law_quarantine_keeps_the_skills,
    markdown_of, ImportPlan, ImportReport,
};
use crate::encode::{items_view, list, nothing, object, put, text};
use crate::json::{json_read, law_member_is_the_first_of_its_name, member, pretty, Json, Tree};
use crate::llm::opt_view;
use crate::text::{
    concat3, copy_of, decimal, decimal_text, occurs, occurs_at, same, trim, trimmed, views,
};
use crate::weight::{clamped_text, in_unit, is_finite, literal, TrustFault, Weight};

verus! {

/// How the command is used.
pub const USAGE: &'static str =
    "familyclaw import — migrate configs, memories & skills from another runtime,\nor bridge the family's own shared Hearth into FamilyClaw\n\nUSAGE:\n    familyclaw import --from <openclaw|hermes|family_hearth> --input <path> [--out <dir>] [--json] [--anchor-trust <0.0..=1.0>]\n\nFLAGS:\n    --from <src>          Export source: openclaw | hermes | family_hearth\n    --input <path>        Path to the export file (JSON)\n    --out <dir>           Optional: write report + memories + quarantine manifest here\n    --json                Emit the report as JSON instead of Markdown\n    --anchor-trust <f32>  family_hearth only: trust for non-anchor entries (default 0.9)\n\nSAFETY (openclaw / hermes):\n    Imported skills are QUARANTINED (never registered, never executed) and require\n    sandbox validation + explicit operator approval before activation. Imported\n    memories carry low-trust external provenance and are never admitted as trusted\n    anchors.\n\nFAMILY HEARTH BRIDGE (family_hearth, opt-in):\n    Non-lossy: originating agent/kind/id/timestamp are preserved as tags. Entries\n    marked identity_anchor are admitted at full trust (DirectExperience) — never\n    forced to trust=0.2. Other entries use --anchor-trust (default 0.9). See\n    docs/HEARTH_BRIDGE.md.";

/// How the command is used.
pub fn usage() -> (r: &'static str)
    ensures
        r@ == USAGE@,
{
    USAGE
}

/// The command, ready to be carried out.
#[derive(Debug, Clone, PartialEq, Eq)]
pub struct ImportCommand {
    /// Where the export comes from.
    pub source: ImportSource,
    /// The file of the export.
    pub input: String,
    /// The directory for what is made.
    pub out: Option<String>,
    /// Is the report to be JSON?
    pub json: bool,
    /// The trust in entries of the Hearth that are no identity anchors.
    pub anchor_trust: Weight,
}

/// What the arguments have said so far.
pub struct Flags {
    pub source: Option<ImportSource>,
    pub input: Option<Seq<char>>,
    pub out: Option<Seq<char>>,
    pub json: bool,
    pub anchor_trust: Seq<char>,
}

/// Nothing has been said.
pub open spec fn no_flags() -> Flags {
    Flags {
        source: None,
        input: None,
        out: None,
        json: false,
        anchor_trust: DEFAULT_ANCHOR_TRUST@,
    }
}

/// What is said of a flag that lacks its value.
pub open spec fn missing_value(flag: Seq<char>) -> Seq<char> {
    "flag `"@ + flag + "` requires a value"@
}

/// The arguments from `i` on add to what was said before, or are wrong.
pub open spec fn scan(args: Seq<Seq<char>>, i: nat, f: Flags) -> Result<Flags, Seq<char>>
    decreases args.len() - i,
{
    if i >= args.len() {
        Ok(f)
    } else {
        let flag = args[i as int];
        let takes_value = flag == "--from"@ || flag == "--input"@ || flag == "--out"@ || flag
            == "--anchor-trust"@;
        if flag == "--json"@ {
            scan(args, i + 1, Flags { json: true, ..f })
        } else if !takes_value {
            Err("`import`: unknown flag `"@ + flag + "`"@)
        } else if i + 1 >= args.len() {
            Err(missing_value(flag))
        } else {
            let value = args[i as int + 1];
            if flag == "--from"@ {
                match source_named(value) {
                    Some(s) => scan(args, i + 2, Flags { source: Some(s), ..f }),
                    None => Err(unknown_source(value)),
                }
            } else if flag == "--input"@ {
                scan(args, i + 2, Flags { input: Some(value), ..f })
            } else if flag == "--out"@ {
                scan(args, i + 2, Flags { out: Some(value), ..f })
            } else if literal(trimmed(value)) is None {
                Err("`--anchor-trust` expects a number in 0.0..=1.0, got `"@ + value + "`"@)
            } else if !is_finite(trimmed(value)) {
                Err("`--anchor-trust` must be a finite number in 0.0..=1.0"@)
            } else {
                scan(args, i + 2, Flags { anchor_trust: clamped_text(trimmed(value)), ..f })
            }
        }
    }
}

/// What the arguments say, once they are all read: a source and an input are needed.
pub open spec fn complete(read: Result<Flags, Seq<char>>) -> Result<Flags, Seq<char>> {
    match read {
        Err(e) => Err(e),
        Ok(f) => if f.source is None {
            Err("`import` requires `--from`"@)
        } else if f.input is None {
            Err("`import` requires `--input`"@)
        } else {
            Ok(f)
        },
    }
}

/// The flags that say what a command says.
pub open spec fn flags_of(c: ImportCommand) -> Flags {
    Flags {
        source: Some(c.source),
        input: Some(c.input@),
        out: opt_view(c.out),
        json: c.json,
        anchor_trust: c.anchor_trust@,
    }
}

proof fn lemma_flags_differ()
    ensures
        "--json"@ != "--from"@,
        "--json"@ != "--input"@,
        "--json"@ != "--out"@,
        "--json"@ != "--anchor-trust"@,
        "--from"@ != "--input"@,
        "--from"@ != "--out"@,
        "--from"@ != "--anchor-trust"@,
        "--input"@ != "--out"@,
        "--input"@ != "--anchor-trust"@,
        "--out"@ != "--anchor-trust"@,
{
    reveal_strlit("--json");
    reveal_strlit("--from");
    reveal_strlit("--input");
    reveal_strlit("--out");
    reveal_strlit("--anchor-trust");
    assert("--json"@[2] == 'j');
    assert("--from"@[2] == 'f');
    assert("--input"@[2] == 'i');
    assert("--out"@[2] == 'o');
    assert("--anchor-trust"@[2] == 'a');
}

/// The value that follows a flag.
fn take_value(args: &Vec<String>, i: usize, flag: &str) -> (r: Result<String, ImportError>)
    requires
        i < args@.len(),
    ensures
        match r {
            Ok(v) => i + 1 < args@.len() && v@ == args@[i + 1]@,
            Err(e) => i + 1 >= args@.len() && e is Usage && e->Usage_0@ == missing_value(flag@),
        },
{
    let n: usize = args.len();
    if i == n - 1 {
        Err(ImportError::Usage(concat3("flag `", flag, "` requires a value")))
    } else {
        Ok(copy_of(args[i + 1].as_str()))
    }
}

/// Reads the arguments of the command.
pub fn parse(args: &Vec<String>) -> (r: Result<ImportCommand, ImportError>)
    ensures
        match r {
            Ok(c) => complete(scan(views(args@), 0, no_flags())) == Ok::<Flags, Seq<char>>(
                flags_of(c),
            ),
            Err(e) => e is Usage && complete(scan(views(args@), 0, no_flags())) == Err::<
                Flags,
                Seq<char>,
            >(e->Usage_0@),
        },
{
    let ghost all = views(args@);
    let mut source: Option<ImportSource> = None;
    let mut input: Option<String> = None;
    let mut out: Option<String> = None;
    let mut json = false;
    let mut anchor_trust = Weight::of(DEFAULT_ANCHOR_TRUST);
    let mut i: usize = 0;
    proof {
        lemma_flags_differ();
    }
    while i < args.len()
        invariant
            i <= args@.len(),
            all == views(args@),
            scan(all, 0, no_flags()) == scan(
                all,
                i as nat,
                Flags {
                    source,
                    input: opt_view(input),
                    out: opt_view(out),
                    json,
                    anchor_trust: anchor_trust@,
                },
            ),
        decreases args@.len() - i,
    {
        proof {
            lemma_flags_differ();
        }
        assert(all[i as int] == args@[i as int]@);
        if i + 1 < args.len() {
            assert(all[i + 1] == args@[i + 1]@);
        }
        let flag = args[i].as_str();
        if same(flag, "--json") {
            json = true;
            i += 1;
        } else if same(flag, "--from") {
            let value = take_value(args, i, "--from")?;
            source = Some(ImportSource::parse(value.as_str())?);
            i += 2;
        } else if same(flag, "--input") {
            input = Some(take_value(args, i, "--input")?);
            i += 2;
        } else if same(flag, "--out") {
            out = Some(take_value(args, i, "--out")?);
            i += 2;
        } else if same(flag, "--anchor-trust") {
            let value = take_value(args, i, "--anchor-trust")?;
            match Weight::parse_trust(trim(value.as_str()).as_str()) {
                Ok(w) => {
                    anchor_trust = w;
                },
                Err(TrustFault::NotANumber) => {
                    return Err(
                        ImportError::Usage(
                            concat3(
                                "`--anchor-trust` expects a number in 0.0..=1.0, got `",
                                value.as_str(),
                                "`",
                            ),
                        ),
                    );
                },
                Err(TrustFault::NotFinite) => {
                    return Err(
                        ImportError::Usage(
                            copy_of("`--anchor-trust` must be a finite number in 0.0..=1.0"),
                        ),
                    );
                },
            }
            i += 2;
        } else {
            return Err(ImportError::Usage(concat3("`import`: unknown flag `", flag, "`")));
        }
    }
    let source = match source {
        Some(s) => s,
        None => {
            return Err(ImportError::Usage(copy_of("`import` requires `--from`")));
        },
    };
    let input = match input {
        Some(p) => p,
        None => {
            return Err(ImportError::Usage(copy_of("`import` requires `--input`")));
        },
    };
    Ok(ImportCommand { source, input, out, json, anchor_trust })
}

// ---------------------------------------------------------------------------
// Carrying the command out
// ---------------------------------------------------------------------------

/// The name of a source in a report.
pub open spec fn source_word(source: ImportSource) -> Seq<char> {
    match source {
        ImportSource::OpenClaw => "open_claw"@,
        ImportSource::Hermes => "hermes"@,
        ImportSource::FamilyHearth => "family_hearth"@,
    }
}

/// A list of strings.
pub open spec fn texts_tree(v: Seq<Seq<char>>) -> Tree {
    Tree::List(v.map_values(|s: Seq<char>| Tree::Text(s)))
}

/// The report as JSON.
pub open spec fn report_tree(r: ImportReport) -> Tree {
    Tree::Object(
        seq![
            ("source"@, Tree::Text(source_word(r.source))),
            ("memories_imported"@, Tree::Number(decimal(r.memories_imported as nat))),
            ("skills_quarantined"@, Tree::Number(decimal(r.skills_quarantined as nat))),
            ("config_hints"@, Tree::Number(decimal(r.config_hints as nat))),
            ("warnings"@, texts_tree(views(r.warnings@))),
            ("guarantees"@, texts_tree(views(r.guarantees@))),
        ],
    )
}

fn texts_json(v: &Vec<String>) -> (r: Json)
    ensures
        r@ == texts_tree(views(v@)),
{
    let mut items: Vec<Json> = Vec::new();
    let mut i: usize = 0;
    while i < v.len()
        invariant
            i <= v@.len(),
            items@.len() == i,
            forall|k: int| 0 <= k < i ==> (#[trigger] items@[k])@ == Tree::Text(v@[k]@),
        decreases v@.len() - i,
    {
        items.push(text(v[i].as_str()));
        i += 1;
    }
    assert(items_view(items@) =~= texts_tree(views(v@))->List_0);
    list(items)
}

/// Writes a report as JSON.
pub fn report_json(report: &ImportReport) -> (r: Json)
    ensures
        r@ == report_tree(*report),
{
    let mut out = nothing();
    put(
        &mut out,
        "source",
        text(
            match report.source {
                ImportSource::OpenClaw => "open_claw",
                ImportSource::Hermes => "hermes",
                ImportSource::FamilyHearth => "family_hearth",
            },
        ),
    );
    put(
        &mut out,
        "memories_imported",
        Json::Number(decimal_text(report.memories_imported as u64)),
    );
    put(
        &mut out,
        "skills_quarantined",
        Json::Number(decimal_text(report.skills_quarantined as u64)),
    );
    put(&mut out, "config_hints", Json::Number(decimal_text(report.config_hints as u64)));
    put(&mut out, "warnings", texts_json(&report.warnings));
    put(&mut out, "guarantees", texts_json(&report.guarantees));
    let r = object(out);
    assert(r@->Object_0 =~= report_tree(*report)->Object_0);
    r
}

/// What an import makes: a plan, its report, and the report as text.
#[derive(Debug)]
pub struct ImportOutcome {
    /// The plan.
    pub plan: ImportPlan,
    /// The report.
    pub report: ImportReport,
    /// The report as JSON or in Markdown, as the command asks.
    pub text: String,
    /// The name of the report's file, where files are written. The memories and the
    /// quarantine have files of their own beside it.
    pub report_file: Option<String>,
}

/// The name of the report's file.
pub open spec fn report_file_of(json: bool, out: Option<Seq<char>>) -> Option<Seq<char>> {
    if out is None {
        None
    } else if json {
        Some("import_report.json"@)
    } else {
        Some("import_report.md"@)
    }
}

/// `o` is what a command with the flags `f` makes of a bundle.
pub open spec fn is_outcome(o: ImportOutcome, bundle: BundleView, f: Flags) -> bool {
    &&& is_plan(o.plan, bundle, f.anchor_trust)
    &&& f.source == Some(o.report.source)
    &&& o.report.memories_imported == bundle.memories.len()
    &&& o.report.skills_quarantined == bundle.skills.len()
    &&& o.report.config_hints == bundle.config_hints.len()
    &&& views(o.report.warnings@) == bundle.warnings
    &&& views(o.report.guarantees@) == guarantees_of(o.plan)
    &&& o.text@ == if f.json {
        pretty(report_tree(o.report), Seq::empty())
    } else {
        markdown_of(o.report)
    }
    &&& opt_view(o.report_file) == report_file_of(f.json, f.out)
}

/// `r` is what a command with the flags `f` gives, where reading its input gave `raw`: an
/// input that cannot be read or is no export is an error.
pub open spec fn is_result(
    r: Result<ImportOutcome, ImportError>,
    f: Flags,
    raw: Result<String, String>,
) -> bool {
    match raw {
        Err(e) => r is Err && r->Err_0 is Io && r->Err_0->Io_0@ == e@,
        Ok(text) => match import_of(f.source->Some_0, json_read(text@)) {
            Err(m) => r is Err && r->Err_0 is Parse && r->Err_0->Parse_0@ == m,
            Ok(bundle) => r is Ok && is_outcome(r->Ok_0, bundle, f),
        },
    }
}

/// Carries the command out, given what reading its input gave.
pub fn execute(command: &ImportCommand, raw: Result<String, String>) -> (r: Result<
    ImportOutcome,
    ImportError,
>)
    ensures
        is_result(r, flags_of(*command), raw),
{
    let text = match raw {
        Ok(t) => t,
        Err(e) => {
            return Err(ImportError::Io(e));
        },
    };
    let bundle = match parse_bundle(command.source, text.as_str()) {
        Ok(b) => b,
        Err(e) => {
            return Err(e);
        },
    };
    let plan = ImportPlan::from_bundle_with_anchor_trust(&bundle, &command.anchor_trust);
    let report = ImportReport::from_plan(&plan);
    assert(crate::import_bundle::hints_view(plan.config_hints@).len() == plan.config_hints@.len());
    let shown = if command.json {
        report_json(&report).to_pretty_text()
    } else {
        report.render_markdown()
    };
    let report_file = match &command.out {
        None => None,
        Some(_) => if command.json {
            Some(copy_of("import_report.json"))
        } else {
            Some(copy_of("import_report.md"))
        },
    };
    Ok(ImportOutcome { plan, report, text: shown, report_file })
}

/// Reads the arguments and carries the command out, given what reading its input gave.
pub fn run(args: &Vec<String>, raw: Result<String, String>) -> (r: Result<
    ImportOutcome,
    ImportError,
>)
    ensures
        match complete(scan(views(args@), 0, no_flags())) {
            Err(m) => r is Err && r->Err_0 is Usage && r->Err_0->Usage_0@ == m,
            Ok(f) => is_result(r, f, raw),
        },
{
    match parse(args) {
        Ok(command) => execute(&command, raw),
        Err(e) => Err(e),
    }
}

// ---------------------------------------------------------------------------
// Laws
// ---------------------------------------------------------------------------

/// Without `--anchor-trust` the trust is the default; with it, it is a number in the unit
/// interval.
pub proof fn law_trust_lies_in_the_unit_interval(args: Seq<Seq<char>>, i: nat, f: Flags)
    requires
        in_unit(f.anchor_trust),
        scan(args, i, f) is Ok,
    ensures
        in_unit(scan(args, i, f)->Ok_0.anchor_trust),
    decreases args.len() - i,
{
    if i < args.len() {
        lemma_flags_differ();
        let flag = args[i as int];
        if flag == "--json"@ {
            law_trust_lies_in_the_unit_interval(args, i + 1, Flags { json: true, ..f });
        } else {
            let value = args[i as int + 1];
            if flag == "--from"@ {
                law_trust_lies_in_the_unit_interval(
                    args,
                    i + 2,
                    Flags { source: source_named(value), ..f },
                );
            } else if flag == "--input"@ {
                law_trust_lies_in_the_unit_interval(
                    args,
                    i + 2,
                    Flags { input: Some(value), ..f },
                );
            } else if flag == "--out"@ {
                law_trust_lies_in_the_unit_interval(args, i + 2, Flags { out: Some(value), ..f });
            } else {
                crate::weight::law_clamping_reaches_the_unit_interval(trimmed(value));
                law_trust_lies_in_the_unit_interval(
                    args,
                    i + 2,
                    Flags { anchor_trust: clamped_text(trimmed(value)), ..f },
                );
            }
        }
    }
}

// ---------------------------------------------------------------------------
// What the arguments say
// ---------------------------------------------------------------------------

/// Arguments that are added behind others are read after them.
proof fn lemma_scan_goes_on(args: Seq<Seq<char>>, more: Seq<Seq<char>>, i: nat, f: Flags)
    requires
        i <= args.len(),
        scan(args, i, f) is Ok,
    ensures
        scan(args + more, i, f) == scan(args + more, args.len(), scan(args, i, f)->Ok_0),
    decreases args.len() - i,
{
    if i < args.len() {
        lemma_flags_differ();
        let flag = args[i as int];
        assert((args + more)[i as int] == flag);
        if flag == "--json"@ {
            lemma_scan_goes_on(args, more, i + 1, Flags { json: true, ..f });
        } else {
            let value = args[i as int + 1];
            assert((args + more)[i as int + 1] == value);
            if flag == "--from"@ {
                lemma_scan_goes_on(args, more, i + 2, Flags { source: source_named(value), ..f });
            } else if flag == "--input"@ {
                lemma_scan_goes_on(args, more, i + 2, Flags { input: Some(value), ..f });
            } else if flag == "--out"@ {
                lemma_scan_goes_on(args, more, i + 2, Flags { out: Some(value), ..f });
            } else {
                lemma_scan_goes_on(
                    args,
                    more,
                    i + 2,
                    Flags { anchor_trust: clamped_text(trimmed(value)), ..f },
                );
            }
        }
    }
}

/// The last flag with a value sets what it is for, to that value, and nothing else.
pub proof fn law_flag_sets_what_it_is_for(
    args: Seq<Seq<char>>,
    flag: Seq<char>,
    value: Seq<char>,
    f: Flags,
)
    requires
        scan(args, 0, f) is Ok,
    ensures
        ({
            let g = scan(args, 0, f)->Ok_0;
            let r = scan(args + seq![flag, value], 0, f);
            &&& flag == "--input"@ ==> r == Ok::<Flags, Seq<char>>(
                Flags { input: Some(value), ..g },
            )
            &&& flag == "--out"@ ==> r == Ok::<Flags, Seq<char>>(Flags { out: Some(value), ..g })
            &&& flag == "--from"@ && source_named(value) is Some ==> r == Ok::<Flags, Seq<char>>(
                Flags { source: source_named(value), ..g },
            )
            &&& flag == "--from"@ && source_named(value) is None ==> r is Err
            &&& flag == "--anchor-trust"@ && in_unit(trimmed(value)) && is_finite(trimmed(value))
                ==> r == Ok::<Flags, Seq<char>>(Flags { anchor_trust: trimmed(value), ..g })
            &&& flag == "--anchor-trust"@ && literal(trimmed(value)) is None ==> r is Err
        }),
{
    let g = scan(args, 0, f)->Ok_0;
    let all = args + seq![flag, value];
    lemma_scan_goes_on(args, seq![flag, value], 0, f);
    lemma_flags_differ();
    assert(all[args.len() as int] == flag);
    assert(all[args.len() as int + 1] == value);
    reveal_with_fuel(scan, 2);
}

/// `--json` asks for JSON, and changes nothing else.
pub proof fn law_json_is_asked_for(args: Seq<Seq<char>>, f: Flags)
    requires
        scan(args, 0, f) is Ok,
    ensures
        scan(args + seq!["--json"@], 0, f) == Ok::<Flags, Seq<char>>(
            Flags { json: true, ..scan(args, 0, f)->Ok_0 },
        ),
{
    let all = args + seq!["--json"@];
    lemma_scan_goes_on(args, seq!["--json"@], 0, f);
    assert(all[args.len() as int] == "--json"@);
    reveal_with_fuel(scan, 2);
}

/// A flag that nobody knows is an error that names it, and so is one that lacks its value.
pub proof fn law_wrong_flags_are_named(args: Seq<Seq<char>>, flag: Seq<char>, f: Flags)
    requires
        scan(args, 0, f) is Ok,
        flag != "--json"@,
    ensures
        scan(args + seq![flag], 0, f) is Err,
        occurs(flag, scan(args + seq![flag], 0, f)->Err_0),
{
    let all = args + seq![flag];
    lemma_scan_goes_on(args, seq![flag], 0, f);
    assert(all[args.len() as int] == flag);
    let m = scan(all, 0, f)->Err_0;
    let known = flag == "--from"@ || flag == "--input"@ || flag == "--out"@ || flag
        == "--anchor-trust"@;
    let at = if known {
        "flag `"@.len() as int
    } else {
        "`import`: unknown flag `"@.len() as int
    };
    assert(m.subrange(at, at + flag.len()) =~= flag);
    assert(occurs_at(flag, m, at));
}

/// A command needs a source and an input, and nothing else.
pub proof fn law_source_and_input_are_needed(f: Flags)
    ensures
        complete(Ok(f)) is Ok <==> f.source is Some && f.input is Some,
        complete(Ok(f)) is Ok ==> complete(Ok(f))->Ok_0 == f,
{
}

/// The outcome of a command is the plan of what its input holds, whatever it is: with the trust
/// that was chosen, for the source that was named.
pub proof fn law_outcome_is_that_of_the_input(
    r: Result<ImportOutcome, ImportError>,
    f: Flags,
    text: String,
    i: int,
)
    requires
        is_result(r, f, Ok(text)),
        f.source is Some,
        import_of(f.source->Some_0, json_read(text@)) is Ok,
    ensures
        r is Ok,
        ({
            let b = import_of(f.source->Some_0, json_read(text@))->Ok_0;
            &&& r->Ok_0.plan.memories@.len() == b.memories.len()
            &&& 0 <= i < b.memories.len() ==> r->Ok_0.plan.memories@[i].content@
                == b.memories[i].content
            &&& r->Ok_0.plan.quarantine.skills@.len() == b.skills.len()
            &&& 0 <= i < b.skills.len() ==> r->Ok_0.plan.quarantine.skills@[i].manifest.name@
                == b.skills[i].name
            &&& r->Ok_0.report.memories_imported == b.memories.len()
            &&& r->Ok_0.report.skills_quarantined == b.skills.len()
            &&& r->Ok_0.report.source == f.source->Some_0
            &&& r->Ok_0.report_file is Some <==> f.out is Some
        }),
{
    let b = import_of(f.source->Some_0, json_read(text@))->Ok_0;
    if 0 <= i < b.memories.len() {
        law_plan_keeps_the_memories(r->Ok_0.plan, b, f.anchor_trust, i);
    }
    if 0 <= i < b.skills.len() {
        law_quarantine_keeps_the_skills(r->Ok_0.plan, b, f.anchor_trust, i);
    }
}

/// The report as JSON says what the report says: how much was imported, what was left out and
/// what is guaranteed.
pub proof fn law_report_is_written(r: ImportReport, i: int)
    ensures
        report_tree(r) is Object,
        ({
            let m = report_tree(r)->Object_0;
            let w = member(m, "warnings"@);
            let g = member(m, "guarantees"@);
            &&& member(m, "memories_imported"@) == Some(
                Tree::Number(decimal(r.memories_imported as nat)),
            )
            &&& member(m, "skills_quarantined"@) == Some(
                Tree::Number(decimal(r.skills_quarantined as nat)),
            )
            &&& member(m, "config_hints"@) == Some(Tree::Number(decimal(r.config_hints as nat)))
            &&& w is Some && w->Some_0 is List && w->Some_0->List_0.len() == r.warnings@.len()
            &&& 0 <= i < r.warnings@.len() ==> w->Some_0->List_0[i] == Tree::Text(r.warnings@[i]@)
            &&& g is Some && g->Some_0 is List && g->Some_0->List_0.len() == r.guarantees@.len()
            &&& 0 <= i < r.guarantees@.len() ==> g->Some_0->List_0[i] == Tree::Text(
                r.guarantees@[i]@,
            )
        }),
{
    reveal_strlit("source");
    reveal_strlit("memories_imported");
    reveal_strlit("skills_quarantined");
    reveal_strlit("config_hints");
    reveal_strlit("warnings");
    reveal_strlit("guarantees");
    assert("source"@.len() == 6 && "memories_imported"@.len() == 17);
    assert("skills_quarantined"@.len() == 18 && "config_hints"@.len() == 12);
    assert("warnings"@.len() == 8 && "guarantees"@.len() == 10);
    let m = report_tree(r)->Object_0;
    law_member_is_the_first_of_its_name(m, "memories_imported"@, 1);
    law_member_is_the_first_of_its_name(m, "skills_quarantined"@, 2);
    law_member_is_the_first_of_its_name(m, "config_hints"@, 3);
    law_member_is_the_first_of_its_name(m, "warnings"@, 4);
    law_member_is_the_first_of_its_name(m, "guarantees"@, 5);
}

/// The report has the form that was asked for: its text, and the name of its file, where one is
/// written.
pub proof fn law_report_has_the_form_asked_for(o: ImportOutcome, b: BundleView, f: Flags)
    requires
        is_outcome(o, b, f),
    ensures
        f.json ==> o.text@ == pretty(report_tree(o.report), Seq::empty()),
        !f.json ==> o.text@ == markdown_of(o.report),
        f.out is None <==> o.report_file is None,
        f.out is Some && f.json ==> ".json"@.is_suffix_of(o.report_file->Some_0@),
        f.out is Some && !f.json ==> ".md"@.is_suffix_of(o.report_file->Some_0@),
{
    reveal_strlit(".json");
    reveal_strlit(".md");
    reveal_strlit("import_report.json");
    reveal_strlit("import_report.md");
    if f.out is Some {
        let name = o.report_file->Some_0@;
        if f.json {
            assert(name.subrange(name.len() - 5, name.len() as int) =~= ".json"@);
        } else {
            assert(name.subrange(name.len() - 3, name.len() as int) =~= ".md"@);
        }
    }
}

/// Reports on different sources name them differently.
pub proof fn law_sources_are_told_apart(a: ImportSource, b: ImportSource)
    requires
        a != b,
    ensures
        source_word(a) != source_word(b),
{
    reveal_strlit("open_claw");
    reveal_strlit("hermes");
    reveal_strlit("family_hearth");
    assert("open_claw"@.len() == 9 && "hermes"@.len() == 6 && "family_hearth"@.len() == 13);
}

} // verus!
