//! From an imported bundle to memories and a quarantine.
//!
//! A plan is data: nothing in it is registered or run. Skills of a foreign runtime are
//! quarantined, with the highest risk and the strictest approval. Memories of a foreign
//! runtime are external and of low trust. Entries of the family's own Hearth keep where they
//! came from in their tags, and its identity anchors are trusted fully.
use vstd::prelude::*;

use crate::import_bundle::{
    hints_view, import_of, law_no_imported_memory_is_empty, BundleView, EntryView, ImportSource,
    ImportedBundle, ImportedMemory, ImportedSkill, SkillView, BUNDLE_SCHEMA_VERSION,
    DEFAULT_ANCHOR_TRUST, UNTRUSTED_IMPORT_TRUST,
};
use crate::json::Tree;
use crate::text::{
    concat2, concat3, concat4, copy_list, copy_of, decimal, decimal_text, join, joined,
    lemma_joined_holds, occurs, occurs_at, same, trim, trimmed, views,
};
use crate::weight::{clamped_text, in_unit, is_at_most_two_tenths, lemma_trust_levels, Weight};

verus! {

// ---------------------------------------------------------------------------
// Memories
// ---------------------------------------------------------------------------

/// Where a memory comes from, and how far it is trusted.
#[derive(Debug, Clone, PartialEq, Eq)]
pub enum Provenance {
    /// The being's own experience, trusted fully.
    DirectExperience,
    /// An outside source, trusted so far.
    External {
        /// The source.
        source: String,
        /// The trust.
        trust: Weight,
    },
}

/// The mathematical value of a [`Provenance`].
pub enum ProvenanceView {
    DirectExperience,
    External { source: Seq<char>, trust: Seq<char> },
}

impl View for Provenance {
    type V = ProvenanceView;

    open spec fn view(&self) -> ProvenanceView {
        match self {
            Provenance::DirectExperience => ProvenanceView::DirectExperience,
            Provenance::External { source, trust } => ProvenanceView::External {
                source: source@,
                trust: trust@,
            },
        }
    }
}

impl Provenance {
    /// An outside source with the given trust, brought into the unit interval.
    pub fn external(source: &str, trust: &Weight) -> (r: Self)
        ensures
            r@ == (ProvenanceView::External { source: source@, trust: clamped_text(trust@) }),
    {
        Provenance::External { source: copy_of(source), trust: trust.clamped() }
    }

    /// Is this an outside source?
    pub fn is_external(&self) -> (r: bool)
        ensures
            r == (self@ is External),
    {
        match self {
            Provenance::External { .. } => true,
            Provenance::DirectExperience => false,
        }
    }
}

/// A memory as the memory store takes it.
#[derive(Debug, Clone, PartialEq, Eq)]
pub struct Memory {
    /// What is remembered.
    pub content: String,
    /// How important it is. Nothing imported is important for who the being is.
    pub importance: Weight,
    /// Its tags.
    pub tags: Vec<String>,
    /// Where it comes from, in a word.
    pub source: String,
    /// Where it comes from, and how far it is trusted.
    pub provenance: Provenance,
}

/// The mathematical value of a [`Memory`].
pub struct MemoryView {
    pub content: Seq<char>,
    pub importance: Seq<char>,
    pub tags: Seq<Seq<char>>,
    pub source: Seq<char>,
    pub provenance: ProvenanceView,
}

impl View for Memory {
    type V = MemoryView;

    open spec fn view(&self) -> MemoryView {
        MemoryView {
            content: self.content@,
            importance: self.importance@,
            tags: views(self.tags@),
            source: self.source@,
            provenance: self.provenance@,
        }
    }
}

/// The source tag of a foreign memory.
pub open spec fn source_tag(source: ImportSource) -> Seq<char> {
    match source {
        ImportSource::OpenClaw => "import_openclaw"@,
        ImportSource::Hermes => "import_hermes"@,
        ImportSource::FamilyHearth => "import_family_hearth"@,
    }
}

/// The memory that an entry of a foreign runtime becomes: external, of low trust.
pub open spec fn foreign_memory(source: ImportSource, e: EntryView) -> MemoryView {
    MemoryView {
        content: e.content,
        importance: clamped_text(e.importance),
        tags: e.tags.push("imported"@).push("untrusted"@),
        source: source_tag(source),
        provenance: ProvenanceView::External {
            source: source_tag(source),
            trust: clamped_text(UNTRUSTED_IMPORT_TRUST@),
        },
    }
}

/// The memory that an entry of a foreign runtime becomes.
pub fn imported_memory_to_memory(source: ImportSource, mem: &ImportedMemory) -> (r: Memory)
    ensures
        r@ == foreign_memory(source, mem@),
{
    let tag = match source {
        ImportSource::OpenClaw => "import_openclaw",
        ImportSource::Hermes => "import_hermes",
        ImportSource::FamilyHearth => "import_family_hearth",
    };
    let mut tags = copy_list(&mem.tags);
    let ghost start = views(tags@);
    tags.push(copy_of("imported"));
    tags.push(copy_of("untrusted"));
    assert(views(tags@) =~= start.push("imported"@).push("untrusted"@));
    Memory {
        content: copy_of(mem.content.as_str()),
        importance: mem.importance_hint.clamped(),
        tags,
        source: copy_of(tag),
        provenance: Provenance::external(tag, &Weight::of(UNTRUSTED_IMPORT_TRUST)),
    }
}

/// The entry is marked as an identity anchor.
pub open spec fn is_anchor(e: EntryView) -> bool {
    e.origin is Some && e.origin->Some_0.identity_anchor
}

/// `tags` with one more, where there is a value for it.
pub open spec fn with_tag(tags: Seq<Seq<char>>, name: Seq<char>, value: Option<Seq<char>>) -> Seq<
    Seq<char>,
> {
    match value {
        Some(v) => tags.push(name + v),
        None => tags,
    }
}

/// The tags of an entry of the Hearth: its own, and where it comes from.
pub open spec fn hearth_tags(e: EntryView) -> Seq<Seq<char>> {
    let t = e.tags.push("family_hearth"@);
    let t = if is_anchor(e) {
        t.push("identity_anchor"@)
    } else {
        t
    };
    match e.origin {
        Some(o) => {
            let t = t.push("hearth:kind="@ + o.kind.word());
            let t = with_tag(t, "hearth:agent="@, o.agent);
            let t = with_tag(t, "hearth:id="@, o.original_id);
            with_tag(t, "hearth:ts="@, o.timestamp)
        },
        None => t,
    }
}

/// The source tag of an entry of the Hearth.
pub open spec fn hearth_source(e: EntryView) -> Seq<char> {
    match e.origin {
        Some(o) => "family_hearth:"@ + o.kind.word(),
        None => "family_hearth"@,
    }
}

/// The memory that an entry of the Hearth becomes. An identity anchor is direct experience;
/// any other entry is external, with the chosen trust.
pub open spec fn hearth_memory(e: EntryView, anchor_trust: Seq<char>) -> MemoryView {
    MemoryView {
        content: e.content,
        importance: clamped_text(e.importance),
        tags: hearth_tags(e),
        source: hearth_source(e),
        provenance: if is_anchor(e) {
            ProvenanceView::DirectExperience
        } else {
            ProvenanceView::External {
                source: hearth_source(e),
                trust: clamped_text(anchor_trust),
            }
        },
    }
}

fn push_tag(tags: &mut Vec<String>, name: &str, value: &Option<String>)
    ensures
        views(final(tags)@) == with_tag(
            views(old(tags)@),
            name@,
            crate::llm::opt_view(*value),
        ),
{
    let ghost start = views(tags@);
    match value {
        Some(v) => {
            let tag = concat2(name, v.as_str());
            let ghost t = tag@;
            tags.push(tag);
            assert(views(tags@) =~= start.push(t));
        },
        None => {},
    }
}

/// The memory that an entry of the Hearth becomes.
pub fn imported_hearth_memory_to_memory(mem: &ImportedMemory, anchor_trust: &Weight) -> (r: Memory)
    ensures
        r@ == hearth_memory(mem@, anchor_trust@),
{
    let mut tags = copy_list(&mem.tags);
    let ghost t0 = views(tags@);
    tags.push(copy_of("family_hearth"));
    assert(views(tags@) =~= t0.push("family_hearth"@));
    let anchor = match &mem.origin {
        Some(o) => o.identity_anchor,
        None => false,
    };
    if anchor {
        let ghost t1 = views(tags@);
        tags.push(copy_of("identity_anchor"));
        assert(views(tags@) =~= t1.push("identity_anchor"@));
    }
    let tag = match &mem.origin {
        Some(o) => {
            let ghost t2 = views(tags@);
            let kind = concat2("hearth:kind=", o.kind.as_str());
            let ghost k = kind@;
            tags.push(kind);
            assert(views(tags@) =~= t2.push(k));
            push_tag(&mut tags, "hearth:agent=", &o.agent);
            push_tag(&mut tags, "hearth:id=", &o.original_id);
            push_tag(&mut tags, "hearth:ts=", &o.timestamp);
            concat2("family_hearth:", o.kind.as_str())
        },
        None => copy_of("family_hearth"),
    };
    let provenance = if anchor {
        Provenance::DirectExperience
    } else {
        Provenance::external(tag.as_str(), anchor_trust)
    };
    Memory {
        content: copy_of(mem.content.as_str()),
        importance: mem.importance_hint.clamped(),
        tags,
        source: tag,
        provenance,
    }
}

// ---------------------------------------------------------------------------
// Skills
// ---------------------------------------------------------------------------

/// What a skill may do at worst.
#[derive(Debug, Clone, Copy, PartialEq, Eq, Structural)]
pub enum ActionRisk {
    ReadOnly,
    WriteExternal,
    ExecuteCode,
}

/// When a skill needs an approval.
#[derive(Debug, Clone, Copy, PartialEq, Eq, Structural)]
pub enum ApprovalPolicy {
    AutoIfReadOnly,
    RequireApproval,
    AlwaysRequireApproval,
}

/// What a skill is permitted to do.
#[derive(Debug, Clone, Copy, PartialEq, Eq, Structural)]
pub enum SkillPermission {
    ReadFiles,
    WriteExternal,
    ExecuteCode,
}

/// The description of a skill. Its identifier and its schema are given when it is written.
#[derive(Debug)]
pub struct SkillManifest {
    pub name: String,
    pub version: String,
    pub description: String,
    pub permissions: Vec<SkillPermission>,
    pub risk: ActionRisk,
    pub approval_policy: ApprovalPolicy,
    pub input_hint: Option<String>,
    pub output_hint: Option<String>,
    pub publisher: Option<String>,
    pub signature: Option<String>,
}

/// A quarantined skill.
#[derive(Debug)]
pub struct QuarantinedSkill {
    /// Always true.
    pub quarantined: bool,
    /// Where it was imported from.
    pub source: ImportSource,
    /// Its description.
    pub manifest: SkillManifest,
}

/// All quarantined skills.
#[derive(Debug)]
pub struct QuarantineManifest {
    /// The version of this structure.
    pub schema_version: u32,
    /// What quarantine means.
    pub note: String,
    /// The skills.
    pub skills: Vec<QuarantinedSkill>,
}

/// What quarantine means.
pub const QUARANTINE_NOTE: &'static str =
    "Imported skills are QUARANTINED: never registered, never executed. Activation requires sandbox validation + explicit operator approval.";

/// The description of a quarantined skill.
pub open spec fn quarantine_text(source: ImportSource, s: SkillView) -> Seq<char> {
    let about = trimmed(s.description);
    let text = if about.len() == 0 {
        "Imported from "@ + source.word() + " (quarantined)."@
    } else {
        about + " [imported from "@ + source.word() + ", quarantined]"@
    };
    if s.declared.len() == 0 {
        text
    } else {
        text + " declared-permissions: "@ + joined(s.declared, ", "@)
    }
}

/// `q` is the quarantine of the skill `s`: whatever permissions the export declares, it has
/// the highest risk and the strictest approval, and is nobody's to install.
pub open spec fn is_quarantine(q: QuarantinedSkill, source: ImportSource, s: SkillView) -> bool {
    &&& q.quarantined
    &&& q.source == source
    &&& q.manifest.name@ == s.name
    &&& q.manifest.version@ == "0.0.0-imported"@
    &&& q.manifest.description@ == quarantine_text(source, s)
    &&& q.manifest.permissions@ == seq![SkillPermission::ExecuteCode]
    &&& q.manifest.risk == ActionRisk::ExecuteCode
    &&& q.manifest.approval_policy == ApprovalPolicy::AlwaysRequireApproval
    &&& q.manifest.input_hint is None
    &&& q.manifest.output_hint is None
    &&& q.manifest.publisher is None
    &&& q.manifest.signature is None
}

/// The quarantine of an imported skill.
pub fn imported_skill_to_quarantine(source: ImportSource, skill: &ImportedSkill) -> (r:
    QuarantinedSkill)
    ensures
        is_quarantine(r, source, skill@),
{
    let about = trim(skill.description.as_str());
    let mut description = if about.as_str().is_empty() {
        concat3("Imported from ", source.as_str(), " (quarantined).")
    } else {
        concat4(about.as_str(), " [imported from ", source.as_str(), ", quarantined]")
    };
    if skill.declared_permissions.len() > 0 {
        description.append(" declared-permissions: ");
        description.append(join(&skill.declared_permissions, ", ").as_str());
    }
    let permissions = vec![SkillPermission::ExecuteCode];
    assert(permissions@ =~= seq![SkillPermission::ExecuteCode]);
    QuarantinedSkill {
        quarantined: true,
        source,
        manifest: SkillManifest {
            name: copy_of(skill.name.as_str()),
            version: copy_of("0.0.0-imported"),
            description,
            permissions,
            risk: ActionRisk::ExecuteCode,
            approval_policy: ApprovalPolicy::AlwaysRequireApproval,
            input_hint: None,
            output_hint: None,
            publisher: None,
            signature: None,
        },
    }
}

// ---------------------------------------------------------------------------
// Plans
// ---------------------------------------------------------------------------

/// What an import makes of a bundle.
#[derive(Debug)]
pub struct ImportPlan {
    /// Where the export comes from.
    pub source: ImportSource,
    /// The memories.
    pub memories: Vec<Memory>,
    /// The quarantined skills.
    pub quarantine: QuarantineManifest,
    /// Settings of the other runtime, for a human to look at.
    pub config_hints: Vec<(String, String)>,
    /// What was left out, and why.
    pub warnings: Vec<String>,
}

/// The memory that an entry of a source becomes.
pub open spec fn planned_memory(
    source: ImportSource,
    e: EntryView,
    anchor_trust: Seq<char>,
) -> MemoryView {
    if source == ImportSource::FamilyHearth {
        hearth_memory(e, anchor_trust)
    } else {
        foreign_memory(source, e)
    }
}

/// The plan is that of the bundle.
pub open spec fn is_plan(p: ImportPlan, b: BundleView, anchor_trust: Seq<char>) -> bool {
    &&& p.source == b.source
    &&& p.memories@.len() == b.memories.len()
    &&& forall|i: int|
        0 <= i < p.memories@.len() ==> (#[trigger] p.memories@[i])@ == planned_memory(
            b.source,
            b.memories[i],
            anchor_trust,
        )
    &&& p.quarantine.schema_version == BUNDLE_SCHEMA_VERSION
    &&& p.quarantine.note@ == QUARANTINE_NOTE@
    &&& p.quarantine.skills@.len() == b.skills.len()
    &&& forall|i: int|
        0 <= i < p.quarantine.skills@.len() ==> is_quarantine(
            #[trigger] p.quarantine.skills@[i],
            b.source,
            b.skills[i],
        )
    &&& hints_view(p.config_hints@) == b.config_hints
    &&& views(p.warnings@) == b.warnings
}

/// The skill is quarantined and never runs without an approval.
pub open spec fn is_held(q: QuarantinedSkill) -> bool {
    q.quarantined && q.manifest.approval_policy == ApprovalPolicy::AlwaysRequireApproval
        && q.manifest.risk == ActionRisk::ExecuteCode
}

/// The memory is external, and trusted no more than a foreign one.
pub open spec fn is_untrusted(m: MemoryView) -> bool {
    m.provenance is External && is_at_most_two_tenths(m.provenance->trust)
}

/// A memory that is tagged as an identity anchor is trusted fully.
pub open spec fn anchor_is_trusted(m: MemoryView) -> bool {
    m.tags.contains("identity_anchor"@) ==> m.provenance is DirectExperience
}

fn copy_hints(v: &Vec<(String, String)>) -> (r: Vec<(String, String)>)
    ensures
        hints_view(r@) == hints_view(v@),
        r@.len() == v@.len(),
{
    let mut out: Vec<(String, String)> = Vec::new();
    let mut i: usize = 0;
    while i < v.len()
        invariant
            i <= v@.len(),
            out@.len() == i,
            forall|k: int|
                0 <= k < i ==> out@[k].0@ == (#[trigger] v@[k]).0@ && out@[k].1@ == v@[k].1@,
        decreases v@.len() - i,
    {
        out.push((copy_of(v[i].0.as_str()), copy_of(v[i].1.as_str())));
        i += 1;
    }
    assert(hints_view(out@) =~= hints_view(v@));
    out
}

impl ImportPlan {
    /// The plan of a bundle, with the default trust in entries of the Hearth.
    pub fn from_bundle(bundle: &ImportedBundle) -> (r: Self)
        ensures
            is_plan(r, bundle@, DEFAULT_ANCHOR_TRUST@),
    {
        Self::from_bundle_with_anchor_trust(bundle, &Weight::of(DEFAULT_ANCHOR_TRUST))
    }

    /// The plan of a bundle. The trust is for entries of the Hearth that are no identity
    /// anchors; foreign runtimes are not concerned.
    pub fn from_bundle_with_anchor_trust(bundle: &ImportedBundle, anchor_trust: &Weight) -> (r: Self)
        ensures
            is_plan(r, bundle@, anchor_trust@),
    {
        let mut memories: Vec<Memory> = Vec::new();
        let mut i: usize = 0;
        while i < bundle.memories.len()
            invariant
                i <= bundle.memories@.len(),
                memories@.len() == i,
                forall|k: int|
                    0 <= k < i ==> (#[trigger] memories@[k])@ == planned_memory(
                        bundle.source,
                        bundle@.memories[k],
                        anchor_trust@,
                    ),
            decreases bundle.memories@.len() - i,
        {
            let m = if bundle.source.is_family_hearth() {
                imported_hearth_memory_to_memory(&bundle.memories[i], anchor_trust)
            } else {
                imported_memory_to_memory(bundle.source, &bundle.memories[i])
            };
            memories.push(m);
            i += 1;
        }
        let mut skills: Vec<QuarantinedSkill> = Vec::new();
        let mut j: usize = 0;
        while j < bundle.skills.len()
            invariant
                j <= bundle.skills@.len(),
                skills@.len() == j,
                forall|k: int|
                    0 <= k < j ==> is_quarantine(
                        #[trigger] skills@[k],
                        bundle.source,
                        bundle@.skills[k],
                    ),
            decreases bundle.skills@.len() - j,
        {
            skills.push(imported_skill_to_quarantine(bundle.source, &bundle.skills[j]));
            j += 1;
        }
        ImportPlan {
            source: bundle.source,
            memories,
            quarantine: QuarantineManifest {
                schema_version: BUNDLE_SCHEMA_VERSION,
                note: copy_of(QUARANTINE_NOTE),
                skills,
            },
            config_hints: copy_hints(&bundle.config_hints),
            warnings: copy_list(&bundle.warnings),
        }
    }

    /// How many memories the plan has.
    pub fn memory_count(&self) -> (r: usize)
        ensures
            r == self.memories@.len(),
    {
        self.memories.len()
    }

    /// How many skills the plan quarantines.
    pub fn quarantined_skill_count(&self) -> (r: usize)
        ensures
            r == self.quarantine.skills@.len(),
    {
        self.quarantine.skills.len()
    }

    /// Is every skill quarantined, and never to run without an approval?
    pub fn all_skills_quarantined(&self) -> (r: bool)
        ensures
            r == forall|i: int|
                0 <= i < self.quarantine.skills@.len() ==> is_held(
                    #[trigger] self.quarantine.skills@[i],
                ),
    {
        let mut i: usize = 0;
        while i < self.quarantine.skills.len()
            invariant
                i <= self.quarantine.skills@.len(),
                forall|k: int| 0 <= k < i ==> is_held(#[trigger] self.quarantine.skills@[k]),
            decreases self.quarantine.skills@.len() - i,
        {
            let s = &self.quarantine.skills[i];
            let always = match s.manifest.approval_policy {
                ApprovalPolicy::AlwaysRequireApproval => true,
                _ => false,
            };
            let dangerous = match s.manifest.risk {
                ActionRisk::ExecuteCode => true,
                _ => false,
            };
            if !(s.quarantined && always && dangerous) {
                assert(!is_held(self.quarantine.skills@[i as int]));
                return false;
            }
            i += 1;
        }
        true
    }

    /// Is every memory external, and trusted no more than a foreign one?
    pub fn all_memories_untrusted(&self) -> (r: bool)
        ensures
            r == forall|i: int|
                0 <= i < self.memories@.len() ==> is_untrusted((#[trigger] self.memories@[i])@),
    {
        let mut i: usize = 0;
        while i < self.memories.len()
            invariant
                i <= self.memories@.len(),
                forall|k: int| 0 <= k < i ==> is_untrusted((#[trigger] self.memories@[k])@),
            decreases self.memories@.len() - i,
        {
            let ok = match &self.memories[i].provenance {
                Provenance::External { source: _, trust } => trust.at_most_two_tenths(),
                Provenance::DirectExperience => false,
            };
            if !ok {
                assert(!is_untrusted(self.memories@[i as int]@));
                return false;
            }
            i += 1;
        }
        true
    }

    /// Is every memory that is tagged as an identity anchor trusted fully?
    pub fn all_hearth_anchors_full_trust(&self) -> (r: bool)
        ensures
            r == forall|i: int|
                0 <= i < self.memories@.len() ==> anchor_is_trusted(
                    (#[trigger] self.memories@[i])@,
                ),
    {
        let mut i: usize = 0;
        while i < self.memories.len()
            invariant
                i <= self.memories@.len(),
                forall|k: int| 0 <= k < i ==> anchor_is_trusted((#[trigger] self.memories@[k])@),
            decreases self.memories@.len() - i,
        {
            let m = &self.memories[i];
            let tagged = has_tag(&m.tags, "identity_anchor");
            if tagged && m.provenance.is_external() {
                assert(!anchor_is_trusted(self.memories@[i as int]@));
                return false;
            }
            i += 1;
        }
        true
    }
}

/// Does the list hold the tag?
fn has_tag(tags: &Vec<String>, tag: &str) -> (r: bool)
    ensures
        r == views(tags@).contains(tag@),
{
    let mut i: usize = 0;
    while i < tags.len()
        invariant
            i <= tags@.len(),
            forall|k: int| 0 <= k < i ==> #[trigger] views(tags@)[k] != tag@,
        decreases tags@.len() - i,
    {
        assert(views(tags@)[i as int] == tags@[i as int]@);
        if same(tags[i].as_str(), tag) {
            return true;
        }
        i += 1;
    }
    false
}

// ---------------------------------------------------------------------------
// Reports
// ---------------------------------------------------------------------------

/// What an import reports.
#[derive(Debug, Clone)]
pub struct ImportReport {
    /// Where the export comes from.
    pub source: ImportSource,
    /// How many memories were imported.
    pub memories_imported: usize,
    /// How many skills were quarantined.
    pub skills_quarantined: usize,
    /// How many hints there are.
    pub config_hints: usize,
    /// What was left out, and why.
    pub warnings: Vec<String>,
    /// What is guaranteed.
    pub guarantees: Vec<String>,
}

/// How many of the first `n` memories are direct experience.
pub open spec fn anchors_among(memories: Seq<Memory>, n: nat) -> nat
    decreases n,
{
    if n == 0 {
        0
    } else {
        anchors_among(memories, (n - 1) as nat) + if memories[n - 1].provenance is DirectExperience {
            1nat
        } else {
            0nat
        }
    }
}

/// What the import of a plan guarantees.
pub open spec fn guarantees_of(p: ImportPlan) -> Seq<Seq<char>> {
    if p.source == ImportSource::FamilyHearth {
        seq![
            "family Hearth bridge is NON-LOSSY: originating agent/kind/id/timestamp are preserved as tags (hearth:kind=…, hearth:agent=…, hearth:id=…, hearth:ts=…)"@,
            decimal(anchors_among(p.memories@, p.memories@.len()))
                + " entries marked identity_anchor were admitted at FULL trust (DirectExperience) — never forced to the untrusted-import trust floor ("@
                + UNTRUSTED_IMPORT_TRUST@ + ")"@,
            "non-anchor entries use the configured --anchor-trust weight, still above the provenance gate's default threshold (0.5) unless explicitly lowered"@,
            "this source has no skills concept — nothing is quarantined from it"@,
        ]
    } else {
        seq![
            "imported skills are QUARANTINED (never registered, never executed)"@,
            "imported skills require sandbox validation + explicit operator approval before activation"@,
            "imported memories carry low-trust external provenance (trust "@
                + UNTRUSTED_IMPORT_TRUST@ + ") — never admitted as trusted anchors"@,
        ]
    }
}

/// The lines of the first `n` items of a list.
pub open spec fn bullet_lines(items: Seq<Seq<char>>, n: nat) -> Seq<char>
    decreases n,
{
    if n == 0 {
        Seq::empty()
    } else {
        bullet_lines(items, (n - 1) as nat) + "- "@ + items[n - 1] + "\n"@
    }
}

/// The report in Markdown.
pub open spec fn markdown_of(r: ImportReport) -> Seq<char> {
    let head = "# FamilyClaw import report\n\n- source: `"@ + r.source.word()
        + "`\n- memories imported: "@ + decimal(r.memories_imported as nat)
        + "\n- skills quarantined: "@ + decimal(r.skills_quarantined as nat) + "\n- config hints: "@
        + decimal(r.config_hints as nat) + "\n- warnings: "@ + decimal(r.warnings@.len())
        + "\n\n## Security guarantees\n"@;
    let body = head + bullet_lines(views(r.guarantees@), r.guarantees@.len());
    if r.warnings@.len() == 0 {
        body
    } else {
        body + "\n## Warnings (skipped or unmapped)\n"@ + bullet_lines(
            views(r.warnings@),
            r.warnings@.len(),
        )
    }
}

fn push_bullets(out: &mut String, items: &Vec<String>)
    ensures
        final(out)@ == old(out)@ + bullet_lines(views(items@), items@.len()),
{
    let ghost start = out@;
    let ghost all = views(items@);
    let mut i: usize = 0;
    assert(start + bullet_lines(all, 0) =~= start);
    while i < items.len()
        invariant
            i <= items@.len(),
            all == views(items@),
            out@ == start + bullet_lines(all, i as nat),
        decreases items@.len() - i,
    {
        assert(all[i as int] == items@[i as int]@);
        out.append("- ");
        out.append(items[i].as_str());
        out.append("\n");
        assert(out@ =~= start + bullet_lines(all, (i + 1) as nat));
        i += 1;
    }
}

impl ImportReport {
    /// The report of a plan.
    pub fn from_plan(plan: &ImportPlan) -> (r: Self)
        ensures
            r.source == plan.source,
            r.memories_imported == plan.memories@.len(),
            r.skills_quarantined == plan.quarantine.skills@.len(),
            r.config_hints == plan.config_hints@.len(),
            views(r.warnings@) == views(plan.warnings@),
            views(r.guarantees@) == guarantees_of(*plan),
    {
        let guarantees = if plan.source.is_family_hearth() {
            let mut anchors: usize = 0;
            let mut i: usize = 0;
            while i < plan.memories.len()
                invariant
                    i <= plan.memories@.len(),
                    anchors <= i,
                    anchors == anchors_among(plan.memories@, i as nat),
                decreases plan.memories@.len() - i,
            {
                match plan.memories[i].provenance {
                    Provenance::DirectExperience => {
                        anchors += 1;
                    },
                    _ => {},
                }
                i += 1;
            }
            vec![
                copy_of(
                    "family Hearth bridge is NON-LOSSY: originating agent/kind/id/timestamp are preserved as tags (hearth:kind=…, hearth:agent=…, hearth:id=…, hearth:ts=…)",
                ),
                concat4(
                    decimal_text(anchors as u64).as_str(),
                    " entries marked identity_anchor were admitted at FULL trust (DirectExperience) — never forced to the untrusted-import trust floor (",
                    UNTRUSTED_IMPORT_TRUST,
                    ")",
                ),
                copy_of(
                    "non-anchor entries use the configured --anchor-trust weight, still above the provenance gate's default threshold (0.5) unless explicitly lowered",
                ),
                copy_of("this source has no skills concept — nothing is quarantined from it"),
            ]
        } else {
            vec![
                copy_of("imported skills are QUARANTINED (never registered, never executed)"),
                copy_of(
                    "imported skills require sandbox validation + explicit operator approval before activation",
                ),
                concat3(
                    "imported memories carry low-trust external provenance (trust ",
                    UNTRUSTED_IMPORT_TRUST,
                    ") — never admitted as trusted anchors",
                ),
            ]
        };
        assert(views(guarantees@) =~= guarantees_of(*plan));
        ImportReport {
            source: plan.source,
            memories_imported: plan.memory_count(),
            skills_quarantined: plan.quarantined_skill_count(),
            config_hints: plan.config_hints.len(),
            warnings: copy_list(&plan.warnings),
            guarantees,
        }
    }

    /// The report in Markdown.
    pub fn render_markdown(&self) -> (r: String)
        ensures
            r@ == markdown_of(*self),
    {
        let mut out = concat2(
            "# FamilyClaw import report\n\n- source: `",
            self.source.as_str(),
        );
        out.append("`\n- memories imported: ");
        out.append(decimal_text(self.memories_imported as u64).as_str());
        out.append("\n- skills quarantined: ");
        out.append(decimal_text(self.skills_quarantined as u64).as_str());
        out.append("\n- config hints: ");
        out.append(decimal_text(self.config_hints as u64).as_str());
        out.append("\n- warnings: ");
        out.append(decimal_text(self.warnings.len() as u64).as_str());
        out.append("\n\n## Security guarantees\n");
        push_bullets(&mut out, &self.guarantees);
        if self.warnings.len() > 0 {
            out.append("\n## Warnings (skipped or unmapped)\n");
            push_bullets(&mut out, &self.warnings);
        }
        out
    }
}

// ---------------------------------------------------------------------------
// Laws
// ---------------------------------------------------------------------------

/// Every skill of every plan is quarantined and never runs without an approval, whatever
/// permissions its export declares.
pub proof fn law_every_skill_is_quarantined(p: ImportPlan, b: BundleView, trust: Seq<char>)
    requires
        is_plan(p, b, trust),
    ensures
        forall|i: int|
            0 <= i < p.quarantine.skills@.len() ==> is_held(#[trigger] p.quarantine.skills@[i]),
{
    assert forall|i: int| 0 <= i < p.quarantine.skills@.len() implies is_held(
        #[trigger] p.quarantine.skills@[i],
    ) by {
        assert(is_quarantine(p.quarantine.skills@[i], b.source, b.skills[i]));
    }
}

/// Every memory of a plan for a foreign runtime is external and of low trust.
pub proof fn law_every_foreign_memory_is_untrusted(p: ImportPlan, b: BundleView, trust: Seq<char>)
    requires
        is_plan(p, b, trust),
        b.source != ImportSource::FamilyHearth,
    ensures
        forall|i: int|
            0 <= i < p.memories@.len() ==> is_untrusted((#[trigger] p.memories@[i])@),
{
    lemma_trust_levels();
    assert(in_unit(UNTRUSTED_IMPORT_TRUST@));
    assert(clamped_text(UNTRUSTED_IMPORT_TRUST@) == UNTRUSTED_IMPORT_TRUST@);
    assert forall|i: int| 0 <= i < p.memories@.len() implies is_untrusted(
        (#[trigger] p.memories@[i])@,
    ) by {
        assert(p.memories@[i]@ == planned_memory(b.source, b.memories[i], trust));
    }
}

/// Every identity anchor of a plan for the Hearth is trusted fully and tagged as one, and
/// every other entry has the trust that was chosen.
pub proof fn law_every_anchor_is_trusted(
    p: ImportPlan,
    b: BundleView,
    trust: Seq<char>,
    i: int,
)
    requires
        is_plan(p, b, trust),
        b.source == ImportSource::FamilyHearth,
        0 <= i < b.memories.len(),
    ensures
        is_anchor(b.memories[i]) ==> p.memories@[i]@.provenance is DirectExperience
            && p.memories@[i]@.tags.contains("identity_anchor"@),
        !is_anchor(b.memories[i]) ==> p.memories@[i]@.provenance
            == (ProvenanceView::External {
            source: hearth_source(b.memories[i]),
            trust: clamped_text(trust),
        }),
{
    let e = b.memories[i];
    assert(p.memories@[i]@ == planned_memory(b.source, e, trust));
    if is_anchor(e) {
        let n = e.tags.len() as int;
        lemma_hearth_tags_grow(e);
        assert(hearth_tags(e)[n + 1] == "identity_anchor"@);
    }
}

proof fn lemma_hearth_tags_grow(e: EntryView)
    ensures
        hearth_tags(e).len() >= e.tags.len() + 1,
        forall|i: int| 0 <= i < e.tags.len() ==> #[trigger] hearth_tags(e)[i] == e.tags[i],
        hearth_tags(e)[e.tags.len() as int] == "family_hearth"@,
        is_anchor(e) ==> hearth_tags(e).len() >= e.tags.len() + 2
            && hearth_tags(e)[e.tags.len() as int + 1] == "identity_anchor"@,
{
}

/// Where no entry of the Hearth brings a tag `identity_anchor` of its own, every memory that
/// bears it is trusted fully.
pub proof fn law_tagged_anchors_are_trusted(p: ImportPlan, b: BundleView, trust: Seq<char>)
    requires
        is_plan(p, b, trust),
        b.source == ImportSource::FamilyHearth,
        forall|i: int|
            0 <= i < b.memories.len() ==> !(#[trigger] b.memories[i]).tags.contains(
                "identity_anchor"@,
            ),
    ensures
        forall|i: int|
            0 <= i < p.memories@.len() ==> anchor_is_trusted((#[trigger] p.memories@[i])@),
{
    reveal_strlit("identity_anchor");
    reveal_strlit("family_hearth");
    reveal_strlit("hearth:kind=");
    reveal_strlit("hearth:agent=");
    reveal_strlit("hearth:id=");
    reveal_strlit("hearth:ts=");
    let mark = "identity_anchor"@;
    assert forall|i: int| 0 <= i < p.memories@.len() implies anchor_is_trusted(
        (#[trigger] p.memories@[i])@,
    ) by {
        let e = b.memories[i];
        assert(p.memories@[i]@ == planned_memory(b.source, e, trust));
        assert(!e.tags.contains(mark));
        if !is_anchor(e) && hearth_tags(e).contains(mark) {
            let k = choose|k: int| 0 <= k < hearth_tags(e).len() && hearth_tags(e)[k] == mark;
            lemma_hearth_tags_grow(e);
            assert(mark[0] == 'i');
            if k < e.tags.len() {
                assert(e.tags[k] == mark);
            } else {
                lemma_added_tags(e, k);
            }
        }
    }
}

/// The tags that are added to an entry that is no anchor begin with another letter than
/// the mark of an anchor.
proof fn lemma_added_tags(e: EntryView, k: int)
    requires
        !is_anchor(e),
        e.tags.len() <= k < hearth_tags(e).len(),
    ensures
        hearth_tags(e)[k].len() > 0,
        hearth_tags(e)[k][0] != 'i',
{
    reveal_strlit("family_hearth");
    reveal_strlit("hearth:kind=");
    reveal_strlit("hearth:agent=");
    reveal_strlit("hearth:id=");
    reveal_strlit("hearth:ts=");
}

/// Nothing of where an entry of the Hearth comes from is lost: its tags hold its section, and
/// its agent, identifier and time where it has them.
pub proof fn law_hearth_origin_is_kept(e: EntryView)
    requires
        e.origin is Some,
    ensures
        hearth_tags(e).contains("hearth:kind="@ + e.origin->Some_0.kind.word()),
        e.origin->Some_0.agent is Some ==> hearth_tags(e).contains(
            "hearth:agent="@ + e.origin->Some_0.agent->Some_0,
        ),
        e.origin->Some_0.original_id is Some ==> hearth_tags(e).contains(
            "hearth:id="@ + e.origin->Some_0.original_id->Some_0,
        ),
        e.origin->Some_0.timestamp is Some ==> hearth_tags(e).contains(
            "hearth:ts="@ + e.origin->Some_0.timestamp->Some_0,
        ),
        forall|i: int| 0 <= i < e.tags.len() ==> hearth_tags(e).contains(#[trigger] e.tags[i]),
{
    let o = e.origin->Some_0;
    let t0 = e.tags.push("family_hearth"@);
    let t1 = if is_anchor(e) {
        t0.push("identity_anchor"@)
    } else {
        t0
    };
    let t2 = t1.push("hearth:kind="@ + o.kind.word());
    let t3 = with_tag(t2, "hearth:agent="@, o.agent);
    let t4 = with_tag(t3, "hearth:id="@, o.original_id);
    let t5 = with_tag(t4, "hearth:ts="@, o.timestamp);
    assert(t5 == hearth_tags(e));
    assert(t5[t1.len() as int] == "hearth:kind="@ + o.kind.word());
    if o.agent is Some {
        assert(t5[t2.len() as int] == "hearth:agent="@ + o.agent->Some_0);
    }
    if o.original_id is Some {
        assert(t5[t3.len() as int] == "hearth:id="@ + o.original_id->Some_0);
    }
    if o.timestamp is Some {
        assert(t5[t4.len() as int] == "hearth:ts="@ + o.timestamp->Some_0);
    }
    assert forall|i: int| 0 <= i < e.tags.len() implies hearth_tags(e).contains(
        #[trigger] e.tags[i],
    ) by {
        assert(t5[i] == e.tags[i]);
    }
}

/// The default trust in an entry of the Hearth is above that in a foreign memory.
pub proof fn law_hearth_is_trusted_more()
    ensures
        is_at_most_two_tenths(UNTRUSTED_IMPORT_TRUST@),
        !is_at_most_two_tenths(DEFAULT_ANCHOR_TRUST@),
        clamped_text(DEFAULT_ANCHOR_TRUST@) == DEFAULT_ANCHOR_TRUST@,
{
    lemma_trust_levels();
    assert(in_unit(DEFAULT_ANCHOR_TRUST@));
}

// ---------------------------------------------------------------------------
// What a plan is for
// ---------------------------------------------------------------------------

/// A plan loses nothing of a bundle, whatever its source: its memories are those of the bundle,
/// in their order, with the same texts, and their tags begin with the tags that they had.
pub proof fn law_plan_keeps_the_memories(p: ImportPlan, b: BundleView, trust: Seq<char>, i: int)
    requires
        is_plan(p, b, trust),
        0 <= i < b.memories.len(),
    ensures
        p.memories@.len() == b.memories.len(),
        p.memories@[i].content@ == b.memories[i].content,
        views(p.memories@[i].tags@).len() > b.memories[i].tags.len(),
        views(p.memories@[i].tags@).take(b.memories[i].tags.len() as int) == b.memories[i].tags,
        in_unit(b.memories[i].importance) ==> p.memories@[i].importance@
            == b.memories[i].importance,
{
    let e = b.memories[i];
    let m = p.memories@[i]@;
    assert(m == planned_memory(b.source, e, trust));
    lemma_hearth_tags_grow(e);
    assert(m.tags.take(e.tags.len() as int) =~= e.tags);
}

/// No memory of the plan of an import is empty, whatever the export holds.
pub proof fn law_planned_memories_have_a_text(
    p: ImportPlan,
    source: ImportSource,
    read: Result<Tree, Seq<char>>,
    trust: Seq<char>,
    i: int,
)
    requires
        import_of(source, read) is Ok,
        is_plan(p, import_of(source, read)->Ok_0, trust),
        0 <= i < p.memories@.len(),
    ensures
        p.source == source,
        p.memories@[i].content@.len() > 0,
{
    let b = import_of(source, read)->Ok_0;
    law_no_imported_memory_is_empty(source, read);
    assert(b.memories[i].content.len() > 0);
    law_plan_keeps_the_memories(p, b, trust, i);
}

/// A foreign memory says that it was imported, that it is not trusted and what it comes from.
pub proof fn law_foreign_memory_is_marked(p: ImportPlan, b: BundleView, trust: Seq<char>, i: int)
    requires
        is_plan(p, b, trust),
        b.source != ImportSource::FamilyHearth,
        0 <= i < b.memories.len(),
    ensures
        views(p.memories@[i].tags@).contains("imported"@),
        views(p.memories@[i].tags@).contains("untrusted"@),
        occurs(b.source.word(), p.memories@[i].source@),
        p.memories@[i]@.provenance is External,
        p.memories@[i]@.provenance->source == p.memories@[i].source@,
        p.memories@[i]@.provenance->trust == UNTRUSTED_IMPORT_TRUST@,
{
    let e = b.memories[i];
    let m = p.memories@[i]@;
    assert(m == planned_memory(b.source, e, trust));
    let n = e.tags.len() as int;
    assert(m.tags[n] == "imported"@);
    assert(m.tags[n + 1] == "untrusted"@);
    reveal_strlit("import_openclaw");
    reveal_strlit("import_hermes");
    reveal_strlit("openclaw");
    reveal_strlit("hermes");
    let w = b.source.word();
    assert(m.source.subrange(7, m.source.len() as int) =~= w);
    assert(occurs_at(w, m.source, 7));
    lemma_trust_levels();
}

/// The quarantine loses nothing of a skill: it keeps its name, and says its description and
/// every permission that it declared.
pub proof fn law_quarantine_keeps_the_skills(p: ImportPlan, b: BundleView, trust: Seq<char>, i: int)
    requires
        is_plan(p, b, trust),
        0 <= i < b.skills.len(),
    ensures
        p.quarantine.skills@.len() == b.skills.len(),
        p.quarantine.skills@[i].manifest.name@ == b.skills[i].name,
        p.quarantine.skills@[i].source == b.source,
        trimmed(b.skills[i].description).is_prefix_of(
            p.quarantine.skills@[i].manifest.description@,
        ),
        occurs(b.source.word(), p.quarantine.skills@[i].manifest.description@),
        forall|k: int|
            0 <= k < b.skills[i].declared.len() ==> occurs(
                #[trigger] b.skills[i].declared[k],
                p.quarantine.skills@[i].manifest.description@,
            ),
{
    let s = b.skills[i];
    let q = p.quarantine.skills@[i];
    assert(is_quarantine(q, b.source, s));
    let d = q.manifest.description@;
    let about = trimmed(s.description);
    let w = b.source.word();
    let text = if about.len() == 0 {
        "Imported from "@ + w + " (quarantined)."@
    } else {
        about + " [imported from "@ + w + ", quarantined]"@
    };
    let at = if about.len() == 0 {
        "Imported from "@.len() as int
    } else {
        (about + " [imported from "@).len() as int
    };
    assert(d.subrange(0, about.len() as int) =~= about);
    assert(d.subrange(at, at + w.len()) =~= w);
    assert(occurs_at(w, d, at));
    assert forall|k: int| 0 <= k < s.declared.len() implies occurs(
        #[trigger] s.declared[k],
        d,
    ) by {
        let list = joined(s.declared, ", "@);
        let x = s.declared[k];
        let j = lemma_joined_holds(s.declared, ", "@, k);
        let start = (text + " declared-permissions: "@).len() as int;
        assert(d =~= text + " declared-permissions: "@ + list);
        assert(d.subrange(start + j, start + j + x.len()) =~= list.subrange(j, j + x.len()));
        assert(occurs_at(x, d, start + j));
    }
}

/// The hints and the warnings of a bundle are those of its plan.
pub proof fn law_plan_keeps_hints_and_warnings(
    p: ImportPlan,
    b: BundleView,
    trust: Seq<char>,
    i: int,
)
    requires
        is_plan(p, b, trust),
    ensures
        p.config_hints@.len() == b.config_hints.len(),
        0 <= i < b.config_hints.len() ==> p.config_hints@[i].0@ == b.config_hints[i].0
            && p.config_hints@[i].1@ == b.config_hints[i].1,
        p.warnings@.len() == b.warnings.len(),
        0 <= i < b.warnings.len() ==> p.warnings@[i]@ == b.warnings[i],
{
    assert(hints_view(p.config_hints@).len() == p.config_hints@.len());
    assert(views(p.warnings@).len() == p.warnings@.len());
    if 0 <= i < b.config_hints.len() {
        assert(hints_view(p.config_hints@)[i] == (p.config_hints@[i].0@, p.config_hints@[i].1@));
    }
    if 0 <= i < b.warnings.len() {
        assert(views(p.warnings@)[i] == p.warnings@[i]@);
    }
}

/// The report in Markdown says every guarantee and every warning, and how much was imported.
pub proof fn law_report_says_everything(r: ImportReport, i: int)
    ensures
        0 <= i < r.guarantees@.len() ==> occurs(r.guarantees@[i]@, markdown_of(r)),
        0 <= i < r.warnings@.len() ==> occurs(r.warnings@[i]@, markdown_of(r)),
        occurs(
            "- memories imported: "@ + decimal(r.memories_imported as nat) + "\n"@,
            markdown_of(r),
        ),
        occurs(
            "- skills quarantined: "@ + decimal(r.skills_quarantined as nat) + "\n"@,
            markdown_of(r),
        ),
{
    let text = markdown_of(r);
    let a = "# FamilyClaw import report\n\n- source: `"@ + r.source.word();
    let b = decimal(r.memories_imported as nat);
    let c = decimal(r.skills_quarantined as nat);
    reveal_strlit("`\n- memories imported: ");
    reveal_strlit("- memories imported: ");
    reveal_strlit("\n- skills quarantined: ");
    reveal_strlit("- skills quarantined: ");
    reveal_strlit("\n- config hints: ");
    reveal_strlit("\n");
    let head = a + "`\n- memories imported: "@ + b + "\n- skills quarantined: "@ + c
        + "\n- config hints: "@ + decimal(r.config_hints as nat) + "\n- warnings: "@ + decimal(
        r.warnings@.len(),
    ) + "\n\n## Security guarantees\n"@;
    let first = "- memories imported: "@ + b + "\n"@;
    let second = "- skills quarantined: "@ + c + "\n"@;
    let at = a.len() as int + 2;
    assert(text.subrange(at, at + first.len()) =~= first);
    assert(occurs_at(first, text, at));
    let at = (a + "`\n- memories imported: "@ + b).len() as int + 1;
    assert(text.subrange(at, at + second.len()) =~= second);
    assert(occurs_at(second, text, at));
    let gs = views(r.guarantees@);
    let ws = views(r.warnings@);
    let lines = bullet_lines(gs, gs.len());
    if 0 <= i < gs.len() {
        let j = lemma_bullet_at(gs, gs.len(), i);
        let g = gs[i];
        let at = head.len() as int + j;
        assert(text.subrange(at, at + g.len()) =~= lines.subrange(j, j + g.len()));
        assert(occurs_at(g, text, at));
        assert(g == r.guarantees@[i]@);
    }
    if 0 <= i < ws.len() {
        let more = bullet_lines(ws, ws.len());
        let j = lemma_bullet_at(ws, ws.len(), i);
        let w = ws[i];
        let at = (head + lines + "\n## Warnings (skipped or unmapped)\n"@).len() as int + j;
        assert(text.subrange(at, at + w.len()) =~= more.subrange(j, j + w.len()));
        assert(occurs_at(w, text, at));
        assert(w == r.warnings@[i]@);
    }
}

proof fn lemma_bullet_at(items: Seq<Seq<char>>, n: nat, i: int) -> (at: int)
    requires
        0 <= i < n <= items.len(),
    ensures
        occurs_at(items[i], bullet_lines(items, n), at),
    decreases n,
{
    let all = bullet_lines(items, n);
    let before = bullet_lines(items, (n - 1) as nat);
    let x = items[i];
    if i == n - 1 {
        let at = (before + "- "@).len() as int;
        assert(all.subrange(at, at + x.len()) =~= x);
        at
    } else {
        let at = lemma_bullet_at(items, (n - 1) as nat, i);
        assert(all.subrange(at, at + x.len()) =~= before.subrange(at, at + x.len()));
        at
    }
}

/// A memory of the Hearth tells which section it comes from, in its source and where it is
/// trusted only so far.
pub proof fn law_hearth_memory_tells_its_section(e: EntryView, trust: Seq<char>)
    requires
        e.origin is Some,
    ensures
        e.origin->Some_0.kind.word().is_suffix_of(hearth_memory(e, trust).source),
        "family_hearth:"@.is_prefix_of(hearth_memory(e, trust).source),
        !e.origin->Some_0.identity_anchor ==> hearth_memory(e, trust).provenance is External
            && hearth_memory(e, trust).provenance->source == hearth_memory(e, trust).source,
{
    let s = hearth_memory(e, trust).source;
    let w = e.origin->Some_0.kind.word();
    let head = "family_hearth:"@;
    assert(s.subrange(0, head.len() as int) =~= head);
    assert(s.subrange(s.len() - w.len(), s.len() as int) =~= w);
}

/// A report on the Hearth says how many of its memories are trusted fully, and these are the
/// ones that are direct experience.
pub proof fn law_report_counts_the_anchors(p: ImportPlan, more: Memory)
    ensures
        p.source == ImportSource::FamilyHearth ==> guarantees_of(p).len() == 4 && decimal(
            anchors_among(p.memories@, p.memories@.len()),
        ).is_prefix_of(guarantees_of(p)[1]),
        anchors_among(p.memories@.push(more), p.memories@.len() + 1) == anchors_among(
            p.memories@,
            p.memories@.len(),
        ) + if more.provenance is DirectExperience {
            1nat
        } else {
            0nat
        },
        anchors_among(p.memories@, 0) == 0,
{
    if p.source == ImportSource::FamilyHearth {
        let n = decimal(anchors_among(p.memories@, p.memories@.len()));
        let t = guarantees_of(p)[1];
        assert(t.subrange(0, n.len() as int) =~= n);
    }
    lemma_anchors_of_the_first(p.memories@, more, p.memories@.len());
}

proof fn lemma_anchors_of_the_first(memories: Seq<Memory>, more: Memory, n: nat)
    requires
        n <= memories.len(),
    ensures
        anchors_among(memories.push(more), n) == anchors_among(memories, n),
    decreases n,
{
    if n > 0 {
        lemma_anchors_of_the_first(memories, more, (n - 1) as nat);
    }
}

/// A quarantined skill bears a version that says that it was imported, nobody's name and nobody's
/// signature, and no permission but the one that needs an approval.
pub proof fn law_quarantined_skill_is_nobodys(p: ImportPlan, b: BundleView, trust: Seq<char>, i: int)
    requires
        is_plan(p, b, trust),
        0 <= i < b.skills.len(),
    ensures
        ({
            let m = p.quarantine.skills@[i].manifest;
            &&& "imported"@.is_suffix_of(m.version@)
            &&& m.publisher is None
            &&& m.signature is None
            &&& forall|k: int|
                0 <= k < m.permissions@.len() ==> #[trigger] m.permissions@[k]
                    == SkillPermission::ExecuteCode
        }),
{
    assert(is_quarantine(p.quarantine.skills@[i], b.source, b.skills[i]));
    reveal_strlit("0.0.0-imported");
    reveal_strlit("imported");
    let v = p.quarantine.skills@[i].manifest.version@;
    assert(v.subrange(v.len() - "imported"@.len(), v.len() as int) =~= "imported"@);
}

} // verus!
