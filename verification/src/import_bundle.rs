//! Reading the exports of other runtimes and of the family's Hearth.
//!
//! An export is JSON text. It is read tolerantly into an [`ImportedBundle`]: what is unknown
//! is ignored, what is malformed is left out with a warning, and only an export that is no
//! JSON object is an error.
use vstd::prelude::*;

use crate::json::{compact, json_read, list_of, member, object_of, text_of, texts_in, Json, Tree};
use crate::llm::opt_view;
use crate::text::{
    ascii_lowered, concat2, concat3, concat4, concat5, copy_of, decimal, decimal_text, occurs,
    occurs_at, same, to_ascii_lower, trim, trimmed, views,
};
use crate::weight::{clamped_text, in_unit, literal, Literal, Weight};

verus! {

/// The version of the bundle's structure.
pub const BUNDLE_SCHEMA_VERSION: u32 = 1;

/// The trust in a memory of a foreign runtime.
pub const UNTRUSTED_IMPORT_TRUST: &'static str = "0.2";

/// The trust in an entry of the Hearth that is no identity anchor, where none is chosen.
pub const DEFAULT_ANCHOR_TRUST: &'static str = "0.9";

/// The importance of an entry that declares none.
pub const DEFAULT_IMPORTANCE: &'static str = "0.3";

// ---------------------------------------------------------------------------
// Errors and sources
// ---------------------------------------------------------------------------

/// Why an import fails.
#[derive(Debug, Clone, PartialEq, Eq)]
pub enum ImportError {
    /// The arguments are wrong.
    Usage(String),
    /// A file could not be read or written.
    Io(String),
    /// The export cannot be read.
    Parse(String),
    /// What was made could not be written as JSON.
    Serde(String),
}

impl ImportError {
    /// The error as text.
    pub open spec fn message(self) -> Seq<char> {
        match self {
            ImportError::Usage(m) => "usage error: "@ + m@,
            ImportError::Io(m) => "io error: "@ + m@,
            ImportError::Parse(m) => "parse error: "@ + m@,
            ImportError::Serde(m) => "serialization error: "@ + m@,
        }
    }

    /// The error as text.
    pub fn to_text(&self) -> (r: String)
        ensures
            r@ == self.message(),
    {
        match self {
            ImportError::Usage(m) => concat2("usage error: ", m.as_str()),
            ImportError::Io(m) => concat2("io error: ", m.as_str()),
            ImportError::Parse(m) => concat2("parse error: ", m.as_str()),
            ImportError::Serde(m) => concat2("serialization error: ", m.as_str()),
        }
    }
}

/// Where an export comes from.
#[derive(Debug, Clone, Copy, PartialEq, Eq, Structural)]
pub enum ImportSource {
    /// `OpenClaw`.
    OpenClaw,
    /// Hermes.
    Hermes,
    /// The family's own Hearth.
    FamilyHearth,
}

/// The source that a word names, trimmed and in any case.
pub open spec fn source_named(value: Seq<char>) -> Option<ImportSource> {
    let word = ascii_lowered(trimmed(value));
    if word == "openclaw"@ {
        Some(ImportSource::OpenClaw)
    } else if word == "hermes"@ {
        Some(ImportSource::Hermes)
    } else if word == "family_hearth"@ || word == "hearth"@ {
        Some(ImportSource::FamilyHearth)
    } else {
        None
    }
}

/// What is said of a word that names no source.
pub open spec fn unknown_source(value: Seq<char>) -> Seq<char> {
    "unknown --from source `"@ + ascii_lowered(trimmed(value))
        + "` (expected openclaw|hermes|family_hearth)"@
}

impl ImportSource {
    /// Reads a source.
    pub fn parse(value: &str) -> (r: Result<Self, ImportError>)
        ensures
            match r {
                Ok(s) => source_named(value@) == Some(s),
                Err(e) => source_named(value@) is None && e is Usage && e->Usage_0@
                    == unknown_source(value@),
            },
    {
        let word = to_ascii_lower(trim(value).as_str());
        if same(word.as_str(), "openclaw") {
            Ok(ImportSource::OpenClaw)
        } else if same(word.as_str(), "hermes") {
            Ok(ImportSource::Hermes)
        } else if same(word.as_str(), "family_hearth") || same(word.as_str(), "hearth") {
            Ok(ImportSource::FamilyHearth)
        } else {
            Err(
                ImportError::Usage(
                    concat3(
                        "unknown --from source `",
                        word.as_str(),
                        "` (expected openclaw|hermes|family_hearth)",
                    ),
                ),
            )
        }
    }

    /// The stable name of the source.
    pub open spec fn word(self) -> Seq<char> {
        match self {
            ImportSource::OpenClaw => "openclaw"@,
            ImportSource::Hermes => "hermes"@,
            ImportSource::FamilyHearth => "family_hearth"@,
        }
    }

    /// The stable name of the source.
    pub fn as_str(self) -> (r: &'static str)
        ensures
            r@ == self.word(),
    {
        match self {
            ImportSource::OpenClaw => "openclaw",
            ImportSource::Hermes => "hermes",
            ImportSource::FamilyHearth => "family_hearth",
        }
    }

    /// Is this the family's own Hearth?
    pub fn is_family_hearth(self) -> (r: bool)
        ensures
            r == (self == ImportSource::FamilyHearth),
    {
        match self {
            ImportSource::FamilyHearth => true,
            _ => false,
        }
    }
}

// ---------------------------------------------------------------------------
// Bundles
// ---------------------------------------------------------------------------

/// The section of the Hearth that an entry stands in.
#[derive(Debug, Clone, Copy, PartialEq, Eq, Structural)]
pub enum HearthKind {
    /// A shared memory.
    Memory,
    /// An intent.
    Intent,
    /// The state of an agent.
    State,
}

impl HearthKind {
    /// The stable name of the section.
    pub open spec fn word(self) -> Seq<char> {
        match self {
            HearthKind::Memory => "memory"@,
            HearthKind::Intent => "intent"@,
            HearthKind::State => "state"@,
        }
    }

    /// The stable name of the section.
    pub fn as_str(self) -> (r: &'static str)
        ensures
            r@ == self.word(),
    {
        match self {
            HearthKind::Memory => "memory",
            HearthKind::Intent => "intent",
            HearthKind::State => "state",
        }
    }
}

/// Where in the Hearth an entry comes from.
#[derive(Debug, Clone, PartialEq, Eq)]
pub struct HearthOrigin {
    /// The section.
    pub kind: HearthKind,
    /// The agent.
    pub agent: Option<String>,
    /// The identifier in the export.
    pub original_id: Option<String>,
    /// The time, as the export writes it.
    pub timestamp: Option<String>,
    /// Does the export mark the entry as an identity anchor?
    pub identity_anchor: bool,
}

/// The mathematical value of a [`HearthOrigin`].
pub struct OriginView {
    pub kind: HearthKind,
    pub agent: Option<Seq<char>>,
    pub original_id: Option<Seq<char>>,
    pub timestamp: Option<Seq<char>>,
    pub identity_anchor: bool,
}

impl View for HearthOrigin {
    type V = OriginView;

    open spec fn view(&self) -> OriginView {
        OriginView {
            kind: self.kind,
            agent: opt_view(self.agent),
            original_id: opt_view(self.original_id),
            timestamp: opt_view(self.timestamp),
            identity_anchor: self.identity_anchor,
        }
    }
}

/// An imported memory.
#[derive(Debug, Clone, PartialEq, Eq)]
pub struct ImportedMemory {
    /// What is remembered.
    pub content: String,
    /// Its tags.
    pub tags: Vec<String>,
    /// How important the export says it is.
    pub importance_hint: Weight,
    /// Where in the Hearth it comes from.
    pub origin: Option<HearthOrigin>,
}

/// The mathematical value of an [`ImportedMemory`].
pub struct EntryView {
    pub content: Seq<char>,
    pub tags: Seq<Seq<char>>,
    pub importance: Seq<char>,
    pub origin: Option<OriginView>,
}

/// The origin inside, where there is one.
pub open spec fn opt_origin_view(o: Option<HearthOrigin>) -> Option<OriginView> {
    match o {
        Some(x) => Some(x@),
        None => None,
    }
}

impl View for ImportedMemory {
    type V = EntryView;

    open spec fn view(&self) -> EntryView {
        EntryView {
            content: self.content@,
            tags: views(self.tags@),
            importance: self.importance_hint@,
            origin: opt_origin_view(self.origin),
        }
    }
}

/// An imported skill: a description, never run.
#[derive(Debug, Clone, PartialEq, Eq)]
pub struct ImportedSkill {
    /// Its name.
    pub name: String,
    /// Its description.
    pub description: String,
    /// The permissions that the export declares.
    pub declared_permissions: Vec<String>,
}

/// The mathematical value of an [`ImportedSkill`].
pub struct SkillView {
    pub name: Seq<char>,
    pub description: Seq<char>,
    pub declared: Seq<Seq<char>>,
}

impl View for ImportedSkill {
    type V = SkillView;

    open spec fn view(&self) -> SkillView {
        SkillView {
            name: self.name@,
            description: self.description@,
            declared: views(self.declared_permissions@),
        }
    }
}

/// What was read from an export.
#[derive(Debug, Clone, PartialEq, Eq)]
pub struct ImportedBundle {
    /// The version of this structure.
    pub schema_version: u32,
    /// Where the export comes from.
    pub source: ImportSource,
    /// The memories.
    pub memories: Vec<ImportedMemory>,
    /// The skills.
    pub skills: Vec<ImportedSkill>,
    /// Settings of the other runtime, for a human to look at.
    pub config_hints: Vec<(String, String)>,
    /// What was left out, and why.
    pub warnings: Vec<String>,
}

/// The mathematical value of an [`ImportedBundle`].
pub struct BundleView {
    pub schema_version: u32,
    pub source: ImportSource,
    pub memories: Seq<EntryView>,
    pub skills: Seq<SkillView>,
    pub config_hints: Seq<(Seq<char>, Seq<char>)>,
    pub warnings: Seq<Seq<char>>,
}

/// The values of a list of memories.
pub open spec fn entries_view(v: Seq<ImportedMemory>) -> Seq<EntryView> {
    v.map_values(|m: ImportedMemory| m@)
}

/// The values of a list of skills.
pub open spec fn skills_view(v: Seq<ImportedSkill>) -> Seq<SkillView> {
    v.map_values(|s: ImportedSkill| s@)
}

/// The values of a list of hints.
pub open spec fn hints_view(v: Seq<(String, String)>) -> Seq<(Seq<char>, Seq<char>)> {
    v.map_values(|h: (String, String)| (h.0@, h.1@))
}

impl View for ImportedBundle {
    type V = BundleView;

    open spec fn view(&self) -> BundleView {
        BundleView {
            schema_version: self.schema_version,
            source: self.source,
            memories: entries_view(self.memories@),
            skills: skills_view(self.skills@),
            config_hints: hints_view(self.config_hints@),
            warnings: views(self.warnings@),
        }
    }
}

/// A bundle that holds nothing.
pub open spec fn empty_bundle(source: ImportSource) -> BundleView {
    BundleView {
        schema_version: BUNDLE_SCHEMA_VERSION,
        source,
        memories: Seq::empty(),
        skills: Seq::empty(),
        config_hints: Seq::empty(),
        warnings: Seq::empty(),
    }
}

impl ImportedBundle {
    /// A bundle that holds nothing.
    pub fn empty(source: ImportSource) -> (r: Self)
        ensures
            r@ == empty_bundle(source),
    {
        let r = ImportedBundle {
            schema_version: BUNDLE_SCHEMA_VERSION,
            source,
            memories: Vec::new(),
            skills: Vec::new(),
            config_hints: Vec::new(),
            warnings: Vec::new(),
        };
        assert(r@.memories =~= Seq::<EntryView>::empty());
        assert(r@.skills =~= Seq::<SkillView>::empty());
        assert(r@.config_hints =~= Seq::<(Seq<char>, Seq<char>)>::empty());
        assert(r@.warnings =~= Seq::<Seq<char>>::empty());
        r
    }
}

// ---------------------------------------------------------------------------
// Reading values
// ---------------------------------------------------------------------------

/// The importance that a value declares, brought into the unit interval; the default where
/// it declares none.
pub open spec fn importance_in(value: Option<Tree>) -> Seq<char> {
    match value {
        Some(Tree::Number(t)) => match literal(t) {
            Some(Literal::Finite(_)) => clamped_text(t),
            _ => DEFAULT_IMPORTANCE@,
        },
        _ => DEFAULT_IMPORTANCE@,
    }
}

/// The value of an optional [`Json`].
pub open spec fn opt_tree(j: Option<&Json>) -> Option<Tree> {
    match j {
        Some(x) => Some(x@),
        None => None,
    }
}

/// Reads the importance that a value declares.
fn importance_from(value: Option<&Json>) -> (r: Weight)
    ensures
        r@ == importance_in(opt_tree(value)),
{
    match value {
        Some(Json::Number(t)) => {
            let w = Weight::of(t.as_str());
            if w.is_number() {
                w.clamped()
            } else {
                Weight::of(DEFAULT_IMPORTANCE)
            }
        },
        _ => Weight::of(DEFAULT_IMPORTANCE),
    }
}

/// The strings of a list; none where a value is no list.
pub open spec fn strings_in(value: Option<Tree>) -> Seq<Seq<char>> {
    match list_of(value) {
        Some(items) => texts_in(items),
        None => Seq::empty(),
    }
}

/// Reads the strings of a list.
fn string_list(value: Option<&Json>) -> (r: Vec<String>)
    ensures
        views(r@) == strings_in(opt_tree(value)),
{
    let mut out: Vec<String> = Vec::new();
    assert(views(out@) =~= Seq::<Seq<char>>::empty());
    match value {
        Some(j) => match j {
            Json::List(items) => {
                let ghost all = j@->List_0;
                let mut i: usize = 0;
                assert(all.take(0) =~= Seq::<Tree>::empty());
                while i < items.len()
                    invariant
                        i <= items@.len(),
                        *j == Json::List(*items),
                        all == j@->List_0,
                        views(out@) == texts_in(all.take(i as int)),
                    decreases items@.len() - i,
                {
                    assert(all[i as int] == items@[i as int]@);
                    assert(all.take(i + 1).drop_last() =~= all.take(i as int));
                    assert(all.take(i + 1).last() == all[i as int]);
                    match &items[i] {
                        Json::Text(s) => {
                            let ghost before = out@;
                            out.push(copy_of(s.as_str()));
                            assert(views(out@) =~= views(before).push(s@));
                        },
                        _ => {},
                    }
                    i += 1;
                }
                assert(all.take(i as int) =~= all);
            },
            _ => {},
        },
        None => {},
    }
    out
}

/// The value under `first`, or, where there is none, under `second`.
pub open spec fn either_member(
    members: Seq<(Seq<char>, Tree)>,
    first: Seq<char>,
    second: Seq<char>,
) -> Option<Tree> {
    match member(members, first) {
        Some(t) => Some(t),
        None => member(members, second),
    }
}

/// The string that a value is, trimmed; nothing where it is none.
pub open spec fn trimmed_text(value: Option<Tree>) -> Seq<char> {
    match text_of(value) {
        Some(s) => trimmed(s),
        None => Seq::empty(),
    }
}

/// Reads the string that a value is, trimmed.
fn read_trimmed(value: Option<&Json>) -> (r: String)
    ensures
        r@ == trimmed_text(opt_tree(value)),
{
    match value {
        Some(Json::Text(s)) => trim(s.as_str()),
        _ => String::new(),
    }
}

/// Reads the value under `first`, or, where there is none, under `second`.
fn get_either<'a>(j: &'a Json, first: &str, second: &str) -> (r: Option<&'a Json>)
    requires
        j@ is Object,
    ensures
        opt_tree(r) == either_member(j@->Object_0, first@, second@),
{
    match j.get(first) {
        Some(x) => Some(x),
        None => j.get(second),
    }
}

/// The first string among the values under the given names.
pub open spec fn first_text(members: Seq<(Seq<char>, Tree)>, keys: Seq<Seq<char>>) -> Option<
    Seq<char>,
>
    decreases keys.len(),
{
    if keys.len() == 0 {
        None
    } else {
        match text_of(member(members, keys[0])) {
            Some(s) => Some(s),
            None => first_text(members, keys.drop_first()),
        }
    }
}

/// The views of a list of names.
pub open spec fn names_view(keys: Seq<&'static str>) -> Seq<Seq<char>> {
    keys.map_values(|k: &'static str| k@)
}

/// Reads the first string among the values under the given names.
fn first_str(j: &Json, keys: &Vec<&'static str>) -> (r: Option<String>)
    requires
        j@ is Object,
    ensures
        opt_view(r) == first_text(j@->Object_0, names_view(keys@)),
{
    let ghost all = names_view(keys@);
    let mut i: usize = 0;
    assert(all.skip(0) =~= all);
    while i < keys.len()
        invariant
            i <= keys@.len(),
            all == names_view(keys@),
            j@ is Object,
            first_text(j@->Object_0, all) == first_text(j@->Object_0, all.skip(i as int)),
        decreases keys@.len() - i,
    {
        assert(all.skip(i as int)[0] == keys@[i as int]@);
        assert(all.skip(i as int).drop_first() =~= all.skip(i + 1));
        match j.get(keys[i]) {
            Some(Json::Text(s)) => {
                return Some(copy_of(s.as_str()));
            },
            _ => {},
        }
        i += 1;
    }
    None
}

// ---------------------------------------------------------------------------
// Memories
// ---------------------------------------------------------------------------

/// A list of memories in an export.
#[derive(Debug, Clone, Copy, PartialEq, Eq, Structural)]
pub enum Section {
    OpenClawMemories,
    HermesMemories,
    HearthMemories,
    HearthIntents,
}

/// What an entry of a section is called in warnings.
pub open spec fn section_label(section: Section) -> Seq<char> {
    if section == Section::HearthIntents {
        "intent"@
    } else {
        "memory"@
    }
}

/// What is said of an entry without a text.
pub open spec fn empty_reason(section: Section) -> Seq<char> {
    match section {
        Section::OpenClawMemories => "empty text/content"@,
        Section::HermesMemories => "empty value/text"@,
        Section::HearthMemories => "empty content/text"@,
        Section::HearthIntents => "empty intent/content/text"@,
    }
}

/// The text of an entry, trimmed.
pub open spec fn entry_text(section: Section, m: Seq<(Seq<char>, Tree)>) -> Seq<char> {
    match section {
        Section::OpenClawMemories => trimmed_text(either_member(m, "text"@, "content"@)),
        Section::HermesMemories => trimmed_text(either_member(m, "value"@, "text"@)),
        Section::HearthMemories => match first_text(m, seq!["content"@, "text"@]) {
            Some(s) => trimmed(s),
            None => Seq::empty(),
        },
        Section::HearthIntents => match first_text(m, seq!["intent"@, "content"@, "text"@]) {
            Some(s) => trimmed(s),
            None => Seq::empty(),
        },
    }
}

/// Whether the entry is marked as an identity anchor.
pub open spec fn is_marked_anchor(m: Seq<(Seq<char>, Tree)>) -> bool {
    member(m, "identity_anchor"@) == Some(Tree::Bool(true))
}

/// Where in the Hearth an entry comes from.
pub open spec fn entry_origin(section: Section, m: Seq<(Seq<char>, Tree)>) -> Option<OriginView> {
    match section {
        Section::HearthMemories => Some(
            OriginView {
                kind: HearthKind::Memory,
                agent: text_of(member(m, "agent"@)),
                original_id: first_text(m, seq!["id"@, "memory_id"@]),
                timestamp: text_of(member(m, "timestamp"@)),
                identity_anchor: is_marked_anchor(m),
            },
        ),
        Section::HearthIntents => Some(
            OriginView {
                kind: HearthKind::Intent,
                agent: text_of(member(m, "agent"@)),
                original_id: first_text(m, seq!["id"@]),
                timestamp: text_of(member(m, "timestamp"@)),
                identity_anchor: is_marked_anchor(m),
            },
        ),
        _ => None,
    }
}

/// The name of the tags of an entry.
pub open spec fn tags_key(section: Section) -> Seq<char> {
    if section == Section::HermesMemories {
        "labels"@
    } else {
        "tags"@
    }
}

/// The name of the importance of an entry.
pub open spec fn importance_key(section: Section) -> Seq<char> {
    if section == Section::HermesMemories {
        "weight"@
    } else {
        "importance"@
    }
}

/// The memory that an item of a section is, or why it is left out.
pub open spec fn entry_in(section: Section, item: Tree) -> Result<EntryView, Seq<char>> {
    match item {
        Tree::Object(m) => if entry_text(section, m).len() == 0 {
            Err(empty_reason(section))
        } else {
            Ok(
                EntryView {
                    content: entry_text(section, m),
                    tags: strings_in(member(m, tags_key(section))),
                    importance: importance_in(member(m, importance_key(section))),
                    origin: entry_origin(section, m),
                },
            )
        },
        _ => Err("not a JSON object"@),
    }
}

/// The warning of an item that is left out.
pub open spec fn skip_warning(label: Seq<char>, index: nat, reason: Seq<char>) -> Seq<char> {
    "skipped "@ + label + "["@ + decimal(index) + "]: "@ + reason
}

/// The memories among the first `n` items.
pub open spec fn entries_in(section: Section, items: Seq<Tree>, n: nat) -> Seq<EntryView>
    decreases n,
{
    if n == 0 {
        Seq::empty()
    } else {
        let before = entries_in(section, items, (n - 1) as nat);
        match entry_in(section, items[n - 1]) {
            Ok(e) => before.push(e),
            Err(_) => before,
        }
    }
}

/// The warnings of the first `n` items.
pub open spec fn entry_warnings(section: Section, items: Seq<Tree>, n: nat) -> Seq<Seq<char>>
    decreases n,
{
    if n == 0 {
        Seq::empty()
    } else {
        let before = entry_warnings(section, items, (n - 1) as nat);
        match entry_in(section, items[n - 1]) {
            Ok(_) => before,
            Err(reason) => before.push(
                skip_warning(section_label(section), (n - 1) as nat, reason),
            ),
        }
    }
}

fn label_of(section: Section) -> (r: &'static str)
    ensures
        r@ == section_label(section),
{
    match section {
        Section::HearthIntents => "intent",
        _ => "memory",
    }
}

fn reason_of(section: Section) -> (r: &'static str)
    ensures
        r@ == empty_reason(section),
{
    match section {
        Section::OpenClawMemories => "empty text/content",
        Section::HermesMemories => "empty value/text",
        Section::HearthMemories => "empty content/text",
        Section::HearthIntents => "empty intent/content/text",
    }
}

fn read_first_trimmed(j: &Json, keys: &Vec<&'static str>) -> (r: String)
    requires
        j@ is Object,
    ensures
        r@ == match first_text(j@->Object_0, names_view(keys@)) {
            Some(s) => trimmed(s),
            None => Seq::empty(),
        },
{
    match first_str(j, keys) {
        Some(s) => trim(s.as_str()),
        None => String::new(),
    }
}

fn read_text(section: Section, j: &Json) -> (r: String)
    requires
        j@ is Object,
    ensures
        r@ == entry_text(section, j@->Object_0),
{
    match section {
        Section::OpenClawMemories => read_trimmed(get_either(j, "text", "content")),
        Section::HermesMemories => read_trimmed(get_either(j, "value", "text")),
        Section::HearthMemories => {
            let keys: Vec<&'static str> = vec!["content", "text"];
            assert(names_view(keys@) =~= seq!["content"@, "text"@]);
            read_first_trimmed(j, &keys)
        },
        Section::HearthIntents => {
            let keys: Vec<&'static str> = vec!["intent", "content", "text"];
            assert(names_view(keys@) =~= seq!["intent"@, "content"@, "text"@]);
            read_first_trimmed(j, &keys)
        },
    }
}

fn read_opt_text(value: Option<&Json>) -> (r: Option<String>)
    ensures
        opt_view(r) == text_of(opt_tree(value)),
{
    match value {
        Some(Json::Text(s)) => Some(copy_of(s.as_str())),
        _ => None,
    }
}

/// Reads where in the Hearth an entry comes from.
fn hearth_origin(j: &Json, kind: HearthKind, id_keys: &Vec<&'static str>) -> (r: HearthOrigin)
    requires
        j@ is Object,
    ensures
        r@ == (OriginView {
            kind,
            agent: text_of(member(j@->Object_0, "agent"@)),
            original_id: first_text(j@->Object_0, names_view(id_keys@)),
            timestamp: text_of(member(j@->Object_0, "timestamp"@)),
            identity_anchor: is_marked_anchor(j@->Object_0),
        }),
{
    let anchor = match j.get("identity_anchor") {
        Some(Json::Bool(b)) => *b,
        _ => false,
    };
    HearthOrigin {
        kind,
        agent: read_opt_text(j.get("agent")),
        original_id: first_str(j, id_keys),
        timestamp: read_opt_text(j.get("timestamp")),
        identity_anchor: anchor,
    }
}

fn read_origin(section: Section, j: &Json) -> (r: Option<HearthOrigin>)
    requires
        j@ is Object,
    ensures
        opt_origin_view(r) == entry_origin(section, j@->Object_0),
{
    match section {
        Section::HearthMemories => {
            let keys: Vec<&'static str> = vec!["id", "memory_id"];
            assert(names_view(keys@) =~= seq!["id"@, "memory_id"@]);
            Some(hearth_origin(j, HearthKind::Memory, &keys))
        },
        Section::HearthIntents => {
            let keys: Vec<&'static str> = vec!["id"];
            assert(names_view(keys@) =~= seq!["id"@]);
            Some(hearth_origin(j, HearthKind::Intent, &keys))
        },
        _ => None,
    }
}

/// Reads an item of a section.
fn read_entry(section: Section, j: &Json) -> (r: Result<ImportedMemory, String>)
    ensures
        match r {
            Ok(m) => entry_in(section, j@) == Ok::<EntryView, Seq<char>>(m@),
            Err(reason) => entry_in(section, j@) == Err::<EntryView, Seq<char>>(reason@),
        },
{
    if !j.is_object() {
        return Err(copy_of("not a JSON object"));
    }
    let content = read_text(section, j);
    if content.as_str().is_empty() {
        return Err(copy_of(reason_of(section)));
    }
    let (tags, importance) = match section {
        Section::HermesMemories => (
            string_list(j.get("labels")),
            importance_from(j.get("weight")),
        ),
        _ => (string_list(j.get("tags")), importance_from(j.get("importance"))),
    };
    Ok(
        ImportedMemory {
            content,
            tags,
            importance_hint: importance,
            origin: read_origin(section, j),
        },
    )
}

/// A bundle with the memories of a list added.
pub open spec fn with_entries(b: BundleView, section: Section, value: Option<Tree>) -> BundleView {
    match list_of(value) {
        Some(items) => BundleView {
            memories: b.memories + entries_in(section, items, items.len()),
            warnings: b.warnings + entry_warnings(section, items, items.len()),
            ..b
        },
        None => b,
    }
}

/// Adds the memories of a list to a bundle.
fn collect_entries(section: Section, value: Option<&Json>, bundle: &mut ImportedBundle)
    ensures
        final(bundle)@ == with_entries(old(bundle)@, section, opt_tree(value)),
{
    let ghost start = bundle@;
    let j = match value {
        Some(j) => j,
        None => {
            return;
        },
    };
    let items = match j {
        Json::List(items) => items,
        _ => {
            return;
        },
    };
    let ghost all = j@->List_0;
    let mut i: usize = 0;
    assert(start.memories + entries_in(section, all, 0) =~= start.memories);
    assert(start.warnings + entry_warnings(section, all, 0) =~= start.warnings);
    while i < items.len()
        invariant
            i <= items@.len(),
            *j == Json::List(*items),
            all == j@->List_0,
            bundle@ == (BundleView {
                memories: start.memories + entries_in(section, all, i as nat),
                warnings: start.warnings + entry_warnings(section, all, i as nat),
                ..start
            }),
        decreases items@.len() - i,
    {
        assert(all[i as int] == items@[i as int]@);
        let ghost memories = bundle.memories@;
        let ghost warnings = bundle.warnings@;
        match read_entry(section, &items[i]) {
            Ok(m) => {
                let ghost v = m@;
                bundle.memories.push(m);
                proof {
                    assert(entries_view(bundle.memories@) =~= entries_view(memories).push(v));
                    assert(bundle@.memories =~= start.memories + entries_in(
                        section,
                        all,
                        (i + 1) as nat,
                    ));
                }
            },
            Err(reason) => {
                let warning = concat5(
                    "skipped ",
                    label_of(section),
                    "[",
                    decimal_text(i as u64).as_str(),
                    "]: ",
                );
                let full = concat2(warning.as_str(), reason.as_str());
                let ghost v = full@;
                bundle.warnings.push(full);
                proof {
                    assert(v == skip_warning(section_label(section), i as nat, reason@));
                    assert(views(bundle.warnings@) =~= views(warnings).push(v));
                    assert(bundle@.warnings =~= start.warnings + entry_warnings(
                        section,
                        all,
                        (i + 1) as nat,
                    ));
                }
            },
        }
        i += 1;
    }
}

// ---------------------------------------------------------------------------
// Skills
// ---------------------------------------------------------------------------

/// A list of skills in an export.
#[derive(Debug, Clone, Copy, PartialEq, Eq, Structural)]
pub enum SkillSection {
    OpenClawSkills,
    HermesAbilities,
}

/// What an item of the list is called in warnings.
pub open spec fn skill_label(section: SkillSection) -> Seq<char> {
    match section {
        SkillSection::OpenClawSkills => "skill"@,
        SkillSection::HermesAbilities => "ability"@,
    }
}

/// The skill that an item is, or why it is left out.
pub open spec fn skill_in(section: SkillSection, item: Tree) -> Result<SkillView, Seq<char>> {
    match item {
        Tree::Object(m) => {
            let name = match section {
                SkillSection::OpenClawSkills => trimmed_text(member(m, "name"@)),
                SkillSection::HermesAbilities => trimmed_text(either_member(m, "id"@, "name"@)),
            };
            let (about, rights) = match section {
                SkillSection::OpenClawSkills => ("description"@, "permissions"@),
                SkillSection::HermesAbilities => ("summary"@, "scopes"@),
            };
            if name.len() == 0 {
                Err(
                    match section {
                        SkillSection::OpenClawSkills => "missing name"@,
                        SkillSection::HermesAbilities => "missing id/name"@,
                    },
                )
            } else {
                Ok(
                    SkillView {
                        name,
                        description: match text_of(member(m, about)) {
                            Some(s) => s,
                            None => Seq::empty(),
                        },
                        declared: strings_in(member(m, rights)),
                    },
                )
            }
        },
        _ => Err("not a JSON object"@),
    }
}

/// The skills among the first `n` items.
pub open spec fn skills_in(section: SkillSection, items: Seq<Tree>, n: nat) -> Seq<SkillView>
    decreases n,
{
    if n == 0 {
        Seq::empty()
    } else {
        let before = skills_in(section, items, (n - 1) as nat);
        match skill_in(section, items[n - 1]) {
            Ok(s) => before.push(s),
            Err(_) => before,
        }
    }
}

/// The warnings of the first `n` items.
pub open spec fn skill_warnings(section: SkillSection, items: Seq<Tree>, n: nat) -> Seq<Seq<char>>
    decreases n,
{
    if n == 0 {
        Seq::empty()
    } else {
        let before = skill_warnings(section, items, (n - 1) as nat);
        match skill_in(section, items[n - 1]) {
            Ok(_) => before,
            Err(reason) => before.push(skip_warning(skill_label(section), (n - 1) as nat, reason)),
        }
    }
}

/// Reads an item of a list of skills.
fn read_skill(section: SkillSection, j: &Json) -> (r: Result<ImportedSkill, String>)
    ensures
        match r {
            Ok(s) => skill_in(section, j@) == Ok::<SkillView, Seq<char>>(s@),
            Err(reason) => skill_in(section, j@) == Err::<SkillView, Seq<char>>(reason@),
        },
{
    if !j.is_object() {
        return Err(copy_of("not a JSON object"));
    }
    match section {
        SkillSection::OpenClawSkills => {
            let name = read_trimmed(j.get("name"));
            if name.as_str().is_empty() {
                return Err(copy_of("missing name"));
            }
            let description = match read_opt_text(j.get("description")) {
                Some(s) => s,
                None => String::new(),
            };
            Ok(
                ImportedSkill {
                    name,
                    description,
                    declared_permissions: string_list(j.get("permissions")),
                },
            )
        },
        SkillSection::HermesAbilities => {
            let name = read_trimmed(get_either(j, "id", "name"));
            if name.as_str().is_empty() {
                return Err(copy_of("missing id/name"));
            }
            let description = match read_opt_text(j.get("summary")) {
                Some(s) => s,
                None => String::new(),
            };
            Ok(
                ImportedSkill {
                    name,
                    description,
                    declared_permissions: string_list(j.get("scopes")),
                },
            )
        },
    }
}

/// A bundle with the skills of a list added.
pub open spec fn with_skills(
    b: BundleView,
    section: SkillSection,
    value: Option<Tree>,
) -> BundleView {
    match list_of(value) {
        Some(items) => BundleView {
            skills: b.skills + skills_in(section, items, items.len()),
            warnings: b.warnings + skill_warnings(section, items, items.len()),
            ..b
        },
        None => b,
    }
}

/// Adds the skills of a list to a bundle.
fn collect_skills(section: SkillSection, value: Option<&Json>, bundle: &mut ImportedBundle)
    ensures
        final(bundle)@ == with_skills(old(bundle)@, section, opt_tree(value)),
{
    let ghost start = bundle@;
    let j = match value {
        Some(j) => j,
        None => {
            return;
        },
    };
    let items = match j {
        Json::List(items) => items,
        _ => {
            return;
        },
    };
    let ghost all = j@->List_0;
    let label = match section {
        SkillSection::OpenClawSkills => "skill",
        SkillSection::HermesAbilities => "ability",
    };
    let mut i: usize = 0;
    assert(start.skills + skills_in(section, all, 0) =~= start.skills);
    assert(start.warnings + skill_warnings(section, all, 0) =~= start.warnings);
    while i < items.len()
        invariant
            i <= items@.len(),
            *j == Json::List(*items),
            all == j@->List_0,
            label@ == skill_label(section),
            bundle@ == (BundleView {
                skills: start.skills + skills_in(section, all, i as nat),
                warnings: start.warnings + skill_warnings(section, all, i as nat),
                ..start
            }),
        decreases items@.len() - i,
    {
        assert(all[i as int] == items@[i as int]@);
        let ghost skills = bundle.skills@;
        let ghost warnings = bundle.warnings@;
        match read_skill(section, &items[i]) {
            Ok(s) => {
                let ghost v = s@;
                bundle.skills.push(s);
                proof {
                    assert(skills_view(bundle.skills@) =~= skills_view(skills).push(v));
                    assert(bundle@.skills =~= start.skills + skills_in(
                        section,
                        all,
                        (i + 1) as nat,
                    ));
                }
            },
            Err(reason) => {
                let warning = concat5(
                    "skipped ",
                    label,
                    "[",
                    decimal_text(i as u64).as_str(),
                    "]: ",
                );
                let full = concat2(warning.as_str(), reason.as_str());
                let ghost v = full@;
                bundle.warnings.push(full);
                proof {
                    assert(v == skip_warning(skill_label(section), i as nat, reason@));
                    assert(views(bundle.warnings@) =~= views(warnings).push(v));
                    assert(bundle@.warnings =~= start.warnings + skill_warnings(
                        section,
                        all,
                        (i + 1) as nat,
                    ));
                }
            },
        }
        i += 1;
    }
}

// ---------------------------------------------------------------------------
// States and settings
// ---------------------------------------------------------------------------

/// The memory of an agent's state.
pub open spec fn state_entry(agent: Seq<char>, snapshot: Tree) -> EntryView {
    EntryView {
        content: "state snapshot for "@ + agent + ": "@ + compact(snapshot),
        tags: seq!["state_snapshot"@],
        importance: DEFAULT_IMPORTANCE@,
        origin: Some(
            OriginView {
                kind: HearthKind::State,
                agent: Some(agent),
                original_id: None,
                timestamp: None,
                identity_anchor: false,
            },
        ),
    }
}

/// The memories of the first `n` states.
pub open spec fn states_in(members: Seq<(Seq<char>, Tree)>, n: nat) -> Seq<EntryView>
    decreases n,
{
    if n == 0 {
        Seq::empty()
    } else {
        let before = states_in(members, (n - 1) as nat);
        if members[n - 1].1 is Null {
            before
        } else {
            before.push(state_entry(members[n - 1].0, members[n - 1].1))
        }
    }
}

/// The warnings of the first `n` states.
pub open spec fn state_warnings(members: Seq<(Seq<char>, Tree)>, n: nat) -> Seq<Seq<char>>
    decreases n,
{
    if n == 0 {
        Seq::empty()
    } else {
        let before = state_warnings(members, (n - 1) as nat);
        if members[n - 1].1 is Null {
            before.push("skipped state["@ + members[n - 1].0 + "]: null snapshot"@)
        } else {
            before
        }
    }
}

/// A bundle with the states of agents added.
pub open spec fn with_states(b: BundleView, value: Option<Tree>) -> BundleView {
    match object_of(value) {
        Some(members) => BundleView {
            memories: b.memories + states_in(members, members.len()),
            warnings: b.warnings + state_warnings(members, members.len()),
            ..b
        },
        None => b,
    }
}

/// Adds the states of agents to a bundle. Nothing of a state is lost: it is kept as JSON
/// text.
fn collect_hearth_state(value: Option<&Json>, bundle: &mut ImportedBundle)
    ensures
        final(bundle)@ == with_states(old(bundle)@, opt_tree(value)),
{
    let ghost start = bundle@;
    let j = match value {
        Some(j) => j,
        None => {
            return;
        },
    };
    let members = match j {
        Json::Object(members) => members,
        _ => {
            return;
        },
    };
    let ghost all = j@->Object_0;
    let mut i: usize = 0;
    assert(start.memories + states_in(all, 0) =~= start.memories);
    assert(start.warnings + state_warnings(all, 0) =~= start.warnings);
    while i < members.len()
        invariant
            i <= members@.len(),
            *j == Json::Object(*members),
            all == j@->Object_0,
            bundle@ == (BundleView {
                memories: start.memories + states_in(all, i as nat),
                warnings: start.warnings + state_warnings(all, i as nat),
                ..start
            }),
        decreases members@.len() - i,
    {
        assert(all[i as int] == (members@[i as int].0@, members@[i as int].1@));
        let ghost memories = bundle.memories@;
        let ghost warnings = bundle.warnings@;
        let agent = members[i].0.as_str();
        let is_null = match &members[i].1 {
            Json::Null => true,
            _ => false,
        };
        if is_null {
            let warning = concat3("skipped state[", agent, "]: null snapshot");
            let ghost v = warning@;
            bundle.warnings.push(warning);
            proof {
                assert(views(bundle.warnings@) =~= views(warnings).push(v));
                assert(bundle@.warnings =~= start.warnings + state_warnings(all, (i + 1) as nat));
            }
        } else {
            let tags: Vec<String> = vec![copy_of("state_snapshot")];
            assert(views(tags@) =~= seq!["state_snapshot"@]);
            let entry = ImportedMemory {
                content: concat4(
                    "state snapshot for ",
                    agent,
                    ": ",
                    members[i].1.to_text().as_str(),
                ),
                tags,
                importance_hint: Weight::of(DEFAULT_IMPORTANCE),
                origin: Some(
                    HearthOrigin {
                        kind: HearthKind::State,
                        agent: Some(copy_of(agent)),
                        original_id: None,
                        timestamp: None,
                        identity_anchor: false,
                    },
                ),
            };
            let ghost v = entry@;
            bundle.memories.push(entry);
            proof {
                assert(v == state_entry(all[i as int].0, all[i as int].1));
                assert(entries_view(bundle.memories@) =~= entries_view(memories).push(v));
                assert(bundle@.memories =~= start.memories + states_in(all, (i + 1) as nat));
            }
        }
        i += 1;
    }
}

/// The hint of a setting: a string is itself, anything else its JSON text.
pub open spec fn hint_of(value: Tree) -> Seq<char> {
    match value {
        Tree::Text(s) => s,
        _ => compact(value),
    }
}

/// The hints of the first `n` settings.
pub open spec fn hints_in(members: Seq<(Seq<char>, Tree)>, n: nat) -> Seq<(Seq<char>, Seq<char>)>
    decreases n,
{
    if n == 0 {
        Seq::empty()
    } else {
        hints_in(members, (n - 1) as nat).push((members[n - 1].0, hint_of(members[n - 1].1)))
    }
}

/// A bundle with the hints of settings added.
pub open spec fn with_hints(b: BundleView, value: Option<Tree>) -> BundleView {
    match object_of(value) {
        Some(members) => BundleView {
            config_hints: b.config_hints + hints_in(members, members.len()),
            ..b
        },
        None => b,
    }
}

/// Adds the hints of settings to a bundle.
fn collect_config_hints(value: Option<&Json>, bundle: &mut ImportedBundle)
    ensures
        final(bundle)@ == with_hints(old(bundle)@, opt_tree(value)),
{
    let ghost start = bundle@;
    let j = match value {
        Some(j) => j,
        None => {
            return;
        },
    };
    let members = match j {
        Json::Object(members) => members,
        _ => {
            return;
        },
    };
    let ghost all = j@->Object_0;
    let mut i: usize = 0;
    assert(start.config_hints + hints_in(all, 0) =~= start.config_hints);
    while i < members.len()
        invariant
            i <= members@.len(),
            *j == Json::Object(*members),
            all == j@->Object_0,
            bundle@ == (BundleView {
                config_hints: start.config_hints + hints_in(all, i as nat),
                ..start
            }),
        decreases members@.len() - i,
    {
        assert(all[i as int] == (members@[i as int].0@, members@[i as int].1@));
        let ghost hints = bundle.config_hints@;
        let rendered = match &members[i].1 {
            Json::Text(s) => copy_of(s.as_str()),
            other => other.to_text(),
        };
        let ghost v = (all[i as int].0, rendered@);
        bundle.config_hints.push((copy_of(members[i].0.as_str()), rendered));
        proof {
            assert(hints_view(bundle.config_hints@) =~= hints_view(hints).push(v));
            assert(bundle@.config_hints =~= start.config_hints + hints_in(all, (i + 1) as nat));
        }
        i += 1;
    }
}

// ---------------------------------------------------------------------------
// Exports
// ---------------------------------------------------------------------------

/// The bundle of an `OpenClaw` export with these members.
pub open spec fn openclaw_bundle(m: Seq<(Seq<char>, Tree)>) -> BundleView {
    let b = empty_bundle(ImportSource::OpenClaw);
    let b = with_entries(b, Section::OpenClawMemories, member(m, "memories"@));
    let b = with_skills(b, SkillSection::OpenClawSkills, member(m, "skills"@));
    with_hints(b, member(m, "config"@))
}

/// The members of a Hermes export that count: those under `agent`, or, where that is no
/// object, its own.
pub open spec fn hermes_scope(m: Seq<(Seq<char>, Tree)>) -> Seq<(Seq<char>, Tree)> {
    match object_of(member(m, "agent"@)) {
        Some(inner) => inner,
        None => m,
    }
}

/// The bundle of a Hermes export with these members.
pub open spec fn hermes_bundle(m: Seq<(Seq<char>, Tree)>) -> BundleView {
    let scope = hermes_scope(m);
    let b = empty_bundle(ImportSource::Hermes);
    let b = with_entries(b, Section::HermesMemories, member(scope, "memory"@));
    let b = with_skills(b, SkillSection::HermesAbilities, member(scope, "abilities"@));
    with_hints(b, member(scope, "settings"@))
}

/// The bundle of a Hearth export with these members.
pub open spec fn hearth_bundle(m: Seq<(Seq<char>, Tree)>) -> BundleView {
    let b = empty_bundle(ImportSource::FamilyHearth);
    let b = with_entries(b, Section::HearthMemories, member(m, "memory"@));
    let b = with_entries(b, Section::HearthIntents, member(m, "intents"@));
    let b = with_states(b, member(m, "state"@));
    with_hints(b, member(m, "settings"@))
}

/// What an export of a source is called in errors.
pub open spec fn export_name(source: ImportSource) -> Seq<char> {
    match source {
        ImportSource::OpenClaw => "openclaw"@,
        ImportSource::Hermes => "hermes"@,
        ImportSource::FamilyHearth => "hearth"@,
    }
}

/// The bundle of an export with these members.
pub open spec fn bundle_of(source: ImportSource, m: Seq<(Seq<char>, Tree)>) -> BundleView {
    match source {
        ImportSource::OpenClaw => openclaw_bundle(m),
        ImportSource::Hermes => hermes_bundle(m),
        ImportSource::FamilyHearth => hearth_bundle(m),
    }
}

/// What an export gives, given what reading it as JSON gave: the bundle of an object, and an
/// error for everything else.
pub open spec fn import_of(source: ImportSource, read: Result<Tree, Seq<char>>) -> Result<
    BundleView,
    Seq<char>,
> {
    match read {
        Err(e) => Err(export_name(source) + " export is not valid JSON: "@ + e),
        Ok(Tree::Object(m)) => Ok(bundle_of(source, m)),
        Ok(_) => Err(export_name(source) + " export root must be a JSON object"@),
    }
}

/// `r` is what an import gave.
pub open spec fn is_import(
    r: Result<ImportedBundle, ImportError>,
    want: Result<BundleView, Seq<char>>,
) -> bool {
    match r {
        Ok(b) => want == Ok::<BundleView, Seq<char>>(b@),
        Err(e) => e is Parse && want == Err::<BundleView, Seq<char>>(e->Parse_0@),
    }
}

fn name_of(source: ImportSource) -> (r: &'static str)
    ensures
        r@ == export_name(source),
{
    match source {
        ImportSource::OpenClaw => "openclaw",
        ImportSource::Hermes => "hermes",
        ImportSource::FamilyHearth => "hearth",
    }
}

/// The bundle of an export, given what reading it as JSON gave.
pub fn bundle_from(source: ImportSource, read: Result<Json, String>) -> (r: Result<
    ImportedBundle,
    ImportError,
>)
    ensures
        is_import(
            r,
            import_of(
                source,
                match read {
                    Ok(j) => Ok(j@),
                    Err(e) => Err(e@),
                },
            ),
        ),
{
    let root = match read {
        Ok(j) => j,
        Err(e) => {
            return Err(
                ImportError::Parse(
                    concat3(name_of(source), " export is not valid JSON: ", e.as_str()),
                ),
            );
        },
    };
    if !root.is_object() {
        return Err(
            ImportError::Parse(concat2(name_of(source), " export root must be a JSON object")),
        );
    }
    let mut bundle = ImportedBundle::empty(source);
    match source {
        ImportSource::OpenClaw => {
            collect_entries(Section::OpenClawMemories, root.get("memories"), &mut bundle);
            collect_skills(SkillSection::OpenClawSkills, root.get("skills"), &mut bundle);
            collect_config_hints(root.get("config"), &mut bundle);
        },
        ImportSource::Hermes => {
            let scope: &Json = match root.get("agent") {
                Some(inner) => if inner.is_object() {
                    inner
                } else {
                    &root
                },
                None => &root,
            };
            assert(scope@ == Tree::Object(hermes_scope(root@->Object_0)));
            collect_entries(Section::HermesMemories, scope.get("memory"), &mut bundle);
            collect_skills(SkillSection::HermesAbilities, scope.get("abilities"), &mut bundle);
            collect_config_hints(scope.get("settings"), &mut bundle);
        },
        ImportSource::FamilyHearth => {
            collect_entries(Section::HearthMemories, root.get("memory"), &mut bundle);
            collect_entries(Section::HearthIntents, root.get("intents"), &mut bundle);
            collect_hearth_state(root.get("state"), &mut bundle);
            collect_config_hints(root.get("settings"), &mut bundle);
        },
    }
    Ok(bundle)
}

/// Reads an `OpenClaw` export: an object with `memories` (`text` or `content`, `tags`,
/// `importance`), `skills` (`name`, `description`, `permissions`) and `config`. What is
/// unknown is ignored; what is malformed is left out with a warning.
pub fn from_openclaw(raw: &str) -> (r: Result<ImportedBundle, ImportError>)
    ensures
        is_import(r, import_of(ImportSource::OpenClaw, json_read(raw@))),
{
    bundle_from(ImportSource::OpenClaw, crate::json::parse(raw))
}

/// Reads a Hermes export: an object, or one under `agent`, with `memory` (`value` or `text`,
/// `labels`, `weight`), `abilities` (`id` or `name`, `summary`, `scopes`) and `settings`.
pub fn from_hermes(raw: &str) -> (r: Result<ImportedBundle, ImportError>)
    ensures
        is_import(r, import_of(ImportSource::Hermes, json_read(raw@))),
{
    bundle_from(ImportSource::Hermes, crate::json::parse(raw))
}

/// Reads an export of the Hearth: an object with `memory` (`content` or `text`), `intents`
/// (`intent`, `content` or `text`), each with `agent`, an identifier, `timestamp` and
/// `identity_anchor`, `state` by agent, and `settings`.
pub fn from_family_hearth(raw: &str) -> (r: Result<ImportedBundle, ImportError>)
    ensures
        is_import(r, import_of(ImportSource::FamilyHearth, json_read(raw@))),
{
    bundle_from(ImportSource::FamilyHearth, crate::json::parse(raw))
}

/// Reads an export of the given source.
pub fn parse_bundle(source: ImportSource, raw: &str) -> (r: Result<ImportedBundle, ImportError>)
    ensures
        is_import(r, import_of(source, json_read(raw@))),
{
    match source {
        ImportSource::OpenClaw => from_openclaw(raw),
        ImportSource::Hermes => from_hermes(raw),
        ImportSource::FamilyHearth => from_family_hearth(raw),
    }
}

// ---------------------------------------------------------------------------
// Laws
// ---------------------------------------------------------------------------

/// Every item of a list is either imported or warned about.
pub proof fn law_nothing_is_dropped_in_silence(section: Section, items: Seq<Tree>, n: nat)
    requires
        n <= items.len(),
    ensures
        entries_in(section, items, n).len() + entry_warnings(section, items, n).len() == n,
    decreases n,
{
    if n > 0 {
        law_nothing_is_dropped_in_silence(section, items, (n - 1) as nat);
    }
}

/// Every skill of a list is either imported or warned about.
pub proof fn law_no_skill_is_dropped_in_silence(section: SkillSection, items: Seq<Tree>, n: nat)
    requires
        n <= items.len(),
    ensures
        skills_in(section, items, n).len() + skill_warnings(section, items, n).len() == n,
    decreases n,
{
    if n > 0 {
        law_no_skill_is_dropped_in_silence(section, items, (n - 1) as nat);
    }
}

/// An imported memory has a text, which neither begins nor ends with white space.
pub proof fn law_imported_memories_have_a_text(section: Section, item: Tree)
    requires
        entry_in(section, item) is Ok,
    ensures
        entry_in(section, item)->Ok_0.content.len() > 0,
{
}

/// Foreign runtimes never give an entry an origin in the Hearth, and so never an identity
/// anchor.
pub proof fn law_foreign_entries_are_no_anchors(section: Section, items: Seq<Tree>, n: nat)
    requires
        section == Section::OpenClawMemories || section == Section::HermesMemories,
        n <= items.len(),
    ensures
        forall|i: int|
            0 <= i < entries_in(section, items, n).len() ==> (#[trigger] entries_in(
                section,
                items,
                n,
            )[i]).origin is None,
    decreases n,
{
    if n > 0 {
        law_foreign_entries_are_no_anchors(section, items, (n - 1) as nat);
    }
}

/// An export of the Hearth has no skills.
pub proof fn law_hearth_has_no_skills(m: Seq<(Seq<char>, Tree)>)
    ensures
        hearth_bundle(m).skills == Seq::<SkillView>::empty(),
{
}

/// Members with names that a source does not know make no difference.
pub proof fn law_unknown_members_are_ignored(
    m: Seq<(Seq<char>, Tree)>,
    name: Seq<char>,
    value: Tree,
)
    requires
        name != "memories"@,
        name != "skills"@,
        name != "config"@,
    ensures
        openclaw_bundle(seq![(name, value)] + m) == openclaw_bundle(m),
{
    let longer = seq![(name, value)] + m;
    assert(longer.drop_first() =~= m);
    assert(member(longer, "memories"@) == member(m, "memories"@));
    assert(member(longer, "skills"@) == member(m, "skills"@));
    assert(member(longer, "config"@) == member(m, "config"@));
}

// ---------------------------------------------------------------------------
// What an import is for
// ---------------------------------------------------------------------------

/// The value is a list of strings, and these are its strings.
pub open spec fn is_list_of(value: Option<Tree>, texts: Seq<Seq<char>>) -> bool {
    value is Some && value->Some_0 is List && value->Some_0->List_0.len() == texts.len()
        && forall|i: int|
        0 <= i < texts.len() ==> value->Some_0->List_0[i] == Tree::Text(#[trigger] texts[i])
}

proof fn lemma_list_of(value: Option<Tree>, texts: Seq<Seq<char>>)
    requires
        is_list_of(value, texts),
    ensures
        strings_in(value) == texts,
{
    lemma_texts_in(value->Some_0->List_0, texts);
}

proof fn lemma_texts_in(items: Seq<Tree>, texts: Seq<Seq<char>>)
    requires
        items.len() == texts.len(),
        forall|i: int| 0 <= i < texts.len() ==> items[i] == Tree::Text(#[trigger] texts[i]),
    ensures
        texts_in(items) == texts,
    decreases items.len(),
{
    if items.len() > 0 {
        let rest = texts.drop_last();
        assert forall|i: int| 0 <= i < rest.len() implies items.drop_last()[i] == Tree::Text(
            #[trigger] rest[i],
        ) by {
            assert(rest[i] == texts[i]);
        }
        lemma_texts_in(items.drop_last(), rest);
        assert(items.last() == Tree::Text(texts[texts.len() - 1]));
        assert(rest.push(texts.last()) =~= texts);
    } else {
        assert(texts =~= Seq::<Seq<char>>::empty());
    }
}

/// A memory of an `OpenClaw` export comes over with its text, its tags in their order and its
/// importance. Its text stands under `text`, or, where there is none, under `content`.
pub proof fn law_openclaw_memory_comes_over(
    m: Seq<(Seq<char>, Tree)>,
    text: Seq<char>,
    tags: Seq<Seq<char>>,
    importance: Seq<char>,
)
    requires
        member(m, "text"@) == Some(Tree::Text(text)) || member(m, "text"@) is None && member(
            m,
            "content"@,
        ) == Some(Tree::Text(text)),
        trimmed(text).len() > 0,
        is_list_of(member(m, "tags"@), tags),
        member(m, "importance"@) == Some(Tree::Number(importance)),
        in_unit(importance),
    ensures
        entry_in(Section::OpenClawMemories, Tree::Object(m)) is Ok,
        ({
            let e = entry_in(Section::OpenClawMemories, Tree::Object(m))->Ok_0;
            e.content == trimmed(text) && e.tags == tags && e.importance == importance
        }),
{
    lemma_list_of(member(m, "tags"@), tags);
}

/// A memory of a Hermes export comes over with its text, its labels in their order and its
/// weight. Its text stands under `value`, or, where there is none, under `text`.
pub proof fn law_hermes_memory_comes_over(
    m: Seq<(Seq<char>, Tree)>,
    text: Seq<char>,
    labels: Seq<Seq<char>>,
    weight: Seq<char>,
)
    requires
        member(m, "value"@) == Some(Tree::Text(text)) || member(m, "value"@) is None && member(
            m,
            "text"@,
        ) == Some(Tree::Text(text)),
        trimmed(text).len() > 0,
        is_list_of(member(m, "labels"@), labels),
        member(m, "weight"@) == Some(Tree::Number(weight)),
        in_unit(weight),
    ensures
        entry_in(Section::HermesMemories, Tree::Object(m)) is Ok,
        ({
            let e = entry_in(Section::HermesMemories, Tree::Object(m))->Ok_0;
            e.content == trimmed(text) && e.tags == labels && e.importance == weight
        }),
{
    lemma_list_of(member(m, "labels"@), labels);
}

/// The importance of an entry that declares none, or declares what is no number, is the
/// default.
pub proof fn law_importance_is_optional(section: Section, m: Seq<(Seq<char>, Tree)>)
    requires
        entry_in(section, Tree::Object(m)) is Ok,
        section == Section::HermesMemories ==> !(member(m, "weight"@) matches Some(
            Tree::Number(_),
        )),
        section != Section::HermesMemories ==> !(member(m, "importance"@) matches Some(
            Tree::Number(_),
        )),
    ensures
        entry_in(section, Tree::Object(m))->Ok_0.importance == DEFAULT_IMPORTANCE@,
{
}

/// A string is kept as it is.
pub open spec fn is_kept(value: Option<Tree>, kept: Option<Seq<char>>) -> bool {
    value is Some && value->Some_0 is Text ==> kept == Some(value->Some_0->Text_0)
}

/// The entry comes over from the Hearth as it is there: with its text, its tags in their order,
/// and where it stood.
pub open spec fn comes_from_the_hearth(
    e: EntryView,
    m: Seq<(Seq<char>, Tree)>,
    kind: HearthKind,
    text: Seq<char>,
    tags: Seq<Seq<char>>,
) -> bool {
    &&& e.content == trimmed(text)
    &&& e.tags == tags
    &&& e.origin is Some
    &&& e.origin->Some_0.kind == kind
    &&& e.origin->Some_0.identity_anchor <==> member(m, "identity_anchor"@) == Some(
        Tree::Bool(true),
    )
    &&& is_kept(member(m, "agent"@), e.origin->Some_0.agent)
    &&& is_kept(member(m, "id"@), e.origin->Some_0.original_id)
    &&& is_kept(member(m, "timestamp"@), e.origin->Some_0.timestamp)
}

/// A memory of the Hearth comes over with all that it says. Its text stands under `content`, or,
/// where that is no string, under `text`.
pub proof fn law_hearth_memory_comes_over(
    m: Seq<(Seq<char>, Tree)>,
    text: Seq<char>,
    tags: Seq<Seq<char>>,
)
    requires
        member(m, "content"@) == Some(Tree::Text(text)) || member(m, "content"@) is None
            && member(m, "text"@) == Some(Tree::Text(text)),
        trimmed(text).len() > 0,
        is_list_of(member(m, "tags"@), tags),
    ensures
        entry_in(Section::HearthMemories, Tree::Object(m)) is Ok,
        comes_from_the_hearth(
            entry_in(Section::HearthMemories, Tree::Object(m))->Ok_0,
            m,
            HearthKind::Memory,
            text,
            tags,
        ),
{
    lemma_list_of(member(m, "tags"@), tags);
    reveal_with_fuel(first_text, 3);
    let keys = seq!["content"@, "text"@];
    assert(keys.drop_first()[0] == "text"@);
    let ids = seq!["id"@, "memory_id"@];
    assert(ids[0] == "id"@);
}

/// An intent of the Hearth comes over with all that it says. Its text stands under `intent`, or,
/// where that is no string, under `content`, or else under `text`.
pub proof fn law_hearth_intent_comes_over(
    m: Seq<(Seq<char>, Tree)>,
    text: Seq<char>,
    tags: Seq<Seq<char>>,
)
    requires
        member(m, "intent"@) == Some(Tree::Text(text)) || member(m, "intent"@) is None && (member(
            m,
            "content"@,
        ) == Some(Tree::Text(text)) || member(m, "content"@) is None && member(m, "text"@) == Some(
            Tree::Text(text),
        )),
        trimmed(text).len() > 0,
        is_list_of(member(m, "tags"@), tags),
    ensures
        entry_in(Section::HearthIntents, Tree::Object(m)) is Ok,
        comes_from_the_hearth(
            entry_in(Section::HearthIntents, Tree::Object(m))->Ok_0,
            m,
            HearthKind::Intent,
            text,
            tags,
        ),
{
    lemma_list_of(member(m, "tags"@), tags);
    reveal_with_fuel(first_text, 4);
    let keys = seq!["intent"@, "content"@, "text"@];
    assert(keys.drop_first()[0] == "content"@);
    assert(keys.drop_first().drop_first()[0] == "text"@);
    let ids = seq!["id"@];
    assert(ids[0] == "id"@);
}

/// The state of an agent comes over as a memory that names the agent and holds its state as
/// JSON text.
pub proof fn law_state_comes_over(agent: Seq<char>, snapshot: Tree)
    ensures
        occurs(agent, state_entry(agent, snapshot).content),
        compact(snapshot).is_suffix_of(state_entry(agent, snapshot).content),
        state_entry(agent, snapshot).content.len() > 0,
        state_entry(agent, snapshot).origin is Some,
        state_entry(agent, snapshot).origin->Some_0.agent == Some(agent),
        state_entry(agent, snapshot).origin->Some_0.kind == HearthKind::State,
        !state_entry(agent, snapshot).origin->Some_0.identity_anchor,
{
    reveal_strlit("state snapshot for ");
    let c = state_entry(agent, snapshot).content;
    let n = "state snapshot for "@.len() as int;
    assert(c.subrange(n, n + agent.len()) =~= agent);
    assert(occurs_at(agent, c, n));
    assert(c.subrange(c.len() - compact(snapshot).len(), c.len() as int) =~= compact(snapshot));
}

/// An entry without a text is left out, and so is what is no object.
pub proof fn law_only_entries_with_a_text_come_over(section: Section, item: Tree)
    ensures
        !(item is Object) ==> entry_in(section, item) is Err,
        item is Object && (forall|i: int|
            0 <= i < item->Object_0.len() ==> !((#[trigger] item->Object_0[i]).1 is Text))
            ==> entry_in(section, item) is Err,
        entry_in(section, item) is Ok ==> entry_in(section, item)->Ok_0.content.len() > 0,
{
    if item is Object && (forall|i: int|
        0 <= i < item->Object_0.len() ==> !((#[trigger] item->Object_0[i]).1 is Text)) {
        let m = item->Object_0;
        lemma_no_texts(m, "text"@);
        lemma_no_texts(m, "content"@);
        lemma_no_texts(m, "value"@);
        lemma_no_texts(m, "intent"@);
        reveal_with_fuel(first_text, 4);
        let two = seq!["content"@, "text"@];
        assert(two.drop_first()[0] == "text"@);
        assert(two.drop_first().drop_first().len() == 0);
        let three = seq!["intent"@, "content"@, "text"@];
        assert(three.drop_first()[0] == "content"@);
        assert(three.drop_first().drop_first()[0] == "text"@);
        assert(three.drop_first().drop_first().drop_first().len() == 0);
    }
}

proof fn lemma_no_texts(m: Seq<(Seq<char>, Tree)>, key: Seq<char>)
    requires
        forall|i: int| 0 <= i < m.len() ==> !((#[trigger] m[i]).1 is Text),
    ensures
        text_of(member(m, key)) is None,
    decreases m.len(),
{
    if m.len() > 0 {
        assert(!(m[0].1 is Text));
        assert forall|i: int| 0 <= i < m.drop_first().len() implies !((
        #[trigger] m.drop_first()[i]).1 is Text) by {
            assert(m.drop_first()[i] == m[i + 1]);
        }
        lemma_no_texts(m.drop_first(), key);
    }
}

/// The entries of a list come over in their order, each once: there are places in the list, in
/// rising order, whose items the entries are, and no other item is one.
pub proof fn law_entries_keep_their_order(section: Section, items: Seq<Tree>, n: nat) -> (from: Seq<
    int,
>)
    requires
        n <= items.len(),
    ensures
        from.len() == entries_in(section, items, n).len(),
        forall|i: int|
            0 <= i < from.len() ==> 0 <= #[trigger] from[i] < n && entry_in(
                section,
                items[from[i]],
            ) == Ok::<EntryView, Seq<char>>(entries_in(section, items, n)[i]),
        forall|i: int, j: int| 0 <= i < j < from.len() ==> #[trigger] from[i] < #[trigger] from[j],
        forall|k: int|
            0 <= k < n && entry_in(section, #[trigger] items[k]) is Ok ==> from.contains(k),
    decreases n,
{
    if n == 0 {
        Seq::empty()
    } else {
        let before = law_entries_keep_their_order(section, items, (n - 1) as nat);
        if entry_in(section, items[n - 1]) is Ok {
            let from = before.push(n - 1);
            assert(from[before.len() as int] == n - 1);
            assert forall|k: int|
                0 <= k < n && entry_in(section, #[trigger] items[k]) is Ok implies from.contains(
                k,
            ) by {
                if k < n - 1 {
                    let i = choose|i: int| 0 <= i < before.len() && before[i] == k;
                    assert(from[i] == k);
                }
            }
            from
        } else {
            before
        }
    }
}

/// An item that is left out is named in the warnings, by its place in the list.
pub proof fn law_what_is_left_out_is_named(section: Section, items: Seq<Tree>, n: nat, k: int) -> (w:
    int)
    requires
        0 <= k < n <= items.len(),
        entry_in(section, items[k]) is Err,
    ensures
        0 <= w < entry_warnings(section, items, n).len(),
        occurs(decimal(k as nat), entry_warnings(section, items, n)[w]),
        occurs(entry_in(section, items[k])->Err_0, entry_warnings(section, items, n)[w]),
    decreases n,
{
    let all = entry_warnings(section, items, n);
    if k == n - 1 {
        let w = all.len() - 1;
        let label = section_label(section);
        let reason = entry_in(section, items[k])->Err_0;
        let text = skip_warning(label, k as nat, reason);
        let number = decimal(k as nat);
        let at = ("skipped "@ + label + "["@).len() as int;
        assert(text.subrange(at, at + number.len()) =~= number);
        assert(occurs_at(number, text, at));
        let end = text.len() - reason.len();
        assert(text.subrange(end, end + reason.len()) =~= reason);
        assert(occurs_at(reason, text, end));
        assert(all[w] == text);
        w
    } else {
        let w = law_what_is_left_out_is_named(section, items, (n - 1) as nat, k);
        assert(all[w] == entry_warnings(section, items, (n - 1) as nat)[w]);
        w
    }
}

/// A skill of an `OpenClaw` export comes over with its name, its description and the permissions
/// that it declares.
pub proof fn law_openclaw_skill_comes_over(
    m: Seq<(Seq<char>, Tree)>,
    name: Seq<char>,
    description: Seq<char>,
    permissions: Seq<Seq<char>>,
)
    requires
        member(m, "name"@) == Some(Tree::Text(name)),
        trimmed(name).len() > 0,
        member(m, "description"@) == Some(Tree::Text(description)),
        is_list_of(member(m, "permissions"@), permissions),
    ensures
        skill_in(SkillSection::OpenClawSkills, Tree::Object(m)) is Ok,
        ({
            let s = skill_in(SkillSection::OpenClawSkills, Tree::Object(m))->Ok_0;
            s.name == trimmed(name) && s.description == description && s.declared == permissions
        }),
{
    lemma_list_of(member(m, "permissions"@), permissions);
}

/// An ability of a Hermes export comes over with its name, its summary and its scopes. Its name
/// stands under `id`, or, where there is none, under `name`.
pub proof fn law_hermes_ability_comes_over(
    m: Seq<(Seq<char>, Tree)>,
    name: Seq<char>,
    summary: Seq<char>,
    scopes: Seq<Seq<char>>,
)
    requires
        member(m, "id"@) == Some(Tree::Text(name)) || member(m, "id"@) is None && member(
            m,
            "name"@,
        ) == Some(Tree::Text(name)),
        trimmed(name).len() > 0,
        member(m, "summary"@) == Some(Tree::Text(summary)),
        is_list_of(member(m, "scopes"@), scopes),
    ensures
        skill_in(SkillSection::HermesAbilities, Tree::Object(m)) is Ok,
        ({
            let s = skill_in(SkillSection::HermesAbilities, Tree::Object(m))->Ok_0;
            s.name == trimmed(name) && s.description == summary && s.declared == scopes
        }),
{
    lemma_list_of(member(m, "scopes"@), scopes);
}

/// The skills of a list come over in their order, each once.
pub proof fn law_skills_keep_their_order(section: SkillSection, items: Seq<Tree>, n: nat) -> (from:
    Seq<int>)
    requires
        n <= items.len(),
    ensures
        from.len() == skills_in(section, items, n).len(),
        forall|i: int|
            0 <= i < from.len() ==> 0 <= #[trigger] from[i] < n && skill_in(
                section,
                items[from[i]],
            ) == Ok::<SkillView, Seq<char>>(skills_in(section, items, n)[i]),
        forall|i: int, j: int| 0 <= i < j < from.len() ==> #[trigger] from[i] < #[trigger] from[j],
        forall|k: int|
            0 <= k < n && skill_in(section, #[trigger] items[k]) is Ok ==> from.contains(k),
    decreases n,
{
    if n == 0 {
        Seq::empty()
    } else {
        let before = law_skills_keep_their_order(section, items, (n - 1) as nat);
        if skill_in(section, items[n - 1]) is Ok {
            let from = before.push(n - 1);
            assert(from[before.len() as int] == n - 1);
            assert forall|k: int|
                0 <= k < n && skill_in(section, #[trigger] items[k]) is Ok implies from.contains(
                k,
            ) by {
                if k < n - 1 {
                    let i = choose|i: int| 0 <= i < before.len() && before[i] == k;
                    assert(from[i] == k);
                }
            }
            from
        } else {
            before
        }
    }
}

/// A skill that is left out is named in the warnings, by its place in the list.
pub proof fn law_skill_that_is_left_out_is_named(
    section: SkillSection,
    items: Seq<Tree>,
    n: nat,
    k: int,
) -> (w: int)
    requires
        0 <= k < n <= items.len(),
        skill_in(section, items[k]) is Err,
    ensures
        0 <= w < skill_warnings(section, items, n).len(),
        occurs(decimal(k as nat), skill_warnings(section, items, n)[w]),
    decreases n,
{
    let all = skill_warnings(section, items, n);
    if k == n - 1 {
        let w = all.len() - 1;
        let label = skill_label(section);
        let text = skip_warning(label, k as nat, skill_in(section, items[k])->Err_0);
        let number = decimal(k as nat);
        let at = ("skipped "@ + label + "["@).len() as int;
        assert(text.subrange(at, at + number.len()) =~= number);
        assert(occurs_at(number, text, at));
        assert(all[w] == text);
        w
    } else {
        let w = law_skill_that_is_left_out_is_named(section, items, (n - 1) as nat, k);
        assert(all[w] == skill_warnings(section, items, (n - 1) as nat)[w]);
        w
    }
}

/// Every setting of an export is a hint, in the order of the settings.
pub proof fn law_settings_are_hints(members: Seq<(Seq<char>, Tree)>, n: nat)
    requires
        n <= members.len(),
    ensures
        hints_in(members, n).len() == n,
        forall|i: int|
            0 <= i < n ==> (#[trigger] hints_in(members, n)[i]).0 == members[i].0,
        forall|i: int|
            0 <= i < n && members[i].1 is Text ==> (#[trigger] hints_in(members, n)[i]).1
                == members[i].1->Text_0,
        forall|i: int|
            0 <= i < n && !(members[i].1 is Text) ==> (#[trigger] hints_in(members, n)[i]).1
                == compact(members[i].1),
    decreases n,
{
    if n > 0 {
        law_settings_are_hints(members, (n - 1) as nat);
    }
}

/// The states of the agents come over in their order; only those that are null are left out.
pub proof fn law_states_keep_their_order(members: Seq<(Seq<char>, Tree)>, n: nat) -> (from: Seq<
    int,
>)
    requires
        n <= members.len(),
    ensures
        from.len() == states_in(members, n).len(),
        forall|i: int|
            0 <= i < from.len() ==> 0 <= #[trigger] from[i] < n && states_in(members, n)[i]
                == state_entry(members[from[i]].0, members[from[i]].1),
        forall|i: int, j: int| 0 <= i < j < from.len() ==> #[trigger] from[i] < #[trigger] from[j],
        forall|k: int|
            0 <= k < n && !((#[trigger] members[k]).1 is Null) ==> from.contains(k),
    decreases n,
{
    if n == 0 {
        Seq::empty()
    } else {
        let before = law_states_keep_their_order(members, (n - 1) as nat);
        if !(members[n - 1].1 is Null) {
            let from = before.push(n - 1);
            assert(from[before.len() as int] == n - 1);
            assert forall|k: int|
                0 <= k < n && !((#[trigger] members[k]).1 is Null) implies from.contains(k) by {
                if k < n - 1 {
                    let i = choose|i: int| 0 <= i < before.len() && before[i] == k;
                    assert(from[i] == k);
                }
            }
            from
        } else {
            before
        }
    }
}

/// Each source is read where it keeps its things: `OpenClaw` under `memories`, `skills` and
/// `config`.
pub proof fn law_openclaw_is_read(
    m: Seq<(Seq<char>, Tree)>,
    memories: Seq<Tree>,
    skills: Seq<Tree>,
    config: Seq<(Seq<char>, Tree)>,
)
    requires
        member(m, "memories"@) == Some(Tree::List(memories)),
        member(m, "skills"@) == Some(Tree::List(skills)),
        member(m, "config"@) == Some(Tree::Object(config)),
    ensures
        ({
            let r = import_of(ImportSource::OpenClaw, Ok(Tree::Object(m)));
            &&& r is Ok
            &&& r->Ok_0.source == ImportSource::OpenClaw
            &&& r->Ok_0.memories == entries_in(Section::OpenClawMemories, memories, memories.len())
            &&& r->Ok_0.skills == skills_in(SkillSection::OpenClawSkills, skills, skills.len())
            &&& r->Ok_0.config_hints == hints_in(config, config.len())
            &&& r->Ok_0.warnings == entry_warnings(
                Section::OpenClawMemories,
                memories,
                memories.len(),
            ) + skill_warnings(SkillSection::OpenClawSkills, skills, skills.len())
        }),
{
    let r = import_of(ImportSource::OpenClaw, Ok(Tree::Object(m)))->Ok_0;
    assert(r.memories =~= entries_in(Section::OpenClawMemories, memories, memories.len()));
    assert(r.skills =~= skills_in(SkillSection::OpenClawSkills, skills, skills.len()));
    assert(r.config_hints =~= hints_in(config, config.len()));
}

/// Hermes is read under `memory`, `abilities` and `settings`, of the object under `agent` or,
/// where there is none, of the export itself.
pub proof fn law_hermes_is_read(
    m: Seq<(Seq<char>, Tree)>,
    scope: Seq<(Seq<char>, Tree)>,
    memories: Seq<Tree>,
    abilities: Seq<Tree>,
    settings: Seq<(Seq<char>, Tree)>,
)
    requires
        member(m, "agent"@) == Some(Tree::Object(scope)) || member(m, "agent"@) is None && scope
            == m,
        member(scope, "memory"@) == Some(Tree::List(memories)),
        member(scope, "abilities"@) == Some(Tree::List(abilities)),
        member(scope, "settings"@) == Some(Tree::Object(settings)),
    ensures
        ({
            let r = import_of(ImportSource::Hermes, Ok(Tree::Object(m)));
            &&& r is Ok
            &&& r->Ok_0.source == ImportSource::Hermes
            &&& r->Ok_0.memories == entries_in(Section::HermesMemories, memories, memories.len())
            &&& r->Ok_0.skills == skills_in(
                SkillSection::HermesAbilities,
                abilities,
                abilities.len(),
            )
            &&& r->Ok_0.config_hints == hints_in(settings, settings.len())
            &&& r->Ok_0.warnings == entry_warnings(
                Section::HermesMemories,
                memories,
                memories.len(),
            ) + skill_warnings(SkillSection::HermesAbilities, abilities, abilities.len())
        }),
{
    let r = import_of(ImportSource::Hermes, Ok(Tree::Object(m)))->Ok_0;
    assert(r.memories =~= entries_in(Section::HermesMemories, memories, memories.len()));
    assert(r.skills =~= skills_in(SkillSection::HermesAbilities, abilities, abilities.len()));
    assert(r.config_hints =~= hints_in(settings, settings.len()));
}

/// The Hearth is read under `memory`, `intents`, `state` and `settings`, and its entries come
/// over in this order.
pub proof fn law_hearth_is_read(
    m: Seq<(Seq<char>, Tree)>,
    memories: Seq<Tree>,
    intents: Seq<Tree>,
    states: Seq<(Seq<char>, Tree)>,
    settings: Seq<(Seq<char>, Tree)>,
)
    requires
        member(m, "memory"@) == Some(Tree::List(memories)),
        member(m, "intents"@) == Some(Tree::List(intents)),
        member(m, "state"@) == Some(Tree::Object(states)),
        member(m, "settings"@) == Some(Tree::Object(settings)),
    ensures
        ({
            let r = import_of(ImportSource::FamilyHearth, Ok(Tree::Object(m)));
            &&& r is Ok
            &&& r->Ok_0.source == ImportSource::FamilyHearth
            &&& r->Ok_0.memories == entries_in(Section::HearthMemories, memories, memories.len())
                + entries_in(Section::HearthIntents, intents, intents.len()) + states_in(
                states,
                states.len(),
            )
            &&& r->Ok_0.config_hints == hints_in(settings, settings.len())
            &&& r->Ok_0.warnings == entry_warnings(
                Section::HearthMemories,
                memories,
                memories.len(),
            ) + entry_warnings(Section::HearthIntents, intents, intents.len()) + state_warnings(
                states,
                states.len(),
            )
        }),
{
    let r = import_of(ImportSource::FamilyHearth, Ok(Tree::Object(m)))->Ok_0;
    assert(r.config_hints =~= hints_in(settings, settings.len()));
}

proof fn lemma_entries_have_a_text(section: Section, items: Seq<Tree>, n: nat)
    requires
        n <= items.len(),
    ensures
        forall|i: int|
            0 <= i < entries_in(section, items, n).len() ==> (#[trigger] entries_in(
                section,
                items,
                n,
            )[i]).content.len() > 0,
    decreases n,
{
    if n > 0 {
        lemma_entries_have_a_text(section, items, (n - 1) as nat);
    }
}

proof fn lemma_states_have_a_text(members: Seq<(Seq<char>, Tree)>, n: nat)
    requires
        n <= members.len(),
    ensures
        forall|i: int|
            0 <= i < states_in(members, n).len() ==> (#[trigger] states_in(
                members,
                n,
            )[i]).content.len() > 0,
    decreases n,
{
    if n > 0 {
        lemma_states_have_a_text(members, (n - 1) as nat);
        law_state_comes_over(members[n - 1].0, members[n - 1].1);
    }
}

/// No memory of any import is empty, whatever the export holds.
pub proof fn law_no_imported_memory_is_empty(source: ImportSource, read: Result<Tree, Seq<char>>)
    requires
        import_of(source, read) is Ok,
    ensures
        forall|i: int|
            0 <= i < import_of(source, read)->Ok_0.memories.len() ==> (#[trigger] import_of(
                source,
                read,
            )->Ok_0.memories[i]).content.len() > 0,
        import_of(source, read)->Ok_0.source == source,
{
    let m = read->Ok_0->Object_0;
    match source {
        ImportSource::OpenClaw => {
            if let Some(items) = list_of(member(m, "memories"@)) {
                lemma_entries_have_a_text(Section::OpenClawMemories, items, items.len());
            }
        },
        ImportSource::Hermes => {
            if let Some(items) = list_of(member(hermes_scope(m), "memory"@)) {
                lemma_entries_have_a_text(Section::HermesMemories, items, items.len());
            }
        },
        ImportSource::FamilyHearth => {
            if let Some(items) = list_of(member(m, "memory"@)) {
                lemma_entries_have_a_text(Section::HearthMemories, items, items.len());
            }
            if let Some(items) = list_of(member(m, "intents"@)) {
                lemma_entries_have_a_text(Section::HearthIntents, items, items.len());
            }
            if let Some(members) = object_of(member(m, "state"@)) {
                lemma_states_have_a_text(members, members.len());
            }
        },
    }
}

/// Only an object is an export: everything else is an error that names the source.
pub proof fn law_only_objects_are_exports(source: ImportSource, read: Result<Tree, Seq<char>>)
    ensures
        import_of(source, read) is Ok <==> read is Ok && read->Ok_0 is Object,
        read is Err ==> read->Err_0.is_suffix_of(import_of(source, read)->Err_0),
{
    if read is Err {
        let e = read->Err_0;
        let t = import_of(source, read)->Err_0;
        assert(t.subrange(t.len() - e.len(), t.len() as int) =~= e);
    }
}

/// A source is found by its name, in any case and with white space around it; what names none
/// is an error that says the word.
pub proof fn law_source_is_found_by_its_name(source: ImportSource, value: Seq<char>)
    ensures
        ascii_lowered(trimmed(value)) == source.word() ==> source_named(value) == Some(source),
        ascii_lowered(trimmed(value)) == "hearth"@ ==> source_named(value) == Some(
            ImportSource::FamilyHearth,
        ),
        occurs(ascii_lowered(trimmed(value)), unknown_source(value)),
{
    reveal_strlit("openclaw");
    reveal_strlit("hermes");
    reveal_strlit("family_hearth");
    reveal_strlit("hearth");
    assert("openclaw"@[0] == 'o' && "hermes"@[2] == 'r' && "hearth"@[2] == 'a');
    assert("family_hearth"@[0] == 'f' && "hermes"@[0] == 'h' && "hearth"@[0] == 'h');
    let w = ascii_lowered(trimmed(value));
    let m = unknown_source(value);
    let at = "unknown --from source `"@.len() as int;
    assert(m.subrange(at, at + w.len()) =~= w);
    assert(occurs_at(w, m, at));
}

/// A state that is null is left out, and the warnings name its agent.
pub proof fn law_null_state_is_named(members: Seq<(Seq<char>, Tree)>, n: nat, k: int) -> (w: int)
    requires
        0 <= k < n <= members.len(),
        members[k].1 is Null,
    ensures
        0 <= w < state_warnings(members, n).len(),
        occurs(members[k].0, state_warnings(members, n)[w]),
    decreases n,
{
    let all = state_warnings(members, n);
    if k == n - 1 {
        let w = all.len() - 1;
        let agent = members[k].0;
        let at = "skipped state["@.len() as int;
        assert(all[w].subrange(at, at + agent.len()) =~= agent);
        assert(occurs_at(agent, all[w], at));
        w
    } else {
        let w = law_null_state_is_named(members, (n - 1) as nat, k);
        assert(all[w] == state_warnings(members, (n - 1) as nat)[w]);
        w
    }
}

} // verus!
