//! Who the operator is, and the answers that need no model.
//!
//! The operator is known by a user number. Messages of the operator get a guard in the
//! system prompt, memories without roleplay, and direct answers to a few questions.
use vstd::prelude::*;

use crate::message::{BusMessage, MessageOrigin};
use crate::text::{
    alphanumeric, begins, byte_len, chars_of, concat2, concat3, contains, copy_of, count_words,
    decimal, is_alphanumeric, law_numeral_is_read_back, lowercase, occurs, occurs_at,
    parse_unsigned, same, starts_with, string_of, to_lower, trim, trimmed, unsigned_value, width,
    word_count,
};

verus! {

// ---------------------------------------------------------------------------
// The operator
// ---------------------------------------------------------------------------

/// The operator that a setting names: a positive number.
pub open spec fn operator_setting(value: Option<Seq<char>>) -> Option<nat> {
    match value {
        Some(s) => match unsigned_value(s, u64::MAX as nat) {
            Some(n) => if n > 0 {
                Some(n)
            } else {
                None
            },
            None => None,
        },
        None => None,
    }
}

/// Reads the user number of the operator from the value of its setting.
pub fn operator_id(value: Option<&str>) -> (r: Option<u64>)
    ensures
        match r {
            Some(id) => operator_setting(
                match value {
                    Some(s) => Some(s@),
                    None => None,
                },
            ) == Some(id as nat),
            None => operator_setting(
                match value {
                    Some(s) => Some(s@),
                    None => None,
                },
            ) is None,
        },
{
    match value {
        Some(s) => match parse_unsigned(s, u64::MAX) {
            Some(n) => if n > 0 {
                Some(n)
            } else {
                None
            },
            None => None,
        },
        None => None,
    }
}

/// A message comes from the operator: there is one, and the sender is its number.
pub open spec fn from_operator(operator: Option<u64>, origin: Option<MessageOrigin>) -> bool {
    &&& operator is Some
    &&& origin is Some
    &&& unsigned_value(origin->Some_0.sender@, u64::MAX as nat) == Some(operator->Some_0 as nat)
}

/// Does a message with this origin come from the operator?
pub fn is_operator_origin(operator: Option<u64>, origin: &Option<MessageOrigin>) -> (r: bool)
    ensures
        r == from_operator(operator, *origin),
{
    match operator {
        Some(op) => match origin {
            Some(o) => match parse_unsigned(o.sender.as_str(), u64::MAX) {
                Some(id) => id == op,
                None => false,
            },
            None => false,
        },
        None => false,
    }
}

/// The memory tag of an outside sender.
pub fn peer_tag(sender: &str) -> (r: String)
    ensures
        r@ == "peer:"@ + sender@,
{
    concat2("peer:", sender)
}

/// The memory tag of recall for the operator.
pub fn scope_operator_tag() -> (r: &'static str)
    ensures
        r@ == "scope:operator"@,
{
    "scope:operator"
}

/// What the system prompt says where the operator speaks.
pub const IDENTITY_GUARD: &'static str =
    "\n[OPERATOR IDENTITY GUARD]\nThe current speaker is the designated human operator.\nDo NOT address them using names from roleplay, channel fiction, or recalled memories.\nIf they state their name, trust that over memory. Never call them a sibling persona name.\nKeep replies concise when they send a short ping.\n\n[OPERATOR CAPABILITY RULES]\nWhen they ask you to DO something or answer a substantive question: answer it directly.\nUse tools (fs_read, file_write, web_search, research) on the current request when helpful.\nDo NOT call shell_exec for normal analysis or file reading; use fs_read_allowlisted instead.\nWhen reading files for operator work, call fs_read with read_full_content: true.\nOnly use shell_exec when the operator explicitly asks for a shell command.\nFor operator diagnostics, use technical style: concise bullets, concrete issues, concrete fixes.\nDo NOT use roleplay/family prose in operator diagnostics (no sibling narrative, no emotional framing).\nWhen asked what is missing/failing, provide prioritized list (P0/P1/P2) with actionable items.\nDo NOT end diagnostics with open-ended prompts like 'Oletko samaa mieltä?' or 'Mitä seuraavaksi?'.\nNever end with 'what do you need next', 'mitä seuraavaksi', or empty tool boasts.\nIf they express frustration, acknowledge briefly and deliver the requested output — do not ask clarifying questions first.\n[END GUARD]";

/// The guard of the system prompt: nothing but for the operator.
pub fn identity_guard_prompt(operator: Option<u64>, origin: &Option<MessageOrigin>) -> (r: String)
    ensures
        r@ == if from_operator(operator, *origin) {
            IDENTITY_GUARD@
        } else {
            Seq::empty()
        },
{
    if is_operator_origin(operator, origin) {
        copy_of(IDENTITY_GUARD)
    } else {
        String::new()
    }
}

// ---------------------------------------------------------------------------
// Memories
// ---------------------------------------------------------------------------

/// A memory that recall brought up.
#[derive(Debug, Clone, PartialEq, Eq)]
pub struct RecalledMemory {
    /// What is remembered.
    pub content: String,
    /// How relevant it is, with two decimals.
    pub relevance: String,
}

/// A memory in small letters that looks like the roleplay of others.
pub open spec fn is_roleplay_noise(lower: Seq<char>) -> bool {
    ||| occurs("sisaresi "@, lower)
    ||| occurs("sister "@, lower)
    ||| occurs("— agent_epsilon"@, lower)
    ||| occurs("agent_epsilon täältä"@, lower)
    ||| occurs("agent_epsilon täällä"@, lower)
    ||| occurs("your sister"@, lower)
    ||| occurs("cronjob response:"@, lower)
    ||| occurs("he i agent_epsilon"@, lower)
}

/// Does a memory in small letters look like the roleplay of others?
pub fn lowered_is_roleplay_noise(lower: &str) -> (r: bool)
    ensures
        r == is_roleplay_noise(lower@),
{
    contains(lower, "sisaresi ") || contains(lower, "sister ") || contains(lower, "— agent_epsilon")
        || contains(lower, "agent_epsilon täältä") || contains(lower, "agent_epsilon täällä")
        || contains(lower, "your sister") || contains(lower, "cronjob response:") || contains(
        lower,
        "he i agent_epsilon",
    )
}

/// Does the memory look like the roleplay of others?
pub fn memory_is_roleplay_noise(content: &str) -> (r: bool)
    ensures
        r == is_roleplay_noise(lowercase(content@)),
{
    lowered_is_roleplay_noise(to_lower(content).as_str())
}

/// The memories that do not look like roleplay, in order.
pub open spec fn without_noise(memories: Seq<RecalledMemory>) -> Seq<RecalledMemory> {
    memories.filter(|m: RecalledMemory| !is_roleplay_noise(lowercase(m.content@)))
}

/// Drops the memories that look like roleplay where the operator speaks.
pub fn filter_memories_for_operator(
    memories: Vec<RecalledMemory>,
    operator: Option<u64>,
    origin: &Option<MessageOrigin>,
) -> (r: Vec<RecalledMemory>)
    ensures
        r@ == if from_operator(operator, *origin) {
            without_noise(memories@)
        } else {
            memories@
        },
{
    if !is_operator_origin(operator, origin) {
        return memories;
    }
    let ghost all = memories@;
    let ghost keep = |m: RecalledMemory| !is_roleplay_noise(lowercase(m.content@));
    let mut rest = memories;
    let mut out: Vec<RecalledMemory> = Vec::new();
    proof {
        reveal(Seq::filter);
        assert(all.take(0).filter(keep) =~= Seq::<RecalledMemory>::empty());
        assert(all.skip(0) =~= all);
    }
    let total: usize = rest.len();
    let mut i: usize = 0;
    while i < total
        invariant
            i <= total,
            total == all.len(),
            rest@ == all.skip(i as int),
            keep == (|m: RecalledMemory| !is_roleplay_noise(lowercase(m.content@))),
            out@ == all.take(i as int).filter(keep),
        decreases total - i,
    {
        let m = rest.remove(0);
        proof {
            reveal(Seq::filter);
            assert(m == all[i as int]);
            assert(all.take(i + 1).drop_last() =~= all.take(i as int));
            assert(rest@ =~= all.skip(i + 1));
        }
        if !memory_is_roleplay_noise(m.content.as_str()) {
            out.push(m);
        }
        i += 1;
    }
    assert(all.take(i as int) =~= all);
    out
}

// ---------------------------------------------------------------------------
// Brief pings
// ---------------------------------------------------------------------------

/// The longest ping, in characters.
pub const PING_MAX_CHARS: usize = 48;

/// The letters and numbers of `s`, in order.
pub open spec fn letters(s: Seq<char>) -> Seq<char> {
    s.filter(|c: char| alphanumeric(c))
}

/// The letters and numbers of the text, in order.
fn letters_of(s: &str) -> (r: String)
    ensures
        r@ == letters(s@),
{
    let cs = chars_of(s);
    let mut kept: Vec<char> = Vec::new();
    let mut i: usize = 0;
    let ghost keep = |c: char| alphanumeric(c);
    proof {
        reveal(Seq::filter);
        assert(s@.take(0).filter(keep) =~= Seq::<char>::empty());
    }
    while i < cs.len()
        invariant
            cs@ == s@,
            i <= cs@.len(),
            keep == (|c: char| alphanumeric(c)),
            kept@ == s@.take(i as int).filter(keep),
        decreases cs@.len() - i,
    {
        proof {
            reveal(Seq::filter);
            assert(s@.take(i + 1).drop_last() =~= s@.take(i as int));
        }
        if is_alphanumeric(cs[i]) {
            kept.push(cs[i]);
        }
        i += 1;
    }
    assert(s@.take(i as int) =~= s@);
    let r = string_of(&kept, 0, kept.len());
    assert(r@ =~= kept@);
    r
}

/// How many bytes the text takes in UTF-8.
fn bytes_of(s: &str) -> (r: u128)
    ensures
        r == byte_len(s@),
        r <= 4 * usize::MAX,
{
    let cs = chars_of(s);
    let mut n: u128 = 0;
    let mut i: usize = 0;
    assert(s@.take(0) =~= Seq::<char>::empty());
    while i < cs.len()
        invariant
            cs@ == s@,
            i <= cs@.len(),
            n == byte_len(s@.take(i as int)),
            n <= 4 * i,
        decreases cs@.len() - i,
    {
        proof {
            crate::text::lemma_byte_len_take(s@, i as int);
        }
        n = n + width(cs[i]) as u128;
        i += 1;
    }
    assert(s@.take(i as int) =~= s@);
    n
}

/// `lower` names the agent `name`, both in small letters, and says little more: at most
/// six bytes of letters beyond the name.
pub open spec fn calls_name(lower: Seq<char>, name: Seq<char>) -> bool {
    occurs(name, lower) && byte_len(letters(lower)) <= byte_len(letters(name)) + 6
}

/// Does a text in small letters name the agent and say little more?
pub fn lowered_calls_name(lower: &str, name: &str) -> (r: bool)
    ensures
        r == calls_name(lower@, name@),
{
    if !contains(lower, name) {
        return false;
    }
    bytes_of(letters_of(lower).as_str()) <= bytes_of(letters_of(name).as_str()) + 6
}

/// A short call of the agent by its name: at most four words and
/// [`PING_MAX_CHARS`] characters.
pub open spec fn is_ping(query: Seq<char>, agent_name: Seq<char>) -> bool {
    let t = trimmed(query);
    &&& 0 < t.len() <= PING_MAX_CHARS
    &&& word_count(t) <= 4
    &&& calls_name(lowercase(t), lowercase(agent_name))
}

/// Is the message a short call of the agent by its name?
pub fn is_brief_ping(query: &str, agent_name: &str) -> (r: bool)
    ensures
        r == is_ping(query@, agent_name@),
{
    let t = trim(query);
    if t.as_str().is_empty() || crate::text::count_chars(t.as_str()) > PING_MAX_CHARS {
        return false;
    }
    if count_words(t.as_str()) > 4 {
        return false;
    }
    lowered_calls_name(to_lower(t.as_str()).as_str(), to_lower(agent_name).as_str())
}

/// The answer to a short call.
pub fn brief_ping_reply(agent_name: &str, message: &BusMessage) -> (r: Option<String>)
    ensures
        match r {
            Some(s) => message.words() is Some && is_ping(message.words()->Some_0, agent_name@)
                && s@ == "Tässä! ✦ ("@ + agent_name@ + " kuulee — mitä tarvitset?)"@,
            None => message.words() is None || !is_ping(message.words()->Some_0, agent_name@),
        },
{
    match message.spoken() {
        Some(query) => if is_brief_ping(query, agent_name) {
            Some(concat3("Tässä! ✦ (", agent_name, " kuulee — mitä tarvitset?)"))
        } else {
            None
        },
        None => None,
    }
}

// ---------------------------------------------------------------------------
// Direct answers to the operator
// ---------------------------------------------------------------------------

/// Where files are moved.
pub const MOVING_REPLY: &'static str =
    "Siirrän tutkimusmateriaalit tähän polkuun:\n- E:\\agent_delta\\home\\research\\legacy\\2026-07\n\nKasvuun liittyvät legacyt tähän:\n- E:\\agent_delta\\home\\growth\\legacy\\2026-07\n\nEn siirrä salaisuuksia sisältäviä tiedostoja (.env, secrets).";

/// That the agent can work.
pub const CAN_WORK_REPLY: &'static str =
    "Kyllä — pystyn toimimaan. Teen nyt suorat vastaukset, käytän progress-mittaria ja vältän turhan metapuheen.\nJos haluat, käynnistän heti ensimmäisen konkreettisen tehtävän TOP 20 -listalta.";

/// What has to be mended, by priority.
pub const PRIORITIES_REPLY: &'static str =
    "P0\n- turn-timeoutit ja fallback-polku täysin deterministisiksi (ei tyhjää vastausta)\n- shell_exec-väärinkäyttö pois analyysistä (fs_read ensisijainen)\n- typing katkeaa heti timeout/error-tilassa\n\nP1\n- vastaukset aina teknisinä prioriteetteina (ei roolipeliä)\n- työkalukutsuista suora tulos + todiste, ei metapuhetta\n- approval-jumit auto-siivoukseen hallitusti\n\nP2\n- yhtenäinen tutkimusartefakti-pohja (tiivistelmä, vertailu, next action)\n- regressiotestit: väärä persona, tyhjä vastaus, shell_exec-looppi\n- observability: lokiin selkeä malli/fallback-syy per vuoro";

/// How to go on after an approval.
pub const CONTINUE_REPLY: &'static str =
    "Jatkan — huom: chat-'hyväksyn' ei hyväksy file_patch_apply:ä.\nOdottava tehtävä vaatii gateway-hyväksynnän (`/approvals`).\n\nTeen nyt ilman patchia (TOP 20 #1):\n- päivitän `home/memory.md`\n- kirjaa `home/research/log.md`\n- käytän fs_read `read_full_content: true` TOP20:een";

/// What the agent needs in order to work.
pub const HOW_TO_WORK_REPLY: &'static str =
    "P0 — mitä tarvitaan että toimin kunnolla:\n1. fs_read `read_full_content: true` (nyt tuettu) → TOP20 + memory luettavissa\n2. file_write allowlistissa `home/` — ei shell_exec-moveja\n3. Approvalit gatewayssä (`/approvals`), ei pelkkä chat-hyväksyntä\n4. Yksi vastaus per pyyntö — ei työkaluspämmiä\n\nSeuraava askel: päivitän research/log.md + memory.md TOP 20 #1:llä.";

/// That the first task is begun.
pub const GO_AHEAD_REPLY: &'static str =
    "TOP 20 #1 — aloitan nyt:\n\n**Muistijärjestelmä istuntojen yli**\n- Varmistan `home/memory.md` -pohjan\n- Päivitän `home/research/log.md` ensimmäisellä merkinnällä\n- Pidän tutkimuspolun: `home/research/`\n\nEn käytä shell_exec-moveja. Raportoin kun ensimmäinen askel on kirjattu.";

/// How to go on after an approval.
pub fn operator_continue_reply() -> (r: String)
    ensures
        r@ == CONTINUE_REPLY@,
{
    copy_of(CONTINUE_REPLY)
}

/// What the agent needs in order to work.
pub fn operator_how_to_work_reply() -> (r: String)
    ensures
        r@ == HOW_TO_WORK_REPLY@,
{
    copy_of(HOW_TO_WORK_REPLY)
}

/// That the first task is begun.
pub fn operator_top20_go_ahead_reply() -> (r: String)
    ensures
        r@ == GO_AHEAD_REPLY@,
{
    copy_of(GO_AHEAD_REPLY)
}

/// `s` without the full stops and exclamation marks at its end.
pub open spec fn without_end_marks(s: Seq<char>) -> Seq<char>
    decreases s.len(),
{
    if s.len() > 0 && (s.last() == '.' || s.last() == '!') {
        without_end_marks(s.drop_last())
    } else {
        s
    }
}

/// The text without white space around it and without the marks at its end.
fn bare(s: &str) -> (r: String)
    ensures
        r@ == without_end_marks(trimmed(s@)),
{
    let cs = chars_of(trim(s).as_str());
    let mut n: usize = cs.len();
    assert(cs@.take(n as int) =~= cs@);
    while n > 0 && (cs[n - 1] == '.' || cs[n - 1] == '!')
        invariant
            n <= cs@.len(),
            without_end_marks(cs@) == without_end_marks(cs@.take(n as int)),
        decreases n,
    {
        assert(cs@.take(n as int).drop_last() =~= cs@.take(n - 1));
        n -= 1;
    }
    let r = string_of(&cs, 0, n);
    assert(r@ =~= cs@.take(n as int));
    r
}

/// `t` is `p`, or begins with `p` and a space.
pub open spec fn is_or_begins(t: Seq<char>, p: Seq<char>) -> bool {
    t == p || begins(p + " "@, t)
}

fn is_or_starts(t: &str, p: &str) -> (r: bool)
    ensures
        r == is_or_begins(t@, p@),
{
    same(t, p) || starts_with(t, concat2(p, " ").as_str())
}

/// A bare text in small letters that tells the agent to go ahead.
pub open spec fn says_go_ahead(t: Seq<char>) -> bool {
    ||| is_or_begins(t, "tee se"@)
    ||| is_or_begins(t, "tee vaan"@)
    ||| is_or_begins(t, "aloita"@)
    ||| is_or_begins(t, "do it"@)
    ||| is_or_begins(t, "go ahead"@)
    ||| is_or_begins(t, "start now"@)
    ||| is_or_begins(t, "hyväksyn"@)
    ||| is_or_begins(t, "hyväksyn anna palaa"@)
    ||| is_or_begins(t, "anna palaa"@)
    ||| is_or_begins(t, "anna palaa!"@)
}

/// A bare text in small letters that tells the agent to go on.
pub open spec fn says_continue(t: Seq<char>) -> bool {
    t == "jatka"@ || t == "continue"@ || t == "resume"@ || t == "jatka!"@
}

/// Does a bare text in small letters tell the agent to go ahead?
pub fn lowered_says_go_ahead(t: &str) -> (r: bool)
    ensures
        r == says_go_ahead(t@),
{
    is_or_starts(t, "tee se") || is_or_starts(t, "tee vaan") || is_or_starts(t, "aloita")
        || is_or_starts(t, "do it") || is_or_starts(t, "go ahead") || is_or_starts(t, "start now")
        || is_or_starts(t, "hyväksyn") || is_or_starts(t, "hyväksyn anna palaa") || is_or_starts(
        t,
        "anna palaa",
    ) || is_or_starts(t, "anna palaa!")
}

/// Does a bare text in small letters tell the agent to go on?
pub fn lowered_says_continue(t: &str) -> (r: bool)
    ensures
        r == says_continue(t@),
{
    same(t, "jatka") || same(t, "continue") || same(t, "resume") || same(t, "jatka!")
}

/// Does the text tell the agent to go ahead?
pub fn is_operator_go_ahead(q: &str) -> (r: bool)
    ensures
        r == says_go_ahead(lowercase(without_end_marks(trimmed(q@)))),
{
    lowered_says_go_ahead(to_lower(bare(q).as_str()).as_str())
}

/// Does the text tell the agent to go on?
pub fn is_operator_continue(q: &str) -> (r: bool)
    ensures
        r == says_continue(lowercase(without_end_marks(trimmed(q@)))),
{
    lowered_says_continue(to_lower(bare(q).as_str()).as_str())
}

/// The direct answer to a question `q` of the operator, trimmed and in small letters;
/// `t` is its bare form in small letters. The first of these that fits: where files are
/// moved, whether the agent can work, a word to go ahead, a word to go on, how to make
/// the agent work, what has to be mended.
pub open spec fn direct_answer(q: Seq<char>, t: Seq<char>) -> Option<Seq<char>> {
    if occurs("minne siirrät"@, q) || occurs("where are you moving"@, q) {
        Some(MOVING_REPLY@)
    } else if occurs("pystyt nyt toimimaan"@, q) || occurs("can you work now"@, q) || occurs(
        "are you working now"@,
        q,
    ) {
        Some(CAN_WORK_REPLY@)
    } else if says_go_ahead(t) {
        Some(GO_AHEAD_REPLY@)
    } else if says_continue(t) {
        Some(CONTINUE_REPLY@)
    } else if occurs("miten sinusta saadaan"@, q) || occurs("kunnolla toimiva"@, q) || occurs(
        "how to make you work"@,
        q,
    ) {
        Some(HOW_TO_WORK_REPLY@)
    } else if occurs("miksi et toimi tehokkaasti"@, q) || occurs("mikä pitää vielä korjata"@, q)
        || occurs("top 20"@, q) || occurs("familyclawssa"@, q) {
        Some(PRIORITIES_REPLY@)
    } else {
        None
    }
}

/// The direct answer to a question of the operator, given it trimmed and in small letters
/// and its bare form in small letters.
pub fn lowered_direct_answer(q: &str, t: &str) -> (r: Option<String>)
    ensures
        match r {
            Some(s) => direct_answer(q@, t@) == Some(s@),
            None => direct_answer(q@, t@) is None,
        },
{
    if contains(q, "minne siirrät") || contains(q, "where are you moving") {
        return Some(copy_of(MOVING_REPLY));
    }
    if contains(q, "pystyt nyt toimimaan") || contains(q, "can you work now") || contains(
        q,
        "are you working now",
    ) {
        return Some(copy_of(CAN_WORK_REPLY));
    }
    if lowered_says_go_ahead(t) {
        return Some(operator_top20_go_ahead_reply());
    }
    if lowered_says_continue(t) {
        return Some(operator_continue_reply());
    }
    if contains(q, "miten sinusta saadaan") || contains(q, "kunnolla toimiva") || contains(
        q,
        "how to make you work",
    ) {
        return Some(operator_how_to_work_reply());
    }
    if contains(q, "miksi et toimi tehokkaasti") || contains(q, "mikä pitää vielä korjata")
        || contains(q, "top 20") || contains(q, "familyclawssa") {
        return Some(copy_of(PRIORITIES_REPLY));
    }
    None
}

/// The direct answer to what the operator says.
pub open spec fn answer_to_operator(words: Seq<char>) -> Option<Seq<char>> {
    let q = lowercase(trimmed(words));
    direct_answer(q, lowercase(without_end_marks(trimmed(q))))
}

/// The direct answer to a message, where the operator sent it and it asks one of the
/// known questions.
pub fn operator_diagnostic_reply(
    message: &BusMessage,
    operator: Option<u64>,
    origin: &Option<MessageOrigin>,
) -> (r: Option<String>)
    ensures
        match r {
            Some(s) => from_operator(operator, *origin) && message.words() is Some
                && answer_to_operator(message.words()->Some_0) == Some(s@),
            None => !from_operator(operator, *origin) || message.words() is None
                || answer_to_operator(message.words()->Some_0) is None,
        },
{
    if !is_operator_origin(operator, origin) {
        return None;
    }
    match message.spoken() {
        Some(query) => {
            let q = to_lower(trim(query).as_str());
            let t = to_lower(bare(q.as_str()).as_str());
            lowered_direct_answer(q.as_str(), t.as_str())
        },
        None => None,
    }
}

// ---------------------------------------------------------------------------
// Laws
// ---------------------------------------------------------------------------

/// Without an operator, or without an origin, nobody is the operator.
pub proof fn law_nobody_is_operator_by_default(
    operator: Option<u64>,
    origin: Option<MessageOrigin>,
)
    requires
        operator is None || origin is None,
    ensures
        !from_operator(operator, origin),
{
}

/// Only one number is the operator's: a sender whose number is another one is not.
pub proof fn law_operator_is_unique(a: u64, b: u64, origin: MessageOrigin)
    requires
        from_operator(Some(a), Some(origin)),
        from_operator(Some(b), Some(origin)),
    ensures
        a == b,
{
}

/// The filter keeps exactly the memories that do not look like roleplay, and invents none.
pub proof fn law_filter_keeps_the_rest(memories: Seq<RecalledMemory>)
    ensures
        forall|i: int|
            0 <= i < without_noise(memories).len() ==> memories.contains(
                #[trigger] without_noise(memories)[i],
            ) && !is_roleplay_noise(lowercase(without_noise(memories)[i].content@)),
        forall|i: int|
            0 <= i < memories.len() && !is_roleplay_noise(
                lowercase((#[trigger] memories[i]).content@),
            ) ==> without_noise(memories).contains(memories[i]),
{
    let keep = |m: RecalledMemory| !is_roleplay_noise(lowercase(m.content@));
    memories.filter_lemma(keep);
    assert forall|i: int| 0 <= i < without_noise(memories).len() implies memories.contains(
        #[trigger] without_noise(memories)[i],
    ) && !is_roleplay_noise(lowercase(without_noise(memories)[i].content@)) by {
        assert(keep(memories.filter(keep)[i]));
        memories.lemma_filter_contains_rev(keep, memories.filter(keep)[i]);
    }
    assert forall|i: int|
        0 <= i < memories.len() && !is_roleplay_noise(
            lowercase((#[trigger] memories[i]).content@),
        ) implies without_noise(memories).contains(memories[i]) by {
        assert(keep(memories[i]));
    }
}

/// The operator is whoever sends with the configured number, and nobody else.
pub proof fn law_operator_is_known_by_its_number(n: u64, m: u64, origin: MessageOrigin)
    requires
        origin.sender@ == decimal(m as nat),
    ensures
        from_operator(Some(n), Some(origin)) <==> m == n,
{
    law_numeral_is_read_back(m as nat, u64::MAX as nat);
}

/// A setting that writes a positive number names the operator; zero names nobody.
pub proof fn law_operator_is_configured_by_number(n: u64)
    ensures
        n > 0 ==> operator_setting(Some(decimal(n as nat))) == Some(n as nat),
        operator_setting(Some(decimal(0))) is None,
        operator_setting(None) is None,
{
    law_numeral_is_read_back(n as nat, u64::MAX as nat);
    law_numeral_is_read_back(0, u64::MAX as nat);
}

/// The agent's name alone is a call, in any case, unless it is too long for one.
pub proof fn law_name_is_a_call(query: Seq<char>, name: Seq<char>)
    requires
        0 < trimmed(query).len() <= PING_MAX_CHARS,
        word_count(trimmed(query)) <= 4,
        lowercase(trimmed(query)) == lowercase(name),
    ensures
        is_ping(query, name),
{
    let s = lowercase(name);
    assert(s.subrange(0, s.len() as int) =~= s);
    assert(occurs_at(s, s, 0));
}

/// A text that does not name the agent is no call of it, and neither is a long one.
pub proof fn law_other_texts_are_no_call(query: Seq<char>, name: Seq<char>)
    requires
        !occurs(lowercase(name), lowercase(trimmed(query))) || trimmed(query).len() > 48
            || trimmed(query).len() == 0 || word_count(trimmed(query)) > 4,
    ensures
        !is_ping(query, name),
{
}

/// The filter keeps the memories in their order, each as it is.
pub proof fn law_filter_keeps_the_order(memories: Seq<RecalledMemory>) -> (from: Seq<int>)
    ensures
        from.len() == without_noise(memories).len(),
        forall|i: int|
            0 <= i < from.len() ==> 0 <= #[trigger] from[i] < memories.len() && memories[from[i]]
                == without_noise(memories)[i],
        forall|i: int, j: int| 0 <= i < j < from.len() ==> #[trigger] from[i] < #[trigger] from[j],
    decreases memories.len(),
{
    reveal(Seq::filter);
    if memories.len() == 0 {
        Seq::empty()
    } else {
        let rest = memories.drop_last();
        let before = law_filter_keeps_the_order(rest);
        let last = memories.len() - 1;
        if is_roleplay_noise(lowercase(memories.last().content@)) {
            before
        } else {
            before.push(last)
        }
    }
}

/// Every known question of the operator has an answer that needs no model: where files are
/// moved, whether the agent works, words to go ahead or on, how to make it work, and what has to
/// be mended. An answer is one of these six.
pub proof fn law_known_questions_are_answered(q: Seq<char>, t: Seq<char>)
    ensures
        direct_answer(q, t) is Some <==> occurs("minne siirrät"@, q) || occurs(
            "where are you moving"@,
            q,
        ) || occurs("pystyt nyt toimimaan"@, q) || occurs("can you work now"@, q) || occurs(
            "are you working now"@,
            q,
        ) || says_go_ahead(t) || says_continue(t) || occurs("miten sinusta saadaan"@, q) || occurs(
            "kunnolla toimiva"@,
            q,
        ) || occurs("how to make you work"@, q) || occurs("miksi et toimi tehokkaasti"@, q)
            || occurs("mikä pitää vielä korjata"@, q) || occurs("top 20"@, q) || occurs(
            "familyclawssa"@,
            q,
        ),
        occurs("minne siirrät"@, q) ==> direct_answer(q, t) == Some(MOVING_REPLY@),
        direct_answer(q, t) is Some ==> {
            let a = direct_answer(q, t)->Some_0;
            a == MOVING_REPLY@ || a == CAN_WORK_REPLY@ || a == GO_AHEAD_REPLY@ || a
                == CONTINUE_REPLY@ || a == HOW_TO_WORK_REPLY@ || a == PRIORITIES_REPLY@
        },
{
}

/// A word to go ahead is answered with the beginning of the work, and a word to go on with how
/// it goes on, where nothing else is asked.
pub proof fn law_orders_are_answered(q: Seq<char>, t: Seq<char>)
    requires
        !occurs("minne siirrät"@, q),
        !occurs("where are you moving"@, q),
        !occurs("pystyt nyt toimimaan"@, q),
        !occurs("can you work now"@, q),
        !occurs("are you working now"@, q),
    ensures
        t == "tee se"@ || t == "aloita"@ || t == "do it"@ || t == "go ahead"@ || t == "anna palaa"@
            ==> direct_answer(q, t) == Some(GO_AHEAD_REPLY@),
        t == "jatka"@ || t == "continue"@ || t == "resume"@ ==> direct_answer(q, t) == Some(
            CONTINUE_REPLY@,
        ),
{
    if t == "jatka"@ || t == "continue"@ || t == "resume"@ {
        reveal_strlit("jatka");
        reveal_strlit("continue");
        reveal_strlit("resume");
        reveal_strlit("tee se");
        reveal_strlit("tee vaan");
        reveal_strlit("aloita");
        reveal_strlit("do it");
        reveal_strlit("go ahead");
        reveal_strlit("start now");
        reveal_strlit("hyväksyn");
        reveal_strlit("hyväksyn anna palaa");
        reveal_strlit("anna palaa");
        reveal_strlit("anna palaa!");
        assert(t[0] == 'j' || t[0] == 'c' || t[0] == 'r');
        lemma_other_word(t, "tee se"@);
        lemma_other_word(t, "tee vaan"@);
        lemma_other_word(t, "aloita"@);
        lemma_other_word(t, "do it"@);
        lemma_other_word(t, "go ahead"@);
        lemma_other_word(t, "start now"@);
        lemma_other_word(t, "hyväksyn"@);
        lemma_other_word(t, "hyväksyn anna palaa"@);
        lemma_other_word(t, "anna palaa"@);
        lemma_other_word(t, "anna palaa!"@);
    }
}

proof fn lemma_other_word(t: Seq<char>, p: Seq<char>)
    requires
        t.len() > 0,
        p.len() > 0,
        t[0] != p[0],
    ensures
        !is_or_begins(t, p),
{
    let q = p + " "@;
    if begins(q, t) {
        assert(t.subrange(0, q.len() as int)[0] == t[0]);
        assert(q[0] == p[0]);
    }
}

/// The agent's name with a greeting or a mark beside it is a call too, as long as the rest has no
/// more than six bytes of letters and numbers.
pub proof fn law_name_with_a_greeting_is_a_call(query: Seq<char>, name: Seq<char>)
    requires
        0 < trimmed(query).len() <= 48,
        word_count(trimmed(query)) <= 4,
        occurs(lowercase(name), lowercase(trimmed(query))),
        byte_len(letters(lowercase(trimmed(query)))) <= byte_len(letters(lowercase(name))) + 6,
    ensures
        is_ping(query, name),
{
}

} // verus!
