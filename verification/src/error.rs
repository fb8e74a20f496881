//! Errors of the agent, and what a user is told of them.
//!
//! An error of the model travels as text. The text begins with a tag that holds the
//! class of the error and its redacted status line, so that the reply to the user can be
//! made from these two alone.
use vstd::prelude::*;

use crate::llm::{LlmError, LlmFailureClass};
use crate::text::{
    chars_of, concat3, concat5, copy_of, decimal, lemma_decimal_digits, occurs, occurs_at, same,
    string_of,
};

verus! {

/// What went wrong in a turn.
#[derive(Debug, Clone, PartialEq, Eq)]
pub enum FamilyClawError {
    /// The model could not be reached, or did not answer. Begins with a tag.
    Llm(String),
    /// A durable step, or the bus, failed.
    Bus(String),
    /// The memory failed.
    Memory(String),
    /// Something is not configured.
    Config(String),
    /// What was asked for cannot be done.
    InvalidInput(String),
}

impl FamilyClawError {
    /// An error of the model.
    pub fn llm(message: &str) -> (r: Self)
        ensures
            r is Llm,
            r->Llm_0@ == message@,
    {
        FamilyClawError::Llm(copy_of(message))
    }

    /// An error of a durable step or of the bus.
    pub fn bus(message: &str) -> (r: Self)
        ensures
            r is Bus,
            r->Bus_0@ == message@,
    {
        FamilyClawError::Bus(copy_of(message))
    }

    /// An error of what was asked for.
    pub fn invalid_input(message: &str) -> (r: Self)
        ensures
            r is InvalidInput,
            r->InvalidInput_0@ == message@,
    {
        FamilyClawError::InvalidInput(copy_of(message))
    }

    /// The message inside.
    pub open spec fn message(self) -> Seq<char> {
        match self {
            FamilyClawError::Llm(m) => m@,
            FamilyClawError::Bus(m) => m@,
            FamilyClawError::Memory(m) => m@,
            FamilyClawError::Config(m) => m@,
            FamilyClawError::InvalidInput(m) => m@,
        }
    }

    /// The message inside.
    pub fn to_text(&self) -> (r: String)
        ensures
            r@ == self.message(),
    {
        match self {
            FamilyClawError::Llm(m) => copy_of(m.as_str()),
            FamilyClawError::Bus(m) => copy_of(m.as_str()),
            FamilyClawError::Memory(m) => copy_of(m.as_str()),
            FamilyClawError::Config(m) => copy_of(m.as_str()),
            FamilyClawError::InvalidInput(m) => copy_of(m.as_str()),
        }
    }
}

/// The error of a journal that did not take, or not give, a step: `what` is the kind of
/// step.
pub fn journal_error(what: &str, replaying: bool, error: &str) -> (r: FamilyClawError)
    ensures
        r is Bus,
        r->Bus_0@ == what@ + (if replaying {
            " replay failed: "@
        } else {
            " step failed: "@
        }) + error@,
{
    if replaying {
        FamilyClawError::Bus(concat3(what, " replay failed: ", error))
    } else {
        FamilyClawError::Bus(concat3(what, " step failed: ", error))
    }
}

// ---------------------------------------------------------------------------
// Tags
// ---------------------------------------------------------------------------

/// The text of an error of the model: a tag, and the error for the log.
pub open spec fn tagged(e: LlmError) -> Seq<char> {
    "[llm:"@ + e.class().word() + ("|"@ + (e.redacted() + ("] "@ + e.text())))
}

/// The text of an error of the model, which begins with its tag.
pub fn tag_llm_error(e: &LlmError) -> (r: String)
    ensures
        r@ == tagged(*e),
{
    let head = concat5(
        "[llm:",
        e.failure_class().as_word(),
        "|",
        e.redacted_status_line().as_str(),
        "] ",
    );
    let mut out = head;
    out.append(e.to_text().as_str());
    assert(out@ =~= tagged(*e));
    out
}

/// The error of a turn whose model failed.
pub fn model_failure(e: &LlmError) -> (r: FamilyClawError)
    ensures
        r is Llm,
        r->Llm_0@ == tagged(*e),
{
    FamilyClawError::Llm(tag_llm_error(e))
}

/// The first `c` in `s`, or the length.
pub open spec fn first_at(s: Seq<char>, c: char) -> int
    decreases s.len(),
{
    if s.len() == 0 {
        0
    } else if s[0] == c {
        0
    } else {
        1 + first_at(s.drop_first(), c)
    }
}

/// The class and the status line in the tag of a text: what stands between `[llm:` and
/// the first bar, and between that and the first closing bracket behind it.
pub open spec fn tag_of(s: Seq<char>) -> Option<(Seq<char>, Seq<char>)> {
    if !crate::text::begins("[llm:"@, s) {
        None
    } else {
        let rest = s.skip(5);
        let bar = first_at(rest, '|');
        if bar >= rest.len() {
            None
        } else {
            let tail = rest.skip(bar + 1);
            let end = first_at(tail, ']');
            if end >= tail.len() {
                None
            } else {
                Some((rest.take(bar), tail.take(end)))
            }
        }
    }
}

proof fn lemma_first_at(s: Seq<char>, c: char, k: int)
    requires
        0 <= k <= s.len(),
        forall|i: int| 0 <= i < k ==> s[i] != c,
        k < s.len() ==> s[k] == c,
    ensures
        first_at(s, c) == k,
    decreases s.len(),
{
    if k > 0 {
        let t = s.drop_first();
        assert forall|i: int| 0 <= i < k - 1 implies t[i] != c by {
            assert(t[i] == s[i + 1]);
        }
        lemma_first_at(t, c, k - 1);
    }
}

fn position(cs: &Vec<char>, c: char, from: usize) -> (r: usize)
    requires
        from <= cs@.len(),
    ensures
        from <= r <= cs@.len(),
        first_at(cs@.skip(from as int), c) == r - from,
{
    let mut i: usize = from;
    while i < cs.len() && cs[i] != c
        invariant
            from <= i <= cs@.len(),
            forall|k: int| from <= k < i ==> cs@[k] != c,
        decreases cs@.len() - i,
    {
        i += 1;
    }
    proof {
        lemma_first_at(cs@.skip(from as int), c, i - from);
    }
    i
}

/// Reads the class and the status line back from the text of an error of the model.
pub fn parse_llm_class_tag(tagged_text: &str) -> (r: Option<(String, String)>)
    ensures
        match r {
            Some((class, line)) => tag_of(tagged_text@) == Some((class@, line@)),
            None => tag_of(tagged_text@) is None,
        },
{
    let cs = chars_of(tagged_text);
    proof {
        reveal_strlit("[llm:");
    }
    if !crate::text::starts_with(tagged_text, "[llm:") {
        return None;
    }
    let ghost rest = cs@.skip(5);
    let bar: usize = position(&cs, '|', 5);
    if bar >= cs.len() {
        return None;
    }
    let ghost tail = rest.skip(bar - 5 + 1);
    assert(tail =~= cs@.skip(bar + 1));
    let end: usize = position(&cs, ']', bar + 1);
    if end >= cs.len() {
        return None;
    }
    let class = string_of(&cs, 5, bar);
    let line = string_of(&cs, bar + 1, end);
    assert(class@ =~= rest.take(bar - 5));
    assert(line@ =~= tail.take(end - bar - 1));
    Some((class, line))
}

// ---------------------------------------------------------------------------
// Replies
// ---------------------------------------------------------------------------

/// What a user is told where a turn ended without an answer.
pub const RECOVERY_REPLY: &'static str =
    "En saanut vuoroa valmiiksi: työkalu epäonnistui tai turvaraja tuli vastaan. Yritä uudelleen tai rajaa pyyntöä.";

/// What a user is told where a turn ended without an answer.
pub fn recovery_fallback_reply() -> (r: String)
    ensures
        r@ == RECOVERY_REPLY@,
{
    copy_of(RECOVERY_REPLY)
}

/// What a user is told of an error of the model.
pub open spec fn model_error_reply(class: Seq<char>, line: Seq<char>) -> Seq<char> {
    if class == LlmFailureClass::ProviderNotFound.word() {
        "LLM-palveluihin ei saatu yhteyttä (viimeisin virhe: "@ + line
            + " — malli on mahdollisesti poistettu). Tarkista FAMILYCLAW_PROVIDER_MODEL / provider-konfiguraatio."@
    } else {
        "LLM-palveluihin ei saatu yhteyttä (viimeisin virhe: "@ + line
            + "). Tarkista provider-konfiguraatio."@
    }
}

/// What a user is told of an error: of an error of the model its class and its status
/// line, of any other that the turn ended.
pub open spec fn error_reply(e: FamilyClawError) -> Seq<char> {
    match e {
        FamilyClawError::Llm(m) => match tag_of(m@) {
            Some((class, line)) => model_error_reply(class, line),
            None => RECOVERY_REPLY@,
        },
        _ => RECOVERY_REPLY@,
    }
}

/// What a user is told of an error.
pub fn recovery_fallback_reply_for_error(e: &FamilyClawError) -> (r: String)
    ensures
        r@ == error_reply(*e),
{
    match e {
        FamilyClawError::Llm(m) => match parse_llm_class_tag(m.as_str()) {
            Some((class, line)) => if same(
                class.as_str(),
                LlmFailureClass::ProviderNotFound.as_word(),
            ) {
                concat3(
                    "LLM-palveluihin ei saatu yhteyttä (viimeisin virhe: ",
                    line.as_str(),
                    " — malli on mahdollisesti poistettu). Tarkista FAMILYCLAW_PROVIDER_MODEL / provider-konfiguraatio.",
                )
            } else {
                concat3(
                    "LLM-palveluihin ei saatu yhteyttä (viimeisin virhe: ",
                    line.as_str(),
                    "). Tarkista provider-konfiguraatio.",
                )
            },
            None => recovery_fallback_reply(),
        },
        _ => recovery_fallback_reply(),
    }
}

// ---------------------------------------------------------------------------
// Laws
// ---------------------------------------------------------------------------

proof fn lemma_word_is_plain(c: LlmFailureClass)
    ensures
        forall|i: int|
            0 <= i < c.word().len() ==> #[trigger] c.word()[i] != '|' && c.word()[i] != ']',
{
    reveal_strlit("rate_limited");
    reveal_strlit("auth_failed");
    reveal_strlit("overloaded");
    reveal_strlit("provider_not_found");
    reveal_strlit("timeout");
    reveal_strlit("http_error");
    reveal_strlit("no_content");
    reveal_strlit("parse_error");
    reveal_strlit("invalid_tool");
}

proof fn lemma_line_is_plain(e: LlmError)
    ensures
        forall|i: int| 0 <= i < e.redacted().len() ==> #[trigger] e.redacted()[i] != ']',
{
    lemma_word_is_plain(e.class());
    match e.status() {
        Some(code) => {
            reveal_strlit("HTTP ");
            lemma_decimal_digits(code);
            let line = e.redacted();
            assert forall|i: int| 0 <= i < line.len() implies #[trigger] line[i] != ']' by {
                if i >= 5 {
                    assert(line[i] == decimal(code)[i - 5]);
                }
            }
        },
        None => {},
    }
}

/// The class and the status line are read back from the text of every error of the
/// model.
pub proof fn law_tag_round_trip(e: LlmError)
    ensures
        tag_of(tagged(e)) == Some((e.class().word(), e.redacted())),
{
    reveal_strlit("[llm:");
    reveal_strlit("|");
    reveal_strlit("] ");
    let s = tagged(e);
    let word = e.class().word();
    let line = e.redacted();
    let closing = "] "@ + e.text();
    let behind = line + closing;
    let rest = word + ("|"@ + behind);
    assert(s.subrange(0, 5) =~= "[llm:"@);
    assert(s.skip(5) =~= rest);
    lemma_word_is_plain(e.class());
    assert forall|i: int| 0 <= i < word.len() implies rest[i] != '|' by {
        assert(rest[i] == word[i]);
    }
    lemma_first_at(rest, '|', word.len() as int);
    assert(rest.take(word.len() as int) =~= word);
    let tail = rest.skip(word.len() as int + 1);
    assert(tail =~= behind);
    lemma_line_is_plain(e);
    assert forall|i: int| 0 <= i < line.len() implies tail[i] != ']' by {
        assert(tail[i] == line[i]);
    }
    assert(tail[line.len() as int] == closing[0]);
    lemma_first_at(tail, ']', line.len() as int);
    assert(tail.take(line.len() as int) =~= line);
}

/// What a user is told of an error of the model is made from its class and its status
/// line alone: whatever else the provider sent leaves no trace.
pub proof fn law_reply_hides_provider_text(a: LlmError, b: LlmError, x: String, y: String)
    requires
        x@ == tagged(a),
        y@ == tagged(b),
        a.class() == b.class(),
        a.status() == b.status(),
    ensures
        error_reply(FamilyClawError::Llm(x)) == model_error_reply(a.class().word(), a.redacted()),
        error_reply(FamilyClawError::Llm(x)) == error_reply(FamilyClawError::Llm(y)),
{
    law_tag_round_trip(a);
    law_tag_round_trip(b);
}

/// An error of the model is never reported in the words of a turn that ended without an
/// answer.
pub proof fn law_model_error_is_told_apart(e: LlmError, x: String)
    requires
        x@ == tagged(e),
    ensures
        error_reply(FamilyClawError::Llm(x)) != RECOVERY_REPLY@,
{
    law_tag_round_trip(e);
    reveal_strlit("LLM-palveluihin ei saatu yhteyttä (viimeisin virhe: ");
    reveal_strlit(
        "En saanut vuoroa valmiiksi: työkalu epäonnistui tai turvaraja tuli vastaan. Yritä uudelleen tai rajaa pyyntöä.",
    );
    let r = error_reply(FamilyClawError::Llm(x));
    assert(r[0] == 'L');
}

/// What a user is told of an error of the model says its status, or its class where it has none,
/// and names the setting to look at where the model is gone; what they are told of any other
/// error is that the turn ended.
pub proof fn law_reply_says_what_failed(e: FamilyClawError, of: LlmError)
    ensures
        e is Llm && e->Llm_0@ == tagged(of) ==> {
            &&& of.status() is Some ==> occurs(decimal(of.status()->Some_0), error_reply(e))
            &&& of.status() is None ==> occurs(of.class().word(), error_reply(e))
            &&& of is NotFound ==> occurs("FAMILYCLAW_PROVIDER_MODEL"@, error_reply(e))
        },
        !(e is Llm) ==> error_reply(e) == RECOVERY_REPLY@,
{
    if e is Llm && e->Llm_0@ == tagged(of) {
        law_tag_round_trip(of);
        let line = of.redacted();
        let t = error_reply(e);
        let head = "LLM-palveluihin ei saatu yhteyttä (viimeisin virhe: "@;
        let at = head.len() as int;
        assert(t.subrange(at, at + line.len()) =~= line);
        if of.status() is Some {
            let n = decimal(of.status()->Some_0);
            let k = "HTTP "@.len() as int;
            assert(line.subrange(k, k + n.len()) =~= n);
            assert(t.subrange(at + k, at + k + n.len()) =~= t.subrange(
                at,
                at + line.len(),
            ).subrange(k, k + n.len()));
            assert(occurs_at(n, t, at + k));
        } else {
            assert(occurs_at(line, t, at));
        }
        if of is NotFound {
            reveal_strlit(
                " — malli on mahdollisesti poistettu). Tarkista FAMILYCLAW_PROVIDER_MODEL / provider-konfiguraatio.",
            );
            reveal_strlit("FAMILYCLAW_PROVIDER_MODEL");
            let name = "FAMILYCLAW_PROVIDER_MODEL"@;
            let from = at + line.len() + 47;
            assert(t.subrange(from, from + name.len()) =~= name);
            assert(occurs_at(name, t, from));
        }
    }
}

/// The log keeps all that is known of an error of the model: its class, its status and its text.
pub proof fn law_log_keeps_the_error(e: LlmError)
    ensures
        e.text().is_suffix_of(tagged(e)),
        occurs(e.class().word(), tagged(e)),
        occurs(e.redacted(), tagged(e)),
{
    let t = tagged(e);
    let w = e.class().word();
    let line = e.redacted();
    assert(t.subrange(t.len() - e.text().len(), t.len() as int) =~= e.text());
    let at = "[llm:"@.len() as int;
    assert(t.subrange(at, at + w.len()) =~= w);
    assert(occurs_at(w, t, at));
    let from = at + w.len() + "|"@.len();
    assert(t.subrange(from, from + line.len()) =~= line);
    assert(occurs_at(line, t, from));
}

} // verus!
