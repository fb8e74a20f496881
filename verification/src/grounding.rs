//! Guard against claims of work that was not done.
//!
//! An answer that claims to have used tools in a turn that used none gets a warning.
//! A request that asks for work, and not for talk, may force the model to use a tool.
use vstd::prelude::*;

use crate::text::{
    byte_len, concat2, contains, copy_of, count_words, longer_than_bytes, lowercase, occurs,
    occurs_at, same, to_lower, trim, trimmed, word_count,
};

verus! {

/// The longest request, in bytes, that is looked at.
pub const MAX_REQUEST_BYTES: usize = 512;

/// The warning behind an answer whose claims are not proved.
pub const UNVERIFIED_WARNING: &'static str =
    "\n\n⚠ **Vahvistamaton:** Tässä vuorossa ei ajettu yhtään työkalua (dispatch=0). Yllä olevat teko-väitteet eivät ole journal-todistettuja.";

/// A short request, of one or two words, for a sign of life or a report.
pub open spec fn is_short_action(q: Seq<char>) -> bool {
    ||| q == "toimitko?"@
    ||| q == "toimitko"@
    ||| q == "toimit?"@
    ||| q == "status"@
    ||| q == "raportti"@
    ||| q == "report"@
    ||| q == "working?"@
    ||| q == "are you working"@
    ||| occurs("toimitko"@, q)
    ||| occurs("pystytkö"@, q)
    ||| occurs("pystyt nyt"@, q)
}

/// A longer request that names a piece of work.
pub open spec fn names_work(q: Seq<char>) -> bool {
    ||| occurs("tee "@, q)
    ||| occurs("kirjoita"@, q)
    ||| occurs("lue "@, q)
    ||| occurs("read "@, q)
    ||| occurs("write "@, q)
    ||| occurs("tutki"@, q)
    ||| occurs("research"@, q)
    ||| occurs("web_search"@, q)
    ||| occurs("file_write"@, q)
    ||| occurs("fs_read"@, q)
    ||| occurs("top 20"@, q)
    ||| occurs("top20"@, q)
    ||| occurs("memory"@, q)
    ||| occurs("muisti"@, q)
    ||| occurs("korjaa"@, q)
    ||| occurs("fix "@, q)
    ||| occurs("deploy"@, q)
    ||| occurs("analysoi"@, q)
    ||| occurs("analyze"@, q)
}

/// A trimmed request in small letters that asks for work or for a report.
pub open spec fn asks_for_action(q: Seq<char>) -> bool {
    &&& q.len() > 0
    &&& byte_len(q) <= MAX_REQUEST_BYTES
    &&& if word_count(q) <= 2 {
        is_short_action(q)
    } else {
        names_work(q)
    }
}

/// Does a trimmed request in small letters ask for work or for a report?
pub fn lowered_asks_for_action(q: &str) -> (r: bool)
    ensures
        r == asks_for_action(q@),
{
    if q.is_empty() || longer_than_bytes(q, MAX_REQUEST_BYTES) {
        return false;
    }
    if count_words(q) <= 2 {
        return same(q, "toimitko?") || same(q, "toimitko") || same(q, "toimit?") || same(
            q,
            "status",
        ) || same(q, "raportti") || same(q, "report") || same(q, "working?") || same(
            q,
            "are you working",
        ) || contains(q, "toimitko") || contains(q, "pystytkö") || contains(q, "pystyt nyt");
    }
    contains(q, "tee ") || contains(q, "kirjoita") || contains(q, "lue ") || contains(q, "read ")
        || contains(q, "write ") || contains(q, "tutki") || contains(q, "research") || contains(
        q,
        "web_search",
    ) || contains(q, "file_write") || contains(q, "fs_read") || contains(q, "top 20") || contains(
        q,
        "top20",
    ) || contains(q, "memory") || contains(q, "muisti") || contains(q, "korjaa") || contains(
        q,
        "fix ",
    ) || contains(q, "deploy") || contains(q, "analysoi") || contains(q, "analyze")
}

/// Does the message expect action or a report, and not small talk?
pub fn looks_like_action_request(query: &str) -> (r: bool)
    ensures
        r == asks_for_action(lowercase(trimmed(query@))),
{
    lowered_asks_for_action(to_lower(trim(query).as_str()).as_str())
}

/// A text in small letters that already bears the warning.
pub open spec fn is_flagged(lower: Seq<char>) -> bool {
    occurs("⚠"@, lower) && occurs("vahvistamaton"@, lower)
}

/// A text in small letters that says that something was done.
pub open spec fn has_claim_marker(lower: Seq<char>) -> bool {
    ||| occurs("done:"@, lower)
    ||| occurs("✅"@, lower)
    ||| occurs("kirjoitin"@, lower)
    ||| occurs("tallensin"@, lower)
    ||| occurs("luotu"@, lower)
    ||| occurs("generated"@, lower)
    ||| occurs("updated:"@, lower)
    ||| occurs("päivitetty"@, lower)
    ||| occurs("evidence:"@, lower)
    ||| occurs("todiste:"@, lower)
    ||| occurs("auto-updated"@, lower)
    ||| occurs("functional"@, lower)
    ||| occurs("operational"@, lower)
    ||| occurs("fs_read_allowlisted"@, lower)
    ||| occurs("file_write_allowlisted"@, lower)
    ||| occurs("hyperframes"@, lower)
    ||| occurs("agent_ledger"@, lower)
    ||| occurs("hermes"@, lower)
    ||| occurs("cron"@, lower)
}

/// A text in small letters that names a path on a drive.
pub open spec fn names_path(lower: Seq<char>) -> bool {
    occurs(":\\"@, lower) || occurs("e:/"@, lower) || occurs("e:\\\\"@, lower)
}

/// A text in small letters that claims work on a file and does not bear the warning.
pub open spec fn claims_work(lower: Seq<char>) -> bool {
    !is_flagged(lower) && has_claim_marker(lower) && names_path(lower)
}

/// Does a text in small letters claim work on a file, without the warning?
pub fn lowered_claims_work(lower: &str) -> (r: bool)
    ensures
        r == claims_work(lower@),
{
    if contains(lower, "⚠") && contains(lower, "vahvistamaton") {
        return false;
    }
    let marked = contains(lower, "done:") || contains(lower, "✅") || contains(lower, "kirjoitin")
        || contains(lower, "tallensin") || contains(lower, "luotu") || contains(lower, "generated")
        || contains(lower, "updated:") || contains(lower, "päivitetty") || contains(
        lower,
        "evidence:",
    ) || contains(lower, "todiste:") || contains(lower, "auto-updated") || contains(
        lower,
        "functional",
    ) || contains(lower, "operational") || contains(lower, "fs_read_allowlisted") || contains(
        lower,
        "file_write_allowlisted",
    ) || contains(lower, "hyperframes") || contains(lower, "agent_ledger") || contains(
        lower,
        "hermes",
    ) || contains(lower, "cron");
    if !marked {
        return false;
    }
    contains(lower, ":\\") || contains(lower, "e:/") || contains(lower, "e:\\\\")
}

/// Does the response claim that tools were used?
pub fn response_claims_tool_use(text: &str) -> (r: bool)
    ensures
        r == claims_work(lowercase(text@)),
{
    lowered_claims_work(to_lower(text).as_str())
}

/// The answer as it leaves a turn that dispatched `dispatch_count` tools.
pub open spec fn guarded(answer: Seq<char>, dispatch_count: nat) -> Seq<char> {
    if dispatch_count == 0 && claims_work(lowercase(answer)) {
        answer + UNVERIFIED_WARNING@
    } else {
        answer
    }
}

/// Adds the warning to an answer that claims work in a turn that dispatched no tool.
pub fn apply_grounding_guard(answer: &str, dispatch_count: u32) -> (r: String)
    ensures
        r@ == guarded(answer@, dispatch_count as nat),
{
    if dispatch_count > 0 || !response_claims_tool_use(answer) {
        return copy_of(answer);
    }
    concat2(answer, UNVERIFIED_WARNING)
}

/// A memory in small letters that holds an earlier claim of work.
pub open spec fn is_claim_memory(lower: Seq<char>) -> bool {
    ||| occurs("agent_ledger"@, lower)
    ||| occurs("hyperframes_integration"@, lower)
    ||| occurs("research_log.json"@, lower)
    ||| occurs("hermes cron"@, lower)
    ||| occurs("hermes-cron"@, lower)
    ||| occurs("auto-updated with research"@, lower)
    ||| occurs("build execution"@, lower)
    ||| occurs("operator status report"@, lower)
    ||| occurs("executing full agent harness"@, lower)
}

/// Does a memory in small letters hold an earlier claim of work?
pub fn lowered_is_claim_memory(lower: &str) -> (r: bool)
    ensures
        r == is_claim_memory(lower@),
{
    contains(lower, "agent_ledger") || contains(lower, "hyperframes_integration") || contains(
        lower,
        "research_log.json",
    ) || contains(lower, "hermes cron") || contains(lower, "hermes-cron") || contains(
        lower,
        "auto-updated with research",
    ) || contains(lower, "build execution") || contains(lower, "operator status report")
        || contains(lower, "executing full agent harness")
}

/// Does the memory likely hold an earlier claim of work?
pub fn memory_is_unverified_tool_claim(content: &str) -> (r: bool)
    ensures
        r == is_claim_memory(lowercase(content@)),
{
    lowered_is_claim_memory(to_lower(content).as_str())
}

// ---------------------------------------------------------------------------
// Laws
// ---------------------------------------------------------------------------

/// The guard leaves an answer as it is exactly where a tool was dispatched or the answer claims
/// no work. Else it takes nothing away and adds the warning: the answer stays the beginning of
/// what is sent.
pub proof fn law_guard_only_appends(answer: Seq<char>, dispatch_count: nat)
    ensures
        guarded(answer, dispatch_count) == answer <==> dispatch_count > 0 || !claims_work(
            lowercase(answer),
        ),
        answer.is_prefix_of(guarded(answer, dispatch_count)),
        guarded(answer, dispatch_count) != answer ==> {
            &&& guarded(answer, dispatch_count) == answer + UNVERIFIED_WARNING@
            &&& answer.len() < guarded(answer, dispatch_count).len()
            &&& occurs("⚠"@, guarded(answer, dispatch_count))
            &&& occurs("Vahvistamaton"@, guarded(answer, dispatch_count))
        },
{
    reveal_strlit("\n\n⚠ **Vahvistamaton:** Tässä vuorossa ei ajettu yhtään työkalua (dispatch=0). Yllä olevat teko-väitteet eivät ole journal-todistettuja.");
    reveal_strlit("⚠");
    reveal_strlit("Vahvistamaton");
    let sent = answer + UNVERIFIED_WARNING@;
    let n = answer.len() as int;
    assert(sent.subrange(0, n) =~= answer);
    assert(answer.subrange(0, n) =~= answer);
    assert(sent.subrange(n + 2, n + 3) =~= "⚠"@);
    assert(occurs_at("⚠"@, sent, n + 2));
    assert(sent.subrange(n + 6, n + 19) =~= "Vahvistamaton"@);
    assert(occurs_at("Vahvistamaton"@, sent, n + 6));
}

/// What bears the warning is not taken for a claim again.
pub proof fn law_flagged_text_claims_nothing(answer: Seq<char>, dispatch_count: nat)
    requires
        is_flagged(lowercase(answer)),
    ensures
        guarded(answer, dispatch_count) == answer,
{
}

/// An answer is not warned of twice, and claims nothing once it is warned of, where the warning
/// is still found in it in small letters.
pub proof fn law_warning_is_not_repeated(answer: Seq<char>, dispatch_count: nat)
    requires
        is_flagged(lowercase(answer + UNVERIFIED_WARNING@)),
    ensures
        guarded(guarded(answer, dispatch_count), dispatch_count) == guarded(
            answer,
            dispatch_count,
        ),
        dispatch_count == 0 ==> !claims_work(lowercase(guarded(answer, dispatch_count))),
{
}

/// Without a path in it, no answer is taken for a claim.
pub proof fn law_no_path_no_warning(answer: Seq<char>, dispatch_count: nat)
    requires
        !names_path(lowercase(answer)),
    ensures
        guarded(answer, dispatch_count) == answer,
{
}

/// A text that says that something was written, saved, created or updated, or brings evidence,
/// and names a path on a drive, claims work, unless it is warned of; a text that names no path
/// or says nothing of the kind does not.
pub proof fn law_claims_are_recognized(lower: Seq<char>)
    ensures
        (occurs("kirjoitin"@, lower) || occurs("tallensin"@, lower) || occurs("luotu"@, lower)
            || occurs("generated"@, lower) || occurs("päivitetty"@, lower) || occurs(
            "updated:"@,
            lower,
        ) || occurs("done:"@, lower) || occurs("✅"@, lower) || occurs("evidence:"@, lower)
            || occurs("todiste:"@, lower)) && (occurs(":\\"@, lower) || occurs("e:/"@, lower))
            && !(occurs("⚠"@, lower) && occurs("vahvistamaton"@, lower)) ==> claims_work(lower),
        !occurs(":\\"@, lower) && !occurs("e:/"@, lower) && !occurs("e:\\\\"@, lower)
            ==> !claims_work(lower),
        claims_work(lower) ==> has_claim_marker(lower),
{
}

/// An answer that claims work is warned of where no tool was used, and is left as it is where
/// one was.
pub proof fn law_unproved_claim_is_warned_of(answer: Seq<char>, dispatches: nat)
    requires
        occurs("kirjoitin"@, lowercase(answer)) || occurs("tallensin"@, lowercase(answer)) || occurs(
            "done:"@,
            lowercase(answer),
        ),
        occurs(":\\"@, lowercase(answer)),
        !occurs("⚠"@, lowercase(answer)),
    ensures
        dispatches == 0 ==> guarded(answer, dispatches) == answer + UNVERIFIED_WARNING@,
        dispatches > 0 ==> guarded(answer, dispatches) == answer,
{
}

/// A request of three words or more that names a piece of work asks for action, unless it is too
/// long to be looked at; one that names none does not.
pub proof fn law_work_is_recognized(q: Seq<char>)
    requires
        word_count(q) > 2,
        q.len() > 0,
        byte_len(q) <= 512,
    ensures
        occurs("kirjoita"@, q) || occurs("tee "@, q) || occurs("lue "@, q) || occurs("read "@, q)
            || occurs("write "@, q) || occurs("tutki"@, q) || occurs("research"@, q) || occurs(
            "korjaa"@,
            q,
        ) || occurs("fix "@, q) || occurs("analysoi"@, q) || occurs("analyze"@, q) || occurs(
            "deploy"@,
            q,
        ) ==> asks_for_action(q),
        asks_for_action(q) ==> names_work(q),
{
}

/// A short request asks for action only where it asks for a sign of life or a report.
pub proof fn law_short_requests_are_recognized(q: Seq<char>)
    requires
        word_count(q) <= 2,
        q.len() > 0,
        byte_len(q) <= 512,
    ensures
        q == "status"@ || q == "raportti"@ || q == "report"@ || occurs("toimitko"@, q)
            ==> asks_for_action(q),
        asks_for_action(q) ==> is_short_action(q),
{
}

} // verus!
