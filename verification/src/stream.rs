//! Reading a streamed reply.
//!
//! A streamed reply is a sequence of lines. Each `data:` line has a payload, which is a JSON
//! chunk, and each chunk may carry a piece of text. [`SseBuffer`] puts what arrives back
//! together into lines and gives their payloads.
use vstd::prelude::*;

use crate::llm::opt_view;
use crate::text::{
    begins, chars_of, copy_of, is_white_space, same, string_of, strip_prefix, trim, trim_start,
    trimmed,
};

verus! {

// ---------------------------------------------------------------------------
// Chunks
// ---------------------------------------------------------------------------

/// The text that a chunk carries, given the texts of its choices: that of the first choice,
/// where it is not empty. A payload that is no chunk carries none.
pub open spec fn chunk_text(choices: Option<Seq<Option<Seq<char>>>>) -> Option<Seq<char>> {
    if choices is Some && choices->Some_0.len() > 0 && choices->Some_0[0] is Some
        && choices->Some_0[0]->Some_0.len() > 0 {
        choices->Some_0[0]
    } else {
        None
    }
}

/// The texts of a chunk's choices.
pub open spec fn choice_texts(choices: Option<Vec<Option<String>>>) -> Option<
    Seq<Option<Seq<char>>>,
> {
    match choices {
        Some(c) => Some(c@.map_values(|t: Option<String>| opt_view(t))),
        None => None,
    }
}

/// The text that a chunk carries, given the texts of its choices, or nothing where the payload
/// is no chunk.
pub fn chunk_delta(choices: &Option<Vec<Option<String>>>) -> (r: Option<String>)
    ensures
        opt_view(r) == chunk_text(choice_texts(*choices)),
{
    match choices {
        Some(c) => if c.len() > 0 {
            assert(choice_texts(*choices)->Some_0[0] == opt_view(c@[0]));
            match &c[0] {
                Some(text) => if text.as_str().is_empty() {
                    None
                } else {
                    Some(copy_of(text.as_str()))
                },
                None => None,
            }
        } else {
            None
        },
        None => None,
    }
}

/// The JSON payload of a line: what follows `data:`, trimmed, but for the end marker.
pub open spec fn line_payload(line: Seq<char>) -> Option<Seq<char>> {
    if begins("data:"@, line) && trimmed(line.skip(5)) != "[DONE]"@ {
        Some(trimmed(line.skip(5)))
    } else {
        None
    }
}

/// The JSON payload of a line.
pub fn sse_payload(line: &str) -> (r: Option<String>)
    ensures
        match r {
            Some(s) => line_payload(line@) == Some(s@),
            None => line_payload(line@) is None,
        },
{
    proof {
        reveal_strlit("data:");
    }
    match strip_prefix(line, "data:") {
        Some(rest) => {
            let payload = trim(rest.as_str());
            if same(payload.as_str(), "[DONE]") {
                None
            } else {
                Some(payload)
            }
        },
        None => None,
    }
}

// ---------------------------------------------------------------------------
// Lines
// ---------------------------------------------------------------------------

/// The position of the first line feed from `from` on, or the length.
pub open spec fn next_line_feed(s: Seq<char>, from: int) -> int
    decreases s.len() - from,
{
    if from >= s.len() {
        s.len() as int
    } else if s[from] == '\n' {
        from
    } else {
        next_line_feed(s, from + 1)
    }
}

/// `s` without the carriage returns at its end.
pub open spec fn without_end_returns(s: Seq<char>) -> Seq<char>
    decreases s.len(),
{
    if s.len() > 0 && s.last() == '\r' {
        without_end_returns(s.drop_last())
    } else {
        s
    }
}

/// The payloads of the complete lines of `s`, in order.
pub open spec fn payloads_in_lines(s: Seq<char>) -> Seq<Seq<char>>
    decreases s.len(),
{
    let n = next_line_feed(s, 0);
    if 0 <= n < s.len() {
        let rest = payloads_in_lines(s.skip(n + 1));
        match line_payload(without_end_returns(s.take(n))) {
            Some(t) => seq![t] + rest,
            None => rest,
        }
    } else {
        Seq::empty()
    }
}

/// What stands behind the last line feed of `s`.
pub open spec fn unfinished_line(s: Seq<char>) -> Seq<char>
    decreases s.len(),
{
    let n = next_line_feed(s, 0);
    if 0 <= n < s.len() {
        unfinished_line(s.skip(n + 1))
    } else {
        s
    }
}

proof fn lemma_next_line_feed(s: Seq<char>, from: int)
    requires
        0 <= from <= s.len(),
    ensures
        from <= next_line_feed(s, from) <= s.len(),
        next_line_feed(s, from) < s.len() ==> s[next_line_feed(s, from)] == '\n',
        forall|k: int| from <= k < next_line_feed(s, from) ==> s[k] != '\n',
    decreases s.len() - from,
{
    if from < s.len() && s[from] != '\n' {
        lemma_next_line_feed(s, from + 1);
    }
}

proof fn lemma_next_line_feed_at(s: Seq<char>, from: int, n: int)
    requires
        0 <= from <= n <= s.len(),
        n < s.len() ==> s[n] == '\n',
        forall|k: int| from <= k < n ==> s[k] != '\n',
    ensures
        next_line_feed(s, from) == n,
    decreases n - from,
{
    if from < n {
        lemma_next_line_feed_at(s, from + 1, n);
    }
}

/// The line without the carriage returns at its end.
fn strip_returns(cs: &Vec<char>, from: usize, to: usize) -> (r: String)
    requires
        from <= to <= cs@.len(),
    ensures
        r@ == without_end_returns(cs@.subrange(from as int, to as int)),
{
    let ghost line = cs@.subrange(from as int, to as int);
    let mut n: usize = to;
    assert(line.take(n - from) =~= line);
    while n > from && cs[n - 1] == '\r'
        invariant
            from <= n <= to <= cs@.len(),
            line == cs@.subrange(from as int, to as int),
            without_end_returns(line) == without_end_returns(line.take(n - from)),
        decreases n,
    {
        assert(line.take(n - from).drop_last() =~= line.take(n - from - 1));
        assert(line[n - from - 1] == cs@[n - 1]);
        n -= 1;
    }
    proof {
        if n > from {
            assert(line.take(n - from).last() == cs@[n - 1]);
        }
        assert(cs@.subrange(from as int, n as int) =~= line.take(n - from));
    }
    string_of(cs, from, n)
}

/// The bytes of a stream that have arrived and not yet made a line.
#[derive(Debug)]
pub struct SseBuffer {
    buffer: String,
}

impl View for SseBuffer {
    type V = Seq<char>;

    closed spec fn view(&self) -> Seq<char> {
        self.buffer@
    }
}

impl SseBuffer {
    /// An empty buffer.
    pub fn new() -> (r: Self)
        ensures
            r@ == Seq::<char>::empty(),
    {
        SseBuffer { buffer: String::new() }
    }

    /// Takes what arrived and gives the payloads of the lines that it completes. What
    /// stands behind the last line feed waits for more.
    pub fn feed(&mut self, chunk: &str) -> (r: Vec<String>)
        ensures
            crate::text::views(r@) == payloads_in_lines(old(self)@ + chunk@),
            final(self)@ == unfinished_line(old(self)@ + chunk@),
    {
        self.buffer.append(chunk);
        let cs = chars_of(self.buffer.as_str());
        let ghost all = cs@;
        let mut out: Vec<String> = Vec::new();
        let mut start: usize = 0;
        let mut i: usize = 0;
        assert(all.skip(0) =~= all);
        assert(crate::text::views(out@) =~= Seq::<Seq<char>>::empty());
        assert(Seq::<Seq<char>>::empty() + payloads_in_lines(all) =~= payloads_in_lines(all));
        while i < cs.len()
            invariant
                cs@ == all,
                start <= i <= cs@.len(),
                forall|k: int| start <= k < i ==> all[k] != '\n',
                crate::text::views(out@) + payloads_in_lines(all.skip(start as int))
                    == payloads_in_lines(all),
                unfinished_line(all) == unfinished_line(all.skip(start as int)),
            decreases cs@.len() - i,
        {
            if cs[i] == '\n' {
                let ghost rest = all.skip(start as int);
                let ghost before = crate::text::views(out@);
                let line = strip_returns(&cs, start, i);
                proof {
                    assert forall|k: int| 0 <= k < i - start implies rest[k] != '\n' by {
                        assert(rest[k] == all[start + k]);
                    }
                    assert(rest[i - start] == all[i as int]);
                    lemma_next_line_feed_at(rest, 0, i - start);
                    assert(rest.take(i - start) =~= cs@.subrange(start as int, i as int));
                    assert(rest.skip(i - start + 1) =~= all.skip(i + 1));
                }
                match sse_payload(line.as_str()) {
                    Some(t) => {
                        let ghost v = t@;
                        out.push(t);
                        proof {
                            assert(crate::text::views(out@) =~= before.push(v));
                            assert(before + (seq![v] + payloads_in_lines(all.skip(i + 1))) =~= (
                            before.push(v) + payloads_in_lines(all.skip(i + 1))));
                        }
                    },
                    None => {},
                }
                start = i + 1;
            }
            i += 1;
        }
        proof {
            let rest = all.skip(start as int);
            assert forall|k: int| 0 <= k < rest.len() implies rest[k] != '\n' by {
                assert(rest[k] == all[start + k]);
            }
            lemma_next_line_feed_at(rest, 0, rest.len() as int);
            assert(payloads_in_lines(rest) =~= Seq::<Seq<char>>::empty());
            assert(crate::text::views(out@) + Seq::<Seq<char>>::empty() =~= crate::text::views(
                out@,
            ));
            assert(cs@.subrange(start as int, cs@.len() as int) =~= rest);
        }
        self.buffer = string_of(&cs, start, cs.len());
        out
    }
}

// ---------------------------------------------------------------------------
// Laws
// ---------------------------------------------------------------------------

/// How a stream is cut into chunks makes no difference: feeding two chunks one after the
/// other gives the payloads, and leaves the rest, that feeding them as one does.
pub proof fn law_chunking_is_irrelevant(a: Seq<char>, b: Seq<char>)
    ensures
        payloads_in_lines(a + b) == payloads_in_lines(a) + payloads_in_lines(unfinished_line(a) + b),
        unfinished_line(a + b) == unfinished_line(unfinished_line(a) + b),
    decreases a.len(),
{
    let n = next_line_feed(a, 0);
    lemma_next_line_feed(a, 0);
    if n < a.len() {
        let s = a + b;
        lemma_next_line_feed_at(s, 0, n);
        assert(s.take(n) =~= a.take(n));
        assert(s.skip(n + 1) =~= a.skip(n + 1) + b);
        law_chunking_is_irrelevant(a.skip(n + 1), b);
        let tail = payloads_in_lines(unfinished_line(a) + b);
        match line_payload(without_end_returns(a.take(n))) {
            Some(t) => {
                assert(seq![t] + (payloads_in_lines(a.skip(n + 1)) + tail) =~= (seq![t]
                    + payloads_in_lines(a.skip(n + 1))) + tail);
            },
            None => {},
        }
    } else {
        assert(Seq::<Seq<char>>::empty() + payloads_in_lines(a + b) =~= payloads_in_lines(a + b));
    }
}

/// A `data:` line is handed out, as soon as it is complete: its payload, without the white space
/// round it and before the payloads of the lines behind it.
pub proof fn law_payload_is_handed_out(payload: Seq<char>, rest: Seq<char>)
    requires
        payload.len() > 0,
        !is_white_space(payload[0]),
        !is_white_space(payload.last()),
        !payload.contains('\n'),
        payload != "[DONE]"@,
    ensures
        payloads_in_lines("data: "@ + payload + "\n"@ + rest) == seq![payload]
            + payloads_in_lines(rest),
        payloads_in_lines("data:"@ + payload + "\r\n"@ + rest) == seq![payload]
            + payloads_in_lines(rest),
{
    reveal_strlit("data:");
    reveal_strlit("data: ");
    reveal_strlit("\n");
    reveal_strlit("\r\n");
    let line = "data: "@ + payload;
    let s = line + "\n"@ + rest;
    let n = line.len() as int;
    assert forall|k: int| 0 <= k < n implies s[k] != '\n' by {
        if k >= 6 {
            assert(s[k] == payload[k - 6]);
        } else {
            assert(s[k] == "data: "@[k]);
        }
    }
    assert(s[n] == '\n');
    lemma_next_line_feed_at(s, 0, n);
    assert(s.take(n) =~= line);
    assert(s.skip(n + 1) =~= rest);
    lemma_last_stays(line);
    assert(line.subrange(0, 5) =~= "data:"@);
    let behind = line.skip(5);
    assert(behind[0] == ' ');
    assert(behind.drop_first() =~= payload);
    assert(trim_start(payload) == payload);
    assert(trim_start(behind) == payload);
    assert(trimmed(behind) == payload);
    let short = "data:"@ + payload;
    let full = short + "\r"@;
    reveal_strlit("\r");
    let s = short + "\r\n"@ + rest;
    let n = full.len() as int;
    assert forall|k: int| 0 <= k < n implies s[k] != '\n' by {
        if k >= n - 1 {
            assert(s[k] == '\r');
        } else if k >= 5 {
            assert(s[k] == payload[k - 5]);
        } else {
            assert(s[k] == "data:"@[k]);
        }
    }
    assert(s[n] == '\n');
    lemma_next_line_feed_at(s, 0, n);
    assert(s.take(n) =~= full);
    assert(s.skip(n + 1) =~= rest);
    assert(full.drop_last() =~= short);
    lemma_last_stays(short);
    assert(without_end_returns(full) == short);
    assert(short.subrange(0, 5) =~= "data:"@);
    assert(short.skip(5) =~= payload);
    assert(trimmed(payload) == payload);
}

proof fn lemma_last_stays(line: Seq<char>)
    requires
        line.len() > 0,
        !is_white_space(line.last()),
    ensures
        without_end_returns(line) == line,
{
}

/// A line that is no `data:` line, or that marks the end, hands out nothing.
pub proof fn law_other_lines_are_passed_over(line: Seq<char>, rest: Seq<char>)
    requires
        !line.contains('\n'),
        line.len() > 0 ==> line.last() != '\r',
        !begins("data:"@, line) || line == "data: [DONE]"@,
    ensures
        payloads_in_lines(line + "\n"@ + rest) == payloads_in_lines(rest),
{
    reveal_strlit("\n");
    let s = line + "\n"@ + rest;
    let n = line.len() as int;
    assert forall|k: int| 0 <= k < n implies s[k] != '\n' by {
        assert(s[k] == line[k]);
    }
    assert(s[n] == '\n');
    lemma_next_line_feed_at(s, 0, n);
    assert(s.take(n) =~= line);
    assert(s.skip(n + 1) =~= rest);
    if line == "data: [DONE]"@ {
        reveal_strlit("data: [DONE]");
        reveal_strlit("[DONE]");
        let behind = line.skip(5);
        assert(behind[0] == ' ');
        let mark = behind.drop_first();
        assert(mark =~= "[DONE]"@);
        assert(trim_start(mark) == mark);
        assert(trim_start(behind) == mark);
        assert(trimmed(behind) == mark);
    }
}

/// What makes no line yet waits, and nothing of it is lost.
pub proof fn law_unfinished_line_waits(s: Seq<char>)
    requires
        !s.contains('\n'),
    ensures
        payloads_in_lines(s) == Seq::<Seq<char>>::empty(),
        unfinished_line(s) == s,
{
    assert forall|k: int| 0 <= k < s.len() implies s[k] != '\n' by {}
    lemma_next_line_feed_at(s, 0, s.len() as int);
}

/// A piece of text is taken from the first choice, as it is.
pub proof fn law_piece_is_that_of_the_first_choice(choices: Seq<Option<Seq<char>>>)
    requires
        choices.len() > 0,
        choices[0] is Some,
        choices[0]->Some_0.len() > 0,
    ensures
        chunk_text(Some(choices)) == Some(choices[0]->Some_0),
{
}

} // verus!
