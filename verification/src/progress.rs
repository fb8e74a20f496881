//! Signs of progress while a turn takes long.
use vstd::prelude::*;

use crate::text::{
    ascii_lowered, concat3, concat4, decimal, decimal_text, same, same_ignoring_ascii_case,
};

verus! {

/// A setting that switches streaming on: `1`, or `true` in any case.
pub open spec fn is_on(value: Seq<char>) -> bool {
    value == "1"@ || ascii_lowered(value) == ascii_lowered("true"@)
}

/// Does the value of the setting switch streaming on?
pub fn llm_streaming_enabled(value: Option<&str>) -> (r: bool)
    ensures
        r == (value is Some && is_on(value->Some_0@)),
{
    match value {
        Some(v) => same(v, "1") || same_ignoring_ascii_case(v, "true"),
        None => false,
    }
}

/// How many frames the drafting sign has.
pub const FRAMES: usize = 4;

/// A frame of the drafting sign.
pub open spec fn frame_text(i: int) -> Seq<char> {
    if i == 0 {
        "â–±â–±â–±"@
    } else if i == 1 {
        "â–°â–±â–±"@
    } else if i == 2 {
        "â–°â–°â–±"@
    } else {
        "â–°â–°â–°"@
    }
}

/// A reply that arrives piece by piece.
#[derive(Debug)]
pub struct Draft {
    full: String,
    frame: usize,
}

impl Draft {
    /// What has arrived.
    pub closed spec fn text(self) -> Seq<char> {
        self.full@
    }

    /// The next frame of the drafting sign.
    pub closed spec fn frame(self) -> int {
        self.frame as int
    }

    /// The frame is one of those that there are.
    pub open spec fn wf(self) -> bool {
        0 <= self.frame() < FRAMES
    }

    /// Nothing has arrived.
    pub fn new() -> (r: Self)
        ensures
            r.wf(),
            r.text() == Seq::<char>::empty(),
            r.frame() == 0,
    {
        Draft { full: String::new(), frame: 0 }
    }

    /// Takes the next piece. Where a sign is due and can be sent, gives the sign; each sign
    /// shows the next frame, and the first follows the last.
    pub fn on_piece(&mut self, delta: &str, due: bool, routed: bool) -> (r: Option<String>)
        requires
            old(self).wf(),
        ensures
            final(self).wf(),
            final(self).text() == old(self).text() + delta@,
            match r {
                Some(body) => due && routed && body@ == "â†³ "@ + frame_text(old(self).frame())
                    + " Drafting responseâ€¦"@ && final(self).frame() == (old(self).frame() + 1)
                    % (FRAMES as int),
                None => !(due && routed) && final(self).frame() == old(self).frame(),
            },
    {
        self.full.append(delta);
        if !due || !routed {
            return None;
        }
        let sign = if self.frame == 0 {
            "â–±â–±â–±"
        } else if self.frame == 1 {
            "â–°â–±â–±"
        } else if self.frame == 2 {
            "â–°â–°â–±"
        } else {
            "â–°â–°â–°"
        };
        let body = concat3("â†³ ", sign, " Drafting responseâ€¦");
        self.frame = (self.frame + 1) % FRAMES;
        Some(body)
    }

    /// The whole reply.
    pub fn finish(self) -> (r: String)
        ensures
            r@ == self.text(),
    {
        self.full
    }
}

/// The sign of a tool that is dispatched: none where the last sign said the same, or where
/// no sign may be sent.
pub fn tool_progress_note(last_label: &Option<String>, label: &str, step: u64, allowed: bool) -> (r:
    Option<String>)
    ensures
        match r {
            Some(body) => allowed && crate::llm::opt_view(*last_label) != Some(label@) && body@
                == "â†³ Step "@ + decimal(step as nat) + " Â· "@ + label@,
            None => !allowed || crate::llm::opt_view(*last_label) == Some(label@),
        },
{
    let repeated = match last_label {
        Some(l) => same(l.as_str(), label),
        None => false,
    };
    if repeated || !allowed {
        None
    } else {
        Some(concat4("â†³ Step ", decimal_text(step).as_str(), " Â· ", label))
    }
}

// ---------------------------------------------------------------------------
// Laws
// ---------------------------------------------------------------------------

/// Each frame of the drafting sign looks different, so that progress is seen.
pub proof fn law_frames_differ(i: int, j: int)
    requires
        0 <= i < FRAMES,
        0 <= j < FRAMES,
        i != j,
    ensures
        frame_text(i) != frame_text(j),
{
    reveal_strlit("â–±â–±â–±");
    reveal_strlit("â–°â–±â–±");
    reveal_strlit("â–°â–°â–±");
    reveal_strlit("â–°â–°â–°");
    let a = frame_text(0);
    let b = frame_text(1);
    let c = frame_text(2);
    let d = frame_text(3);
    assert(a[2] != b[2]);
    assert(a[2] != c[2]);
    assert(a[2] != d[2]);
    assert(b[5] != c[5]);
    assert(b[5] != d[5]);
    assert(c[8] != d[8]);
}

/// Streaming is switched on by `1` and by `true` in any case, and by nothing else.
pub proof fn law_streaming_is_switched_on(value: Seq<char>)
    ensures
        is_on("1"@),
        ascii_lowered(value) == "true"@ ==> is_on(value),
        is_on(value) ==> value == "1"@ || ascii_lowered(value) == "true"@,
{
    reveal_strlit("true");
    assert(ascii_lowered("true"@) =~= "true"@);
}

} // verus!
