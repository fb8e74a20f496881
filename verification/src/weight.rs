//! Weights between zero and one, as decimal text.
//!
//! Trust and importance are numbers that come as text: from the command line, or from JSON.
//! They are carried as that text and compared exactly. The grammar of a number is that of
//! Rust's floating-point parser: an optional sign, then `inf`, `infinity`, `nan`, or digits
//! with an optional point among them and an optional exponent, in any case.
use vstd::prelude::*;

use crate::text::{
    all_digits, ascii_lowered, chars_of, copy_of, digits_value, is_digit, leading_digits,
    lemma_leading_digits, same, string_of, to_ascii_lower,
};

verus! {

// ---------------------------------------------------------------------------
// Numbers
// ---------------------------------------------------------------------------

/// Ten to the `n`.
pub open spec fn pow10(n: nat) -> nat
    decreases n,
{
    if n == 0 {
        1
    } else {
        10 * pow10((n - 1) as nat)
    }
}

/// A number: the value of its digits times ten to its exponent, with a sign.
pub struct Number {
    pub negative: bool,
    pub digits: Seq<char>,
    pub exponent: int,
}

/// What a text says.
pub enum Literal {
    /// An infinity.
    Infinite { negative: bool },
    /// Not a number.
    NotANumber,
    /// A number.
    Finite(Number),
}

/// What stands behind the digits with which `s` begins.
pub open spec fn behind_digits(s: Seq<char>) -> Seq<char> {
    s.skip(leading_digits(s).len() as int)
}

/// The exponent that `s` writes: nothing is zero; else a letter `e`, an optional sign and
/// digits.
pub open spec fn exponent_in(s: Seq<char>) -> Option<int> {
    if s.len() == 0 {
        Some(0)
    } else if s[0] != 'e' && s[0] != 'E' {
        None
    } else {
        let t = s.skip(1);
        let negative = t.len() > 0 && t[0] == '-';
        let signed = t.len() > 0 && (t[0] == '-' || t[0] == '+');
        let d = if signed {
            t.skip(1)
        } else {
            t
        };
        if d.len() > 0 && all_digits(d) {
            Some(
                if negative {
                    -(digits_value(d) as int)
                } else {
                    digits_value(d) as int
                },
            )
        } else {
            None
        }
    }
}

/// The number that an unsigned text writes.
pub open spec fn number_in(s: Seq<char>, negative: bool) -> Option<Number> {
    let whole = leading_digits(s);
    let rest = behind_digits(s);
    let pointed = rest.len() > 0 && rest[0] == '.';
    let fraction = if pointed {
        leading_digits(rest.skip(1))
    } else {
        Seq::empty()
    };
    let tail = if pointed {
        behind_digits(rest.skip(1))
    } else {
        rest
    };
    if whole.len() + fraction.len() == 0 || exponent_in(tail) is None {
        None
    } else {
        Some(
            Number {
                negative,
                digits: whole + fraction,
                exponent: exponent_in(tail)->Some_0 - fraction.len(),
            },
        )
    }
}

/// What a text says, if it says a number.
pub open spec fn literal(s: Seq<char>) -> Option<Literal> {
    let negative = s.len() > 0 && s[0] == '-';
    let signed = s.len() > 0 && (s[0] == '-' || s[0] == '+');
    let t = if signed {
        s.skip(1)
    } else {
        s
    };
    let lower = ascii_lowered(t);
    if lower == "inf"@ || lower == "infinity"@ {
        Some(Literal::Infinite { negative })
    } else if lower == "nan"@ {
        Some(Literal::NotANumber)
    } else {
        match number_in(t, negative) {
            Some(n) => Some(Literal::Finite(n)),
            None => None,
        }
    }
}

/// Where a magnitude lies against another.
#[derive(Debug, Clone, Copy, PartialEq, Eq, Structural)]
pub enum Side {
    Below,
    Equal,
    Above,
}

/// Where `a` lies against `b`.
pub open spec fn side_of(a: nat, b: nat) -> Side {
    if a < b {
        Side::Below
    } else if a == b {
        Side::Equal
    } else {
        Side::Above
    }
}

/// Where `value` times ten to `exponent` lies against `bound`.
pub open spec fn scaled_side(value: nat, exponent: int, bound: nat) -> Side {
    if exponent >= 0 {
        side_of(value * pow10(exponent as nat), bound)
    } else {
        side_of(value, bound * pow10((-exponent) as nat))
    }
}

/// Where the magnitude of a number lies against `bound` divided by ten to `scale`.
pub open spec fn magnitude_side(n: Number, bound: nat, scale: nat) -> Side {
    scaled_side(digits_value(n.digits), n.exponent + scale, bound)
}

// ---------------------------------------------------------------------------
// Facts
// ---------------------------------------------------------------------------

proof fn lemma_pow10_positive(n: nat)
    ensures
        pow10(n) >= 1,
    decreases n,
{
    if n > 0 {
        lemma_pow10_positive((n - 1) as nat);
    }
}

proof fn lemma_pow10_add(a: nat, b: nat)
    ensures
        pow10(a + b) == pow10(a) * pow10(b),
    decreases a,
{
    if a == 0 {
        assert(pow10(0) * pow10(b) == pow10(b)) by (nonlinear_arith)
            requires
                pow10(0) == 1,
        ;
    } else {
        lemma_pow10_add((a - 1) as nat, b);
        assert(pow10(a + b) == 10 * pow10((a - 1 + b) as nat));
        assert(10 * (pow10((a - 1) as nat) * pow10(b)) == (10 * pow10((a - 1) as nat)) * pow10(b))
            by (nonlinear_arith);
    }
}

proof fn lemma_pow10_monotone(a: nat, b: nat)
    requires
        a <= b,
    ensures
        pow10(a) <= pow10(b),
    decreases b,
{
    if a < b {
        lemma_pow10_monotone(a, (b - 1) as nat);
        lemma_pow10_positive((b - 1) as nat);
    }
}

/// A numeral of `len` digits is below ten to the `len`.
proof fn lemma_digits_upper(s: Seq<char>)
    requires
        all_digits(s),
    ensures
        digits_value(s) < pow10(s.len()),
    decreases s.len(),
{
    if s.len() > 0 {
        let t = s.drop_last();
        assert(is_digit(s[s.len() - 1]));
        assert forall|i: int| 0 <= i < t.len() implies is_digit(#[trigger] t[i]) by {
            assert(is_digit(s[i]));
        }
        lemma_digits_upper(t);
    }
}

/// A numeral without a leading zero is at least ten to one less than its length.
proof fn lemma_digits_lower(s: Seq<char>)
    requires
        all_digits(s),
        s.len() > 0,
        s[0] != '0',
    ensures
        digits_value(s) >= pow10((s.len() - 1) as nat),
    decreases s.len(),
{
    assert(is_digit(s[0]));
    let t = s.drop_last();
    assert(is_digit(s[s.len() - 1]));
    if s.len() == 1 {
        assert(t.len() == 0);
        assert(digits_value(t) == 0);
        assert(s.last() == s[0]);
    } else {
        assert forall|i: int| 0 <= i < t.len() implies is_digit(#[trigger] t[i]) by {
            assert(is_digit(s[i]));
        }
        lemma_digits_lower(t);
    }
}

/// The value of a numeral in two parts.
proof fn lemma_digits_split(a: Seq<char>, b: Seq<char>)
    ensures
        digits_value(a + b) == digits_value(a) * pow10(b.len()) + digits_value(b),
    decreases b.len(),
{
    if b.len() == 0 {
        assert(a + b =~= a);
        assert(digits_value(a) * pow10(0) == digits_value(a)) by (nonlinear_arith)
            requires
                pow10(0) == 1,
        ;
    } else {
        let c = b.drop_last();
        assert((a + b).drop_last() =~= a + c);
        lemma_digits_split(a, c);
        let x = digits_value(a);
        let p = pow10(c.len());
        assert(pow10(b.len()) == 10 * p);
        assert((x * p + digits_value(c)) * 10 == x * (10 * p) + digits_value(c) * 10)
            by (nonlinear_arith);
    }
}

/// Leading zeros do not matter.
proof fn lemma_leading_zeros(s: Seq<char>, k: int)
    requires
        0 <= k <= s.len(),
        forall|i: int| 0 <= i < k ==> s[i] == '0',
    ensures
        digits_value(s) == digits_value(s.skip(k)),
{
    let a = s.take(k);
    let b = s.skip(k);
    assert(a + b =~= s);
    lemma_digits_split(a, b);
    lemma_zeros(a);
    assert(0 * pow10(b.len()) == 0);
}

proof fn lemma_zeros(s: Seq<char>)
    requires
        forall|i: int| 0 <= i < s.len() ==> s[i] == '0',
    ensures
        digits_value(s) == 0,
    decreases s.len(),
{
    if s.len() > 0 {
        lemma_zeros(s.drop_last());
    }
}

/// A number with more whole digits than the bound is above it.
proof fn lemma_above(value: nat, len: nat, exponent: int, bound: nat, bound_len: nat)
    requires
        len > 0,
        value >= pow10((len - 1) as nat),
        bound < pow10(bound_len),
        len + exponent > bound_len,
    ensures
        scaled_side(value, exponent, bound) == Side::Above,
{
    let m = (len - 1) as nat;
    if exponent >= 0 {
        let e = exponent as nat;
        lemma_pow10_add(m, e);
        lemma_pow10_monotone(bound_len, m + e);
        lemma_pow10_positive(e);
        assert(value * pow10(e) >= pow10(m) * pow10(e)) by (nonlinear_arith)
            requires
                value >= pow10(m),
        ;
    } else {
        let e = (-exponent) as nat;
        lemma_pow10_add(bound_len, e);
        lemma_pow10_monotone(bound_len + e, m);
        lemma_pow10_positive(e);
        assert(bound * pow10(e) < pow10(bound_len) * pow10(e)) by (nonlinear_arith)
            requires
                bound < pow10(bound_len),
                pow10(e) >= 1,
        ;
    }
}

/// A number with fewer whole digits than the bound is below it.
proof fn lemma_below(value: nat, len: nat, exponent: int, bound: nat, bound_len: nat)
    requires
        value < pow10(len),
        bound_len > 0,
        bound >= pow10((bound_len - 1) as nat),
        len + exponent < bound_len,
    ensures
        scaled_side(value, exponent, bound) == Side::Below,
{
    let m = (bound_len - 1) as nat;
    if exponent >= 0 {
        let e = exponent as nat;
        lemma_pow10_add(len, e);
        lemma_pow10_monotone(len + e, m);
        lemma_pow10_positive(e);
        assert(value * pow10(e) < pow10(len) * pow10(e)) by (nonlinear_arith)
            requires
                value < pow10(len),
                pow10(e) >= 1,
        ;
    } else {
        let e = (-exponent) as nat;
        lemma_pow10_add(m, e);
        lemma_pow10_monotone(len, m + e);
        lemma_pow10_positive(e);
        assert(bound * pow10(e) >= pow10(m) * pow10(e)) by (nonlinear_arith)
            requires
                bound >= pow10(m),
        ;
    }
}

/// Zero is below every bound.
proof fn lemma_zero_side(exponent: int, bound: nat)
    requires
        bound > 0,
    ensures
        scaled_side(0, exponent, bound) == Side::Below,
{
    if exponent < 0 {
        let e = (-exponent) as nat;
        lemma_pow10_positive(e);
        assert(bound * pow10(e) > 0) by (nonlinear_arith)
            requires
                bound > 0,
                pow10(e) >= 1,
        ;
    } else {
        assert(0 * pow10(exponent as nat) == 0);
    }
}

// ---------------------------------------------------------------------------
// Reading
// ---------------------------------------------------------------------------

/// Exponents beyond this are not told apart.
pub const EXPONENT_CAP: i128 = 1_000_000_000_000_000_000_000_000_000_000;

/// `x` is `actual`, or the cap on its side where it lies beyond.
pub open spec fn stands_for(x: int, actual: int) -> bool {
    if actual > EXPONENT_CAP {
        x == EXPONENT_CAP
    } else if actual < -EXPONENT_CAP {
        x == -EXPONENT_CAP
    } else {
        x == actual
    }
}

/// A number as it is held.
#[derive(Debug)]
struct Held {
    negative: bool,
    digits: Vec<char>,
    exponent: i128,
    fraction: usize,
}

impl Held {
    /// This holds `n`.
    spec fn holds(self, n: Number) -> bool {
        &&& self.negative == n.negative
        &&& self.digits@ == n.digits
        &&& all_digits(n.digits)
        &&& stands_for(self.exponent as int, n.exponent + self.fraction)
        &&& -EXPONENT_CAP <= self.exponent <= EXPONENT_CAP
    }
}

/// The digits of `cs` from `from` on.
fn digits_end(cs: &Vec<char>, from: usize) -> (r: usize)
    requires
        from <= cs@.len(),
    ensures
        from <= r <= cs@.len(),
        leading_digits(cs@.skip(from as int)) == cs@.subrange(from as int, r as int),
        all_digits(cs@.subrange(from as int, r as int)),
        behind_digits(cs@.skip(from as int)) == cs@.skip(r as int),
{
    let mut i: usize = from;
    while i < cs.len() && '0' <= cs[i] && cs[i] <= '9'
        invariant
            from <= i <= cs@.len(),
            forall|k: int| from <= k < i ==> is_digit(#[trigger] cs@[k]),
        decreases cs@.len() - i,
    {
        i += 1;
    }
    proof {
        let s = cs@.skip(from as int);
        let a = cs@.subrange(from as int, i as int);
        let b = cs@.skip(i as int);
        assert(a + b =~= s);
        assert forall|k: int| 0 <= k < a.len() implies is_digit(#[trigger] a[k]) by {
            assert(a[k] == cs@[from + k]);
        }
        lemma_leading_digits(a, b);
        assert(s.skip(a.len() as int) =~= b);
    }
    i
}

/// The exponent that stands in `cs` from `from` on, as far as it is told apart.
fn read_exponent(cs: &Vec<char>, from: usize) -> (r: Option<i128>)
    requires
        from <= cs@.len(),
    ensures
        match r {
            Some(x) => exponent_in(cs@.skip(from as int)) is Some && stands_for(
                x as int,
                exponent_in(cs@.skip(from as int))->Some_0,
            ) && -EXPONENT_CAP <= x <= EXPONENT_CAP,
            None => exponent_in(cs@.skip(from as int)) is None,
        },
{
    let ghost s = cs@.skip(from as int);
    if from == cs.len() {
        return Some(0);
    }
    assert(s[0] == cs@[from as int]);
    if cs[from] != 'e' && cs[from] != 'E' {
        return None;
    }
    let ghost t = s.skip(1);
    assert(t =~= cs@.skip(from + 1));
    let mut at: usize = from + 1;
    let mut negative = false;
    if at < cs.len() && (cs[at] == '-' || cs[at] == '+') {
        assert(t[0] == cs@[at as int]);
        negative = cs[at] == '-';
        at = at + 1;
        assert(t.skip(1) =~= cs@.skip(at as int));
    } else if at < cs.len() {
        assert(t[0] == cs@[at as int]);
    }
    let ghost d = cs@.skip(at as int);
    if at == cs.len() {
        return None;
    }
    assert(exponent_in(s) is Some ==> all_digits(d));
    let mut value: i128 = 0;
    let mut i: usize = at;
    assert(d.take(0) =~= Seq::<char>::empty());
    while i < cs.len()
        invariant
            at <= i <= cs@.len(),
            d == cs@.skip(at as int),
            s == cs@.skip(from as int),
            exponent_in(s) is Some ==> all_digits(d),
            forall|k: int| 0 <= k < i - at ==> is_digit(#[trigger] d[k]),
            0 <= value <= EXPONENT_CAP,
            stands_for(value as int, digits_value(d.take(i - at)) as int),
        decreases cs@.len() - i,
    {
        let c = cs[i];
        assert(d[i - at] == c);
        if c < '0' || c > '9' {
            assert(!is_digit(d[i - at]));
            return None;
        }
        let digit: i128 = (c as u32 - 48) as i128;
        assert(d.take(i - at + 1).drop_last() =~= d.take(i - at));
        let next: i128 = value * 10 + digit;
        value = if next > EXPONENT_CAP {
            EXPONENT_CAP
        } else {
            next
        };
        i += 1;
    }
    assert(d.take(i - at) =~= d);
    if negative {
        Some(-value)
    } else {
        Some(value)
    }
}

/// The number that stands in `cs` from `from` on.
fn read_number(cs: &Vec<char>, from: usize, negative: bool) -> (r: Option<Held>)
    requires
        from <= cs@.len(),
    ensures
        match r {
            Some(h) => number_in(cs@.skip(from as int), negative) is Some && h.holds(
                number_in(cs@.skip(from as int), negative)->Some_0,
            ),
            None => number_in(cs@.skip(from as int), negative) is None,
        },
{
    let ghost s = cs@.skip(from as int);
    let whole_end: usize = digits_end(cs, from);
    let ghost rest = cs@.skip(whole_end as int);
    let mut digits: Vec<char> = Vec::new();
    let mut i: usize = from;
    while i < whole_end
        invariant
            from <= i <= whole_end <= cs@.len(),
            digits@ =~= cs@.subrange(from as int, i as int),
        decreases whole_end - i,
    {
        digits.push(cs[i]);
        i += 1;
    }
    let mut tail: usize = whole_end;
    let mut fraction: usize = 0;
    let ghost mut frac = Seq::<char>::empty();
    if whole_end < cs.len() {
        assert(rest[0] == cs@[whole_end as int]);
    }
    if whole_end < cs.len() && cs[whole_end] == '.' {
        let start: usize = whole_end + 1;
        let end: usize = digits_end(cs, start);
        assert(rest.skip(1) =~= cs@.skip(start as int));
        proof {
            frac = cs@.subrange(start as int, end as int);
        }
        let ghost whole = digits@;
        let mut k: usize = start;
        while k < end
            invariant
                start <= k <= end <= cs@.len(),
                digits@ =~= whole + cs@.subrange(start as int, k as int),
            decreases end - k,
        {
            digits.push(cs[k]);
            k += 1;
        }
        fraction = end - start;
        tail = end;
    }
    assert(digits@ =~= leading_digits(s) + frac);
    if digits.len() == 0 {
        return None;
    }
    match read_exponent(cs, tail) {
        Some(exponent) => {
            let h = Held { negative, digits, exponent, fraction };
            proof {
                let n = number_in(s, negative)->Some_0;
                let whole = leading_digits(s);
                assert forall|k: int| 0 <= k < n.digits.len() implies is_digit(
                    #[trigger] n.digits[k],
                ) by {
                    if k < whole.len() {
                        assert(n.digits[k] == whole[k]);
                    } else {
                        assert(n.digits[k] == frac[k - whole.len()]);
                    }
                }
            }
            Some(h)
        },
        None => None,
    }
}

/// What a text says, as it is held.
enum HeldLiteral {
    Infinite { negative: bool },
    NotANumber,
    Finite(Held),
}

/// Reads what a text says.
fn read_literal(s: &str) -> (r: Option<HeldLiteral>)
    ensures
        match r {
            Some(HeldLiteral::Infinite { negative }) => literal(s@) == Some(
                Literal::Infinite { negative },
            ),
            Some(HeldLiteral::NotANumber) => literal(s@) == Some(Literal::NotANumber),
            Some(HeldLiteral::Finite(h)) => literal(s@) is Some && literal(s@)->Some_0 is Finite
                && h.holds(literal(s@)->Some_0->Finite_0),
            None => literal(s@) is None,
        },
{
    let cs = chars_of(s);
    let negative = cs.len() > 0 && cs[0] == '-';
    let from: usize = if cs.len() > 0 && (cs[0] == '-' || cs[0] == '+') {
        1
    } else {
        0
    };
    let n: usize = cs.len();
    let t = string_of(&cs, from, n);
    proof {
        assert(cs@.skip(0) =~= cs@);
        assert(t@ =~= cs@.skip(from as int));
    }
    let lower = to_ascii_lower(t.as_str());
    if same(lower.as_str(), "inf") || same(lower.as_str(), "infinity") {
        return Some(HeldLiteral::Infinite { negative });
    }
    if same(lower.as_str(), "nan") {
        return Some(HeldLiteral::NotANumber);
    }
    match read_number(&cs, from, negative) {
        Some(h) => Some(HeldLiteral::Finite(h)),
        None => None,
    }
}

// ---------------------------------------------------------------------------
// Comparing
// ---------------------------------------------------------------------------

/// Where the value of the digits `ds`, which do not begin with a zero, times ten to
/// `exponent` lies against `bound`, where both have as many whole digits.
fn compare_aligned(ds: &Vec<char>, first: usize, exponent: i128, bound: u128, bound_len: usize) -> (r:
    Side)
    requires
        first < ds@.len(),
        all_digits(ds@.skip(first as int)),
        ds@.len() - first + exponent == bound_len,
        bound_len <= 39,
        bound < pow10(bound_len as nat),
    ensures
        r == scaled_side(digits_value(ds@.skip(first as int)), exponent as int, bound as nat),
{
    let ghost s = ds@.skip(first as int);
    let written: usize = ds.len();
    let len: usize = written - first;
    let keep: usize = if len < bound_len {
        len
    } else {
        bound_len
    };
    // The value of the digits that stand before the point, as far as they are written.
    let mut value: u128 = 0;
    let mut over = false;
    let mut i: usize = 0;
    assert(s.take(0) =~= Seq::<char>::empty());
    while i < keep
        invariant
            i <= keep <= len,
            written == ds@.len(),
            first + len == written,
            s == ds@.skip(first as int),
            all_digits(s),
            !over ==> value == digits_value(s.take(i as int)),
            over ==> digits_value(s.take(i as int)) > u128::MAX,
        decreases keep - i,
    {
        assert(s[i as int] == ds@[first + i]);
        assert(is_digit(s[i as int]));
        let d: u128 = (ds[first + i] as u32 - 48) as u128;
        assert(s.take(i + 1).drop_last() =~= s.take(i as int));
        if !over {
            if value > (u128::MAX - d) / 10 {
                over = true;
                assert(value * 10 + d > u128::MAX);
            } else {
                value = value * 10 + d;
            }
        }
        i += 1;
    }
    // The zeros that are not written.
    let mut zeros: usize = bound_len - keep;
    let ghost total = zeros as nat;
    let ghost base = digits_value(s.take(keep as int));
    proof {
        assert(base * pow10(0) == base) by (nonlinear_arith)
            requires
                pow10(0) == 1,
        ;
    }
    while zeros > 0
        invariant
            zeros <= total,
            !over ==> value == base * pow10((total - zeros) as nat),
            over ==> base * pow10((total - zeros) as nat) > u128::MAX,
        decreases zeros,
    {
        proof {
            let p = pow10((total - zeros) as nat);
            assert(pow10((total - zeros + 1) as nat) == 10 * p);
            assert(base * (10 * p) == (base * p) * 10) by (nonlinear_arith);
        }
        if !over {
            if value > u128::MAX / 10 {
                over = true;
            } else {
                value = value * 10;
            }
        }
        zeros -= 1;
    }
    // What stands behind the point.
    let mut more = false;
    let mut k: usize = keep;
    while k < len
        invariant
            keep <= k <= len,
            written == ds@.len(),
            first + len == written,
            s == ds@.skip(first as int),
            !more ==> forall|j: int| keep <= j < k ==> s[j] == '0',
            more ==> exists|j: int| keep <= j < k && s[j] != '0',
        decreases len - k,
    {
        assert(s[k as int] == ds@[first + k]);
        if ds[first + k] != '0' {
            more = true;
            assert(s[k as int] != '0');
        }
        k += 1;
    }
    proof {
        let head = s.take(keep as int);
        let tail = s.skip(keep as int);
        assert(head + tail =~= s);
        lemma_digits_split(head, tail);
        assert forall|j: int| 0 <= j < tail.len() implies is_digit(#[trigger] tail[j]) by {
            assert(is_digit(s[keep + j]));
        }
        lemma_digits_upper(tail);
        let a = base * pow10(total);
        if exponent >= 0 {
            assert(len <= bound_len);
            assert(tail.len() == 0);
            assert(tail =~= Seq::<char>::empty());
            assert(head =~= s);
            assert(total == exponent as nat);
            assert(!more);
        } else {
            let e = (-exponent) as nat;
            assert(tail.len() == e);
            assert(total == 0);
            assert(a == base) by (nonlinear_arith)
                requires
                    a == base * pow10(0),
                    pow10(0) == 1,
            ;
            let p = pow10(e);
            let rest = digits_value(tail);
            let b = bound as nat;
            lemma_pow10_positive(e);
            if more {
                let j = choose|j: int| keep <= j < len && s[j] != '0';
                assert(tail[j - keep] != '0');
                lemma_some_digit(tail, j - keep);
            } else {
                assert forall|j: int| 0 <= j < tail.len() implies tail[j] == '0' by {
                    assert(tail[j] == s[keep + j]);
                }
                lemma_zeros(tail);
            }
            assert(base < b ==> base * p + rest < b * p) by (nonlinear_arith)
                requires
                    rest < p,
            ;
            assert(base > b ==> base * p + rest > b * p) by (nonlinear_arith)
                requires
                    p >= 1,
            ;
            assert(base == b ==> base * p == b * p);
        }
    }
    if over || value > bound {
        Side::Above
    } else if value < bound {
        Side::Below
    } else if more {
        Side::Above
    } else {
        Side::Equal
    }
}

/// A numeral with a digit other than zero is not zero.
proof fn lemma_some_digit(s: Seq<char>, j: int)
    requires
        all_digits(s),
        0 <= j < s.len(),
        s[j] != '0',
    ensures
        digits_value(s) > 0,
    decreases s.len(),
{
    let t = s.drop_last();
    assert(is_digit(s[s.len() - 1]));
    if j < s.len() - 1 {
        assert forall|i: int| 0 <= i < t.len() implies is_digit(#[trigger] t[i]) by {
            assert(is_digit(s[i]));
        }
        assert(t[j] == s[j]);
        lemma_some_digit(t, j);
    } else {
        assert(s.last() == s[j]);
    }
}

/// Where the magnitude of a number lies against `bound` divided by ten to `scale`;
/// `bound` has `bound_len` digits.
fn compare_magnitude(h: &Held, bound: u128, bound_len: usize, scale: u32, Ghost(n): Ghost<Number>) -> (r:
    Side)
    requires
        h.holds(n),
        0 < bound_len <= 39,
        pow10((bound_len - 1) as nat) <= bound < pow10(bound_len as nat),
    ensures
        r == magnitude_side(n, bound as nat, scale as nat),
{
    let mut first: usize = 0;
    while first < h.digits.len() && h.digits[first] == '0'
        invariant
            first <= h.digits@.len(),
            forall|i: int| 0 <= i < first ==> h.digits@[i] == '0',
        decreases h.digits@.len() - first,
    {
        first += 1;
    }
    let ghost s = n.digits.skip(first as int);
    let ghost actual = n.exponent + scale;
    proof {
        lemma_leading_zeros(n.digits, first as int);
        assert forall|i: int| 0 <= i < s.len() implies is_digit(#[trigger] s[i]) by {
            assert(is_digit(n.digits[first + i]));
        }
        lemma_pow10_positive((bound_len - 1) as nat);
    }
    if first == h.digits.len() {
        proof {
            assert(s.len() == 0);
            lemma_zero_side(actual, bound as nat);
        }
        return Side::Below;
    }
    let len: usize = h.digits.len() - first;
    let exponent: i128 = h.exponent - (h.fraction as i128) + (scale as i128);
    let whole: i128 = (len as i128) + exponent;
    proof {
        assert(s[0] == n.digits[first as int]);
        lemma_digits_upper(s);
        lemma_digits_lower(s);
    }
    if whole > bound_len as i128 {
        proof {
            lemma_above(digits_value(s), len as nat, actual, bound as nat, bound_len as nat);
        }
        Side::Above
    } else if whole < bound_len as i128 {
        proof {
            lemma_below(digits_value(s), len as nat, actual, bound as nat, bound_len as nat);
        }
        Side::Below
    } else {
        compare_aligned(&h.digits, first, exponent, bound, bound_len)
    }
}

// ---------------------------------------------------------------------------
// Weights
// ---------------------------------------------------------------------------

/// The least magnitude that single precision rounds to an infinity.
pub const SINGLE_OVERFLOW: u128 = 340282356779733661637539395458142568448;

/// Half way between two tenths and the next number of single precision, times ten to the
/// [`TWO_TENTHS_SCALE`]. What lies below is two tenths or less when it is rounded.
pub const TWO_TENTHS_LIMIT: u128 = 200000010430812835693359375;

/// See [`TWO_TENTHS_LIMIT`].
pub const TWO_TENTHS_SCALE: u32 = 27;

proof fn lemma_bounds()
    ensures
        pow10(38) <= SINGLE_OVERFLOW < pow10(39),
        pow10(26) <= TWO_TENTHS_LIMIT < pow10(27),
        pow10(0) <= 1 < pow10(1),
{
    reveal_with_fuel(pow10, 40);
}

/// A weight: the text of a number.
#[derive(Debug, Clone, PartialEq, Eq)]
pub struct Weight {
    text: String,
}

impl View for Weight {
    type V = Seq<char>;

    closed spec fn view(&self) -> Seq<char> {
        self.text@
    }
}

/// The number is less than zero.
pub open spec fn is_negative(n: Number) -> bool {
    n.negative && digits_value(n.digits) > 0
}

/// What `s` says lies between zero and one.
pub open spec fn in_unit(s: Seq<char>) -> bool {
    match literal(s) {
        Some(Literal::Finite(n)) => !is_negative(n) && magnitude_side(n, 1, 0) != Side::Above,
        _ => false,
    }
}

/// `s`, or the end of the unit interval beyond which the number that it says lies. What says
/// no number is left as it is.
pub open spec fn clamped_text(s: Seq<char>) -> Seq<char> {
    match literal(s) {
        Some(Literal::Finite(n)) => if is_negative(n) {
            "0"@
        } else if magnitude_side(n, 1, 0) == Side::Above {
            "1"@
        } else {
            s
        },
        Some(Literal::Infinite { negative }) => if negative {
            "0"@
        } else {
            "1"@
        },
        _ => s,
    }
}

/// What `s` says is a number that is finite in single precision.
pub open spec fn is_finite(s: Seq<char>) -> bool {
    match literal(s) {
        Some(Literal::Finite(n)) => magnitude_side(n, SINGLE_OVERFLOW as nat, 0) == Side::Below,
        _ => false,
    }
}

/// What `s` says is two tenths or less, in single precision.
pub open spec fn is_at_most_two_tenths(s: Seq<char>) -> bool {
    match literal(s) {
        Some(Literal::Finite(n)) => is_negative(n) || magnitude_side(
            n,
            TWO_TENTHS_LIMIT as nat,
            TWO_TENTHS_SCALE as nat,
        ) == Side::Below,
        Some(Literal::Infinite { negative }) => negative,
        _ => false,
    }
}

/// Is the number zero?
fn is_zero(h: &Held) -> (r: bool)
    requires
        all_digits(h.digits@),
    ensures
        r == (digits_value(h.digits@) == 0),
{
    let mut i: usize = 0;
    while i < h.digits.len()
        invariant
            i <= h.digits@.len(),
            all_digits(h.digits@),
            forall|k: int| 0 <= k < i ==> h.digits@[k] == '0',
        decreases h.digits@.len() - i,
    {
        if h.digits[i] != '0' {
            proof {
                lemma_some_digit(h.digits@, i as int);
            }
            return false;
        }
        i += 1;
    }
    proof {
        lemma_zeros(h.digits@);
    }
    true
}

/// Why a text is no trust.
#[derive(Debug, Clone, Copy, PartialEq, Eq, Structural)]
pub enum TrustFault {
    /// It says no number.
    NotANumber,
    /// It says a number that is not finite.
    NotFinite,
}

impl Weight {
    /// The weight that `text` says.
    pub fn of(text: &str) -> (r: Self)
        ensures
            r@ == text@,
    {
        Weight { text: copy_of(text) }
    }

    /// The text of the weight.
    pub fn text(&self) -> (r: &str)
        ensures
            r@ == self@,
    {
        self.text.as_str()
    }

    /// A copy of the weight.
    pub fn copy(&self) -> (r: Self)
        ensures
            r@ == self@,
    {
        Weight { text: copy_of(self.text.as_str()) }
    }

    /// The weight, brought into the unit interval.
    pub fn clamped(&self) -> (r: Self)
        ensures
            r@ == clamped_text(self@),
    {
        match read_literal(self.text.as_str()) {
            Some(HeldLiteral::Finite(h)) => {
                let ghost n = literal(self@)->Some_0->Finite_0;
                proof {
                    lemma_bounds();
                }
                if h.negative && !is_zero(&h) {
                    return Weight::of("0");
                }
                match compare_magnitude(&h, 1, 1, 0, Ghost(n)) {
                    Side::Above => Weight::of("1"),
                    _ => self.copy(),
                }
            },
            Some(HeldLiteral::Infinite { negative }) => if negative {
                Weight::of("0")
            } else {
                Weight::of("1")
            },
            _ => self.copy(),
        }
    }

    /// Does the text say a number?
    pub fn is_number(&self) -> (r: bool)
        ensures
            r == (literal(self@) is Some && literal(self@)->Some_0 is Finite),
    {
        match read_literal(self.text.as_str()) {
            Some(HeldLiteral::Finite(_)) => true,
            _ => false,
        }
    }

    /// Is the weight two tenths or less?
    pub fn at_most_two_tenths(&self) -> (r: bool)
        ensures
            r == is_at_most_two_tenths(self@),
    {
        match read_literal(self.text.as_str()) {
            Some(HeldLiteral::Finite(h)) => {
                let ghost n = literal(self@)->Some_0->Finite_0;
                proof {
                    lemma_bounds();
                }
                if h.negative && !is_zero(&h) {
                    return true;
                }
                match compare_magnitude(&h, TWO_TENTHS_LIMIT, 27, TWO_TENTHS_SCALE, Ghost(n)) {
                    Side::Below => true,
                    _ => false,
                }
            },
            Some(HeldLiteral::Infinite { negative }) => negative,
            _ => false,
        }
    }

    /// Reads a trust: a finite number, brought into the unit interval.
    pub fn parse_trust(text: &str) -> (r: Result<Weight, TrustFault>)
        ensures
            match r {
                Ok(w) => is_finite(text@) && w@ == clamped_text(text@),
                Err(TrustFault::NotANumber) => literal(text@) is None,
                Err(TrustFault::NotFinite) => literal(text@) is Some && !is_finite(text@),
            },
    {
        match read_literal(text) {
            None => Err(TrustFault::NotANumber),
            Some(HeldLiteral::Finite(h)) => {
                let ghost n = literal(text@)->Some_0->Finite_0;
                proof {
                    lemma_bounds();
                }
                match compare_magnitude(&h, SINGLE_OVERFLOW, 39, 0, Ghost(n)) {
                    Side::Below => Ok(Weight::of(text).clamped()),
                    _ => Err(TrustFault::NotFinite),
                }
            },
            Some(_) => Err(TrustFault::NotFinite),
        }
    }
}

// ---------------------------------------------------------------------------
// Laws
// ---------------------------------------------------------------------------

proof fn lemma_one_digit(s: Seq<char>)
    requires
        s.len() == 1,
        is_digit(s[0]),
    ensures
        literal(s) == Some(
            Literal::Finite(Number { negative: false, digits: s, exponent: 0 }),
        ),
        digits_value(s) == (s[0] as u32 - 48) as nat,
{
    reveal_strlit("inf");
    reveal_strlit("infinity");
    reveal_strlit("nan");
    assert(s.drop_last() =~= Seq::<char>::empty());
    assert(digits_value(s.drop_last()) == 0);
    assert(ascii_lowered(s).len() == 1);
    assert(all_digits(s));
    assert(s + Seq::<char>::empty() =~= s);
    lemma_leading_digits(s, Seq::<char>::empty());
    assert(behind_digits(s) =~= Seq::<char>::empty());
    assert(s + Seq::<char>::empty() =~= s);
}

/// A number, however large, and an infinity are brought into the unit interval; what lies in
/// it already stays as it is, and so nothing changes a second time.
pub proof fn law_clamping_reaches_the_unit_interval(s: Seq<char>)
    requires
        literal(s) is Some,
        !(literal(s)->Some_0 is NotANumber),
    ensures
        in_unit(clamped_text(s)),
        in_unit(s) ==> clamped_text(s) == s,
        clamped_text(clamped_text(s)) == clamped_text(s),
{
    reveal_strlit("0");
    reveal_strlit("1");
    lemma_one_digit("0"@);
    lemma_one_digit("1"@);
    assert(0 * pow10(0) == 0);
    assert(1 * pow10(0) == 1) by (nonlinear_arith)
        requires
            pow10(0) == 1,
    ;
}

/// Two tenths is trust of at most two tenths; nine tenths is not.
pub proof fn lemma_trust_levels()
    ensures
        is_at_most_two_tenths("0.2"@),
        in_unit("0.2"@),
        !is_at_most_two_tenths("0.9"@),
        in_unit("0.9"@),
{
    reveal_strlit("0.2");
    reveal_strlit("0.9");
    lemma_two_digits("0.2"@);
    lemma_two_digits("0.9"@);
    reveal_with_fuel(pow10, 40);
    assert(pow10(26) == 100000000000000000000000000);
    let two = literal("0.2"@)->Some_0->Finite_0;
    let nine = literal("0.9"@)->Some_0->Finite_0;
    assert(digits_value(two.digits) == 2);
    assert(digits_value(nine.digits) == 9);
    assert(2 * pow10(26) < TWO_TENTHS_LIMIT);
    assert(9 * pow10(26) > TWO_TENTHS_LIMIT);
    assert(magnitude_side(two, 1, 0) == side_of(2, 1 * pow10(1)));
    assert(magnitude_side(nine, 1, 0) == side_of(9, 1 * pow10(1)));
}

/// What a text of the form `d.d` says.
proof fn lemma_two_digits(s: Seq<char>)
    requires
        s.len() == 3,
        is_digit(s[0]),
        s[1] == '.',
        is_digit(s[2]),
    ensures
        literal(s) == Some(
            Literal::Finite(Number { negative: false, digits: seq![s[0], s[2]], exponent: -1 }),
        ),
        digits_value(seq![s[0], s[2]]) == 10 * (s[0] as u32 - 48) + (s[2] as u32 - 48),
{
    reveal_strlit("inf");
    reveal_strlit("infinity");
    reveal_strlit("nan");
    let d = seq![s[0], s[2]];
    assert(d.drop_last() =~= seq![s[0]]);
    assert(seq![s[0]].drop_last() =~= Seq::<char>::empty());
    reveal_with_fuel(digits_value, 3);
    assert(ascii_lowered(s)[1] == '.');
    assert("inf"@[1] == 'n');
    assert("nan"@[1] == 'a');
    let whole = s.take(1);
    let rest = s.skip(1);
    assert(whole + rest =~= s);
    assert(all_digits(whole));
    lemma_leading_digits(whole, rest);
    assert(s.skip(1) == rest);
    let after = rest.skip(1);
    assert(after + Seq::<char>::empty() =~= after);
    assert(after[0] == s[2]);
    assert(all_digits(after));
    lemma_leading_digits(after, Seq::<char>::empty());
    assert(behind_digits(after) =~= Seq::<char>::empty());
    assert(whole + after =~= d);
}

/// A number that is written with a point is the value of all its digits, divided by ten for each
/// digit behind the point; a sign before it makes it negative.
pub proof fn law_decimal_fraction_is_read(whole: Seq<char>, fraction: Seq<char>)
    requires
        all_digits(whole),
        all_digits(fraction),
        whole.len() > 0,
        fraction.len() > 0,
    ensures
        literal(whole + "."@ + fraction) == Some(
            Literal::Finite(
                Number { negative: false, digits: whole + fraction, exponent: -fraction.len() },
            ),
        ),
        literal("-"@ + (whole + "."@ + fraction)) == Some(
            Literal::Finite(
                Number { negative: true, digits: whole + fraction, exponent: -fraction.len() },
            ),
        ),
{
    reveal_strlit(".");
    reveal_strlit("-");
    reveal_strlit("inf");
    reveal_strlit("infinity");
    reveal_strlit("nan");
    let s = whole + "."@ + fraction;
    let rest = "."@ + fraction;
    assert(s =~= whole + rest);
    assert(is_digit(whole[0]));
    assert(s[0] == whole[0]);
    lemma_leading_digits(whole, rest);
    assert(s.skip(whole.len() as int) =~= rest);
    assert(rest.skip(1) =~= fraction);
    assert(fraction + Seq::<char>::empty() =~= fraction);
    lemma_leading_digits(fraction, Seq::<char>::empty());
    assert(behind_digits(fraction) =~= Seq::<char>::empty());
    assert(ascii_lowered(s)[0] == s[0]);
    assert("inf"@[0] == 'i' && "infinity"@[0] == 'i' && "nan"@[0] == 'n');
    let t = "-"@ + s;
    assert(t[0] == '-');
    assert(t.skip(1) =~= s);
}

/// A number that is written with a point lies in the unit interval exactly where the value of its
/// digits is no more than ten for each digit behind the point; what lies beyond is brought to the
/// nearer end.
pub proof fn law_fractions_are_clamped_by_value(whole: Seq<char>, fraction: Seq<char>)
    requires
        all_digits(whole),
        all_digits(fraction),
        whole.len() > 0,
        fraction.len() > 0,
    ensures
        ({
            let s = whole + "."@ + fraction;
            let value = digits_value(whole + fraction);
            let one = pow10(fraction.len());
            &&& in_unit(s) <==> value <= one
            &&& value > one ==> clamped_text(s) == "1"@
            &&& value <= one ==> clamped_text(s) == s
            &&& value > 0 ==> clamped_text("-"@ + s) == "0"@
        }),
{
    law_decimal_fraction_is_read(whole, fraction);
    let n = fraction.len();
    let number = Number { negative: false, digits: whole + fraction, exponent: -n };
    assert(1 * pow10(n) == pow10(n));
    assert(magnitude_side(number, 1, 0) == side_of(digits_value(whole + fraction), pow10(n)));
}

proof fn lemma_two_tenths_in_units()
    ensures
        pow10(27) == 1_000_000_000_000_000_000_000_000_000,
{
    reveal_with_fuel(pow10, 28);
}

/// Where `value` in units of ten to minus `n` lies against the limit of two tenths.
proof fn lemma_two_tenths_side(value: nat, n: nat)
    ensures
        value * 5 <= pow10(n) ==> scaled_side(value, 27 - n, TWO_TENTHS_LIMIT as nat)
            == Side::Below,
        value * 4 >= pow10(n) ==> scaled_side(value, 27 - n, TWO_TENTHS_LIMIT as nat)
            == Side::Above,
{
    lemma_two_tenths_in_units();
    let unit = pow10(27);
    let limit = TWO_TENTHS_LIMIT as nat;
    let one = pow10(n);
    if n <= 27 {
        let e = (27 - n) as nat;
        let p = pow10(e);
        lemma_pow10_add(n, e);
        lemma_pow10_positive(e);
        if value * 5 <= one {
            assert((value * p) * 5 <= one * p) by (nonlinear_arith)
                requires
                    value * 5 <= one,
                    p >= 1,
            ;
        }
        if value * 4 >= one {
            assert((value * p) * 4 >= one * p) by (nonlinear_arith)
                requires
                    value * 4 >= one,
                    p >= 1,
            ;
        }
    } else {
        let e = (n - 27) as nat;
        let p = pow10(e);
        lemma_pow10_add(27, e);
        lemma_pow10_positive(e);
        if value * 5 <= one {
            assert(value < limit * p) by (nonlinear_arith)
                requires
                    value * 5 <= one,
                    one == unit * p,
                    unit == 1_000_000_000_000_000_000_000_000_000,
                    p >= 1,
                    limit == 200000010430812835693359375,
            ;
        }
        if value * 4 >= one {
            assert(value > limit * p) by (nonlinear_arith)
                requires
                    value * 4 >= one,
                    one == unit * p,
                    unit == 1_000_000_000_000_000_000_000_000_000,
                    p >= 1,
                    limit == 200000010430812835693359375,
            ;
        }
    }
}

/// Two tenths or less is trusted little, and a quarter or more is not.
pub proof fn law_little_trust_is_told_by_value(whole: Seq<char>, fraction: Seq<char>)
    requires
        all_digits(whole),
        all_digits(fraction),
        whole.len() > 0,
        fraction.len() > 0,
    ensures
        digits_value(whole + fraction) * 5 <= pow10(fraction.len()) ==> is_at_most_two_tenths(
            whole + "."@ + fraction,
        ),
        digits_value(whole + fraction) * 4 >= pow10(fraction.len()) ==> !is_at_most_two_tenths(
            whole + "."@ + fraction,
        ),
{
    law_decimal_fraction_is_read(whole, fraction);
    let n = fraction.len();
    let number = Number { negative: false, digits: whole + fraction, exponent: -n };
    lemma_two_tenths_side(digits_value(whole + fraction), n);
    assert(number.exponent + TWO_TENTHS_SCALE == 27 - n);
}

/// What lies in the unit interval is finite, so that a trust in it is taken.
pub proof fn law_unit_weights_are_finite(s: Seq<char>)
    requires
        in_unit(s),
    ensures
        is_finite(s),
{
    let n = literal(s)->Some_0->Finite_0;
    let value = digits_value(n.digits);
    let big = SINGLE_OVERFLOW as nat;
    if n.exponent >= 0 {
        assert(n.exponent + 0 == n.exponent);
    } else {
        let p = pow10((-n.exponent) as nat);
        lemma_pow10_positive((-n.exponent) as nat);
        assert(value < big * p) by (nonlinear_arith)
            requires
                value <= 1 * p,
                p >= 1,
                big > 1,
        ;
    }
}

/// A number that is written with digits alone is their value, and an exponent behind it counts
/// the zeros to add, or, with a minus sign, to take away.
pub proof fn law_whole_number_is_read(digits: Seq<char>, exponent: Seq<char>)
    requires
        all_digits(digits),
        digits.len() > 0,
        all_digits(exponent),
        exponent.len() > 0,
    ensures
        literal(digits) == Some(
            Literal::Finite(Number { negative: false, digits, exponent: 0 }),
        ),
        literal(digits + "e"@ + exponent) == Some(
            Literal::Finite(
                Number { negative: false, digits, exponent: digits_value(exponent) as int },
            ),
        ),
        literal(digits + "e-"@ + exponent) == Some(
            Literal::Finite(
                Number { negative: false, digits, exponent: -(digits_value(exponent) as int) },
            ),
        ),
{
    reveal_strlit("e");
    reveal_strlit("e-");
    reveal_strlit("inf");
    reveal_strlit("infinity");
    reveal_strlit("nan");
    assert("inf"@[0] == 'i' && "infinity"@[0] == 'i' && "nan"@[0] == 'n');
    assert(is_digit(digits[0]));
    assert(digits + Seq::<char>::empty() =~= digits);
    lemma_leading_digits(digits, Seq::<char>::empty());
    assert(behind_digits(digits) =~= Seq::<char>::empty());
    assert(ascii_lowered(digits)[0] == digits[0]);
    let tail = "e"@ + exponent;
    let s = digits + "e"@ + exponent;
    assert(s =~= digits + tail);
    lemma_leading_digits(digits, tail);
    assert(s.skip(digits.len() as int) =~= tail);
    assert(tail.skip(1) =~= exponent);
    assert(is_digit(exponent[0]));
    assert(ascii_lowered(s)[0] == s[0]);
    let tail = "e-"@ + exponent;
    let s = digits + "e-"@ + exponent;
    assert(s =~= digits + tail);
    lemma_leading_digits(digits, tail);
    assert(s.skip(digits.len() as int) =~= tail);
    assert(tail.skip(1)[0] == '-');
    assert(tail.skip(1).skip(1) =~= exponent);
    assert(ascii_lowered(s)[0] == s[0]);
}

/// A whole number is finite exactly where single precision holds it; what is no number is not,
/// and neither is an infinity, which is brought to the end on its side.
pub proof fn law_finite_numbers_are_told_apart(digits: Seq<char>, s: Seq<char>)
    requires
        all_digits(digits),
        digits.len() > 0,
    ensures
        is_finite(digits) <==> digits_value(digits) < SINGLE_OVERFLOW,
        in_unit(digits) <==> digits_value(digits) <= 1,
        literal(s) is None ==> !is_finite(s) && !in_unit(s) && !is_at_most_two_tenths(s),
        literal(s) == Some(Literal::Infinite { negative: false }) ==> !is_finite(s)
            && !is_at_most_two_tenths(s) && clamped_text(s) == "1"@,
        literal(s) == Some(Literal::Infinite { negative: true }) ==> !is_finite(s)
            && is_at_most_two_tenths(s) && clamped_text(s) == "0"@,
        literal(s) == Some(Literal::NotANumber) ==> !is_finite(s) && !in_unit(s)
            && !is_at_most_two_tenths(s),
{
    law_whole_number_is_read(digits, digits);
    assert(digits_value(digits) * pow10(0) == digits_value(digits)) by (nonlinear_arith)
        requires
            pow10(0) == 1,
    ;
}

} // verus!
