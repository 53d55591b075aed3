//! Decimal text for the integers that travel through the environment:
//! the grammar that `str::parse` accepts for `u64` and `i32`, and the
//! digits that `to_string` writes.
use vstd::prelude::*;

verus! {

/// An ASCII digit `0`..`9`.
pub open spec fn is_digit(b: u8) -> bool {
    0x30 <= b <= 0x39
}

pub open spec fn all_digits(s: Seq<u8>) -> bool {
    forall|i: int| 0 <= i < s.len() ==> is_digit(#[trigger] s[i])
}

/// The number that a run of ASCII digits spells, most significant first.
pub open spec fn digits_value(s: Seq<u8>) -> nat
    decreases s.len(),
{
    if s.len() == 0 {
        0
    } else {
        digits_value(s.drop_last()) * 10 + (s.last() - 0x30) as nat
    }
}

/// The value of `d` when it is a nonempty run of digits.
pub open spec fn digit_run_value(d: Seq<u8>) -> Option<nat> {
    if d.len() > 0 && all_digits(d) {
        Some(digits_value(d))
    } else {
        None
    }
}

/// `s` without one leading `+`.
pub open spec fn after_plus(s: Seq<u8>) -> Seq<u8> {
    if s.len() > 0 && s[0] == 0x2b {
        s.drop_first()
    } else {
        s
    }
}

/// The value of the digit run `d`, if there is one and it is at most `limit`.
pub open spec fn bounded_run_value(d: Seq<u8>, limit: nat) -> Option<nat> {
    match digit_run_value(d) {
        Some(v) => if v <= limit {
            Some(v)
        } else {
            None
        },
        None => None,
    }
}

/// What `<u64 as FromStr>::from_str` accepts: an optional `+`, then one or
/// more ASCII digits whose value fits in a `u64`.
pub open spec fn parse_u64_spec(s: Seq<u8>) -> Option<u64> {
    match bounded_run_value(after_plus(s), u64::MAX as nat) {
        Some(v) => Some(v as u64),
        None => None,
    }
}

/// What `<i32 as FromStr>::from_str` accepts: an optional `+` or `-`, then
/// one or more ASCII digits whose signed value fits in an `i32`.
pub open spec fn parse_i32_spec(s: Seq<u8>) -> Option<i32> {
    if s.len() > 0 && s[0] == 0x2d {
        match bounded_run_value(s.drop_first(), 0x8000_0000) {
            Some(v) => Some((-v) as i32),
            None => None,
        }
    } else {
        match bounded_run_value(after_plus(s), i32::MAX as nat) {
            Some(v) => Some(v as i32),
            None => None,
        }
    }
}

/// The decimal digits of `n`, without leading zeros (`0` for zero).
pub open spec fn decimal(n: nat) -> Seq<u8>
    decreases n,
{
    if n < 10 {
        seq![(0x30 + n) as u8]
    } else {
        decimal(n / 10).push((0x30 + n % 10) as u8)
    }
}

/// The text that `i32::to_string` writes: a `-` before the digits of a
/// negative number.
pub open spec fn signed_decimal(m: int) -> Seq<u8> {
    if m < 0 {
        seq![0x2du8] + decimal((-m) as nat)
    } else {
        decimal(m as nat)
    }
}

proof fn lemma_prefix_value_le(s: Seq<u8>, k: int)
    requires
        0 <= k <= s.len(),
        all_digits(s),
    ensures
        digits_value(s.subrange(0, k)) <= digits_value(s),
    decreases s.len(),
{
    if k < s.len() {
        let t = s.drop_last();
        assert(s.subrange(0, k) =~= t.subrange(0, k));
        assert(all_digits(t)) by {
            assert forall|i: int| 0 <= i < t.len() implies is_digit(#[trigger] t[i]) by {
                assert(t[i] == s[i]);
            }
        }
        lemma_prefix_value_le(t, k);
    } else {
        assert(s.subrange(0, k) =~= s);
    }
}

/// The value of the digit run `s[start..]`, if it is at most `limit`.
fn bounded_run(s: &[u8], start: usize, limit: u64) -> (r: Option<u64>)
    requires
        start <= s.len(),
    ensures
        r == (match bounded_run_value(s@.subrange(start as int, s.len() as int), limit as nat) {
            Some(v) => Some(v as u64),
            None => None::<u64>,
        }),
{
    let ghost d = s@.subrange(start as int, s.len() as int);
    if start == s.len() {
        return None;
    }
    let mut acc: u64 = 0;
    let mut i = start;
    while i < s.len()
        invariant
            start <= i <= s.len(),
            start < s.len(),
            d == s@.subrange(start as int, s.len() as int),
            all_digits(s@.subrange(start as int, i as int)),
            acc as nat == digits_value(s@.subrange(start as int, i as int)),
            acc <= limit,
        decreases s.len() - i,
    {
        let b = s[i];
        let ghost pre = s@.subrange(start as int, i as int);
        let ghost next = s@.subrange(start as int, i + 1);
        assert(next.drop_last() =~= pre);
        assert(d[i - start] == b);
        if b < 0x30 || b > 0x39 {
            assert(!is_digit(d[i - start]));
            return None;
        }
        assert(all_digits(next)) by {
            assert forall|j: int| 0 <= j < next.len() implies is_digit(#[trigger] next[j]) by {
                if j < pre.len() {
                    assert(next[j] == pre[j]);
                }
            }
        }
        let wide: u128 = acc as u128 * 10 + (b - 0x30) as u128;
        assert(wide == digits_value(next));
        if wide > limit as u128 {
            proof {
                assert(d.subrange(0, i + 1 - start) =~= next);
                if all_digits(d) {
                    lemma_prefix_value_le(d, i + 1 - start);
                }
            }
            return None;
        }
        acc = wide as u64;
        i = i + 1;
    }
    assert(s@.subrange(start as int, i as int) =~= d);
    Some(acc)
}

/// Parses `s` as `str::parse::<u64>` does.
pub fn parse_u64(s: &[u8]) -> (r: Option<u64>)
    ensures
        r == parse_u64_spec(s@),
{
    let start: usize = if s.len() > 0 && s[0] == 0x2b { 1 } else { 0 };
    assert(after_plus(s@) =~= s@.subrange(start as int, s.len() as int));
    bounded_run(s, start, u64::MAX)
}

/// Parses `s` as `str::parse::<i32>` does.
pub fn parse_i32(s: &[u8]) -> (r: Option<i32>)
    ensures
        r == parse_i32_spec(s@),
{
    if s.len() > 0 && s[0] == 0x2d {
        assert(s@.drop_first() =~= s@.subrange(1, s.len() as int));
        match bounded_run(s, 1, 0x8000_0000) {
            Some(v) => {
                let w = v as i64;
                Some((-w) as i32)
            },
            None => None,
        }
    } else {
        let start: usize = if s.len() > 0 && s[0] == 0x2b { 1 } else { 0 };
        assert(after_plus(s@) =~= s@.subrange(start as int, s.len() as int));
        match bounded_run(s, start, 0x7fff_ffff) {
            Some(v) => Some(v as i32),
            None => None,
        }
    }
}


/// Appends the decimal digits of `n` to `out`.
pub(crate) fn push_decimal(n: u64, out: &mut Vec<u8>)
    ensures
        final(out)@ == old(out)@ + decimal(n as nat),
    decreases n,
{
    if n < 10 {
        out.push(0x30 + n as u8);
        assert(old(out)@ + decimal(n as nat) =~= old(out)@.push((0x30 + n) as u8));
    } else {
        push_decimal(n / 10, out);
        out.push(0x30 + (n % 10) as u8);
        assert(old(out)@ + decimal(n as nat) =~= old(out)@ + decimal((n / 10) as nat) + seq![(0x30 + n % 10) as u8]);
    }
}

/// The text of `n` as `u64::to_string` writes it.
pub fn format_u64(n: u64) -> (r: Vec<u8>)
    ensures
        r@ == decimal(n as nat),
{
    let mut out: Vec<u8> = Vec::new();
    push_decimal(n, &mut out);
    assert(out@ =~= decimal(n as nat));
    out
}

/// The text of `m` as `i32::to_string` writes it.
pub fn format_i32(m: i32) -> (r: Vec<u8>)
    ensures
        r@ == signed_decimal(m as int),
{
    let mut out: Vec<u8> = Vec::new();
    if m < 0 {
        out.push(0x2d);
        let magnitude = (-(m as i64)) as u64;
        push_decimal(magnitude, &mut out);
    } else {
        push_decimal(m as u64, &mut out);
        assert(out@ =~= decimal(m as nat));
    }
    out
}

/// The digits of `n` form a nonempty run that spells `n`.
pub proof fn lemma_decimal_spells(n: nat)
    ensures
        decimal(n).len() > 0,
        all_digits(decimal(n)),
        digits_value(decimal(n)) == n,
    decreases n,
{
    if n >= 10 {
        lemma_decimal_spells(n / 10);
        let d = decimal(n);
        assert(d.drop_last() =~= decimal(n / 10));
        assert(all_digits(d)) by {
            assert forall|i: int| 0 <= i < d.len() implies is_digit(#[trigger] d[i]) by {
                if i < d.len() - 1 {
                    assert(d[i] == decimal(n / 10)[i]);
                }
            }
        }
        assert((d.last() - 0x30) as nat == n % 10);
    } else {
        let d = decimal(n);
        assert(d.drop_last() =~= Seq::<u8>::empty());
        assert(digits_value(d.drop_last()) == 0);
    }
}

/// Reading back what `format_u64` writes gives the number that was written.
pub proof fn lemma_u64_text_round_trip(n: u64)
    ensures
        parse_u64_spec(decimal(n as nat)) == Some(n),
{
    lemma_decimal_spells(n as nat);
    let d = decimal(n as nat);
    assert(is_digit(d[0]));
    assert(after_plus(d) == d);
}

/// Reading back what `format_i32` writes gives the number that was written.
pub proof fn lemma_i32_text_round_trip(m: i32)
    ensures
        parse_i32_spec(signed_decimal(m as int)) == Some(m),
{
    let s = signed_decimal(m as int);
    if m < 0 {
        lemma_decimal_spells((-m) as nat);
        assert(s.drop_first() =~= decimal((-m) as nat));
        assert(s[0] == 0x2d);
    } else {
        lemma_decimal_spells(m as nat);
        assert(is_digit(s[0]));
        assert(after_plus(s) == s);
    }
}


proof fn lemma_leading_zero_value(d: Seq<u8>)
    requires
        all_digits(d),
    ensures
        all_digits(seq![0x30u8] + d),
        digits_value(seq![0x30u8] + d) == digits_value(d),
    decreases d.len(),
{
    let z = seq![0x30u8] + d;
    assert(all_digits(z)) by {
        assert forall|i: int| 0 <= i < z.len() implies is_digit(#[trigger] z[i]) by {
            if i > 0 {
                assert(z[i] == d[i - 1]);
            }
        }
    }
    if d.len() == 0 {
        assert(z.drop_last() =~= Seq::<u8>::empty());
        assert(digits_value(z.drop_last()) == 0);
    } else {
        let t = d.drop_last();
        assert(all_digits(t)) by {
            assert forall|i: int| 0 <= i < t.len() implies is_digit(#[trigger] t[i]) by {
                assert(t[i] == d[i]);
            }
        }
        lemma_leading_zero_value(t);
        assert(z.drop_last() =~= seq![0x30u8] + t);
        assert(z.last() == d.last());
    }
}

/// What `str::parse::<u64>` accepts and gives back: the digits of every
/// `u64`, also after a `+` or a leading zero, give that number; the digits
/// of a number above `u64::MAX` are refused, and so is the empty text, a
/// lone `+`, a leading `-`, and any text with a byte that is not a digit
/// (but for one leading `+`).
pub proof fn lemma_parse_u64_law(n: u64, big: nat, s: Seq<u8>, i: int)
    ensures
        parse_u64_spec(decimal(n as nat)) == Some(n),
        parse_u64_spec(seq![0x2bu8] + decimal(n as nat)) == Some(n),
        parse_u64_spec(seq![0x30u8] + decimal(n as nat)) == Some(n),
        big > u64::MAX ==> parse_u64_spec(decimal(big)) is None,
        parse_u64_spec(Seq::<u8>::empty()) is None,
        parse_u64_spec(seq![0x2bu8]) is None,
        s.len() > 0 && s[0] == 0x2d ==> parse_u64_spec(s) is None,
        0 <= i < s.len() && !is_digit(s[i]) && !(i == 0 && s[0] == 0x2b) ==> parse_u64_spec(s) is None,
{
    lemma_u64_text_round_trip(n);
    lemma_decimal_spells(n as nat);
    lemma_decimal_spells(big);
    let d = decimal(n as nat);
    assert((seq![0x2bu8] + d).drop_first() =~= d);
    lemma_leading_zero_value(d);
    let z = seq![0x30u8] + d;
    assert(z[0] == 0x30);
    assert(after_plus(z) == z);
    assert(is_digit(decimal(big)[0]));
    assert(after_plus(decimal(big)) == decimal(big));
    assert(after_plus(seq![0x2bu8]) =~= Seq::<u8>::empty());
    if s.len() > 0 && s[0] == 0x2d {
        assert(after_plus(s) == s);
        assert(!is_digit(after_plus(s)[0]));
    }
    if 0 <= i < s.len() && !is_digit(s[i]) && !(i == 0 && s[0] == 0x2b) {
        if s[0] == 0x2b {
            assert(after_plus(s)[i - 1] == s[i]);
        } else {
            assert(after_plus(s)[i] == s[i]);
        }
    }
}

/// What `str::parse::<i32>` accepts and gives back: the text `to_string`
/// writes for every `i32` gives that number; a `-` before the digits of
/// a magnitude up to 2^31 gives its negation and above that is refused, the
/// digits of a number above `i32::MAX` are refused, and so is any text with
/// a byte that is not a digit (but for one leading sign).
pub proof fn lemma_parse_i32_law(m: i32, k: nat, s: Seq<u8>, i: int)
    ensures
        parse_i32_spec(signed_decimal(m as int)) == Some(m),
        k <= 0x8000_0000 ==> parse_i32_spec(seq![0x2du8] + decimal(k)) == Some((-k) as i32),
        k > 0x8000_0000 ==> parse_i32_spec(seq![0x2du8] + decimal(k)) is None,
        k > i32::MAX ==> parse_i32_spec(decimal(k)) is None,
        k <= i32::MAX ==> parse_i32_spec(decimal(k)) == Some(k as i32),
        0 <= i < s.len() && !is_digit(s[i]) && !(i == 0 && (s[0] == 0x2b || s[0] == 0x2d))
            ==> parse_i32_spec(s) is None,
{
    lemma_i32_text_round_trip(m);
    lemma_decimal_spells(k);
    let d = decimal(k);
    assert((seq![0x2du8] + d).drop_first() =~= d);
    assert((seq![0x2du8] + d)[0] == 0x2d);
    assert(is_digit(d[0]));
    assert(after_plus(d) == d);
    if 0 <= i < s.len() && !is_digit(s[i]) && !(i == 0 && (s[0] == 0x2b || s[0] == 0x2d)) {
        if s[0] == 0x2d {
            assert(s.drop_first()[i - 1] == s[i]);
        } else if s[0] == 0x2b {
            assert(after_plus(s)[i - 1] == s[i]);
        } else {
            assert(after_plus(s)[i] == s[i]);
        }
    }
}


/// The text `to_string` writes: for every number, ASCII digits that spell
/// it, without a leading zero (zero itself is the one digit `0`); for a
/// signed number, a `-` first exactly when it is negative, then the digits
/// of its magnitude.
pub proof fn lemma_decimal_text_law(n: nat, m: int)
    ensures
        all_digits(decimal(n)),
        digits_value(decimal(n)) == n,
        decimal(n).len() > 0,
        n == 0 ==> decimal(n) == seq![0x30u8],
        n > 0 ==> decimal(n)[0] != 0x30,
        m < 0 ==> signed_decimal(m) == seq![0x2du8] + decimal((-m) as nat),
        m >= 0 ==> signed_decimal(m) == decimal(m as nat),
    decreases n,
{
    lemma_decimal_spells(n);
    if n >= 10 {
        lemma_decimal_text_law(n / 10, 0);
        assert(decimal(n)[0] == decimal(n / 10)[0]);
    } else if n == 0 {
        assert(decimal(n) =~= seq![0x30u8]);
    }
}

} // verus!
