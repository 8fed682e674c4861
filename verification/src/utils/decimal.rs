//! Decimal text of integers: how `to_string` writes them and how `parse` reads them back.

use vstd::prelude::*;

verus! {

/// The ASCII byte of the decimal digit `d`.
pub open spec fn digit_byte(d: nat) -> u8 {
    (48 + d) as u8
}

/// Whether the byte is an ASCII decimal digit.
pub open spec fn is_digit(b: u8) -> bool {
    48 <= b <= 57
}

/// Whether every byte of `s` is an ASCII decimal digit.
pub open spec fn all_digits(s: Seq<u8>) -> bool {
    forall|i: int| 0 <= i < s.len() ==> is_digit(#[trigger] s[i])
}

/// The shortest decimal text of a natural number, as `to_string` writes it.
pub open spec fn natural_digits(n: nat) -> Seq<u8>
    decreases n,
{
    if n < 10 {
        seq![digit_byte(n)]
    } else {
        natural_digits(n / 10).push(digit_byte(n % 10))
    }
}

/// The decimal text of an integer, with a leading `-` when it is negative.
pub open spec fn integer_digits(v: int) -> Seq<u8> {
    if v < 0 {
        seq![45u8] + natural_digits((-v) as nat)
    } else {
        natural_digits(v as nat)
    }
}

/// The number that a sequence of decimal digits stands for (most significant first).
pub open spec fn digits_value(s: Seq<u8>) -> nat
    decreases s.len(),
{
    if s.len() == 0 {
        0
    } else {
        digits_value(s.drop_last()) * 10 + (s.last() - 48) as nat
    }
}

/// The digits after an optional leading sign byte `sign`.
pub open spec fn unsigned_body(s: Seq<u8>, sign: u8) -> Seq<u8> {
    if s.len() > 0 && s[0] == sign {
        s.drop_first()
    } else {
        s
    }
}

/// What `str::parse::<u32>` returns on the text with these bytes: an optional `+`,
/// then one digit or more, whose value fits in a `u32`.
pub open spec fn parse_u32_spec(s: Seq<u8>) -> Option<u32> {
    let body = unsigned_body(s, 43u8);
    if body.len() > 0 && all_digits(body) && digits_value(body) <= u32::MAX {
        Some(digits_value(body) as u32)
    } else {
        None
    }
}

/// What `str::parse::<i64>` returns on the text with these bytes: an optional `+` or `-`,
/// then one digit or more, whose signed value fits in an `i64`.
pub open spec fn parse_i64_spec(s: Seq<u8>) -> Option<i64> {
    if s.len() > 0 && s[0] == 45u8 {
        let body = s.drop_first();
        if body.len() > 0 && all_digits(body) && digits_value(body) <= 0x8000_0000_0000_0000 {
            Some((-digits_value(body)) as i64)
        } else {
            None
        }
    } else {
        let body = unsigned_body(s, 43u8);
        if body.len() > 0 && all_digits(body) && digits_value(body) <= i64::MAX {
            Some(digits_value(body) as i64)
        } else {
            None
        }
    }
}

/// Appends the decimal text of `n` to `out`.
pub fn push_natural(out: &mut Vec<u8>, n: u64)
    ensures
        final(out)@ == old(out)@ + natural_digits(n as nat),
    decreases n,
{
    if n >= 10 {
        push_natural(out, n / 10);
    }
    out.push(48u8 + (n % 10) as u8);
    proof {
        if n >= 10 {
            assert(old(out)@ + natural_digits(n as nat) =~= old(out)@ + natural_digits((n / 10) as nat)
                + seq![digit_byte((n % 10) as nat)]);
        }
    }
}

/// The decimal text of `v`, as `v.to_string()` writes it, as bytes.
pub fn integer_text(v: i64) -> (r: Vec<u8>)
    ensures
        r@ == integer_digits(v as int),
{
    let mut out: Vec<u8> = Vec::new();
    if v < 0 {
        out.push(45u8);
        let wide: i128 = v as i128;
        let magnitude: u64 = (0i128 - wide) as u64;
        push_natural(&mut out, magnitude);
        assert(out@ =~= seq![45u8] + natural_digits((-v) as nat));
    } else {
        push_natural(&mut out, v as u64);
        assert(out@ =~= natural_digits(v as nat));
    }
    out
}


/// Every digit string made by `natural_digits` is nonempty, all digits, and stands for `n`.
pub proof fn lemma_natural_digits_value(n: nat)
    ensures
        natural_digits(n).len() > 0,
        all_digits(natural_digits(n)),
        digits_value(natural_digits(n)) == n,
    decreases n,
{
    let s = natural_digits(n);
    if n >= 10 {
        lemma_natural_digits_value(n / 10);
        assert(s.drop_last() =~= natural_digits(n / 10));
        assert(s.last() == digit_byte(n % 10));
        assert((digit_byte(n % 10) - 48) as nat == n % 10);
        assert(n == (n / 10) * 10 + n % 10) by (nonlinear_arith);
    } else {
        assert(s.drop_last() =~= Seq::<u8>::empty());
        assert(digits_value(Seq::<u8>::empty()) == 0);
    }
}

/// A prefix of a digit string stands for no more than a longer prefix.
pub proof fn lemma_prefix_value_monotone(s: Seq<u8>, i: int, j: int)
    requires
        all_digits(s),
        0 <= i <= j <= s.len(),
    ensures
        digits_value(s.take(i)) <= digits_value(s.take(j)),
    decreases j - i,
{
    if i < j {
        lemma_prefix_value_monotone(s, i, j - 1);
        assert(s.take(j).drop_last() =~= s.take(j - 1));
        let v = digits_value(s.take(j - 1));
        assert(v <= v * 10) by (nonlinear_arith);
    }
}

/// Reads the digits of `s` from `start` on; `Some` exactly when there is at least one,
/// all are digits, and their value is at most `limit`.
fn parse_digits_from(s: &[u8], start: usize, limit: u64) -> (r: Option<u64>)
    requires
        start <= s@.len(),
    ensures
        r == (if s@.skip(start as int).len() > 0 && all_digits(s@.skip(start as int))
            && digits_value(s@.skip(start as int)) <= limit {
            Some(digits_value(s@.skip(start as int)) as u64)
        } else {
            None::<u64>
        }),
{
    let ghost body = s@.skip(start as int);
    let len = s.len();
    let mut i = start;
    let mut acc: u128 = 0;
    while i < len
        invariant
            start <= i <= len,
            len == s@.len(),
            body == s@.skip(start as int),
            all_digits(body.take(i - start)),
            acc == digits_value(body.take(i - start)),
            acc <= limit,
        decreases len - i,
    {
        let b = s[i];
        if b < 48u8 || b > 57u8 {
            assert(!is_digit(body[i - start]));
            return None;
        }
        assert(body.take(i + 1 - start).drop_last() =~= body.take(i - start));
        assert(acc * 10 + 9 < 0x1_0000_0000_0000_0000_0000_0000_0000_0000) by (nonlinear_arith)
            requires acc <= limit, limit <= u64::MAX;
        acc = acc * 10 + (b - 48u8) as u128;
        assert(all_digits(body.take(i + 1 - start)));
        if acc > limit as u128 {
            proof {
                if all_digits(body) {
                    lemma_prefix_value_monotone(body, i + 1 - start, body.len() as int);
                    assert(body.take(body.len() as int) =~= body);
                }
            }
            return None;
        }
        i = i + 1;
    }
    assert(body.take(len - start) =~= body);
    if i == start {
        None
    } else {
        Some(acc as u64)
    }
}

/// `str::parse::<u32>` on the text with these bytes.
pub fn parse_u32_text(s: &[u8]) -> (r: Option<u32>)
    ensures
        r == parse_u32_spec(s@),
{
    let start: usize = if s.len() > 0 && s[0] == 43u8 { 1 } else { 0 };
    assert(s@.skip(start as int) =~= unsigned_body(s@, 43u8));
    match parse_digits_from(s, start, 0xFFFF_FFFFu64) {
        Some(v) => Some(v as u32),
        None => None,
    }
}

/// `str::parse::<i64>` on the text with these bytes.
pub fn parse_i64_text(s: &[u8]) -> (r: Option<i64>)
    ensures
        r == parse_i64_spec(s@),
{
    if s.len() > 0 && s[0] == 45u8 {
        assert(s@.skip(1) =~= s@.drop_first());
        match parse_digits_from(s, 1, 0x8000_0000_0000_0000u64) {
            Some(v) => {
                let wide: i128 = 0i128 - v as i128;
                Some(wide as i64)
            },
            None => None,
        }
    } else {
        let start: usize = if s.len() > 0 && s[0] == 43u8 { 1 } else { 0 };
        assert(s@.skip(start as int) =~= unsigned_body(s@, 43u8));
        match parse_digits_from(s, start, 0x7FFF_FFFF_FFFF_FFFFu64) {
            Some(v) => Some(v as i64),
            None => None,
        }
    }
}

/// Reading back the decimal text of a `u32` gives the number.
pub proof fn lemma_u32_text_roundtrip(v: u32)
    ensures
        parse_u32_spec(natural_digits(v as nat)) == Some(v),
{
    lemma_natural_digits_value(v as nat);
    let s = natural_digits(v as nat);
    assert(is_digit(s[0]));
    assert(unsigned_body(s, 43u8) == s);
}

/// Reading back the decimal text of an `i64` gives the number.
pub proof fn lemma_i64_text_roundtrip(v: i64)
    ensures
        parse_i64_spec(integer_digits(v as int)) == Some(v),
{
    if v < 0 {
        let m = (-v) as nat;
        lemma_natural_digits_value(m);
        let s = integer_digits(v as int);
        assert(s.drop_first() =~= natural_digits(m));
    } else {
        lemma_natural_digits_value(v as nat);
        let s = natural_digits(v as nat);
        assert(is_digit(s[0]));
        assert(unsigned_body(s, 43u8) == s);
    }
}


/// Ten to the power `k`.
pub open spec fn power_of_ten(k: nat) -> nat
    decreases k,
{
    if k == 0 {
        1
    } else {
        10 * power_of_ten((k - 1) as nat)
    }
}

/// A number below `10^k` (with `k >= 1`) is written with at most `k` digits.
pub proof fn lemma_natural_digits_len(n: nat, k: nat)
    requires
        k >= 1,
        n < power_of_ten(k),
    ensures
        natural_digits(n).len() <= k,
    decreases k,
{
    if n >= 10 {
        let p = power_of_ten((k - 1) as nat);
        assert(n / 10 < p) by (nonlinear_arith)
            requires n < 10 * p;
        if k == 1 {
            assert(power_of_ten(0) == 1);
        } else {
            lemma_natural_digits_len(n / 10, (k - 1) as nat);
        }
    }
}

/// The decimal text of a `u64` has at most 20 bytes.
pub proof fn lemma_natural_digits_short(n: u64)
    ensures
        natural_digits(n as nat).len() <= 20,
{
    assert(power_of_ten(20) == 100_000_000_000_000_000_000) by {
        reveal_with_fuel(power_of_ten, 21);
    }
    lemma_natural_digits_len(n as nat, 20);
}

/// The decimal text of an `i64` has at most 21 bytes.
pub proof fn lemma_integer_digits_short(v: i64)
    ensures
        integer_digits(v as int).len() <= 21,
{
    let magnitude: u64 = if v < 0 { (-v) as u64 } else { v as u64 };
    lemma_natural_digits_short(magnitude);
}


/// What `parse::<u32>` refuses: empty text, a lone `+`, a `-` sign, and any byte after the
/// optional `+` that is not a digit; what it accepts is the value of the digits.
pub proof fn law_parse_u32(s: Seq<u8>)
    ensures
        s.len() == 0 ==> parse_u32_spec(s) is None,
        s =~= seq![43u8] ==> parse_u32_spec(s) is None,
        s.len() > 0 && s[0] == 45u8 ==> parse_u32_spec(s) is None,
        forall|i: int|
            (if s.len() > 0 && s[0] == 43u8 { 1int } else { 0int }) <= i < s.len() && !is_digit(#[trigger] s[i])
                ==> parse_u32_spec(s) is None,
        parse_u32_spec(s) matches Some(v) ==> v == digits_value(unsigned_body(s, 43u8)),
{
    let body = unsigned_body(s, 43u8);
    assert forall|i: int|
        (if s.len() > 0 && s[0] == 43u8 { 1int } else { 0int }) <= i < s.len() && !is_digit(#[trigger] s[i])
            implies parse_u32_spec(s) is None by {
        let o: int = if s.len() > 0 && s[0] == 43u8 { 1 } else { 0 };
        assert(body[i - o] == s[i]);
    }
    if s.len() > 0 && s[0] == 45u8 {
        assert(!is_digit(body[0]));
    }
}

/// What `parse::<i64>` refuses: empty text, a lone sign, and any byte after the optional
/// sign that is not a digit; what it accepts is the value of the digits, negated after `-`.
pub proof fn law_parse_i64(s: Seq<u8>)
    ensures
        s.len() == 0 ==> parse_i64_spec(s) is None,
        s =~= seq![43u8] ==> parse_i64_spec(s) is None,
        s =~= seq![45u8] ==> parse_i64_spec(s) is None,
        forall|i: int|
            (if s.len() > 0 && (s[0] == 43u8 || s[0] == 45u8) { 1int } else { 0int }) <= i < s.len()
                && !is_digit(#[trigger] s[i]) ==> parse_i64_spec(s) is None,
        parse_i64_spec(s) matches Some(v) ==> (if s[0] == 45u8 {
            v == -digits_value(s.drop_first())
        } else {
            v == digits_value(unsigned_body(s, 43u8))
        }),
{
    assert forall|i: int|
        (if s.len() > 0 && (s[0] == 43u8 || s[0] == 45u8) { 1int } else { 0int }) <= i < s.len()
            && !is_digit(#[trigger] s[i]) implies parse_i64_spec(s) is None by {
        let o: int = if s.len() > 0 && (s[0] == 43u8 || s[0] == 45u8) { 1 } else { 0 };
        if s.len() > 0 && s[0] == 45u8 {
            assert(s.drop_first()[i - o] == s[i]);
        } else {
            assert(unsigned_body(s, 43u8)[i - o] == s[i]);
        }
    }
}

} // verus!
