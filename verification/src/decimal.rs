//! Decimal text of unsigned integers: the `{}` formatting of `u8`/`u32` and
//! the `str::parse::<u8>` / `str::parse::<u32>` readings, with the law that
//! reading back what was formatted gives the number again.

use vstd::prelude::*;

verus! {

/// An ASCII decimal digit.
pub open spec fn is_digit(c: char) -> bool {
    '0' <= c && c <= '9'
}

/// The value of a decimal digit.
pub open spec fn digit_value(c: char) -> nat {
    (c as int - '0' as int) as nat
}

/// Every character of `s` is a decimal digit.
pub open spec fn all_digits(s: Seq<char>) -> bool {
    forall|i: int| 0 <= i < s.len() ==> is_digit(#[trigger] s[i])
}

/// The number that a string of decimal digits denotes.
pub open spec fn digits_value(s: Seq<char>) -> nat
    decreases s.len(),
{
    if s.len() == 0 {
        0
    } else {
        digits_value(s.drop_last()) * 10 + digit_value(s.last())
    }
}

/// The digits part of the text of an unsigned integer: `s` without a leading `+`.
pub open spec fn unsigned_body(s: Seq<char>) -> Seq<char> {
    if s.len() > 0 && s[0] == '+' {
        s.drop_first()
    } else {
        s
    }
}

/// The number that `s` denotes as the text of an unsigned integer, as the
/// `FromStr` impls of the unsigned integer types read it: an optional `+`
/// followed by at least one decimal digit, and nothing else.
pub open spec fn unsigned_text_value(s: Seq<char>) -> Option<nat> {
    let body = unsigned_body(s);
    if body.len() > 0 && all_digits(body) {
        Some(digits_value(body))
    } else {
        None
    }
}

/// What `str::parse` gives for an unsigned integer type whose largest value
/// is `max`: the number, or `None` for text that is no number or one above `max`.
pub open spec fn parsed_unsigned(s: Seq<char>, max: nat) -> Option<nat> {
    match unsigned_text_value(s) {
        Some(v) => if v <= max {
            Some(v)
        } else {
            None
        },
        None => None,
    }
}

/// The character of the decimal digit `d`.
pub open spec fn digit_char(d: nat) -> char {
    if d == 0 {
        '0'
    } else if d == 1 {
        '1'
    } else if d == 2 {
        '2'
    } else if d == 3 {
        '3'
    } else if d == 4 {
        '4'
    } else if d == 5 {
        '5'
    } else if d == 6 {
        '6'
    } else if d == 7 {
        '7'
    } else if d == 8 {
        '8'
    } else {
        '9'
    }
}

/// The decimal text of `n`, as `{}` formats an unsigned integer: its digits,
/// most significant first, with no leading zero.
pub open spec fn decimal(n: nat) -> Seq<char>
    decreases n,
{
    if n < 10 {
        seq![digit_char(n)]
    } else {
        decimal(n / 10).push(digit_char(n % 10))
    }
}

/// The value of a prefix of a digit string is at most that of the whole.
proof fn lemma_digits_value_prefix(s: Seq<char>, k: int)
    requires
        0 <= k <= s.len(),
    ensures
        digits_value(s.take(k)) <= digits_value(s),
    decreases s.len(),
{
    if k < s.len() {
        assert(s.drop_last().take(k) == s.take(k));
        lemma_digits_value_prefix(s.drop_last(), k);
    } else {
        assert(s.take(k) == s);
    }
}

/// The decimal text of `n` is a nonempty digit string that denotes `n`.
pub proof fn lemma_decimal_digits(n: nat)
    ensures
        decimal(n).len() > 0,
        all_digits(decimal(n)),
        digits_value(decimal(n)) == n,
    decreases n,
{
    if n < 10 {
        assert(decimal(n).drop_last() == Seq::<char>::empty());
        assert(digit_value(digit_char(n)) == n);
        assert(digits_value(decimal(n).drop_last()) == 0);
        assert(decimal(n).last() == digit_char(n));
    } else {
        lemma_decimal_digits(n / 10);
        let d = decimal(n);
        assert(d.drop_last() == decimal(n / 10));
        assert(d.last() == digit_char(n % 10));
        assert(digit_value(digit_char(n % 10)) == n % 10);
        assert((n / 10) * 10 + n % 10 == n);
        assert(digits_value(d) == digits_value(d.drop_last()) * 10 + digit_value(d.last()));
        assert forall|i: int| 0 <= i < d.len() implies is_digit(#[trigger] d[i]) by {
            if i < d.len() - 1 {
                assert(d[i] == decimal(n / 10)[i]);
            }
        }
    }
}

/// The decimal text of `n` has no leading zero: it starts with `0` only for
/// `n == 0`, whose text is `0` alone.
pub proof fn lemma_decimal_no_leading_zero(n: nat)
    ensures
        decimal(n).len() > 0,
        n > 0 ==> decimal(n)[0] != '0',
        n == 0 ==> decimal(n) == seq!['0'],
    decreases n,
{
    if n >= 10 {
        lemma_decimal_no_leading_zero(n / 10);
        assert(decimal(n)[0] == decimal(n / 10)[0]);
    }
}

/// The decimal text of `n` has as many characters as `n` has digits: `n` lies
/// between `10^(len - 1)` (or 0 for a one-digit text) and `10^len`.
pub proof fn lemma_decimal_length(n: nat)
    ensures
        decimal(n).len() == 1 ==> n < 10,
        decimal(n).len() > 1 ==> pow10((decimal(n).len() - 1) as nat) <= n,
        n < pow10(decimal(n).len()),
    decreases n,
{
    if n >= 10 {
        lemma_decimal_length(n / 10);
        let k = decimal(n / 10).len();
        assert(decimal(n).len() == k + 1);
        assert(pow10(k + 1) == 10 * pow10(k));
        if k > 1 {
            assert(pow10(k) == 10 * pow10((k - 1) as nat));
        }
        assert(n / 10 < pow10(k));
        assert(n < 10 * pow10(k)) by (nonlinear_arith)
            requires
                n / 10 < pow10(k),
                n >= 0,
        ;
        if k == 1 {
            assert(pow10(1) == 10 * pow10(0));
            assert(pow10(0) == 1);
        } else {
            assert(pow10((k - 1) as nat) <= n / 10);
            assert(10 * pow10((k - 1) as nat) <= n) by (nonlinear_arith)
                requires
                    pow10((k - 1) as nat) <= n / 10,
                    n >= 0,
            ;
        }
    } else {
        assert(pow10(1) == 10 * pow10(0));
        assert(pow10(0) == 1);
    }
}

/// Ten to the power `k`.
pub open spec fn pow10(k: nat) -> nat
    decreases k,
{
    if k == 0 {
        1
    } else {
        10 * pow10((k - 1) as nat)
    }
}

/// What reads as a number is a nonempty text of decimal digits, with at
/// most a `+` in front: any other character makes the reading fail.
pub proof fn lemma_parsed_text_shape(s: Seq<char>, max: nat)
    ensures
        parsed_unsigned(s, max) is Some ==> {
            &&& s.len() > 0
            &&& !(s.len() == 1 && s[0] == '+')
            &&& forall|i: int| 0 <= i < s.len() ==> is_digit(#[trigger] s[i]) || (i == 0 && s[i] == '+')
        },
{
    if parsed_unsigned(s, max) is Some {
        let b = unsigned_body(s);
        assert forall|i: int| 0 <= i < s.len() implies is_digit(#[trigger] s[i]) || (i == 0
            && s[i] == '+') by {
            if s[0] == '+' {
                if i > 0 {
                    assert(s[i] == b[i - 1]);
                }
            } else {
                assert(s[i] == b[i]);
            }
        }
    }
}

/// Leading zeros, and a leading `+`, do not change the number read: a `+`
/// (or nothing), then `k` zeros, then the decimal text of `v` reads as `v`
/// wherever `v` fits.
pub proof fn lemma_leading_zeros_read_back(v: nat, k: nat, plus: bool, max: nat)
    requires
        v <= max,
    ensures
        parsed_unsigned(
            (if plus {
                seq!['+']
            } else {
                Seq::<char>::empty()
            }) + Seq::new(k, |i: int| '0') + decimal(v),
            max,
        ) == Some(v),
{
    let z = Seq::new(k, |i: int| '0');
    let t = z + decimal(v);
    lemma_decimal_digits(v);
    lemma_zeros_value(k, decimal(v));
    assert forall|i: int| 0 <= i < t.len() implies is_digit(#[trigger] t[i]) by {
        if i < k {
            assert(t[i] == '0');
        } else {
            assert(t[i] == decimal(v)[i - k]);
        }
    }
    let p = if plus {
        seq!['+']
    } else {
        Seq::<char>::empty()
    };
    assert(p + z + decimal(v) == p + t);
    assert(t.len() > 0);
    assert(all_digits(t));
    assert(digits_value(t) == v);
    if plus {
        assert((p + t)[0] == '+');
        assert((p + t).drop_first() == t);
        assert(unsigned_body(p + t) == t);
    } else {
        assert(p + t == t);
        assert(is_digit(t[0]));
        assert(unsigned_body(p + t) == t);
    }
}

/// Zeros in front of a digit string do not change its value.
proof fn lemma_zeros_value(k: nat, d: Seq<char>)
    ensures
        digits_value(Seq::new(k, |i: int| '0') + d) == digits_value(d),
    decreases d.len(),
{
    let z = Seq::new(k, |i: int| '0');
    if d.len() == 0 {
        assert(z + d == z);
        lemma_zeros_alone(k);
    } else {
        assert((z + d).drop_last() == z + d.drop_last());
        assert((z + d).last() == d.last());
        lemma_zeros_value(k, d.drop_last());
    }
}

/// A string of zeros denotes 0.
proof fn lemma_zeros_alone(k: nat)
    ensures
        digits_value(Seq::new(k, |i: int| '0')) == 0,
    decreases k,
{
    if k > 0 {
        assert(Seq::new(k, |i: int| '0').drop_last() == Seq::new((k - 1) as nat, |i: int| '0'));
        lemma_zeros_alone((k - 1) as nat);
    }
}

/// Reading the decimal text of `n` as an unsigned integer gives `n`.
pub proof fn lemma_decimal_reads_back(n: nat)
    ensures
        unsigned_text_value(decimal(n)) == Some(n),
{
    lemma_decimal_digits(n);
    assert(is_digit(decimal(n)[0]));
}

/// Whether `c` is a decimal digit.
fn is_digit_char(c: char) -> (b: bool)
    ensures
        b == is_digit(c),
{
    '0' <= c && c <= '9'
}

/// Reads `s` as an unsigned integer whose largest value is `max`.
fn parse_unsigned(s: &[char], max: u32) -> (r: Option<u32>)
    ensures
        r matches Some(v) ==> parsed_unsigned(s@, max as nat) == Some(v as nat),
        r is None ==> parsed_unsigned(s@, max as nat) is None,
{
    let n = s.len();
    let mut i: usize = 0;
    if n > 0 && s[0] == '+' {
        i = 1;
    }
    let start = i;
    let ghost body = unsigned_body(s@);
    assert(body == s@.subrange(start as int, n as int));
    if start == n {
        return None;
    }
    let mut acc: u64 = 0;
    assert(s@.subrange(start as int, start as int) == Seq::<char>::empty());
    while i < n
        invariant
            start <= i <= n,
            n == s@.len(),
            body == s@.subrange(start as int, n as int),
            body == unsigned_body(s@),
            acc == digits_value(s@.subrange(start as int, i as int)),
            acc <= max,
            all_digits(s@.subrange(start as int, i as int)),
        decreases n - i,
    {
        let c = s[i];
        if !is_digit_char(c) {
            assert(body[i - start] == c);
            assert(!all_digits(body));
            assert(unsigned_text_value(s@) is None);
            return None;
        }
        let d = (c as u32 - '0' as u32) as u64;
        let ghost prefix = s@.subrange(start as int, i + 1);
        assert(prefix.drop_last() == s@.subrange(start as int, i as int));
        assert(prefix.last() == c);
        assert forall|k: int| 0 <= k < prefix.len() implies is_digit(#[trigger] prefix[k]) by {
            if k < prefix.len() - 1 {
                assert(prefix[k] == s@.subrange(start as int, i as int)[k]);
            }
        }
        acc = acc * 10 + d;
        if acc > max as u64 {
            proof {
                assert(body.take(i + 1 - start) == prefix);
                lemma_digits_value_prefix(body, i + 1 - start);
                assert(digits_value(body) > max);
                assert(unsigned_text_value(s@) matches Some(v) ==> v > max);
            }
            return None;
        }
        i = i + 1;
    }
    Some(acc as u32)
}

/// The character of the decimal digit `d`.
fn digit_char_of(d: u32) -> (c: char)
    requires
        d < 10,
    ensures
        c == digit_char(d as nat),
{
    if d == 0 {
        '0'
    } else if d == 1 {
        '1'
    } else if d == 2 {
        '2'
    } else if d == 3 {
        '3'
    } else if d == 4 {
        '4'
    } else if d == 5 {
        '5'
    } else if d == 6 {
        '6'
    } else if d == 7 {
        '7'
    } else if d == 8 {
        '8'
    } else {
        '9'
    }
}

/// Appends the decimal text of `n` to `out`.
fn push_decimal(out: &mut Vec<char>, n: u32)
    ensures
        final(out)@ == old(out)@ + decimal(n as nat),
    decreases n,
{
    if n >= 10 {
        push_decimal(out, n / 10);
    }
    let c = digit_char_of(n % 10);
    let ghost before = out@;
    out.push(c);
    proof {
        if n >= 10 {
            assert(decimal(n as nat) == decimal((n / 10) as nat).push(c));
            assert(out@ == old(out)@ + decimal(n as nat));
        } else {
            assert(decimal(n as nat) == seq![c]);
            assert(out@ == old(out)@ + decimal(n as nat));
        }
    }
}

/// The decimal text of `n`, as `format!("{}", n)` gives it.
pub fn decimal_string(n: u32) -> (s: String)
    ensures
        s@ == decimal(n as nat),
        unsigned_text_value(s@) == Some(n as nat),
        n > 0 ==> s@[0] != '0',
{
    proof {
        lemma_decimal_reads_back(n as nat);
        lemma_decimal_no_leading_zero(n as nat);
    }
    let mut digits: Vec<char> = Vec::new();
    push_decimal(&mut digits, n);
    assert(digits@ == decimal(n as nat));
    crate::text::string_of(digits.as_slice(), 0, digits.len())
}

/// Reads `s` as a `u32`, as `s.parse::<u32>()` does: `None` exactly where
/// that call fails.
pub fn parse_u32(s: &str) -> (r: Option<u32>)
    ensures
        r matches Some(v) ==> parsed_unsigned(s@, u32::MAX as nat) == Some(v as nat),
        r is None ==> parsed_unsigned(s@, u32::MAX as nat) is None,
{
    let chars = crate::text::chars_of(s);
    parse_unsigned(chars.as_slice(), u32::MAX)
}

/// Reads `s` as a `u8`, as `s.parse::<u8>()` does: `None` exactly where
/// that call fails.
pub fn parse_u8(s: &str) -> (r: Option<u8>)
    ensures
        r matches Some(v) ==> parsed_unsigned(s@, u8::MAX as nat) == Some(v as nat),
        r is None ==> parsed_unsigned(s@, u8::MAX as nat) is None,
{
    let chars = crate::text::chars_of(s);
    match parse_unsigned(chars.as_slice(), 255) {
        Some(v) => Some(v as u8),
        None => None,
    }
}

} // verus!
