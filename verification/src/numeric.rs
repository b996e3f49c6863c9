//! Decimal text: rendering unsigned integers and reading runs of ASCII digits.
use vstd::prelude::*;
use vstd::string::StringSliceAdditionalSpecFns;

verus! {

/// An ASCII decimal digit.
pub open spec fn is_digit(b: u8) -> bool {
    48 <= b <= 57
}

/// Every byte of `s` is an ASCII decimal digit.
pub open spec fn all_digits(s: Seq<u8>) -> bool {
    forall|i: int| 0 <= i < s.len() ==> is_digit(#[trigger] s[i])
}

/// The value of a run of decimal digits, most significant first.
pub open spec fn digits_value(s: Seq<u8>) -> nat
    decreases s.len(),
{
    if s.len() == 0 {
        0
    } else {
        digits_value(s.drop_last()) * 10 + (s.last() - 48) as nat
    }
}

/// The shortest decimal rendering of `n` as ASCII bytes ("0" for zero).
pub open spec fn decimal(n: nat) -> Seq<u8>
    decreases n,
{
    if n < 10 {
        seq![(48 + n) as u8]
    } else {
        decimal(n / 10).push((48 + n % 10) as u8)
    }
}

/// The shortest decimal rendering of `n` as characters.
pub open spec fn decimal_text(n: nat) -> Seq<char>
    decreases n,
{
    if n < 10 {
        seq![(48 + n) as char]
    } else {
        decimal_text(n / 10).push((48 + n % 10) as char)
    }
}

/// `s` is a non-empty run of digits whose value is at most `max`.
pub open spec fn digits_within(s: Seq<u8>, max: nat) -> bool {
    s.len() > 0 && all_digits(s) && digits_value(s) <= max
}

/// The digits of an unsigned integer literal as `str::parse` reads them:
/// one leading `+` is dropped.
pub open spec fn unsigned_digits(s: Seq<u8>) -> Seq<u8> {
    if s.len() > 0 && s[0] == 43 {
        s.drop_first()
    } else {
        s
    }
}

/// What parsing `s` as an unsigned integer no larger than `max` gives.
pub open spec fn unsigned_value(s: Seq<u8>, max: nat) -> Option<nat> {
    let d = unsigned_digits(s);
    if digits_within(d, max) {
        Some(digits_value(d))
    } else {
        None
    }
}

/// Appending a digit never lowers the value of a run of digits.
pub proof fn lemma_digits_value_push(s: Seq<u8>, d: u8)
    requires
        is_digit(d),
    ensures
        digits_value(s.push(d)) == digits_value(s) * 10 + (d - 48),
        digits_value(s.push(d)) >= digits_value(s),
{
    assert(s.push(d).drop_last() =~= s);
}

/// The value of a run of digits is at least that of each of its prefixes.
pub proof fn lemma_digits_value_prefix(s: Seq<u8>, k: int)
    requires
        0 <= k <= s.len(),
        all_digits(s),
    ensures
        digits_value(s.subrange(0, k)) <= digits_value(s),
    decreases s.len() - k,
{
    if k < s.len() {
        lemma_digits_value_prefix(s, k + 1);
        assert(s.subrange(0, k + 1).drop_last() =~= s.subrange(0, k));
    } else {
        assert(s.subrange(0, k) =~= s);
    }
}

/// A rendered number reads back as itself: its rendering is a non-empty
/// run of digits, without a leading zero, whose value is the number.
pub proof fn law_decimal_reads_back(n: nat)
    ensures
        decimal(n).len() > 0,
        all_digits(decimal(n)),
        digits_value(decimal(n)) == n,
        forall|max: nat| n <= max ==> #[trigger] digits_within(decimal(n), max),
        decimal(n).len() > 1 ==> decimal(n)[0] != 48,
        decimal(n).len() == 1 <==> n < 10,
    decreases n,
{
    if n >= 10 {
        let q = n / 10;
        let r = n % 10;
        law_decimal_reads_back(q);
        assert(decimal(n).drop_last() =~= decimal(q));
        assert(decimal(n)[0] == decimal(q)[0]);
        assert((48 + r) as u8 == 48 + r);
        assert(n == q * 10 + r);
        assert(q >= 1);
        assert(decimal(n).last() == (48 + r) as u8);
        assert(digits_value(decimal(n)) == digits_value(decimal(q)) * 10 + r);
    } else {
        assert((48 + n) as u8 == 48 + n);
        assert(decimal(n).drop_last() =~= Seq::<u8>::empty());
        assert(digits_value(decimal(n)) == digits_value(Seq::<u8>::empty()) * 10 + n);
    }
}

/// The digit character for `d`.
fn digit_str(d: u64) -> (s: &'static str)
    requires
        d < 10,
    ensures
        s@ == seq![(48 + d) as char],
{
    proof {
        reveal_strlit("0");
        reveal_strlit("1");
        reveal_strlit("2");
        reveal_strlit("3");
        reveal_strlit("4");
        reveal_strlit("5");
        reveal_strlit("6");
        reveal_strlit("7");
        reveal_strlit("8");
        reveal_strlit("9");
    }
    match d {
        0 => "0",
        1 => "1",
        2 => "2",
        3 => "3",
        4 => "4",
        5 => "5",
        6 => "6",
        7 => "7",
        8 => "8",
        _ => "9",
    }
}

/// Renders `n` in decimal as ASCII bytes, as `n.to_string().as_bytes()` does.
pub fn decimal_bytes(n: u64) -> (r: Vec<u8>)
    ensures
        r@ == decimal(n as nat),
    decreases n,
{
    if n < 10 {
        let d: u8 = (48 + n) as u8;
        let mut v: Vec<u8> = Vec::new();
        v.push(d);
        assert(v@ =~= seq![(48 + n) as u8]);
        v
    } else {
        let mut v = decimal_bytes(n / 10);
        let d: u8 = (48 + n % 10) as u8;
        v.push(d);
        v
    }
}

/// Renders `n` in decimal, as `n.to_string()` does.
pub fn decimal_string(n: u64) -> (r: String)
    ensures
        r@ == decimal_text(n as nat),
    decreases n,
{
    if n < 10 {
        String::from_str(digit_str(n))
    } else {
        let mut s = decimal_string(n / 10);
        s.append(digit_str(n % 10));
        s
    }
}

/// Reads `bytes[start..end]` as a run of decimal digits with value at most `max`.
pub fn parse_digits(bytes: &[u8], start: usize, end: usize, max: u64) -> (r: Option<u64>)
    requires
        start <= end <= bytes@.len(),
    ensures
        r == (if digits_within(bytes@.subrange(start as int, end as int), max as nat) {
            Some(digits_value(bytes@.subrange(start as int, end as int)) as u64)
        } else {
            None::<u64>
        }),
{
    let ghost s = bytes@.subrange(start as int, end as int);
    if start == end {
        return None;
    }
    let mut value: u64 = 0;
    let mut i: usize = start;
    while i < end
        invariant
            start <= i <= end <= bytes@.len(),
            s == bytes@.subrange(start as int, end as int),
            all_digits(s.subrange(0, i - start)),
            value as nat == digits_value(s.subrange(0, i - start)),
            value <= max,
        decreases end - i,
    {
        let b = bytes[i];
        if b < 48 || b > 57 {
            assert(!all_digits(s)) by {
                assert(s[i - start] == b);
            }
            return None;
        }
        let d: u64 = (b - 48) as u64;
        let ghost pre = s.subrange(0, i - start);
        assert(s.subrange(0, i + 1 - start) =~= pre.push(b));
        proof {
            lemma_digits_value_push(pre, b);
        }
        if value > max / 10 || (value == max / 10 && d > max % 10) {
            assert(value * 10 + d > max) by (nonlinear_arith)
                requires
                    value > max / 10 || (value == max / 10 && d > max % 10),
            ;
            proof {
                assert(all_digits(s.subrange(0, i + 1 - start)));
                if all_digits(s) {
                    lemma_digits_value_prefix(s, i + 1 - start);
                }
            }
            return None;
        }
        assert(value * 10 + d <= max) by (nonlinear_arith)
            requires
                !(value > max / 10 || (value == max / 10 && d > max % 10)),
                d < 10,
        ;
        value = value * 10 + d;
        i = i + 1;
    }
    assert(s.subrange(0, end - start) =~= s);
    Some(value)
}

/// Parses `text` as an unsigned integer no larger than `max`, as `str::parse`
/// does for the unsigned integer types: an optional `+`, then one or more
/// decimal digits.
pub fn parse_unsigned(text: &str, max: u64) -> (r: Option<u64>)
    ensures
        r == (match unsigned_value(text.spec_bytes(), max as nat) {
            Some(v) => Some(v as u64),
            None => None::<u64>,
        }),
{
    let bytes = text.as_bytes();
    let n = bytes.len();
    let start: usize = if n > 0 && bytes[0] == 43 { 1 } else { 0 };
    assert(bytes@.subrange(start as int, n as int) =~= unsigned_digits(bytes@));
    parse_digits(bytes, start, n, max)
}

/// Parses `text` as a `bool`, as `str::parse` does: exactly `true` or `false`.
pub fn parse_bool(text: &str) -> (r: Option<bool>)
    ensures
        r == (if text@ == "true"@ {
            Some(true)
        } else if text@ == "false"@ {
            Some(false)
        } else {
            None::<bool>
        }),
{
    proof {
        reveal_strlit("true");
        reveal_strlit("false");
    }
    let t = String::from_str(text);
    let yes = String::from_str("true");
    let no = String::from_str("false");
    if t == yes {
        Some(true)
    } else if t == no {
        Some(false)
    } else {
        None
    }
}

} // verus!

verus! {

/// How unsigned numbers read: a number written in decimal, with or without
/// a leading `+`, reads as itself where it fits under `max` and not at all
/// where it does not; a leading `-`, an empty text and a lone `+` never
/// read.
pub proof fn law_unsigned_texts(n: nat, max: nat)
    ensures
        n <= max ==> unsigned_value(decimal(n), max) == Some(n),
        n <= max ==> unsigned_value(seq![43u8] + decimal(n), max) == Some(n),
        n > max ==> unsigned_value(decimal(n), max) is None,
        n > max ==> unsigned_value(seq![43u8] + decimal(n), max) is None,
        unsigned_value(seq![45u8] + decimal(n), max) is None,
        unsigned_value(Seq::<u8>::empty(), max) is None,
        unsigned_value(seq![43u8], max) is None,
{
    law_decimal_reads_back(n);
    let d = decimal(n);
    assert(is_digit(d[0]));
    assert((seq![43u8] + d).drop_first() =~= d);
    assert(seq![43u8].drop_first() =~= Seq::<u8>::empty());
    let m = seq![45u8] + d;
    assert(m[0] == 45u8);
    assert(!all_digits(m)) by {
        assert(!is_digit(m[0]));
    }
}

} // verus!
