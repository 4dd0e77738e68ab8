//! Conversion of human-written decimal amount strings into exact integer
//! minor units (cents). Bank exports are messy, so the reading is lenient:
//! a numeric segment that does not parse as an integer counts as zero, and
//! the whole conversion never fails.

use vstd::prelude::*;
use vstd::string::StrSliceExecFns;

verus! {

/// The ASCII decimal digits, by code point.
pub open spec fn is_ascii_digit(c: char) -> bool {
    48 <= c as int <= 57
}

pub open spec fn digit_value(c: char) -> int {
    c as int - 48
}

/// Value of a string of decimal digits, most significant digit first.
pub open spec fn digits_value(s: Seq<char>) -> int
    decreases s.len(),
{
    if s.len() == 0 {
        0
    } else {
        10 * digits_value(s.drop_last()) + digit_value(s.last())
    }
}

pub open spec fn all_digits(s: Seq<char>) -> bool {
    forall|i: int| 0 <= i < s.len() ==> is_ascii_digit(#[trigger] s[i])
}

/// The digits of an optionally signed integer numeral.
pub open spec fn literal_body(s: Seq<char>) -> Seq<char> {
    if s.len() > 0 && (s[0] == '-' || s[0] == '+') {
        s.drop_first()
    } else {
        s
    }
}

/// An optionally signed, non-empty, all-decimal-digit numeral: exactly the
/// shape `i64::from_str` accepts, the `i64` range aside.
pub open spec fn is_integer_literal(s: Seq<char>) -> bool {
    literal_body(s).len() > 0 && all_digits(literal_body(s))
}

/// Mathematical value of a signed numeral.
pub open spec fn literal_value(s: Seq<char>) -> int {
    if s.len() > 0 && s[0] == '-' {
        -digits_value(literal_body(s))
    } else {
        digits_value(literal_body(s))
    }
}

/// Lenient reading of one numeric segment: a segment that is not an
/// in-range integer numeral counts as zero rather than failing.
pub open spec fn segment_value(s: Seq<char>) -> int {
    if is_integer_literal(s) && i64::MIN <= literal_value(s) <= i64::MAX {
        literal_value(s)
    } else {
        0
    }
}

/// Index of the first fractional separator `'.'` in `s`, or `s.len()` if
/// there is none.
pub open spec fn first_dot(s: Seq<char>) -> int
    decreases s.len(),
{
    if s.len() == 0 {
        0
    } else if s[0] == '.' {
        0
    } else {
        1 + first_dot(s.drop_first())
    }
}

pub open spec fn has_dot(s: Seq<char>) -> bool {
    first_dot(s) < s.len()
}

/// A fractional part right-padded with `'0'` until it has at least two
/// digits, the fixed minor-unit precision.
pub open spec fn pad_fraction(s: Seq<char>) -> Seq<char> {
    if s.len() >= 2 {
        s
    } else if s.len() == 1 {
        s.push('0')
    } else {
        seq!['0', '0']
    }
}

/// The sign of the amount is read from the whole part alone; a leading
/// minus also negates the fractional contribution.
pub open spec fn whole_is_negative(w: Seq<char>) -> bool {
    w.len() > 0 && w[0] == '-'
}

/// The amount in minor units denoted by a human-written decimal string:
/// the text splits at the fractional separator into a whole part and a
/// fractional part (absent separator: fraction zero; more than one
/// separator: the whole amount is zero), the fraction is padded to the
/// two-digit minor-unit precision, each segment is read leniently, and
/// the result is `whole * 100` plus the signed fractional contribution.
pub open spec fn amount_value(s: Seq<char>) -> int {
    if !has_dot(s) {
        100 * segment_value(s)
    } else {
        let i = first_dot(s);
        let tail = s.skip(i + 1);
        if has_dot(tail) {
            0
        } else {
            let w = s.take(i);
            let f = pad_fraction(tail);
            100 * segment_value(w) + if whole_is_negative(w) {
                -segment_value(f)
            } else {
                segment_value(f)
            }
        }
    }
}

/// Whether the amount denoted by `s` fits the signed 64-bit minor-unit
/// representation.
pub open spec fn amount_fits(s: Seq<char>) -> bool {
    i64::MIN <= amount_value(s) <= i64::MAX
}

proof fn lemma_first_dot_props(s: Seq<char>)
    ensures
        0 <= first_dot(s) <= s.len(),
        forall|j: int| 0 <= j < first_dot(s) ==> s[j] != '.',
        first_dot(s) < s.len() ==> s[first_dot(s)] == '.',
    decreases s.len(),
{
    if s.len() == 0 {
    } else if s[0] == '.' {
    } else {
        lemma_first_dot_props(s.drop_first());
        assert forall|j: int| 0 <= j < first_dot(s) implies s[j] != '.' by {
            if j > 0 {
                assert(s.drop_first()[j - 1] == s[j]);
            }
        }
        if first_dot(s) < s.len() {
            assert(s.drop_first()[first_dot(s) - 1] == s[first_dot(s)]);
        }
    }
}

proof fn lemma_first_dot_from_scan(s: Seq<char>, i: int)
    requires
        0 <= i <= s.len(),
        forall|j: int| 0 <= j < i ==> s[j] != '.',
        i < s.len() ==> s[i] == '.',
    ensures
        first_dot(s) == i,
    decreases s.len(),
{
    if s.len() == 0 {
    } else if s[0] == '.' {
        assert(i == 0);
    } else {
        assert(i >= 1);
        lemma_first_dot_from_scan(s.drop_first(), i - 1);
    }
}

#[verifier::loop_isolation(false)]
fn chars_of(s: &str) -> (v: Vec<char>)
    ensures
        v@ == s@,
{
    let n: usize = s.unicode_len();
    let mut v: Vec<char> = Vec::new();
    let mut i: usize = 0;
    while i < n
        invariant
            i <= n,
            n == s@.len(),
            v@ == s@.take(i as int),
        decreases n - i,
    {
        let c = s.get_char(i);
        v.push(c);
        proof {
            assert(s@.take(i + 1) =~= s@.take(i as int).push(s@[i as int]));
        }
        i = i + 1;
    }
    proof {
        assert(s@.take(n as int) =~= s@);
    }
    v
}

#[verifier::loop_isolation(false)]
fn find_dot(v: &Vec<char>, from: usize) -> (r: usize)
    requires
        from <= v@.len(),
    ensures
        from <= r <= v@.len(),
        forall|j: int| from <= j < r ==> v@[j] != '.',
        r < v@.len() ==> v@[r as int] == '.',
{
    let mut i: usize = from;
    while i < v.len()
        invariant
            from <= i <= v@.len(),
            forall|j: int| from <= j < i ==> v@[j] != '.',
        decreases v@.len() - i,
    {
        if v[i] == '.' {
            return i;
        }
        i = i + 1;
    }
    i
}

/// Lenient reading of one numeric segment of `v`, between the character
/// positions `lo` (inclusive) and `hi` (exclusive).
#[verifier::loop_isolation(false)]
fn parse_segment(v: &Vec<char>, lo: usize, hi: usize) -> (r: i64)
    requires
        lo <= hi <= v@.len(),
    ensures
        r as int == segment_value(v@.subrange(lo as int, hi as int)),
{
    let ghost s = v@.subrange(lo as int, hi as int);
    if lo == hi {
        assert(literal_body(s).len() == 0);
        return 0;
    }
    let c0 = v[lo];
    proof {
        assert(c0 == s[0]);
    }
    let neg = c0 == '-';
    let start: usize = if c0 == '-' || c0 == '+' {
        lo + 1
    } else {
        lo
    };
    let ghost body = literal_body(s);
    proof {
        assert(body =~= v@.subrange(start as int, hi as int));
    }
    if start == hi {
        assert(body.len() == 0);
        return 0;
    }
    let mut acc: u64 = 0;
    let mut too_big = false;
    let mut i: usize = start;
    while i < hi
        invariant
            start <= i <= hi <= v@.len(),
            start < hi,
            body == v@.subrange(start as int, hi as int),
            all_digits(body.take(i - start)),
            !too_big ==> acc == digits_value(body.take(i - start))
                && acc <= 9223372036854775808u64,
            too_big ==> digits_value(body.take(i - start)) > 9223372036854775808,
        decreases hi - i,
    {
        let c = v[i];
        proof {
            assert(body[i - start] == c);
        }
        if c < '0' || c > '9' {
            proof {
                assert(!is_ascii_digit(c));
                assert(!all_digits(body));
                assert(!is_integer_literal(s));
            }
            return 0;
        }
        let d: u64 = (c as u8 - 48) as u64;
        proof {
            assert(is_ascii_digit(c));
            assert(d == digit_value(c));
            assert(body.take(i - start + 1).drop_last() =~= body.take(i - start));
            assert(body.take(i - start + 1).last() == c);
            assert(digits_value(body.take(i - start + 1))
                == 10 * digits_value(body.take(i - start)) + d);
        }
        if too_big {
        } else if acc > 922337203685477580u64 || (acc == 922337203685477580u64 && d > 8) {
            too_big = true;
        } else {
            acc = acc * 10 + d;
        }
        i = i + 1;
    }
    proof {
        assert(body.take(hi - start) =~= body);
        assert(is_integer_literal(s));
        assert(neg <==> s[0] == '-');
    }
    if too_big {
        proof {
            assert(digits_value(body) > 9223372036854775808);
            assert(!(i64::MIN <= literal_value(s) <= i64::MAX));
        }
        return 0;
    }
    if neg {
        if acc == 9223372036854775808u64 {
            proof {
                assert(literal_value(s) == i64::MIN);
            }
            return i64::MIN;
        }
        let a: i64 = acc as i64;
        proof {
            assert(-a as int == literal_value(s));
        }
        return -a;
    }
    if acc >= 9223372036854775808u64 {
        proof {
            assert(literal_value(s) > i64::MAX);
        }
        return 0;
    }
    acc as i64
}

/// The exact amount denoted by `v`, wide enough that no input overflows it.
#[verifier::loop_isolation(false)]
fn amount_of_chars(v: &Vec<char>) -> (r: i128)
    ensures
        r as int == amount_value(v@),
{
    let d1 = find_dot(v, 0);
    proof {
        lemma_first_dot_from_scan(v@, d1 as int);
    }
    if d1 == v.len() {
        proof {
            assert(v@.subrange(0, v@.len() as int) =~= v@);
        }
        let w = parse_segment(v, 0, d1);
        return 100i128 * (w as i128);
    }
    let ghost tail = v@.skip(d1 + 1);
    let d2 = find_dot(v, d1 + 1);
    proof {
        assert forall|j: int| 0 <= j < d2 - d1 - 1 implies tail[j] != '.' by {
            assert(tail[j] == v@[d1 + 1 + j]);
        }
        if d2 < v@.len() {
            assert(tail[d2 - d1 - 1] == v@[d2 as int]);
        }
        lemma_first_dot_from_scan(tail, d2 - d1 - 1);
    }
    if d2 < v.len() {
        proof {
            assert(has_dot(tail));
        }
        return 0;
    }
    let w = parse_segment(v, 0, d1);
    let mut f: Vec<char> = Vec::new();
    let mut i: usize = d1 + 1;
    while i < v.len()
        invariant
            d1 + 1 <= i <= v@.len(),
            f@ == v@.subrange(d1 + 1, i as int),
        decreases v@.len() - i,
    {
        let c = v[i];
        f.push(c);
        proof {
            assert(v@.subrange(d1 + 1, i + 1) =~= v@.subrange(d1 + 1, i as int).push(v@[i as int]));
        }
        i = i + 1;
    }
    proof {
        assert(f@ == tail);
    }
    if f.len() == 0 {
        f.push('0');
        f.push('0');
    } else if f.len() == 1 {
        f.push('0');
    }
    proof {
        assert(f@ =~= pad_fraction(tail));
    }
    let fr = parse_segment(&f, 0, f.len());
    proof {
        assert(f@.subrange(0, f@.len() as int) =~= f@);
    }
    let neg = if d1 > 0 {
        v[0] == '-'
    } else {
        false
    };
    proof {
        assert(neg == whole_is_negative(v@.take(d1 as int)));
    }
    let fi: i128 = if neg {
        -(fr as i128)
    } else {
        fr as i128
    };
    100i128 * (w as i128) + fi
}

/// Reads a decimal amount string as exact integer minor units, or reports
/// that the amount does not fit the 64-bit representation. Malformed
/// numeric segments count as zero; the conversion itself never fails.
pub fn parse_cents_checked(s: &str) -> (r: Option<i64>)
    ensures
        r is Some <==> amount_fits(s@),
        r is Some ==> r->Some_0 as int == amount_value(s@),
{
    let v = chars_of(s);
    let a = amount_of_chars(&v);
    if i64::MIN as i128 <= a && a <= i64::MAX as i128 {
        Some(a as i64)
    } else {
        None
    }
}

/// Reads a decimal amount string as exact integer minor units. The result
/// is a pure function of the input characters: the whole part contributes
/// a hundredfold, the fractional part is padded to two digits, a leading
/// minus on the whole part negates the fractional contribution too, and a
/// malformed segment counts as zero.
pub fn parse_cents(s: &str) -> (r: i64)
    requires
        amount_fits(s@),
    ensures
        r as int == amount_value(s@),
{
    match parse_cents_checked(s) {
        Some(c) => c,
        None => {
            proof {
                assert(false);
            }
            0
        },
    }
}

/// Fractional padding: a string with a single-digit fractional part
/// denotes the same amount as the same string with a `'0'` appended — the
/// one fractional digit counts tenfold.
pub proof fn lemma_single_digit_fraction_pads(s: Seq<char>)
    requires
        has_dot(s),
        !has_dot(s.skip(first_dot(s) + 1)),
        s.skip(first_dot(s) + 1).len() == 1,
    ensures
        amount_value(s) == amount_value(s.push('0')),
{
    let i = first_dot(s);
    lemma_first_dot_props(s);
    let s2 = s.push('0');
    lemma_first_dot_from_scan(s2, i);
    let tail = s.skip(i + 1);
    let tail2 = s2.skip(i + 1);
    assert(tail2 =~= tail.push('0'));
    lemma_first_dot_props(tail);
    assert(tail[0] != '.');
    lemma_first_dot_from_scan(tail2, 2);
    assert(!has_dot(tail2));
    assert(s2.take(i) =~= s.take(i));
    assert(pad_fraction(tail) == tail.push('0'));
    assert(pad_fraction(tail2) == tail2);
}

/// Negative-zero-whole: a whole part that is exactly `-` contributes no
/// whole units itself, yet still negates the fractional contribution.
pub proof fn lemma_bare_minus_negates_fraction(s: Seq<char>)
    requires
        s.len() >= 2,
        s[0] == '-',
        s[1] == '.',
        !has_dot(s.skip(2)),
    ensures
        amount_value(s) == -segment_value(pad_fraction(s.skip(2))),
{
    lemma_first_dot_from_scan(s, 1);
    let w = s.take(1);
    assert(w[0] == '-');
    assert(literal_body(w) =~= Seq::<char>::empty());
    assert(segment_value(w) == 0);
    assert(whole_is_negative(w));
}

/// Malformed numeric segments degrade to zero rather than failing: a
/// separator-free string that is not an in-range integer numeral denotes
/// the amount zero.
pub proof fn lemma_malformed_whole_degrades(s: Seq<char>)
    requires
        !has_dot(s),
        !is_integer_literal(s),
    ensures
        amount_value(s) == 0,
{
}

/// Malformed numeric segments degrade to zero rather than failing: where
/// neither the whole part nor the padded fractional part of a one-separator
/// string is an in-range integer numeral, the whole amount is zero.
pub proof fn lemma_malformed_segments_degrade(s: Seq<char>)
    requires
        has_dot(s),
        !has_dot(s.skip(first_dot(s) + 1)),
        !is_integer_literal(s.take(first_dot(s))),
        !is_integer_literal(pad_fraction(s.skip(first_dot(s) + 1))),
    ensures
        amount_value(s) == 0,
{
}

} // verus!

