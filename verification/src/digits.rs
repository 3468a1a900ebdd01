//! Decimal text: the spec-level meaning of digit strings, verified parsing
//! of `u32`/`i32` values from text, and verified rendering of values back
//! to text.

use vstd::prelude::*;
use vstd::string::StrSliceExecFns;
use vstd::string::StringExecFns;
use crate::error::IntErrorKind;

verus! {

/// Whether `c` is an ASCII decimal digit. Characters outside ASCII are
/// never digits, so a scan for digits is safe on multi-byte text.
pub open spec fn is_digit_char(c: char) -> bool {
    48 <= (c as u32) && (c as u32) <= 57
}

/// The numeric value of the digit `c`.
pub open spec fn digit_val(c: char) -> int {
    (c as u32) - 48
}

/// Whether every character of `s` is an ASCII decimal digit.
pub open spec fn all_digits(s: Seq<char>) -> bool {
    forall|i: int| 0 <= i < s.len() ==> is_digit_char(#[trigger] s[i])
}

/// The value of `s` read as a base-10 numeral, most significant digit first.
pub open spec fn digits_val(s: Seq<char>) -> int
    decreases s.len(),
{
    if s.len() == 0 {
        0
    } else {
        digits_val(s.drop_last()) * 10 + digit_val(s.last())
    }
}

/// The index of the first character of `s` that is not a digit, or `s.len()`
/// if every character is one.
pub open spec fn first_nondigit(s: Seq<char>) -> int
    decreases s.len(),
{
    if s.len() == 0 {
        0
    } else if !is_digit_char(s[0]) {
        0
    } else {
        1 + first_nondigit(s.skip(1))
    }
}

/// The maximal digit prefix of `s`.
pub open spec fn digit_prefix(s: Seq<char>) -> Seq<char> {
    s.take(first_nondigit(s))
}

/// What parsing `s` as a `u32` returns: the numeral's value if `s` is
/// nonempty, all digits, and within bounds; otherwise the error the scan
/// meets first, reading left to right with the overflow check made at each
/// digit.
pub open spec fn parse_u32_spec(s: Seq<char>) -> Result<u32, IntErrorKind> {
    if s.len() == 0 {
        Err(IntErrorKind::Empty)
    } else if digits_val(digit_prefix(s)) > u32::MAX {
        Err(IntErrorKind::PosOverflow)
    } else if first_nondigit(s) < s.len() {
        Err(IntErrorKind::InvalidDigit)
    } else {
        Ok(digits_val(s) as u32)
    }
}

/// What parsing `s` as an `i32` returns: an optional leading `-` followed
/// by digits; no leading `+` is accepted.
pub open spec fn parse_i32_spec(s: Seq<char>) -> Result<i32, IntErrorKind> {
    if s.len() == 0 {
        Err(IntErrorKind::Empty)
    } else if s[0] == '-' {
        let t = s.skip(1);
        if t.len() == 0 {
            Err(IntErrorKind::InvalidDigit)
        } else if digits_val(digit_prefix(t)) > 2147483648 {
            Err(IntErrorKind::NegOverflow)
        } else if first_nondigit(t) < t.len() {
            Err(IntErrorKind::InvalidDigit)
        } else {
            Ok((0 - digits_val(t)) as i32)
        }
    } else {
        if digits_val(digit_prefix(s)) > 2147483647 {
            Err(IntErrorKind::PosOverflow)
        } else if first_nondigit(s) < s.len() {
            Err(IntErrorKind::InvalidDigit)
        } else {
            Ok(digits_val(s) as i32)
        }
    }
}

/// The digit character for the value `d`.
pub open spec fn digit_char(d: int) -> char {
    if d == 0 {
        '0'
    } else if d == 1 {
        '1'
    } else if d == 2 {
        '2'
    } else if d == 3 {
        '3'
    } else if d == 4 {
        '4'
    } else if d == 5 {
        '5'
    } else if d == 6 {
        '6'
    } else if d == 7 {
        '7'
    } else if d == 8 {
        '8'
    } else {
        '9'
    }
}

/// The canonical decimal rendering of the non-negative value `n`: no sign,
/// no leading zeros.
pub open spec fn dec_u32(n: int) -> Seq<char>
    decreases n,
{
    if n < 10 {
        seq![digit_char(n)]
    } else {
        dec_u32(n / 10) + seq![digit_char(n % 10)]
    }
}

/// The canonical decimal rendering of `n`, with a leading `-` if negative.
pub open spec fn dec_i32(n: int) -> Seq<char> {
    if n < 0 {
        seq!['-'] + dec_u32(-n)
    } else {
        dec_u32(n)
    }
}

/// The length of the maximal run of digits at the end of `s`.
pub open spec fn digit_suffix_len(s: Seq<char>) -> int
    decreases s.len(),
{
    if s.len() == 0 || !is_digit_char(s.last()) {
        0
    } else {
        1 + digit_suffix_len(s.drop_last())
    }
}

/// `first_nondigit` points at a non-digit (if in range), and everything
/// before it is a digit.
pub proof fn lemma_first_nondigit(s: Seq<char>)
    ensures
        0 <= first_nondigit(s) <= s.len(),
        forall|i: int| 0 <= i < first_nondigit(s) ==> is_digit_char(#[trigger] s[i]),
        first_nondigit(s) < s.len() ==> !is_digit_char(s[first_nondigit(s)]),
    decreases s.len(),
{
    if s.len() > 0 && is_digit_char(s[0]) {
        lemma_first_nondigit(s.skip(1));
        assert forall|i: int| 0 <= i < first_nondigit(s) implies is_digit_char(#[trigger] s[i]) by {
            if i > 0 {
                assert(s[i] == s.skip(1)[i - 1]);
            }
        }
    }
}

/// Under `all_digits`, a numeral's value is non-negative.
pub proof fn lemma_digits_val_nonneg(s: Seq<char>)
    requires
        all_digits(s),
    ensures
        digits_val(s) >= 0,
    decreases s.len(),
{
    if s.len() > 0 {
        assert(all_digits(s.drop_last()));
        lemma_digits_val_nonneg(s.drop_last());
    }
}

/// A digit prefix never exceeds the whole numeral in value.
pub proof fn lemma_digits_val_prefix_le(s: Seq<char>, j: int)
    requires
        all_digits(s),
        0 <= j <= s.len(),
    ensures
        digits_val(s.take(j)) <= digits_val(s),
    decreases s.len(),
{
    if j == s.len() {
        assert(s.take(j) =~= s);
    } else {
        assert(all_digits(s.drop_last()));
        assert(s.drop_last().take(j) =~= s.take(j));
        lemma_digits_val_prefix_le(s.drop_last(), j);
        lemma_digits_val_nonneg(s.drop_last());
    }
}

/// The digit characters carry their values.
pub proof fn lemma_digit_char_val(d: int)
    requires
        0 <= d <= 9,
    ensures
        is_digit_char(digit_char(d)),
        digit_val(digit_char(d)) == d,
{
}

/// A canonical decimal rendering is a nonempty digit string whose numeral
/// value is the rendered number.
pub proof fn lemma_dec_u32(n: int)
    requires
        n >= 0,
    ensures
        dec_u32(n).len() >= 1,
        all_digits(dec_u32(n)),
        digits_val(dec_u32(n)) == n,
    decreases n,
{
    if n < 10 {
        lemma_digit_char_val(n);
        let s = dec_u32(n);
        assert(s.drop_last() =~= Seq::<char>::empty());
        assert(digits_val(Seq::<char>::empty()) == 0);
        assert(s.last() == digit_char(n));
        assert(digits_val(s) == digits_val(s.drop_last()) * 10 + digit_val(s.last()));
    } else {
        lemma_dec_u32(n / 10);
        lemma_digit_char_val(n % 10);
        let s = dec_u32(n);
        assert(s.drop_last() =~= dec_u32(n / 10));
        assert(s.last() == digit_char(n % 10));
        assert forall|i: int| 0 <= i < s.len() implies is_digit_char(#[trigger] s[i]) by {
            if i < s.len() - 1 {
                assert(s[i] == dec_u32(n / 10)[i]);
            }
        }
    }
}

/// On an all-digit string the first non-digit is the end.
pub proof fn lemma_first_nondigit_all(s: Seq<char>)
    requires
        all_digits(s),
    ensures
        first_nondigit(s) == s.len(),
    decreases s.len(),
{
    if s.len() > 0 {
        assert(all_digits(s.skip(1)));
        lemma_first_nondigit_all(s.skip(1));
    }
}

/// Parsing the canonical rendering of a `u32` gives the value back.
pub proof fn lemma_parse_dec_u32(n: int)
    requires
        0 <= n <= u32::MAX,
    ensures
        parse_u32_spec(dec_u32(n)) == Ok::<u32, IntErrorKind>(n as u32),
{
    lemma_dec_u32(n);
    lemma_first_nondigit_all(dec_u32(n));
    assert(digit_prefix(dec_u32(n)) =~= dec_u32(n));
}

/// Parsing the canonical rendering of an `i32` gives the value back.
pub proof fn lemma_parse_dec_i32(n: int)
    requires
        -2147483648 <= n <= 2147483647,
    ensures
        parse_i32_spec(dec_i32(n)) == Ok::<i32, IntErrorKind>(n as i32),
{
    if n < 0 {
        lemma_dec_u32(-n);
        let d = dec_u32(-n);
        let s = dec_i32(n);
        assert(s == seq!['-'] + d);
        assert(s.len() == 1 + d.len());
        assert(s[0] == '-');
        let t = s.skip(1);
        assert(t =~= d);
        lemma_first_nondigit_all(d);
        assert(first_nondigit(t) == t.len());
        assert(digit_prefix(t) =~= t);
        assert(digits_val(t) == -n);
        assert(!(digits_val(digit_prefix(t)) > 2147483648));
        assert(parse_i32_spec(s) == Ok::<i32, IntErrorKind>((0 - digits_val(t)) as i32));
        assert((0 - digits_val(t)) as i32 == n as i32);
    } else {
        lemma_dec_u32(n);
        let s = dec_u32(n);
        assert(dec_i32(n) == s);
        lemma_first_nondigit_all(s);
        assert(digit_prefix(s) =~= s);
        assert(digits_val(s) == n);
        assert(!is_digit_char('-'));
        assert(s[0] != '-');
        assert(!(digits_val(digit_prefix(s)) > 2147483647));
        assert(parse_i32_spec(s) == Ok::<i32, IntErrorKind>(digits_val(s) as i32));
        assert(digits_val(s) as i32 == n as i32);
    }
}

/// The digit suffix of a digit string extended from an ended-by-non-digit
/// prefix is exactly the extension.
pub proof fn lemma_digit_suffix_append(a: Seq<char>, d: Seq<char>)
    requires
        a.len() >= 1,
        !is_digit_char(a.last()),
        all_digits(d),
    ensures
        digit_suffix_len(a + d) == d.len(),
    decreases d.len(),
{
    if d.len() == 0 {
        assert(a + d =~= a);
    } else {
        assert((a + d).drop_last() =~= a + d.drop_last());
        assert((a + d).last() == d.last());
        assert(all_digits(d.drop_last()));
        lemma_digit_suffix_append(a, d.drop_last());
    }
}

/// The digit suffix of an all-digit string is the whole string.
pub proof fn lemma_digit_suffix_all(s: Seq<char>)
    requires
        all_digits(s),
    ensures
        digit_suffix_len(s) == s.len(),
    decreases s.len(),
{
    if s.len() > 0 {
        assert(all_digits(s.drop_last()));
        lemma_digit_suffix_all(s.drop_last());
    }
}

/// The characterization of `digit_suffix_len`: everything at or after the
/// split is a digit, and the character just before it (if any) is not.
pub proof fn lemma_digit_suffix(s: Seq<char>)
    ensures
        0 <= digit_suffix_len(s) <= s.len(),
        forall|i: int|
            s.len() - digit_suffix_len(s) <= i < s.len() ==> is_digit_char(#[trigger] s[i]),
        digit_suffix_len(s) < s.len() ==> !is_digit_char(s[s.len() - digit_suffix_len(s) - 1]),
    decreases s.len(),
{
    if s.len() > 0 && is_digit_char(s.last()) {
        lemma_digit_suffix(s.drop_last());
        let k = digit_suffix_len(s);
        assert forall|i: int| s.len() - k <= i < s.len() implies is_digit_char(#[trigger] s[i]) by {
            if i < s.len() - 1 {
                assert(s[i] == s.drop_last()[i]);
            }
        }
        if k < s.len() {
            assert(s[s.len() - k - 1] == s.drop_last()[s.len() - k - 1]);
        }
    }
}

/// Whether `c` is an ASCII decimal digit.
pub fn is_ascii_digit_char(c: char) -> (b: bool)
    ensures
        b == is_digit_char(c),
{
    let u: u32 = c as u32;
    48 <= u && u <= 57
}

/// Parses `value` as a `u32`: a nonempty run of decimal digits, no sign.
pub(crate) fn parse_u32_str(value: &str) -> (r: Result<u32, IntErrorKind>)
    ensures
        r == parse_u32_spec(value@),
{
    let n = value.unicode_len();
    if n == 0 {
        return Err(IntErrorKind::Empty);
    }
    let mut acc: u64 = 0;
    let mut i: usize = 0;
    proof {
        lemma_first_nondigit(value@);
    }
    while i < n
        invariant
            0 < n == value@.len(),
            0 <= i <= n,
            forall|j: int| 0 <= j < i ==> is_digit_char(#[trigger] value@[j]),
            acc == digits_val(value@.take(i as int)),
            acc <= u32::MAX,
        decreases n - i,
    {
        let c = value.get_char(i);
        if !is_ascii_digit_char(c) {
            proof {
                // The scan stops here, so this is the first non-digit and the
                // digit prefix is what was accumulated, which is in bounds.
                lemma_first_nondigit(value@);
                if first_nondigit(value@) < i {
                    assert(is_digit_char(value@[first_nondigit(value@)]));
                }
                if first_nondigit(value@) > i {
                    assert(is_digit_char(value@[i as int]));
                }
                assert(first_nondigit(value@) == i);
            }
            return Err(IntErrorKind::InvalidDigit);
        }
        let d: u32 = (c as u32) - 48;
        let next: u64 = acc * 10 + d as u64;
        proof {
            let p = value@.take(i + 1);
            assert(p.drop_last() =~= value@.take(i as int));
            assert(p.last() == value@[i as int]);
            assert(digits_val(p) == next);
        }
        if next > u32::MAX as u64 {
            proof {
                // Overflow at this digit implies the whole digit prefix
                // overflows, since extending a numeral never shrinks it.
                lemma_first_nondigit(value@);
                let fnd = first_nondigit(value@);
                if fnd <= i {
                    assert(is_digit_char(value@[fnd]));
                }
                let p = digit_prefix(value@);
                assert(all_digits(p)) by {
                    assert(forall|j: int|
                        0 <= j < p.len() ==> is_digit_char(#[trigger] value@[j]));
                }
                assert(p.take(i + 1) =~= value@.take(i + 1));
                lemma_digits_val_prefix_le(p, i + 1);
            }
            return Err(IntErrorKind::PosOverflow);
        }
        acc = next;
        i += 1;
    }
    proof {
        assert(value@.take(n as int) =~= value@);
        lemma_first_nondigit_all(value@);
        assert(digit_prefix(value@) =~= value@);
    }
    Ok(acc as u32)
}

/// Parses `value` as an `i32`: an optional leading `-` followed by a
/// nonempty run of decimal digits; no leading `+`.
pub(crate) fn parse_i32_str(value: &str) -> (r: Result<i32, IntErrorKind>)
    ensures
        r == parse_i32_spec(value@),
{
    let n = value.unicode_len();
    if n == 0 {
        return Err(IntErrorKind::Empty);
    }
    let neg = value.get_char(0) == '-';
    let start: usize = if neg { 1 } else { 0 };
    let ghost t: Seq<char> = value@.skip(start as int);
    proof {
        if !neg {
            assert(t =~= value@);
        }
        assert(t.take(0) =~= Seq::<char>::empty());
    }
    if neg && n == 1 {
        return Err(IntErrorKind::InvalidDigit);
    }
    let bound: u64 = if neg { 2147483648 } else { 2147483647 };
    let mut acc: u64 = 0;
    let mut i: usize = start;
    while i < n
        invariant
            0 < n == value@.len(),
            start <= i <= n,
            start == if neg { 1int } else { 0int },
            neg ==> value@[0] == '-',
            !neg ==> value@[0] != '-',
            n > start,
            t == value@.skip(start as int),
            !neg ==> t == value@,
            bound == if neg { 2147483648int } else { 2147483647int },
            forall|j: int| 0 <= j < i - start ==> is_digit_char(#[trigger] t[j]),
            acc == digits_val(t.take(i - start)),
            acc <= bound,
        decreases n - i,
    {
        let c = value.get_char(i);
        proof {
            assert(t[i - start] == value@[i as int]);
        }
        if !is_ascii_digit_char(c) {
            proof {
                lemma_first_nondigit(t);
                if first_nondigit(t) < i - start {
                    assert(is_digit_char(t[first_nondigit(t)]));
                }
                if first_nondigit(t) > i - start {
                    assert(is_digit_char(t[i - start]));
                }
                assert(first_nondigit(t) == i - start);
                lemma_digits_val_prefix_le_helper(t, i - start);
            }
            return Err(IntErrorKind::InvalidDigit);
        }
        let d: u32 = (c as u32) - 48;
        let next: u64 = acc * 10 + d as u64;
        proof {
            let p = t.take(i - start + 1);
            assert(p.drop_last() =~= t.take(i - start));
            assert(p.last() == t[i - start]);
            assert(digits_val(p) == next);
        }
        if next > bound {
            proof {
                lemma_first_nondigit(t);
                let fnd = first_nondigit(t);
                if fnd <= i - start {
                    assert(is_digit_char(t[fnd]));
                }
                let p = digit_prefix(t);
                assert(all_digits(p)) by {
                    assert(forall|j: int| 0 <= j < p.len() ==> is_digit_char(#[trigger] t[j]));
                }
                assert(p.take(i - start + 1) =~= t.take(i - start + 1));
                lemma_digits_val_prefix_le(p, i - start + 1);
            }
            return Err(if neg {
                IntErrorKind::NegOverflow
            } else {
                IntErrorKind::PosOverflow
            });
        }
        acc = next;
        i += 1;
    }
    proof {
        assert(t.take(n - start) =~= t);
        lemma_first_nondigit_all(t);
        assert(digit_prefix(t) =~= t);
    }
    if neg {
        if acc == 2147483648 {
            Ok(i32::MIN)
        } else {
            Ok(-(acc as i32))
        }
    } else {
        Ok(acc as i32)
    }
}

/// The digit prefix's value bounds the accumulated value when the scan stops
/// at a non-digit: the prefix is exactly what was scanned.
proof fn lemma_digits_val_prefix_le_helper(t: Seq<char>, k: int)
    requires
        0 <= k <= t.len(),
        first_nondigit(t) == k,
    ensures
        digit_prefix(t) == t.take(k),
{
}

/// The one-character string holding the digit for `d`.
fn digit_str(d: u32) -> (r: &'static str)
    requires
        d < 10,
    ensures
        r@ =~= seq![digit_char(d as int)],
{
    if d == 0 {
        proof {
            reveal_strlit("0");
        }
        "0"
    } else if d == 1 {
        proof {
            reveal_strlit("1");
        }
        "1"
    } else if d == 2 {
        proof {
            reveal_strlit("2");
        }
        "2"
    } else if d == 3 {
        proof {
            reveal_strlit("3");
        }
        "3"
    } else if d == 4 {
        proof {
            reveal_strlit("4");
        }
        "4"
    } else if d == 5 {
        proof {
            reveal_strlit("5");
        }
        "5"
    } else if d == 6 {
        proof {
            reveal_strlit("6");
        }
        "6"
    } else if d == 7 {
        proof {
            reveal_strlit("7");
        }
        "7"
    } else if d == 8 {
        proof {
            reveal_strlit("8");
        }
        "8"
    } else {
        proof {
            reveal_strlit("9");
        }
        "9"
    }
}

/// Appends the canonical decimal rendering of `v` to `s`.
pub(crate) fn push_dec_u32(s: &mut String, v: u32)
    ensures
        final(s)@ == old(s)@ + dec_u32(v as int),
    decreases v,
{
    if v >= 10 {
        push_dec_u32(s, v / 10);
    }
    s.append(digit_str(v % 10));
    proof {
        if v >= 10 {
            assert(old(s)@ + dec_u32((v / 10) as int) + seq![digit_char((v % 10) as int)]
                =~= old(s)@ + dec_u32(v as int));
        } else {
            assert(old(s)@ + seq![digit_char((v % 10) as int)] =~= old(s)@ + dec_u32(v as int));
        }
    }
}

/// Appends the canonical decimal rendering of `v` to `s`, with a leading
/// `-` when `v` is negative.
pub(crate) fn push_dec_i32(s: &mut String, v: i32)
    ensures
        final(s)@ == old(s)@ + dec_i32(v as int),
{
    if v < 0 {
        s.append("-");
        let m: u32 = (0i64 - (v as i64)) as u32;
        push_dec_u32(s, m);
        proof {
            reveal_strlit("-");
            assert("-"@ =~= seq!['-']);
            assert(old(s)@ + "-"@ + dec_u32(m as int) =~= old(s)@ + dec_i32(v as int));
        }
    } else {
        push_dec_u32(s, v as u32);
    }
}

} // verus!
