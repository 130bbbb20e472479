//! Decimal reading and writing of the integer fields that appear in protocol
//! lines, with the exact grammar used on the wire: an optional sign, then
//! decimal digits, rejected on overflow.

use vstd::prelude::*;

use crate::is_space_c;
use crate::token::is_tok;

verus! {

/// An ASCII decimal digit.
pub open spec fn is_digit_c(c: char) -> bool {
    '0' <= c && c <= '9'
}

/// The numeric value of a decimal digit.
pub open spec fn digit_val(c: char) -> int {
    c as int - '0' as int
}

/// The digit character for a value below ten.
pub open spec fn digit_char(d: int) -> char {
    if d == 0 {
        '0'
    } else if d == 1 {
        '1'
    } else if d == 2 {
        '2'
    } else if d == 3 {
        '3'
    } else if d == 4 {
        '4'
    } else if d == 5 {
        '5'
    } else if d == 6 {
        '6'
    } else if d == 7 {
        '7'
    } else if d == 8 {
        '8'
    } else {
        '9'
    }
}

/// A non-empty string of decimal digits.
pub open spec fn all_digits(s: Seq<char>) -> bool {
    s.len() > 0 && (forall|i: int| 0 <= i < s.len() ==> is_digit_c(#[trigger] s[i]))
}

/// The value of a digit string, most significant digit first.
pub open spec fn dec_val(s: Seq<char>) -> int
    decreases s.len(),
{
    if s.len() == 0 {
        0
    } else {
        dec_val(s.drop_last()) * 10 + digit_val(s.last())
    }
}

/// The canonical decimal writing of a non-negative value: no sign, no leading
/// zeros (except for the value zero itself).
pub open spec fn spec_dec_u64(n: int) -> Seq<char>
    decreases n,
{
    if n < 10 {
        seq![digit_char(n)]
    } else {
        spec_dec_u64(n / 10) + seq![digit_char(n % 10)]
    }
}

/// The canonical decimal writing of a signed value.
pub open spec fn spec_dec_i64(n: int) -> Seq<char> {
    if n < 0 {
        seq!['-'] + spec_dec_u64(-n)
    } else {
        spec_dec_u64(n)
    }
}

/// What reading an unsigned decimal accepts: an optional leading `+`, then
/// digits, with the value in range.
pub open spec fn spec_parse_u64(s: Seq<char>) -> Option<u64> {
    let d = if s.len() > 0 && s[0] == '+' {
        s.skip(1)
    } else {
        s
    };
    if all_digits(d) && dec_val(d) <= u64::MAX {
        Some(dec_val(d) as u64)
    } else {
        None
    }
}

/// What reading a signed decimal accepts: an optional `+` or `-`, then
/// digits, with the value in range.
pub open spec fn spec_parse_i64(s: Seq<char>) -> Option<i64> {
    if s.len() > 0 && s[0] == '-' {
        let d = s.skip(1);
        if all_digits(d) && -dec_val(d) >= i64::MIN {
            Some((-dec_val(d)) as i64)
        } else {
            None
        }
    } else {
        let d = if s.len() > 0 && s[0] == '+' {
            s.skip(1)
        } else {
            s
        };
        if all_digits(d) && dec_val(d) <= i64::MAX {
            Some(dec_val(d) as i64)
        } else {
            None
        }
    }
}

/// `u32` reading: the `u64` grammar with the tighter bound.
pub open spec fn spec_parse_u32(s: Seq<char>) -> Option<u32> {
    match spec_parse_u64(s) {
        Some(n) => if n <= u32::MAX as u64 {
            Some(n as u32)
        } else {
            None
        },
        None => {
            None
        },
    }
}

/// `i32` reading: the `i64` grammar with the tighter bounds.
pub open spec fn spec_parse_i32(s: Seq<char>) -> Option<i32> {
    match spec_parse_i64(s) {
        Some(n) => if i32::MIN as i64 <= n <= i32::MAX as i64 {
            Some(n as i32)
        } else {
            None
        },
        None => {
            None
        },
    }
}

/// The value of a digit string is non-negative.
pub proof fn lemma_dec_val_nonneg(s: Seq<char>)
    requires
        forall|i: int| 0 <= i < s.len() ==> is_digit_c(#[trigger] s[i]),
    ensures
        dec_val(s) >= 0,
    decreases s.len(),
{
    if s.len() > 0 {
        lemma_dec_val_nonneg(s.drop_last());
    }
}

/// Extending a digit string never lowers its value.
pub proof fn lemma_dec_val_prefix(s: Seq<char>, i: int)
    requires
        forall|x: int| 0 <= x < s.len() ==> is_digit_c(#[trigger] s[x]),
        0 <= i <= s.len(),
    ensures
        dec_val(s) >= dec_val(s.take(i)),
    decreases s.len() - i,
{
    if i < s.len() {
        lemma_dec_val_prefix(s, i + 1);
        let p = s.take(i + 1);
        assert(p.drop_last() =~= s.take(i));
        lemma_dec_val_nonneg(s.take(i));
        assert(dec_val(p) == dec_val(s.take(i)) * 10 + digit_val(p.last()));
    } else {
        assert(s.take(i) =~= s);
    }
}

/// The canonical decimal writing consists of digits, starts with no sign, and
/// reads back to the written value.
pub proof fn lemma_dec_roundtrip(n: int)
    requires
        0 <= n,
    ensures
        all_digits(spec_dec_u64(n)),
        dec_val(spec_dec_u64(n)) == n,
    decreases n,
{
    if n < 10 {
        let s = seq![digit_char(n)];
        assert(s.drop_last() =~= Seq::<char>::empty());
        assert(s.last() == digit_char(n));
        assert(dec_val(Seq::<char>::empty()) == 0);
        assert(dec_val(s) == digit_val(digit_char(n)));
    } else {
        lemma_dec_roundtrip(n / 10);
        let s = spec_dec_u64(n);
        let p = spec_dec_u64(n / 10);
        assert(s =~= p + seq![digit_char(n % 10)]);
        assert(s.drop_last() =~= p);
        assert(s.last() == digit_char(n % 10));
        assert(dec_val(s) == dec_val(p) * 10 + digit_val(digit_char(n % 10)));
        assert(digit_val(digit_char(n % 10)) == n % 10);
        assert(dec_val(p) * 10 + n % 10 == n);
    }
}

/// Digit strings and sign-prefixed digit strings are valid tokens.
pub proof fn lemma_dec_is_tok(n: int)
    requires
        0 <= n,
    ensures
        is_tok(spec_dec_u64(n)),
        spec_dec_u64(n)[0] != '+',
        spec_dec_u64(n)[0] != '-',
    decreases n,
{
    lemma_dec_roundtrip(n);
    let s = spec_dec_u64(n);
    assert(forall|i: int| 0 <= i < s.len() ==> !is_space_c(#[trigger] s[i]));
    if n >= 10 {
        lemma_dec_is_tok(n / 10);
        assert(s[0] == spec_dec_u64(n / 10)[0]);
    }
}

/// Writing then reading an unsigned value recovers it.
pub proof fn lemma_u64_roundtrip(n: u64)
    ensures
        spec_parse_u64(spec_dec_u64(n as int)) == Some(n),
        is_tok(spec_dec_u64(n as int)),
{
    lemma_dec_roundtrip(n as int);
    lemma_dec_is_tok(n as int);
}

/// Writing then reading a signed value recovers it.
pub proof fn lemma_i64_roundtrip(n: i64)
    ensures
        spec_parse_i64(spec_dec_i64(n as int)) == Some(n),
        is_tok(spec_dec_i64(n as int)),
{
    if n >= 0 {
        lemma_dec_roundtrip(n as int);
        lemma_dec_is_tok(n as int);
    } else {
        lemma_dec_roundtrip(-n as int);
        lemma_dec_is_tok(-n as int);
        let s = spec_dec_i64(n as int);
        let d = spec_dec_u64(-n as int);
        assert(s == seq!['-'] + d);
        assert(s.skip(1) =~= d);
        assert(forall|i: int| 0 <= i < s.len() ==> !is_space_c(#[trigger] s[i])) by {
            assert(forall|i: int| 1 <= i < s.len() ==> s[i] == d[i - 1]);
        }
    }
}

/// Converts a digit character to its value.
fn digit_of(c: char) -> (r: u64)
    requires
        is_digit_c(c),
    ensures
        r == digit_val(c),
        r < 10,
{
    (c as u32 - '0' as u32) as u64
}

/// The digit character of a value below ten, as a string.
fn digit_str(d: u64) -> (r: &'static str)
    requires
        d < 10,
    ensures
        r@ == seq![digit_char(d as int)],
{
    proof {
        reveal_strlit("0");
        reveal_strlit("1");
        reveal_strlit("2");
        reveal_strlit("3");
        reveal_strlit("4");
        reveal_strlit("5");
        reveal_strlit("6");
        reveal_strlit("7");
        reveal_strlit("8");
        reveal_strlit("9");
    }
    let r = if d == 0 {
        "0"
    } else if d == 1 {
        "1"
    } else if d == 2 {
        "2"
    } else if d == 3 {
        "3"
    } else if d == 4 {
        "4"
    } else if d == 5 {
        "5"
    } else if d == 6 {
        "6"
    } else if d == 7 {
        "7"
    } else if d == 8 {
        "8"
    } else {
        "9"
    };
    proof {
        assert(r@ =~= seq![digit_char(d as int)]);
    }
    r
}

/// Writes an unsigned value in decimal.
pub fn fmt_u64(n: u64) -> (r: String)
    ensures
        r@ == spec_dec_u64(n as int),
    decreases n,
{
    if n < 10 {
        digit_str(n).to_owned()
    } else {
        let mut s = fmt_u64(n / 10);
        s.append(digit_str(n % 10));
        s
    }
}

/// Writes a signed value in decimal.
pub fn fmt_i64(n: i64) -> (r: String)
    ensures
        r@ == spec_dec_i64(n as int),
{
    if n >= 0 {
        fmt_u64(n as u64)
    } else {
        // magnitude computed without overflowing `i64::MIN`
        let mag: u64 = ((-(n + 1)) as u64) + 1;
        let mut s = String::new();
        s.append("-");
        let d = fmt_u64(mag);
        s.append(d.as_str());
        proof {
            reveal_strlit("-");
            assert(s@ =~= seq!['-'] + spec_dec_u64(-n as int));
        }
        s
    }
}

/// Reads the digits of `s` starting at `from`, accumulating their value;
/// `None` on a non-digit, an empty run, or overflow past `u64::MAX`.
fn read_digits(s: &str, from: usize) -> (r: Option<u64>)
    requires
        from <= s@.len(),
    ensures
        match r {
            Some(n) => all_digits(s@.skip(from as int)) && dec_val(s@.skip(from as int)) == n,
            None => !(all_digits(s@.skip(from as int)) && dec_val(s@.skip(from as int))
                <= u64::MAX),
        },
{
    let ghost d = s@.skip(from as int);
    let n = s.unicode_len();
    if from == n {
        return None;
    }
    let mut acc: u64 = 0;
    let mut i = from;
    while i < n
        invariant
            n == s@.len(),
            from <= i <= n,
            d == s@.skip(from as int),
            d.len() == n - from,
            forall|x: int| 0 <= x < i - from ==> is_digit_c(#[trigger] d[x]),
            acc == dec_val(d.take(i - from)),
        decreases n - i,
    {
        let c = s.get_char(i);
        proof {
            assert(d[i - from] == s@[i as int]);
        }
        if !('0' <= c && c <= '9') {
            proof {
                assert(!all_digits(d));
            }
            return None;
        }
        let dv = digit_of(c);
        proof {
            assert(d.take(i - from + 1).drop_last() =~= d.take(i - from));
            assert(d.take(i - from + 1).last() == c);
        }
        if acc > u64::MAX / 10 {
            proof {
                lemma_dec_val_nonneg(d.take(i - from + 1));
                assert(dec_val(d.take(i - from + 1)) > u64::MAX);
                if all_digits(d) {
                    lemma_dec_val_prefix(d, i - from + 1);
                }
            }
            return None;
        }
        let t = acc * 10;
        if dv > u64::MAX - t {
            proof {
                assert(dec_val(d.take(i - from + 1)) > u64::MAX);
                if all_digits(d) {
                    lemma_dec_val_prefix(d, i - from + 1);
                }
            }
            return None;
        }
        acc = t + dv;
        i += 1;
    }
    proof {
        assert(d.take(n - from) =~= d);
    }
    Some(acc)
}

/// Reads an unsigned decimal as the wire grammar allows it: optional `+`,
/// then digits, rejected on overflow.
pub fn parse_u64(s: &str) -> (r: Option<u64>)
    ensures
        r == spec_parse_u64(s@),
{
    let n = s.unicode_len();
    if n > 0 && s.get_char(0) == '+' {
        read_digits(s, 1)
    } else {
        proof {
            assert(s@.skip(0) =~= s@);
        }
        read_digits(s, 0)
    }
}

/// Reads a signed decimal as the wire grammar allows it: optional `+` or `-`,
/// then digits, rejected on overflow.
pub fn parse_i64(s: &str) -> (r: Option<i64>)
    ensures
        r == spec_parse_i64(s@),
{
    let n = s.unicode_len();
    if n > 0 && s.get_char(0) == '-' {
        match read_digits(s, 1) {
            Some(mag) => {
                if mag <= 9223372036854775808u64 {
                    // negate through `i64::MIN`'s magnitude without overflow
                    let r: i64 = if mag == 9223372036854775808u64 {
                        i64::MIN
                    } else {
                        -(mag as i64)
                    };
                    Some(r)
                } else {
                    None
                }
            },
            None => None,
        }
    } else if n > 0 && s.get_char(0) == '+' {
        match read_digits(s, 1) {
            Some(v) => if v <= i64::MAX as u64 {
                Some(v as i64)
            } else {
                None
            },
            None => None,
        }
    } else {
        proof {
            assert(s@.skip(0) =~= s@);
        }
        match read_digits(s, 0) {
            Some(v) => if v <= i64::MAX as u64 {
                Some(v as i64)
            } else {
                None
            },
            None => None,
        }
    }
}

/// Reads a `u32` decimal: the `u64` grammar with the tighter bound.
pub fn parse_u32(s: &str) -> (r: Option<u32>)
    ensures
        r == spec_parse_u32(s@),
{
    match parse_u64(s) {
        Some(n) => if n <= u32::MAX as u64 {
            Some(n as u32)
        } else {
            None
        },
        None => None,
    }
}

/// Reads an `i32` decimal: the `i64` grammar with the tighter bounds.
pub fn parse_i32(s: &str) -> (r: Option<i32>)
    ensures
        r == spec_parse_i32(s@),
{
    match parse_i64(s) {
        Some(n) => if i32::MIN as i64 <= n && n <= i32::MAX as i64 {
            Some(n as i32)
        } else {
            None
        },
        None => None,
    }
}

} // verus!
