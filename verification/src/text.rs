//! Verified text utilities: equality, prefix and lexicographic tests on
//! strings, decimal rendering of integers, and decimal parsing.
//!
//! Timestamps in this crate are RFC 3339 strings in one zero-padded UTC form,
//! so their lexicographic order agrees with chronological order; the sorts in
//! the aggregation code rely on the order defined here.

use vstd::prelude::*;
use vstd::string::StrSliceExecFns;
use vstd::string::StringExecFns;

verus! {

/// Strict lexicographic order on character sequences, by code point.
pub open spec fn lex_lt(a: Seq<char>, b: Seq<char>) -> bool
    decreases a.len(),
{
    if b.len() == 0 {
        false
    } else if a.len() == 0 {
        true
    } else if a[0] != b[0] {
        (a[0] as u32) < (b[0] as u32)
    } else {
        lex_lt(a.drop_first(), b.drop_first())
    }
}

/// Test two string slices for equality of their character sequences.
pub fn str_eq(a: &str, b: &str) -> (r: bool)
    ensures
        r == (a@ == b@),
{
    let alen = a.unicode_len();
    let blen = b.unicode_len();
    if alen != blen {
        assert(a@ != b@) by {
            assert(a@.len() != b@.len());
        }
        return false;
    }
    let mut i: usize = 0;
    while i < alen
        invariant
            alen == a@.len(),
            blen == b@.len(),
            alen == blen,
            i <= alen,
            forall|k: int| 0 <= k < i ==> a@[k] == b@[k],
        decreases alen - i,
    {
        if a.get_char(i) != b.get_char(i) {
            return false;
        }
        i += 1;
    }
    proof {
        assert(a@ =~= b@);
    }
    true
}

/// Whether `p` is a prefix of `a`.
pub fn str_starts_with(a: &str, p: &str) -> (r: bool)
    ensures
        r == p@.is_prefix_of(a@),
{
    let alen = a.unicode_len();
    let plen = p.unicode_len();
    if plen > alen {
        return false;
    }
    let mut i: usize = 0;
    while i < plen
        invariant
            alen == a@.len(),
            plen == p@.len(),
            plen <= alen,
            i <= plen,
            forall|k: int| 0 <= k < i ==> a@[k] == p@[k],
        decreases plen - i,
    {
        if a.get_char(i) != p.get_char(i) {
            assert(!p@.is_prefix_of(a@)) by {
                assert(a@.subrange(0, plen as int)[i as int] != p@[i as int]);
            }
            return false;
        }
        i += 1;
    }
    proof {
        assert(p@ =~= a@.subrange(0, plen as int));
    }
    true
}

/// Decide `lex_lt(a@, b@)` on string slices.
pub fn str_lex_lt(a: &str, b: &str) -> (r: bool)
    ensures
        r == lex_lt(a@, b@),
{
    let alen = a.unicode_len();
    let blen = b.unicode_len();
    let mut i: usize = 0;
    proof {
        assert(a@.skip(0) =~= a@);
        assert(b@.skip(0) =~= b@);
    }
    loop
        invariant
            alen == a@.len(),
            blen == b@.len(),
            i <= alen,
            i <= blen,
            lex_lt(a@, b@) == lex_lt(a@.skip(i as int), b@.skip(i as int)),
        decreases alen - i,
    {
        if i >= blen {
            assert(b@.skip(i as int).len() == 0);
            return false;
        }
        if i >= alen {
            assert(a@.skip(i as int).len() == 0 && b@.skip(i as int).len() > 0);
            return true;
        }
        let ca = a.get_char(i);
        let cb = b.get_char(i);
        proof {
            assert(a@.skip(i as int)[0] == ca && b@.skip(i as int)[0] == cb);
        }
        if ca != cb {
            return (ca as u32) < (cb as u32);
        }
        proof {
            assert(a@.skip(i as int).drop_first() =~= a@.skip(i + 1));
            assert(b@.skip(i as int).drop_first() =~= b@.skip(i + 1));
        }
        i += 1;
    }
}

/// The decimal digit character for `d` (0 through 9).
pub open spec fn dec_digit(d: int) -> char {
    if d == 0 {
        '0'
    } else if d == 1 {
        '1'
    } else if d == 2 {
        '2'
    } else if d == 3 {
        '3'
    } else if d == 4 {
        '4'
    } else if d == 5 {
        '5'
    } else if d == 6 {
        '6'
    } else if d == 7 {
        '7'
    } else if d == 8 {
        '8'
    } else {
        '9'
    }
}

/// Decimal digit string of a non-negative integer, no sign and no padding.
pub open spec fn dec_seq(n: int) -> Seq<char>
    recommends
        n >= 0,
    decreases n,
{
    if n < 10 {
        seq![dec_digit(n)]
    } else {
        dec_seq(n / 10).push(dec_digit(n % 10))
    }
}

/// Decimal string of an integer: a `-` sign for negatives, then digits.
pub open spec fn int_seq(n: int) -> Seq<char> {
    if n < 0 {
        seq!['-'] + dec_seq(-n)
    } else {
        dec_seq(n)
    }
}

/// The one-character string for decimal digit `d`.
fn digit_str(d: u64) -> (r: &'static str)
    requires
        d < 10,
    ensures
        r@ == seq![dec_digit(d as int)],
{
    proof {
        reveal_strlit("0");
        reveal_strlit("1");
        reveal_strlit("2");
        reveal_strlit("3");
        reveal_strlit("4");
        reveal_strlit("5");
        reveal_strlit("6");
        reveal_strlit("7");
        reveal_strlit("8");
        reveal_strlit("9");
    }
    if d == 0 {
        "0"
    } else if d == 1 {
        "1"
    } else if d == 2 {
        "2"
    } else if d == 3 {
        "3"
    } else if d == 4 {
        "4"
    } else if d == 5 {
        "5"
    } else if d == 6 {
        "6"
    } else if d == 7 {
        "7"
    } else if d == 8 {
        "8"
    } else {
        "9"
    }
}

/// Append the decimal digits of `n` to `s`.
fn push_dec_u64(s: &mut String, n: u64)
    ensures
        final(s)@ == old(s)@ + dec_seq(n as int),
    decreases n,
{
    if n >= 10 {
        push_dec_u64(s, n / 10);
    }
    s.append(digit_str(n % 10));
    proof {
        if n >= 10 {
            assert(old(s)@ + dec_seq(n as int) =~= (old(s)@ + dec_seq(n as int / 10)) + seq![
                dec_digit(n as int % 10),
            ]);
        } else {
            assert(old(s)@ + dec_seq(n as int) =~= old(s)@ + seq![dec_digit(n as int)]);
        }
    }
}

/// Append the decimal digits of a count to `s`.
pub fn push_dec_usize(s: &mut String, n: usize)
    ensures
        final(s)@ == old(s)@ + dec_seq(n as int),
{
    push_dec_u64(s, n as u64);
}

/// Render a signed integer in decimal.
pub fn i64_to_string(n: i64) -> (r: String)
    ensures
        r@ == int_seq(n as int),
{
    let mut s = String::new();
    if n >= 0 {
        push_dec_u64(&mut s, n as u64);
        proof {
            assert(s@ =~= int_seq(n as int));
        }
    } else {
        s.append("-");
        let m: u64 = ((-(n + 1)) as u64) + 1;
        assert(m as int == -(n as int));
        push_dec_u64(&mut s, m);
        proof {
            reveal_strlit("-");
            assert(s@ =~= int_seq(n as int));
        }
    }
    s
}

/// Render a 32-bit signed integer in decimal.
pub fn i32_to_string(n: i32) -> (r: String)
    ensures
        r@ == int_seq(n as int),
{
    i64_to_string(n as i64)
}

/// Whether `c` is a decimal digit.
pub open spec fn is_dec_digit(c: char) -> bool {
    48 <= (c as u32) <= 57
}

/// The numeric value of a digit character.
pub open spec fn digit_val(c: char) -> int {
    (c as u32) - 48
}

/// Whether every character of `s` is a decimal digit.
pub open spec fn all_digits(s: Seq<char>) -> bool {
    forall|i: int| 0 <= i < s.len() ==> is_dec_digit(#[trigger] s[i])
}

/// The integer value of a non-empty digit string, most significant first.
pub open spec fn digits_val(s: Seq<char>) -> int
    decreases s.len(),
{
    if s.len() == 0 {
        0
    } else {
        digits_val(s.drop_last()) * 10 + digit_val(s.last())
    }
}

/// The value of a decimal integer literal: an optional `+` or `-` sign
/// followed by at least one digit, within the range of `i64`. Anything
/// else is `None`.
pub open spec fn int_of_dec(s: Seq<char>) -> Option<i64> {
    let neg = s.len() > 0 && s[0] == '-';
    let ds = if s.len() > 0 && (s[0] == '-' || s[0] == '+') {
        s.drop_first()
    } else {
        s
    };
    if ds.len() == 0 || !all_digits(ds) {
        None
    } else {
        let v = if neg {
            -digits_val(ds)
        } else {
            digits_val(ds)
        };
        if i64::MIN <= v <= i64::MAX {
            Some(v as i64)
        } else {
            None
        }
    }
}

/// A digit string's value does not decrease when digits are appended.
proof fn lemma_digits_val_bounds(s: Seq<char>)
    requires
        all_digits(s),
    ensures
        digits_val(s) >= 0,
        s.len() > 0 ==> digits_val(s) >= digits_val(s.drop_last()),
    decreases s.len(),
{
    if s.len() > 0 {
        assert(all_digits(s.drop_last())) by {
            assert(forall|i: int|
                0 <= i < s.len() - 1 ==> #[trigger] s.drop_last()[i] == s[i]);
        }
        lemma_digits_val_bounds(s.drop_last());
        assert(digit_val(s.last()) >= 0);
    }
}

/// A prefix of a digit string never exceeds the whole string's value.
proof fn lemma_digits_val_prefix(s: Seq<char>, i: int)
    requires
        all_digits(s),
        0 <= i <= s.len(),
    ensures
        digits_val(s.take(i)) <= digits_val(s),
        digits_val(s.take(i)) >= 0,
    decreases s.len() - i,
{
    assert(all_digits(s.take(i))) by {
        assert(forall|k: int| 0 <= k < i ==> #[trigger] s.take(i)[k] == s[k]);
    }
    lemma_digits_val_bounds(s.take(i));
    if i < s.len() {
        lemma_digits_val_prefix(s, i + 1);
        assert(s.take(i + 1).drop_last() =~= s.take(i));
        assert(digits_val(s.take(i)) * 10 + digit_val(s.take(i + 1).last()) == digits_val(
            s.take(i + 1),
        ));
    } else {
        assert(s.take(i) =~= s);
    }
}

/// Parse a decimal integer: an optional sign and at least one digit,
/// rejecting values outside the range of `i64` and any other text.
#[verifier::loop_isolation(false)]
pub fn parse_i64(s: &str) -> (r: Option<i64>)
    ensures
        r == int_of_dec(s@),
{
    let len = s.unicode_len();
    if len == 0 {
        return None;
    }
    let first = s.get_char(0);
    let neg = first == '-';
    let mut i: usize = if first == '-' || first == '+' {
        1
    } else {
        0
    };
    let ghost start = i as int;
    if i >= len {
        return None;
    }
    let ghost ds = s@.skip(start);
    proof {
        if start == 1 {
            assert(ds =~= s@.drop_first());
        } else {
            assert(ds =~= s@);
        }
    }
    assert(ds.len() > 0);
    let mut acc: u128 = 0;
    while i < len
        invariant
            len == s@.len(),
            0 <= start <= i <= len,
            0 < start + ds.len() == len,
            ds == s@.skip(start),
            all_digits(ds.take(i - start)),
            acc == digits_val(ds.take(i - start)),
            acc <= 0x8000_0000_0000_0000u128,
        decreases len - i,
    {
        let c = s.get_char(i);
        let cv = c as u32;
        proof {
            assert(s@.subrange(start, s@.len() as int)[i - start] == s@[i as int]);
            assert(ds[i - start] == c);
        }
        if cv < 48 || cv > 57 {
            assert(!all_digits(ds));
            return None;
        }
        let d = (cv - 48) as u128;
        let next = acc * 10 + d;
        proof {
            assert(ds.take(i - start + 1).drop_last() =~= ds.take(i - start));
            assert(ds.take(i - start + 1).last() == c);
        }
        if next > 0x8000_0000_0000_0000u128 {
            proof {
                lemma_digits_val_bounds(ds.take(i - start + 1));
                lemma_digits_val_prefix_chain(ds, i - start + 1);
                assert(ds.take(ds.len() as int) =~= ds);
                if all_digits(ds) {
                    assert(digits_val(ds) >= digits_val(ds.take(i - start + 1)));
                    assert(digits_val(ds) > 0x8000_0000_0000_0000);
                }
            }
            return None;
        }
        acc = next;
        i += 1;
    }
    proof {
        assert(ds.take(ds.len() as int) =~= ds);
    }
    if neg {
        if acc > 0x8000_0000_0000_0000u128 {
            return None;
        }
        if acc == 0x8000_0000_0000_0000u128 {
            return Some(i64::MIN);
        }
        return Some(-((acc as i64)));
    }
    if acc > 0x7FFF_FFFF_FFFF_FFFFu128 {
        return None;
    }
    Some(acc as i64)
}

/// Helper for `parse_i64`: if the whole string is digits, its value is at
/// least the value of any prefix.
proof fn lemma_digits_val_prefix_chain(s: Seq<char>, i: int)
    requires
        0 <= i <= s.len(),
    ensures
        all_digits(s) ==> digits_val(s) >= digits_val(s.take(i)),
{
    if all_digits(s) {
        lemma_digits_val_prefix(s, i);
    }
}

} // verus!
