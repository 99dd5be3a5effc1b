//! Decimal parsing and formatting for the integer identifiers that the
//! reference tables and the endpoint paths use.

use vstd::prelude::*;
use vstd::string::*;

verus! {

/// One decimal digit, as a character code.
pub open spec fn is_dec_digit(c: char) -> bool {
    48 <= c as int <= 57
}

/// Numeric value of one decimal digit character.
pub open spec fn digit_val(c: char) -> int {
    c as int - 48
}

pub open spec fn all_dec_digits(s: Seq<char>) -> bool {
    forall|i: int| 0 <= i < s.len() ==> is_dec_digit(#[trigger] s[i])
}

/// Value of a sequence of decimal digit characters, most significant first.
pub open spec fn dec_val(s: Seq<char>) -> int
    decreases s.len(),
{
    if s.len() == 0 {
        0
    } else {
        dec_val(s.drop_last()) * 10 + digit_val(s.last())
    }
}

proof fn lemma_dec_val_nonneg(s: Seq<char>)
    requires
        all_dec_digits(s),
    ensures
        dec_val(s) >= 0,
    decreases s.len(),
{
    if s.len() > 0 {
        assert(all_dec_digits(s.drop_last()));
        lemma_dec_val_nonneg(s.drop_last());
    }
}

/// Appending further digits never makes the value smaller.
proof fn lemma_dec_val_prefix_le(s: Seq<char>, k: int)
    requires
        all_dec_digits(s),
        0 <= k <= s.len(),
    ensures
        dec_val(s.subrange(0, k)) <= dec_val(s),
    decreases s.len() - k,
{
    if k == s.len() {
        assert(s.subrange(0, k) =~= s);
    } else {
        let p = s.subrange(0, k);
        let q = s.subrange(0, k + 1);
        assert(q.drop_last() =~= p);
        assert(all_dec_digits(p));
        lemma_dec_val_nonneg(p);
        assert(dec_val(q) == dec_val(p) * 10 + digit_val(s[k]));
        lemma_dec_val_prefix_le(s, k + 1);
    }
}

/// The digits (and optional sign) that `parse_i64` accepts, and the value it
/// yields: an optional `+` or `-`, then at least one decimal digit, the whole
/// value within the range of `i64`.
pub open spec fn parse_i64_spec(s: Seq<char>) -> Option<i64> {
    if s.len() > 0 && (s[0] == '-' || s[0] == '+') {
        parse_i64_body(s.subrange(1, s.len() as int), s[0] == '-')
    } else {
        parse_i64_body(s, false)
    }
}

pub open spec fn parse_i64_body(body: Seq<char>, neg: bool) -> Option<i64> {
    if body.len() == 0 || !all_dec_digits(body) {
        None
    } else if neg {
        if dec_val(body) <= 0x8000_0000_0000_0000 {
            Some((-dec_val(body)) as i64)
        } else {
            None
        }
    } else {
        if dec_val(body) <= 0x7fff_ffff_ffff_ffff {
            Some(dec_val(body) as i64)
        } else {
            None
        }
    }
}

/// Parse a decimal string into an `i64`, exactly as `parse_i64_spec` says.
pub fn parse_i64(s: &str) -> (r: Option<i64>)
    ensures
        r == parse_i64_spec(s@),
{
    let len = s.unicode_len();
    let mut start: usize = 0;
    let mut neg = false;
    if len > 0 {
        let c0 = s.get_char(0);
        if c0 == '-' {
            neg = true;
            start = 1;
        } else if c0 == '+' {
            start = 1;
        }
    }
    let ghost body = s@.subrange(start as int, s@.len() as int);
    proof {
        if start == 0 {
            assert(body =~= s@);
        }
    }
    if start >= len {
        assert(body.len() == 0);
        return None;
    }
    let mut acc: u64 = 0;
    let mut i: usize = start;
    while i < len
        invariant
            start <= i <= len,
            start < len,
            len == s@.len(),
            parse_i64_spec(s@) == parse_i64_body(body, neg),
            body == s@.subrange(start as int, s@.len() as int),
            all_dec_digits(body.subrange(0, i - start)),
            acc == dec_val(body.subrange(0, i - start)),
            acc <= 0x8000_0000_0000_0000u64,
        decreases len - i,
    {
        let c = s.get_char(i);
        let u = c as u32;
        proof {
            assert(body[i - start] == s@[i as int]);
        }
        if u < 48 || u > 57 {
            assert(!is_dec_digit(body[i - start]));
            assert(!all_dec_digits(body));
            return None;
        }
        let d: u64 = (u - 48) as u64;
        let t: u128 = acc as u128 * 10 + d as u128;
        proof {
            let p = body.subrange(0, i - start);
            let q = body.subrange(0, i + 1 - start);
            assert(q.drop_last() =~= p);
            assert(q.last() == body[i - start]);
            assert(dec_val(q) == t);
        }
        if t > 0x8000_0000_0000_0000u128 {
            // the value can only grow with more digits, so it is out of range
            // for either sign whatever follows
            proof {
                if all_dec_digits(body) {
                    lemma_dec_val_prefix_le(body, i + 1 - start);
                }
            }
            return None;
        }
        acc = t as u64;
        i += 1;
    }
    assert(body.subrange(0, i - start) =~= body);
    if neg {
        if acc == 0x8000_0000_0000_0000u64 {
            Some(i64::MIN)
        } else {
            Some(-(acc as i64))
        }
    } else {
        if acc > 0x7fff_ffff_ffff_ffffu64 {
            None
        } else {
            Some(acc as i64)
        }
    }
}

/// Character for one decimal digit value.
pub open spec fn dec_digit_char(d: int) -> char {
    ((48 + d) as u8) as char
}

/// Decimal representation of a nonnegative integer, no sign, no leading
/// zeros (a single `0` for zero).
pub open spec fn u64_dec_str(n: nat) -> Seq<char>
    decreases n,
{
    if n < 10 {
        seq![dec_digit_char(n as int)]
    } else {
        u64_dec_str(n / 10).push(dec_digit_char((n % 10) as int))
    }
}

/// Decimal representation of an integer: a leading `-` for negatives.
pub open spec fn i64_dec_str(n: int) -> Seq<char> {
    if n < 0 {
        seq!['-'] + u64_dec_str((-n) as nat)
    } else {
        u64_dec_str(n as nat)
    }
}

/// One digit as a string slice, cut from a literal digit table.
fn dec_digit_str(d: u64) -> (r: &'static str)
    requires
        d < 10,
    ensures
        r@ =~= seq![dec_digit_char(d as int)],
{
    let table = "0123456789";
    proof {
        reveal_strlit("0123456789");
    }
    let r = table.substring_ascii(d as usize, (d + 1) as usize);
    proof {
        assert(r@ =~= seq![table@[d as int]]);
    }
    r
}

/// Render an unsigned integer in decimal.
pub fn u64_to_dec_string(n: u64) -> (r: String)
    ensures
        r@ == u64_dec_str(n as nat),
    decreases n,
{
    if n < 10 {
        let r = String::from_str(dec_digit_str(n));
        assert(r@ =~= u64_dec_str(n as nat));
        r
    } else {
        assert(n / 10 < n) by (nonlinear_arith)
            requires n >= 10,
        ;
        let mut r = u64_to_dec_string(n / 10);
        r.append(dec_digit_str(n % 10));
        assert(r@ =~= u64_dec_str(n as nat));
        r
    }
}

/// Render a signed integer in decimal.
pub fn i64_to_dec_string(n: i64) -> (r: String)
    ensures
        r@ == i64_dec_str(n as int),
{
    if n >= 0 {
        u64_to_dec_string(n as u64)
    } else {
        let mag: u64 = (-(n as i128)) as u64;
        let mut r = String::from_str("-");
        r.append(u64_to_dec_string(mag).as_str());
        proof {
            reveal_strlit("-");
            assert(r@ =~= i64_dec_str(n as int));
        }
        r
    }
}

} // verus!
