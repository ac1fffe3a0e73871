//! Small verified text utilities: building strings a character at a time,
//! decimal formatting and parsing, and character classification.

use vstd::prelude::*;
use vstd::string::StrSliceExecFns;

verus! {

/// Relies on `String::push`: appends one character to the end of the string.
#[verifier::external_body]
pub fn push_char(s: &mut String, c: char)
    ensures
        final(s)@ == old(s)@.push(c),
{
    s.push(c);
}

/// Append every character of `t` to `s`.
pub fn push_str_chars(s: &mut String, t: &str)
    ensures
        final(s)@ == old(s)@ + t@,
{
    let n = t.unicode_len();
    let mut i: usize = 0;
    while i < n
        invariant
            n == t@.len(),
            i <= n,
            s@ == old(s)@ + t@.subrange(0, i as int),
        decreases n - i,
    {
        push_char(s, t.get_char(i));
        i = i + 1;
    }
    proof {
        assert(s@ =~= old(s)@ + t@);
    }
}

/// The numeric value of an ASCII digit character; zero for anything else.
pub open spec fn digit_val(c: char) -> nat {
    if is_digit(c) {
        (c as u32 - 48) as nat
    } else {
        0
    }
}

/// Is `c` an ASCII decimal digit?
pub open spec fn is_digit(c: char) -> bool {
    48 <= c as u32 <= 57
}

/// The character of one decimal digit value.
pub open spec fn digit_char(d: nat) -> char {
    if d == 0 {
        '0'
    } else if d == 1 {
        '1'
    } else if d == 2 {
        '2'
    } else if d == 3 {
        '3'
    } else if d == 4 {
        '4'
    } else if d == 5 {
        '5'
    } else if d == 6 {
        '6'
    } else if d == 7 {
        '7'
    } else if d == 8 {
        '8'
    } else {
        '9'
    }
}

/// The decimal text of `n`: most significant digit first, no sign, no
/// leading zero except for `n == 0` itself.
pub open spec fn dec_chars(n: nat) -> Seq<char>
    decreases n,
{
    if n < 10 {
        seq![digit_char(n)]
    } else {
        dec_chars(n / 10).push(digit_char(n % 10))
    }
}

/// Append one decimal digit to `s`.
fn push_digit(s: &mut String, d: u32)
    requires
        d < 10,
    ensures
        final(s)@ == old(s)@.push(digit_char(d as nat)),
{
    if d == 0 {
        push_char(s, '0');
    } else if d == 1 {
        push_char(s, '1');
    } else if d == 2 {
        push_char(s, '2');
    } else if d == 3 {
        push_char(s, '3');
    } else if d == 4 {
        push_char(s, '4');
    } else if d == 5 {
        push_char(s, '5');
    } else if d == 6 {
        push_char(s, '6');
    } else if d == 7 {
        push_char(s, '7');
    } else if d == 8 {
        push_char(s, '8');
    } else {
        push_char(s, '9');
    }
}

/// Append the decimal text of `n` to `s`.
pub fn push_dec_u32(s: &mut String, n: u32)
    ensures
        final(s)@ == old(s)@ + dec_chars(n as nat),
    decreases n,
{
    if n >= 10 {
        push_dec_u32(s, n / 10);
    }
    push_digit(s, n % 10);
    proof {
        if n < 10 {
            assert(old(s)@.push(digit_char(n as nat)) =~= old(s)@ + dec_chars(n as nat));
        } else {
            assert((old(s)@ + dec_chars((n / 10) as nat)).push(digit_char((n % 10) as nat))
                =~= old(s)@ + dec_chars(n as nat));
        }
    }
}

/// Does every character of `s` spell an ASCII decimal digit?
pub open spec fn all_digits(s: Seq<char>) -> bool {
    forall|i: int| 0 <= i < s.len() ==> is_digit(#[trigger] s[i])
}

/// The number that a run of decimal digits spells, most significant digit
/// first.
pub open spec fn dec_val(s: Seq<char>) -> nat
    decreases s.len(),
{
    if s.len() == 0 {
        0
    } else {
        dec_val(s.drop_last()) * 10 + digit_val(s.last())
    }
}

/// Does `s` spell a `u32`: an optional leading plus sign, then at least one
/// digit, with a value that fits in 32 bits?
pub open spec fn u32_text(s: Seq<char>) -> bool {
    let d = if s.len() > 0 && s[0] == '+' {
        s.subrange(1, s.len() as int)
    } else {
        s
    };
    d.len() > 0 && all_digits(d) && dec_val(d) <= u32::MAX
}

/// The number that `s` spells, when `u32_text(s)` holds.
pub open spec fn u32_text_val(s: Seq<char>) -> nat {
    let d = if s.len() > 0 && s[0] == '+' {
        s.subrange(1, s.len() as int)
    } else {
        s
    };
    dec_val(d)
}

/// A prefix of a digit run never spells a larger number than the whole run.
proof fn lemma_dec_val_prefix(s: Seq<char>, k: int)
    requires
        0 <= k <= s.len(),
    ensures
        dec_val(s.subrange(0, k)) <= dec_val(s),
    decreases s.len() - k,
{
    if k == s.len() {
        assert(s.subrange(0, k) =~= s);
    } else {
        lemma_dec_val_prefix(s.drop_last(), k);
        assert(s.drop_last().subrange(0, k) =~= s.subrange(0, k));
    }
}

/// Parse the characters of `s` between `from` and `to` as a `u32`, exactly
/// as a decimal integer literal: an optional plus sign, then digits, and
/// nothing else; too large a value is rejected.
#[verifier::loop_isolation(false)]
pub fn parse_u32_range(s: &str, from: usize, to: usize) -> (r: Option<u32>)
    requires
        from <= to <= s@.len(),
    ensures
        r matches Some(v) ==> u32_text(s@.subrange(from as int, to as int))
            && v as nat == u32_text_val(s@.subrange(from as int, to as int)),
        r is None ==> !u32_text(s@.subrange(from as int, to as int)),
{
    let ghost sub = s@.subrange(from as int, to as int);
    let mut i: usize = from;
    if i < to && s.get_char(i) == '+' {
        i = i + 1;
    }
    let ghost ds = i as int;
    let ghost digits = s@.subrange(ds, to as int);
    proof {
        // The digit part of the spec is exactly the characters after the
        // optional sign.
        if from < to && s@[from as int] == '+' {
            assert(sub.subrange(1, sub.len() as int) =~= digits);
        } else {
            assert(sub =~= digits);
        }
    }
    if i >= to {
        // no digits at all
        return None;
    }
    assert(ds < to);
    let mut acc: u64 = 0;
    while i < to
        invariant
            0 <= ds <= i as int,
            i <= to <= s@.len(),
            digits == s@.subrange(ds, to as int),
            all_digits(s@.subrange(ds, i as int)),
            acc as nat == dec_val(s@.subrange(ds, i as int)),
            acc <= u32::MAX,
        decreases to - i,
    {
        let c = s.get_char(i);
        let cv = c as u32;
        if cv < 48 || cv > 57 {
            proof {
                assert(digits[i as int - ds] == c);
                assert(!all_digits(digits));
            }
            return None;
        }
        let d = (cv - 48) as u64;
        let next = acc * 10 + d;
        proof {
            assert(s@.subrange(ds, i as int + 1) =~= s@.subrange(ds, i as int).push(c));
            assert(s@.subrange(ds, i as int + 1).drop_last() =~= s@.subrange(ds, i as int));
            assert(s@.subrange(ds, i as int + 1).last() == c);
            assert(next as nat == dec_val(s@.subrange(ds, i as int + 1)));
        }
        if next > 0xFFFF_FFFFu64 {
            proof {
                // The digits seen so far already spell more than `u32::MAX`,
                // so the whole run does too.
                assert(s@.subrange(ds, i as int + 1) =~= digits.subrange(0, i as int + 1 - ds));
                lemma_dec_val_prefix(digits, i as int + 1 - ds);
            }
            return None;
        }
        acc = next;
        i = i + 1;
    }
    proof {
        assert(s@.subrange(ds, to as int) =~= digits);
    }
    Some(acc as u32)
}

/// Are `a` and `b` the same text?
pub fn str_eq(a: &str, b: &str) -> (r: bool)
    ensures
        r == (a@ == b@),
{
    let n = a.unicode_len();
    if n != b.unicode_len() {
        return false;
    }
    let mut i: usize = 0;
    while i < n
        invariant
            n == a@.len(),
            n == b@.len(),
            i <= n,
            forall|k: int| 0 <= k < i ==> a@[k] == b@[k],
        decreases n - i,
    {
        if a.get_char(i) != b.get_char(i) {
            return false;
        }
        i = i + 1;
    }
    proof {
        assert(a@ =~= b@);
    }
    true
}

} // verus!
