//! Decimal rendering and parsing of 32-bit derivation indices, used by the
//! textual wallet labels.

use vstd::prelude::*;
use vstd::string::StrSliceExecFns;
use vstd::string::StringExecFns;

verus! {

/// Whether `c` is a decimal digit.
pub open spec fn is_digit(c: char) -> bool {
    48 <= c as int && c as int <= 57
}

/// The numeric value of the digit `c`.
pub open spec fn digit_val(c: char) -> nat {
    (c as int - 48) as nat
}

/// Whether every character of `s` is a decimal digit.
pub open spec fn is_digit_seq(s: Seq<char>) -> bool {
    forall|i: int| 0 <= i < s.len() ==> is_digit(#[trigger] s[i])
}

/// The value of the decimal digit string `s`, most significant digit first.
pub open spec fn digits_value(s: Seq<char>) -> nat
    decreases s.len(),
{
    if s.len() == 0 {
        0
    } else {
        digits_value(s.drop_last()) * 10 + digit_val(s.last())
    }
}

/// The digit character for a value below ten.
pub open spec fn digit_char(d: nat) -> char {
    if d == 0 { '0' }
    else if d == 1 { '1' }
    else if d == 2 { '2' }
    else if d == 3 { '3' }
    else if d == 4 { '4' }
    else if d == 5 { '5' }
    else if d == 6 { '6' }
    else if d == 7 { '7' }
    else if d == 8 { '8' }
    else { '9' }
}

/// The canonical decimal rendering of `n`: no leading zeros, except that
/// zero itself renders as "0".
pub open spec fn u32_digits(n: nat) -> Seq<char>
    decreases n,
{
    if n < 10 {
        seq![digit_char(n)]
    } else {
        u32_digits(n / 10).push(digit_char(n % 10))
    }
}

/// The canonical rendering consists of digits, is non-empty, and evaluates
/// back to the rendered value.
pub proof fn lemma_u32_digits(n: nat)
    ensures
        is_digit_seq(u32_digits(n)),
        u32_digits(n).len() >= 1,
        digits_value(u32_digits(n)) == n,
    decreases n,
{
    if n < 10 {
        let s = u32_digits(n);
        assert(s =~= seq![digit_char(n)]);
        assert(s.drop_last() =~= Seq::<char>::empty());
        assert(digits_value(Seq::<char>::empty()) == 0);
        assert(s.last() == digit_char(n));
        assert(digits_value(s) == digits_value(s.drop_last()) * 10 + digit_val(s.last()));
    } else {
        lemma_u32_digits(n / 10);
        let p = u32_digits(n / 10);
        let c = digit_char(n % 10);
        let s = u32_digits(n);
        assert(s =~= p.push(c));
        assert(s.drop_last() =~= p);
        assert(digits_value(s) == digits_value(p) * 10 + digit_val(c));
        assert(digit_val(c) == n % 10);
        vstd::arithmetic::div_mod::lemma_fundamental_div_mod(n as int, 10);
    }
}

/// The value of a digit string is at least the value of any of its prefixes.
pub proof fn lemma_digits_value_prefix_le(s: Seq<char>, k: int)
    requires
        0 <= k <= s.len(),
    ensures
        digits_value(s.subrange(0, k)) <= digits_value(s),
    decreases s.len() - k,
{
    if k == s.len() {
        assert(s.subrange(0, k) =~= s);
    } else {
        lemma_digits_value_prefix_le(s, k + 1);
        let a = s.subrange(0, k);
        let b = s.subrange(0, k + 1);
        assert(b.drop_last() =~= a);
        assert(digits_value(b) == digits_value(a) * 10 + digit_val(b.last()));
    }
}

/// The one-character string for a digit value.
pub fn digit_str(d: u32) -> (r: &'static str)
    requires
        d < 10,
    ensures
        r@ == seq![digit_char(d as nat)],
{
    proof {
        reveal_strlit("0");
        reveal_strlit("1");
        reveal_strlit("2");
        reveal_strlit("3");
        reveal_strlit("4");
        reveal_strlit("5");
        reveal_strlit("6");
        reveal_strlit("7");
        reveal_strlit("8");
        reveal_strlit("9");
    }
    match d {
        0 => { proof { assert("0"@ =~= seq![digit_char(0)]); } "0" },
        1 => { proof { assert("1"@ =~= seq![digit_char(1)]); } "1" },
        2 => { proof { assert("2"@ =~= seq![digit_char(2)]); } "2" },
        3 => { proof { assert("3"@ =~= seq![digit_char(3)]); } "3" },
        4 => { proof { assert("4"@ =~= seq![digit_char(4)]); } "4" },
        5 => { proof { assert("5"@ =~= seq![digit_char(5)]); } "5" },
        6 => { proof { assert("6"@ =~= seq![digit_char(6)]); } "6" },
        7 => { proof { assert("7"@ =~= seq![digit_char(7)]); } "7" },
        8 => { proof { assert("8"@ =~= seq![digit_char(8)]); } "8" },
        _ => { proof { assert("9"@ =~= seq![digit_char(9)]); } "9" },
    }
}

/// Renders `n` in decimal, most significant digit first, no leading zeros.
pub fn format_u32(n: u32) -> (r: String)
    ensures
        r@ == u32_digits(n as nat),
    decreases n,
{
    if n < 10 {
        let mut s = String::new();
        s.append(digit_str(n));
        proof {
            assert(s@ =~= u32_digits(n as nat));
        }
        s
    } else {
        let mut s = format_u32(n / 10);
        s.append(digit_str(n % 10));
        proof {
            assert(s@ =~= u32_digits(n as nat));
        }
        s
    }
}

/// Parses a decimal string into a 32-bit value. Accepts exactly the
/// non-empty all-digit strings whose value fits in 32 bits (leading zeros
/// are allowed).
pub fn parse_u32(s: &str) -> (r: Option<u32>)
    ensures
        ({
            let ok = is_digit_seq(s@) && s@.len() >= 1 && digits_value(s@) <= u32::MAX;
            match r {
                Some(v) => ok && v == digits_value(s@),
                None => !ok,
            }
        }),
{
    let n = s.unicode_len();
    if n == 0 {
        return None;
    }
    let mut i: usize = 0;
    let mut acc: u64 = 0;
    while i < n
        invariant
            0 <= i <= n,
            n == s@.len(),
            is_digit_seq(s@.subrange(0, i as int)),
            acc == digits_value(s@.subrange(0, i as int)),
            acc <= u32::MAX,
        decreases n - i,
    {
        let c = s.get_char(i);
        let v = c as u32;
        if v < 48 || v > 57 {
            proof {
                assert(!is_digit(s@[i as int]));
            }
            return None;
        }
        let d = v - 48;
        let next: u64 = acc * 10 + d as u64;
        proof {
            let p = s@.subrange(0, i as int);
            let q = s@.subrange(0, i as int + 1);
            assert(q.drop_last() =~= p);
            assert(q.last() == s@[i as int]);
            assert(digits_value(q) == digits_value(p) * 10 + digit_val(s@[i as int]));
        }
        if next > 0xFFFF_FFFFu64 {
            proof {
                lemma_digits_value_prefix_le(s@, i as int + 1);
            }
            return None;
        }
        acc = next;
        i = i + 1;
    }
    proof {
        assert(s@.subrange(0, n as int) =~= s@);
    }
    Some(acc as u32)
}

} // verus!
