//! Decimal rendering and parsing of the small numbers the sandbox protocol
//! writes into and reads out of kernel-provided files, and the whitespace
//! trimming those files need.

use vstd::prelude::*;
use vstd::string::StrSliceExecFns;
use vstd::string::StringExecFns;

verus! {

/// Relies on `String::push`: it appends exactly the given character at the
/// end of the string.
pub assume_specification[ String::push ](s: &mut String, ch: char)
    ensures
        final(s)@ == old(s)@.push(ch),
;

/// The character for one decimal digit.
pub open spec fn spec_digit_char(d: nat) -> char
    recommends
        d < 10,
{
    ((48 + d) as u8) as char
}

/// The decimal rendering of a number, most significant digit first, with no
/// sign and no leading zero except for zero itself.
pub open spec fn spec_dec(n: nat) -> Seq<char>
    decreases n,
{
    if n < 10 {
        seq![spec_digit_char(n)]
    } else {
        spec_dec(n / 10).push(spec_digit_char(n % 10))
    }
}

fn digit_char(d: u32) -> (c: char)
    requires
        d < 10,
    ensures
        c == spec_digit_char(d as nat),
{
    ((d as u8) + 48) as char
}

fn push_dec(n: u32, out: &mut String)
    ensures
        final(out)@ == old(out)@ + spec_dec(n as nat),
    decreases n,
{
    if n < 10 {
        out.push(digit_char(n));
        proof {
            assert(final(out)@ =~= old(out)@ + spec_dec(n as nat));
        }
    } else {
        push_dec(n / 10, out);
        out.push(digit_char(n % 10));
        proof {
            assert(final(out)@ =~= old(out)@ + spec_dec(n as nat));
        }
    }
}

/// Renders a number in decimal.
pub fn format_u32(n: u32) -> (r: String)
    ensures
        r@ == spec_dec(n as nat),
{
    let mut out = String::new();
    push_dec(n, &mut out);
    proof {
        assert(out@ =~= spec_dec(n as nat));
    }
    out
}

/// A decimal digit.
pub open spec fn spec_is_digit(c: char) -> bool {
    48 <= c as int <= 57
}

/// The numeric value of one digit character.
pub open spec fn spec_digit_val(c: char) -> nat
    recommends
        spec_is_digit(c),
{
    (c as int - 48) as nat
}

/// Every character is a decimal digit.
pub open spec fn spec_all_digits(s: Seq<char>) -> bool {
    forall|i: int| 0 <= i < s.len() ==> spec_is_digit(#[trigger] s[i])
}

/// The value of a digit string, most significant digit first.
pub open spec fn spec_dec_val(s: Seq<char>) -> nat
    decreases s.len(),
{
    if s.len() == 0 {
        0
    } else {
        spec_dec_val(s.drop_last()) * 10 + spec_digit_val(s.last())
    }
}

/// A digit string is worth at least as much as any of its prefixes.
proof fn lemma_dec_val_prefix_le(s: Seq<char>, i: int)
    requires
        0 <= i <= s.len(),
    ensures
        spec_dec_val(s.subrange(0, i)) <= spec_dec_val(s),
    decreases s.len() - i,
{
    if i < s.len() {
        let shorter = s.subrange(0, i);
        let longer = s.subrange(0, i + 1);
        assert(longer.drop_last() =~= shorter);
        assert(spec_dec_val(shorter) <= spec_dec_val(longer));
        lemma_dec_val_prefix_le(s, i + 1);
        assert(s.subrange(0, s.len() as int) =~= s);
    } else {
        assert(s.subrange(0, i) =~= s);
    }
}

/// Law: the decimal rendering of a number reads back as that number — it
/// is never empty, holds only digits, and is worth what was rendered.
pub proof fn lemma_dec_round_trip(n: nat)
    ensures
        spec_dec(n).len() > 0,
        spec_all_digits(spec_dec(n)),
        spec_dec_val(spec_dec(n)) == n,
    decreases n,
{
    if n < 10 {
        let whole = spec_dec(n);
        assert(whole.drop_last() =~= Seq::<char>::empty());
        assert(spec_digit_val(spec_digit_char(n)) == n);
        assert(whole.last() == spec_digit_char(n));
        assert(spec_dec_val(whole) == spec_dec_val(whole.drop_last()) * 10 + spec_digit_val(
            whole.last(),
        ));
        assert(spec_dec_val(whole) == n);
    } else {
        lemma_dec_round_trip(n / 10);
        let prefix = spec_dec(n / 10);
        let whole = spec_dec(n);
        assert(whole.drop_last() =~= prefix);
        assert(whole.last() == spec_digit_char(n % 10));
        assert(spec_digit_val(spec_digit_char(n % 10)) == n % 10);
        assert(spec_dec_val(whole) == spec_dec_val(prefix) * 10 + n % 10);
        assert(n == (n / 10) * 10 + n % 10) by (nonlinear_arith);
        assert(forall|i: int|
            0 <= i < prefix.len() ==> whole[i] == #[trigger] prefix[i]);
    }
}

/// Parses an unsigned decimal number.  Succeeds exactly on a non-empty,
/// all-digit string whose value fits.
pub fn parse_u32(s: &str) -> (r: Option<u32>)
    ensures
        r is Some <==> (s@.len() > 0 && spec_all_digits(s@) && spec_dec_val(s@) <= u32::MAX),
        r matches Some(v) ==> v as nat == spec_dec_val(s@),
{
    let n = s.unicode_len();
    if n == 0 {
        return None;
    }
    let mut acc: u64 = 0;
    let mut idx: usize = 0;
    while idx < n
        invariant
            n == s@.len(),
            0 <= idx <= n,
            spec_all_digits(s@.subrange(0, idx as int)),
            acc == spec_dec_val(s@.subrange(0, idx as int)),
            acc <= u32::MAX,
        decreases n - idx,
    {
        let c = s.get_char(idx);
        let code = c as u32;
        if code < 48 || code > 57 {
            proof {
                assert(!spec_is_digit(s@[idx as int]));
            }
            return None;
        }
        let d = code - 48;
        acc = acc * 10 + (d as u64);
        proof {
            assert(s@.subrange(0, idx + 1).drop_last() =~= s@.subrange(0, idx as int));
        }
        if acc > 0xFFFF_FFFF {
            proof {
                lemma_dec_val_prefix_le(s@, idx + 1);
            }
            return None;
        }
        idx = idx + 1;
    }
    proof {
        assert(s@.subrange(0, n as int) =~= s@);
    }
    Some(acc as u32)
}

/// Compares two string slices by value.
pub fn str_eq(a: &str, b: &str) -> (r: bool)
    ensures
        r == (a@ == b@),
{
    let left = String::from_str(a);
    let right = String::from_str(b);
    left == right
}

/// ASCII whitespace: space, tab, newline, carriage return.
pub open spec fn spec_is_space(c: char) -> bool {
    c as int == 32 || c as int == 9 || c as int == 10 || c as int == 13
}

/// The string without its leading whitespace.
pub open spec fn spec_trim_front(s: Seq<char>) -> Seq<char>
    decreases s.len(),
{
    if s.len() > 0 && spec_is_space(s[0]) {
        spec_trim_front(s.drop_first())
    } else {
        s
    }
}

/// The string without its trailing whitespace.
pub open spec fn spec_trim_back(s: Seq<char>) -> Seq<char>
    decreases s.len(),
{
    if s.len() > 0 && spec_is_space(s.last()) {
        spec_trim_back(s.drop_last())
    } else {
        s
    }
}

/// The string without leading and trailing whitespace.
pub open spec fn spec_trim(s: Seq<char>) -> Seq<char> {
    spec_trim_back(spec_trim_front(s))
}

fn is_space_char(c: char) -> (r: bool)
    ensures
        r == spec_is_space(c),
{
    let code = c as u32;
    code == 32 || code == 9 || code == 10 || code == 13
}

/// Removes leading and trailing ASCII whitespace.
pub fn trim_spaces(s: &str) -> (r: &str)
    ensures
        r@ == spec_trim(s@),
{
    let n = s.unicode_len();
    proof {
        assert(s@.subrange(0, n as int) =~= s@);
    }
    let mut a: usize = 0;
    while a < n && is_space_char(s.get_char(a))
        invariant
            n == s@.len(),
            0 <= a <= n,
            spec_trim_front(s@) == spec_trim_front(s@.subrange(a as int, n as int)),
        decreases n - a,
    {
        proof {
            assert(s@.subrange(a as int, n as int).drop_first() =~= s@.subrange(a + 1, n as int));
        }
        a = a + 1;
    }
    proof {
        assert(spec_trim_front(s@) == s@.subrange(a as int, n as int));
    }
    let mut b: usize = n;
    while b > a && is_space_char(s.get_char(b - 1))
        invariant
            n == s@.len(),
            a <= b <= n,
            spec_trim_front(s@) == s@.subrange(a as int, n as int),
            spec_trim_back(s@.subrange(a as int, n as int)) == spec_trim_back(
                s@.subrange(a as int, b as int),
            ),
        decreases b,
    {
        proof {
            assert(s@.subrange(a as int, b as int).drop_last() =~= s@.subrange(a as int, b - 1));
        }
        b = b - 1;
    }
    proof {
        assert(spec_trim_back(s@.subrange(a as int, b as int)) == s@.subrange(a as int, b as int));
    }
    s.substring_char(a, b)
}

} // verus!
