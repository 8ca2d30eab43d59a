//! Character and string helpers: whitespace classification, decimal and
//! hexadecimal rendering, decimal parsing, and trimming.

use vstd::prelude::*;
use vstd::string::StringExecFns;

verus! {

/// The Unicode whitespace code points, as used when trimming text.
pub open spec fn is_space_char(c: char) -> bool {
    ||| c == ' '
    ||| c == '\t'
    ||| c == '\n'
    ||| c == '\r'
    ||| c == '\u{0B}'
    ||| c == '\u{0C}'
    ||| c == '\u{85}'
    ||| c == '\u{A0}'
    ||| c == '\u{1680}'
    ||| ((c as u32) >= 0x2000 && (c as u32) <= 0x200A)
    ||| c == '\u{2028}'
    ||| c == '\u{2029}'
    ||| c == '\u{202F}'
    ||| c == '\u{205F}'
    ||| c == '\u{3000}'
}

/// Whether `c` is a whitespace character.
pub fn is_space(c: char) -> (r: bool)
    ensures
        r == is_space_char(c),
{
    c == ' ' || c == '\t' || c == '\n' || c == '\r' || c == '\u{0B}' || c == '\u{0C}'
        || c == '\u{85}' || c == '\u{A0}' || c == '\u{1680}' || (c >= '\u{2000}' && c
        <= '\u{200A}') || c == '\u{2028}' || c == '\u{2029}' || c == '\u{202F}' || c == '\u{205F}'
        || c == '\u{3000}'
}

/// The character for one decimal or hexadecimal digit value below 16,
/// using lowercase letters for values ten and above.
pub open spec fn digit_char(d: nat) -> char
    recommends
        d < 16,
{
    if d < 10 {
        ((48 + d) as char)
    } else {
        ((87 + d) as char)
    }
}

/// The decimal rendering of a natural number, without leading zeros.
pub open spec fn dec_str_of(n: nat) -> Seq<char>
    decreases n,
{
    if n < 10 {
        seq![digit_char(n)]
    } else {
        dec_str_of(n / 10).push(digit_char(n % 10))
    }
}

/// One digit value below 16 as a one-character string slice.
fn digit_str(d: u64) -> (r: &'static str)
    requires
        d < 16,
    ensures
        r@ =~= seq![digit_char(d as nat)],
{
    let r: &'static str = match d {
        0 => "0",
        1 => "1",
        2 => "2",
        3 => "3",
        4 => "4",
        5 => "5",
        6 => "6",
        7 => "7",
        8 => "8",
        9 => "9",
        10 => "a",
        11 => "b",
        12 => "c",
        13 => "d",
        14 => "e",
        _ => "f",
    };
    proof {
        reveal_strlit("0");
        reveal_strlit("1");
        reveal_strlit("2");
        reveal_strlit("3");
        reveal_strlit("4");
        reveal_strlit("5");
        reveal_strlit("6");
        reveal_strlit("7");
        reveal_strlit("8");
        reveal_strlit("9");
        reveal_strlit("a");
        reveal_strlit("b");
        reveal_strlit("c");
        reveal_strlit("d");
        reveal_strlit("e");
        reveal_strlit("f");
    }
    r
}

/// Renders `n` in decimal.
pub fn u64_to_dec(n: u64) -> (r: String)
    ensures
        r@ == dec_str_of(n as nat),
    decreases n,
{
    if n < 10 {
        String::from_str(digit_str(n))
    } else {
        let high = u64_to_dec(n / 10);
        let r = high.concat(digit_str(n % 10));
        proof {
            assert(r@ =~= dec_str_of(n as nat));
        }
        r
    }
}

/// The rendering of `n` as `digits` hexadecimal characters, in lowercase,
/// padded on the left with zeros.
pub open spec fn hex_str_of(n: nat, digits: nat) -> Seq<char>
    decreases digits,
{
    if digits == 0 {
        Seq::empty()
    } else {
        hex_str_of(n / 16, (digits - 1) as nat).push(digit_char(n % 16))
    }
}

/// The sixteen-character lowercase hexadecimal rendering of a 64-bit value.
pub open spec fn hex16_of(n: u64) -> Seq<char> {
    hex_str_of(n as nat, 16)
}

fn hex_str_exec(n: u64, digits: u64) -> (r: String)
    ensures
        r@ == hex_str_of(n as nat, digits as nat),
    decreases digits,
{
    if digits == 0 {
        let r = String::new();
        proof {
            assert(r@ =~= hex_str_of(n as nat, 0));
        }
        r
    } else {
        let high = hex_str_exec(n / 16, digits - 1);
        let r = high.concat(digit_str(n % 16));
        proof {
            assert(r@ =~= hex_str_of(n as nat, digits as nat));
        }
        r
    }
}

/// Renders `n` as sixteen lowercase hexadecimal characters.
pub fn u64_to_hex16(n: u64) -> (r: String)
    ensures
        r@ == hex16_of(n),
        r@.len() == 16,
{
    proof {
        lemma_hex_str_len(n as nat, 16);
    }
    hex_str_exec(n, 16)
}

/// The hexadecimal rendering has exactly as many characters as asked for.
pub proof fn lemma_hex_str_len(n: nat, digits: nat)
    ensures
        hex_str_of(n, digits).len() == digits,
    decreases digits,
{
    if digits > 0 {
        lemma_hex_str_len(n / 16, (digits - 1) as nat);
    }
}

/// Whether `c` is a decimal digit.
pub open spec fn is_dec_digit(c: char) -> bool {
    48 <= (c as u32) <= 57
}

/// The value of one decimal digit; zero for any other character.
pub open spec fn digit_val(c: char) -> nat {
    if is_dec_digit(c) {
        ((c as u32) - 48) as nat
    } else {
        0
    }
}

/// The number denoted by a sequence of decimal digits, most significant
/// first.
pub open spec fn dec_val(s: Seq<char>) -> nat
    decreases s.len(),
{
    if s.len() == 0 {
        0
    } else {
        dec_val(s.drop_last()) * 10 + digit_val(s.last())
    }
}

/// Whether every character of `s` is a decimal digit.
pub open spec fn all_dec_digits(s: Seq<char>) -> bool {
    forall|i: int| 0 <= i < s.len() ==> is_dec_digit(#[trigger] s[i])
}

/// The digit part of a decimal string: the whole of it, with one
/// leading plus sign removed if present.
pub open spec fn dec_digits_part(s: Seq<char>) -> Seq<char> {
    if s.len() > 0 && s[0] == '+' {
        s.drop_first()
    } else {
        s
    }
}

/// What a string denotes as an unsigned 64-bit decimal number: defined
/// exactly when, after one optional leading plus sign, the string is
/// nonempty, all digits, and in range.
pub open spec fn parsed_u64(s: Seq<char>) -> Option<u64> {
    let d = dec_digits_part(s);
    if d.len() > 0 && all_dec_digits(d) && dec_val(d) <= u64::MAX {
        Some(dec_val(d) as u64)
    } else {
        None
    }
}

proof fn lemma_dec_val_step(s: Seq<char>, i: int)
    requires
        0 <= i < s.len(),
    ensures
        dec_val(s.subrange(0, i + 1)) == dec_val(s.subrange(0, i)) * 10 + digit_val(s[i]),
{
    let t = s.subrange(0, i + 1);
    assert(t.drop_last() =~= s.subrange(0, i));
    assert(t.last() == s[i]);
}

/// A longer digit prefix never denotes a smaller number.
proof fn lemma_dec_val_prefix_le(s: Seq<char>, i: int)
    requires
        0 <= i <= s.len(),
    ensures
        dec_val(s.subrange(0, i)) <= dec_val(s),
    decreases s.len() - i,
{
    if i == s.len() {
        assert(s.subrange(0, i) =~= s);
    } else {
        lemma_dec_val_step(s, i);
        lemma_dec_val_prefix_le(s, i + 1);
    }
}

/// Parses a decimal string, with one optional leading plus sign, into
/// a 64-bit number, rejecting any other shape of input.
pub fn parse_u64_dec(s: &str) -> (r: Option<u64>)
    ensures
        r == parsed_u64(s@),
{
    let len = s.unicode_len();
    let start: usize = if len > 0 && s.get_char(0) == '+' {
        1
    } else {
        0
    };
    let ghost digits = dec_digits_part(s@);
    proof {
        assert(digits =~= s@.subrange(start as int, len as int));
    }
    if start >= len {
        return None;
    }
    let mut acc: u64 = 0;
    let mut i: usize = start;
    while i < len
        invariant
            start <= i <= len,
            len == s@.len(),
            digits == dec_digits_part(s@),
            digits == s@.subrange(start as int, len as int),
            forall|m: int| 0 <= m < i - start ==> is_dec_digit(#[trigger] digits[m]),
            acc == dec_val(digits.subrange(0, i - start)),
        decreases len - i,
    {
        let c = s.get_char(i);
        proof {
            assert(digits[i - start] == s@[i as int]);
        }
        if c < '0' || c > '9' {
            assert(!all_dec_digits(digits));
            return None;
        }
        let d: u64 = (c as u32 - 48) as u64;
        proof {
            lemma_dec_val_step(digits, i - start);
        }
        if acc > (u64::MAX - d) / 10 {
            proof {
                let q = ((u64::MAX - d) / 10) as int;
                vstd::arithmetic::div_mod::lemma_fundamental_div_mod(
                    u64::MAX as int - d as int,
                    10,
                );
                assert(acc as int * 10 >= (q + 1) * 10) by (nonlinear_arith)
                    requires
                        acc as int >= q + 1,
                ;
                lemma_dec_val_prefix_le(digits, i - start + 1);
            }
            return None;
        }
        proof {
            let q = ((u64::MAX - d) / 10) as int;
            vstd::arithmetic::div_mod::lemma_fundamental_div_mod(u64::MAX as int - d as int, 10);
            assert(acc as int * 10 <= q * 10) by (nonlinear_arith)
                requires
                    acc as int <= q,
            ;
        }
        acc = acc * 10 + d;
        i = i + 1;
    }
    proof {
        assert(digits.subrange(0, (len - start) as int) =~= digits);
    }
    Some(acc)
}

/// Whether two string slices hold the same characters.
pub fn str_eq(a: &str, b: &str) -> (r: bool)
    ensures
        r == (a@ == b@),
{
    let alen = a.unicode_len();
    let blen = b.unicode_len();
    if alen != blen {
        return false;
    }
    let mut i: usize = 0;
    while i < alen
        invariant
            0 <= i <= alen,
            alen == a@.len(),
            alen == b@.len(),
            forall|m: int| 0 <= m < i ==> a@[m] == b@[m],
        decreases alen - i,
    {
        if a.get_char(i) != b.get_char(i) {
            return false;
        }
        i = i + 1;
    }
    proof {
        assert(a@ =~= b@);
    }
    true
}

/// The number of whitespace characters at the front of `s`.
pub open spec fn lead_spaces(s: Seq<char>) -> nat
    decreases s.len(),
{
    if s.len() == 0 || !is_space_char(s[0]) {
        0
    } else {
        1 + lead_spaces(s.drop_first())
    }
}

/// The number of whitespace characters at the back of `s`.
pub open spec fn trail_spaces(s: Seq<char>) -> nat
    decreases s.len(),
{
    if s.len() == 0 || !is_space_char(s.last()) {
        0
    } else {
        1 + trail_spaces(s.drop_last())
    }
}

/// `s` with leading and trailing whitespace removed.
pub open spec fn trim_of(s: Seq<char>) -> Seq<char> {
    if lead_spaces(s) == s.len() {
        Seq::empty()
    } else {
        s.subrange(lead_spaces(s) as int, s.len() - trail_spaces(s))
    }
}

/// An index below which everything is whitespace, and at which (if inside
/// the string) something is not, is exactly the count of leading spaces.
proof fn lemma_lead_spaces_at(s: Seq<char>, i: int)
    requires
        0 <= i <= s.len(),
        forall|m: int| 0 <= m < i ==> is_space_char(#[trigger] s[m]),
        i < s.len() ==> !is_space_char(s[i]),
    ensures
        lead_spaces(s) == i,
    decreases s.len(),
{
    if i == 0 {
    } else {
        let t = s.drop_first();
        assert(forall|m: int| 0 <= m < i - 1 ==> is_space_char(#[trigger] t[m]) && t[m] == s[m
            + 1]);
        lemma_lead_spaces_at(t, i - 1);
    }
}

/// The mirror of `lemma_lead_spaces_at` for trailing whitespace.
proof fn lemma_trail_spaces_at(s: Seq<char>, j: int)
    requires
        0 <= j <= s.len(),
        forall|m: int| j <= m < s.len() ==> is_space_char(#[trigger] s[m]),
        j > 0 ==> !is_space_char(s[j - 1]),
    ensures
        trail_spaces(s) == s.len() - j,
    decreases s.len(),
{
    if j < s.len() {
        let t = s.drop_last();
        assert(forall|m: int| j <= m < t.len() ==> is_space_char(#[trigger] t[m]) && t[m] == s[m]);
        lemma_trail_spaces_at(t, j);
    }
}

/// Removes leading and trailing whitespace.
pub fn trim_str(s: &str) -> (r: &str)
    ensures
        r@ == trim_of(s@),
{
    let len = s.unicode_len();
    let mut i: usize = 0;
    while i < len && is_space(s.get_char(i))
        invariant
            0 <= i <= len,
            len == s@.len(),
            forall|m: int| 0 <= m < i ==> is_space_char(#[trigger] s@[m]),
        decreases len - i,
    {
        i = i + 1;
    }
    proof {
        lemma_lead_spaces_at(s@, i as int);
    }
    if i == len {
        let r = "";
        proof {
            reveal_strlit("");
            assert(r@ =~= trim_of(s@));
        }
        return r;
    }
    let mut j: usize = len - 1;
    while is_space(s.get_char(j))
        invariant
            i <= j < len,
            len == s@.len(),
            !is_space_char(s@[i as int]),
            forall|m: int| j < m < len ==> is_space_char(#[trigger] s@[m]),
        decreases j,
    {
        j = j - 1;
    }
    proof {
        lemma_trail_spaces_at(s@, j + 1);
    }
    s.substring_char(i, j + 1)
}

} // verus!
