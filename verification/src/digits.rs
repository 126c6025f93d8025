//! Decimal digits: the correspondence between a `u32` and its decimal
//! text, in both directions.

use vstd::prelude::*;

verus! {

/// The ten ASCII digit characters, and no others.
pub open spec fn is_digit_char(c: char) -> bool {
    c == '0' || c == '1' || c == '2' || c == '3' || c == '4' || c == '5' || c == '6' || c == '7'
        || c == '8' || c == '9'
}

/// The numeric value of a digit character (zero for anything else).
pub open spec fn digit_char_val(c: char) -> nat {
    if c == '1' {
        1
    } else if c == '2' {
        2
    } else if c == '3' {
        3
    } else if c == '4' {
        4
    } else if c == '5' {
        5
    } else if c == '6' {
        6
    } else if c == '7' {
        7
    } else if c == '8' {
        8
    } else if c == '9' {
        9
    } else {
        0
    }
}

/// The digit character for a value below ten (`'9'` for anything else).
pub open spec fn digit_to_char(d: nat) -> char {
    if d == 0 {
        '0'
    } else if d == 1 {
        '1'
    } else if d == 2 {
        '2'
    } else if d == 3 {
        '3'
    } else if d == 4 {
        '4'
    } else if d == 5 {
        '5'
    } else if d == 6 {
        '6'
    } else if d == 7 {
        '7'
    } else if d == 8 {
        '8'
    } else {
        '9'
    }
}

/// The decimal text of `n`: most significant digit first, no sign, no
/// leading zero except for `n == 0` itself.
pub open spec fn spec_decimal(n: nat) -> Seq<char>
    decreases n,
{
    if n < 10 {
        seq![digit_to_char(n)]
    } else {
        spec_decimal(n / 10).push(digit_to_char(n % 10))
    }
}

/// The value of a sequence read as decimal digits, most significant
/// first. Non-digit characters count as zero; whether a sequence is
/// well-formed is `all_digits` below.
pub open spec fn digits_val(t: Seq<char>) -> nat
    decreases t.len(),
{
    if t.len() == 0 {
        0
    } else {
        digits_val(t.drop_last()) * 10 + digit_char_val(t.last())
    }
}

/// Every character of `t` is a decimal digit.
pub open spec fn all_digits(t: Seq<char>) -> bool {
    forall|i: int| 0 <= i < t.len() ==> is_digit_char(t[i])
}

/// The decimal text of a number is made of digit characters only, and
/// is never empty.
pub proof fn lemma_decimal_is_digits(n: nat)
    ensures
        spec_decimal(n).len() >= 1,
        all_digits(spec_decimal(n)),
    decreases n,
{
    if n >= 10 {
        lemma_decimal_is_digits(n / 10);
        assert forall|i: int| 0 <= i < spec_decimal(n).len() implies is_digit_char(
            spec_decimal(n)[i],
        ) by {
            if i < spec_decimal(n / 10).len() {
                assert(spec_decimal(n)[i] == spec_decimal(n / 10)[i]);
            }
        }
    }
}

/// Reading the decimal text of `n` back as digits gives `n`.
pub proof fn lemma_decimal_val(n: nat)
    ensures
        digits_val(spec_decimal(n)) == n,
    decreases n,
{
    if n < 10 {
        assert(digits_val(Seq::<char>::empty()) == 0);
        assert(spec_decimal(n).drop_last() =~= Seq::<char>::empty());
        assert(spec_decimal(n).last() == digit_to_char(n));
        assert(digit_char_val(digit_to_char(n)) == n);
    } else {
        lemma_decimal_val(n / 10);
        assert(spec_decimal(n).drop_last() =~= spec_decimal(n / 10));
        assert(spec_decimal(n).last() == digit_to_char(n % 10));
        vstd::arithmetic::div_mod::lemma_mod_bound(n as int, 10);
        assert(digit_char_val(digit_to_char(n % 10)) == n % 10);
        vstd::arithmetic::div_mod::lemma_fundamental_div_mod(n as int, 10);
    }
}

/// The digit part of a numeric token: an optional leading `'+'` sign
/// is stripped, everything else is kept.
pub open spec fn digits_of(t: Seq<char>) -> Seq<char> {
    if t.len() > 0 && t[0] == '+' {
        t.skip(1)
    } else {
        t
    }
}

/// Unsigned decimal parsing of a whole token: after stripping an
/// optional `'+'`, the token must be one or more digit characters whose
/// value fits in 32 bits; anything else gives no value.
pub open spec fn spec_parse_u32(t: Seq<char>) -> Option<u32> {
    let d = digits_of(t);
    if d.len() > 0 && all_digits(d) && digits_val(d) <= u32::MAX {
        Some(digits_val(d) as u32)
    } else {
        None
    }
}

/// Reading one more digit multiplies the value so far by ten.
pub proof fn lemma_digits_val_take_step(t: Seq<char>, i: int)
    requires
        0 <= i < t.len(),
    ensures
        digits_val(t.take(i + 1)) == digits_val(t.take(i)) * 10 + digit_char_val(t[i]),
{
    assert(t.take(i + 1).drop_last() =~= t.take(i));
    assert(t.take(i + 1).last() == t[i]);
}

/// The value of a prefix never exceeds the value of the whole.
pub proof fn lemma_digits_val_take_le(t: Seq<char>, i: int)
    requires
        0 <= i <= t.len(),
    ensures
        digits_val(t.take(i)) <= digits_val(t),
    decreases t.len() - i,
{
    if i == t.len() {
        assert(t.take(i) =~= t);
    } else {
        lemma_digits_val_take_step(t, i);
        lemma_digits_val_take_le(t, i + 1);
    }
}

/// The numeric value of a digit character, or nothing for any other
/// character.
fn char_digit(c: char) -> (r: Option<u32>)
    ensures
        r is Some <==> is_digit_char(c),
        is_digit_char(c) ==> r == Some(digit_char_val(c) as u32),
{
    match c {
        '0' => Some(0),
        '1' => Some(1),
        '2' => Some(2),
        '3' => Some(3),
        '4' => Some(4),
        '5' => Some(5),
        '6' => Some(6),
        '7' => Some(7),
        '8' => Some(8),
        '9' => Some(9),
        _ => None,
    }
}

/// Unsigned decimal parsing of a whole token, as executable code.
pub fn parse_u32(s: &str) -> (r: Option<u32>)
    ensures
        r == spec_parse_u32(s@),
{
    let n = s.unicode_len();
    let start: usize = if n > 0 && s.get_char(0) == '+' {
        1
    } else {
        0
    };
    let ghost dg = digits_of(s@);
    proof {
        assert(dg =~= s@.skip(start as int));
    }
    if start == n {
        return None;
    }
    let mut i: usize = start;
    let mut acc: u64 = 0;
    while i < n
        invariant
            start <= i <= n,
            n == s@.len(),
            dg == digits_of(s@),
            dg =~= s@.skip(start as int),
            acc <= u32::MAX as u64,
            acc == digits_val(dg.take(i - start)),
            forall|j: int| 0 <= j < i - start ==> is_digit_char(dg[j]),
        decreases n - i,
    {
        let c = s.get_char(i);
        match char_digit(c) {
            None => {
                proof {
                    assert(dg[i - start] == c);
                    assert(!all_digits(dg));
                }
                return None;
            },
            Some(d) => {
                proof {
                    lemma_digits_val_take_step(dg, i - start);
                }
                acc = acc * 10 + d as u64;
                if acc > u32::MAX as u64 {
                    proof {
                        lemma_digits_val_take_le(dg, i + 1 - start);
                        assert(digits_val(dg) >= digits_val(dg.take(i + 1 - start)));
                    }
                    return None;
                }
            },
        }
        i += 1;
    }
    proof {
        assert(dg.take(n - start) =~= dg);
        assert(all_digits(dg));
    }
    Some(acc as u32)
}

/// The digit character for `d`, as a one-character string slice.
fn digit_str(d: u32) -> (r: &'static str)
    requires
        d < 10,
    ensures
        r@ =~= seq![digit_to_char(d as nat)],
{
    proof {
        reveal_strlit("0");
        reveal_strlit("1");
        reveal_strlit("2");
        reveal_strlit("3");
        reveal_strlit("4");
        reveal_strlit("5");
        reveal_strlit("6");
        reveal_strlit("7");
        reveal_strlit("8");
        reveal_strlit("9");
    }
    match d {
        0 => "0",
        1 => "1",
        2 => "2",
        3 => "3",
        4 => "4",
        5 => "5",
        6 => "6",
        7 => "7",
        8 => "8",
        _ => "9",
    }
}

/// The decimal text of `n`, as executable code.
pub fn u32_to_decimal(n: u32) -> (s: String)
    ensures
        s@ == spec_decimal(n as nat),
    decreases n,
{
    if n < 10 {
        let s = String::from_str(digit_str(n));
        assert(s@ =~= spec_decimal(n as nat));
        s
    } else {
        let q = n / 10;
        let r = n % 10;
        assert(q < n && r < 10) by {
            vstd::arithmetic::div_mod::lemma_div_is_ordered_by_denominator(n as int, 1, 10);
            vstd::arithmetic::div_mod::lemma_mod_bound(n as int, 10);
        }
        let s = u32_to_decimal(q).concat(digit_str(r));
        assert(s@ =~= spec_decimal(n as nat));
        s
    }
}

} // verus!
