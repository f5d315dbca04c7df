//! Decimal text: the spelling of unsigned and signed integers, the value of
//! a digit string, and the lemmas that make the two inverse to each other.
//! Also small scanning helpers over `&str` used by the parsers.
#![allow(unused_imports)]
use vstd::prelude::*;
use vstd::string::*;

verus! {

/// The character that spells a single decimal digit value.
pub open spec fn digit_char(d: nat) -> char {
    if d == 0 {
        '0'
    } else if d == 1 {
        '1'
    } else if d == 2 {
        '2'
    } else if d == 3 {
        '3'
    } else if d == 4 {
        '4'
    } else if d == 5 {
        '5'
    } else if d == 6 {
        '6'
    } else if d == 7 {
        '7'
    } else if d == 8 {
        '8'
    } else {
        '9'
    }
}

/// True when `c` is an ASCII decimal digit.
pub open spec fn is_digit(c: char) -> bool {
    c == '0' || c == '1' || c == '2' || c == '3' || c == '4' || c == '5' || c == '6' || c == '7'
        || c == '8' || c == '9'
}

/// The numeric value of a digit character (0 for anything that is no digit).
pub open spec fn digit_val(c: char) -> nat {
    if c == '1' {
        1
    } else if c == '2' {
        2
    } else if c == '3' {
        3
    } else if c == '4' {
        4
    } else if c == '5' {
        5
    } else if c == '6' {
        6
    } else if c == '7' {
        7
    } else if c == '8' {
        8
    } else if c == '9' {
        9
    } else {
        0
    }
}

/// The shortest decimal spelling of `n`: no leading zeros, `"0"` for zero.
pub open spec fn dec_of(n: nat) -> Seq<char>
    decreases n,
{
    if n < 10 {
        seq![digit_char(n)]
    } else {
        dec_of(n / 10) + seq![digit_char(n % 10)]
    }
}

/// The decimal spelling of a signed value: a minus sign before the
/// magnitude for negatives.
pub open spec fn dec_int_of(n: int) -> Seq<char> {
    if n >= 0 {
        dec_of(n as nat)
    } else {
        seq!['-'] + dec_of((-n) as nat)
    }
}

/// The numeric value of a digit string, most significant digit first.
pub open spec fn digits_val(s: Seq<char>) -> nat
    decreases s.len(),
{
    if s.len() == 0 {
        0
    } else {
        digits_val(s.drop_last()) * 10 + digit_val(s.last())
    }
}

/// Every character of `s` is a decimal digit.
pub open spec fn all_digits(s: Seq<char>) -> bool {
    forall|i: int| 0 <= i < s.len() ==> is_digit(#[trigger] s[i])
}

/// The spelling of a number is a nonempty digit string, and it starts with
/// `'0'` only for zero itself.
pub proof fn lemma_dec_of_digits(n: nat)
    ensures
        dec_of(n).len() >= 1,
        all_digits(dec_of(n)),
        dec_of(n)[0] == '0' <==> n == 0,
    decreases n,
{
    if n < 10 {
    } else {
        lemma_dec_of_digits(n / 10);
        assert(dec_of(n)[0] == dec_of(n / 10)[0]);
        assert forall|i: int| 0 <= i < dec_of(n).len() implies is_digit(#[trigger] dec_of(n)[i]) by {
            if i < dec_of(n / 10).len() {
                assert(dec_of(n)[i] == dec_of(n / 10)[i]);
            } else {
                assert(dec_of(n)[i] == digit_char(n % 10));
            }
        }
    }
}

/// Reading back the spelling of `n` yields `n`.
pub proof fn lemma_digits_val_dec_of(n: nat)
    ensures
        digits_val(dec_of(n)) == n,
    decreases n,
{
    if n < 10 {
        reveal_with_fuel(digits_val, 2);
        assert(dec_of(n).drop_last() =~= Seq::<char>::empty());
        assert(dec_of(n).last() == digit_char(n));
        assert(digit_val(digit_char(n)) == n);
    } else {
        lemma_digits_val_dec_of(n / 10);
        lemma_dec_of_digits(n / 10);
        assert(dec_of(n).drop_last() =~= dec_of(n / 10));
        assert(dec_of(n).last() == digit_char(n % 10));
        assert(digit_val(digit_char(n % 10)) == n % 10);
        vstd::arithmetic::div_mod::lemma_fundamental_div_mod(n as int, 10);
    }
}

/// Relies on `String::push`: appends exactly the one character.
#[verifier::external_body]
pub(crate) fn push_char(s: &mut String, c: char)
    ensures
        final(s)@ == old(s)@ + seq![c],
{
    s.push(c);
}

/// The character that spells one digit.
pub fn digit_to_char(d: u64) -> (c: char)
    requires
        d < 10,
    ensures
        c == digit_char(d as nat),
{
    if d == 0 {
        '0'
    } else if d == 1 {
        '1'
    } else if d == 2 {
        '2'
    } else if d == 3 {
        '3'
    } else if d == 4 {
        '4'
    } else if d == 5 {
        '5'
    } else if d == 6 {
        '6'
    } else if d == 7 {
        '7'
    } else if d == 8 {
        '8'
    } else {
        '9'
    }
}

/// The value of a digit character, or `None` when it is no digit.
pub fn char_digit_val(c: char) -> (r: Option<u64>)
    ensures
        match r {
            Some(v) => is_digit(c) && v == digit_val(c),
            None => !is_digit(c),
        },
{
    match c {
        '0' => Some(0),
        '1' => Some(1),
        '2' => Some(2),
        '3' => Some(3),
        '4' => Some(4),
        '5' => Some(5),
        '6' => Some(6),
        '7' => Some(7),
        '8' => Some(8),
        '9' => Some(9),
        _ => None,
    }
}

/// Prints `n` in decimal.
pub fn u64_dec(n: u64) -> (r: String)
    ensures
        r@ == dec_of(n as nat),
    decreases n,
{
    if n < 10 {
        let mut s = String::new();
        push_char(&mut s, digit_to_char(n));
        proof {
            assert(s@ =~= dec_of(n as nat));
        }
        s
    } else {
        let mut s = u64_dec(n / 10);
        push_char(&mut s, digit_to_char(n % 10));
        proof {
            assert(s@ =~= dec_of(n as nat));
        }
        s
    }
}

/// Prints `n` in decimal, with a minus sign for negatives.
pub fn i64_dec(n: i64) -> (r: String)
    ensures
        r@ == dec_int_of(n as int),
{
    if n >= 0 {
        u64_dec(n as u64)
    } else {
        let wide: i128 = -(n as i128);
        let m: u64 = wide as u64;
        assert(m as nat == (-(n as int)) as nat);
        let s = String::from_str("-");
        let d = u64_dec(m);
        let r = s.concat(d.as_str());
        proof {
            reveal_strlit("-");
            assert(r@ =~= dec_int_of(n as int));
        }
        r
    }
}

/// True exactly when the characters of `lit` occur in `s` starting at `at`.
pub fn has_lit_at(s: &str, lit: &str, at: usize) -> (r: bool)
    ensures
        r == (at + lit@.len() <= s@.len() && s@.subrange(at as int, at + lit@.len()) == lit@),
{
    let sl = s.unicode_len();
    let ll = lit.unicode_len();
    if at > sl || sl - at < ll {
        return false;
    }
    let mut i: usize = 0;
    while i < ll
        invariant
            i <= ll,
            at + ll <= sl,
            sl == s@.len(),
            ll == lit@.len(),
            forall|j: int| 0 <= j < i ==> s@[at + j] == lit@[j],
        decreases ll - i,
    {
        if s.get_char(at + i) != lit.get_char(i) {
            proof {
                assert(s@.subrange(at as int, at + lit@.len())[i as int] != lit@[i as int]);
            }
            return false;
        }
        i += 1;
    }
    proof {
        assert(s@.subrange(at as int, at + lit@.len()) =~= lit@);
    }
    true
}

/// True exactly when the two strings spell the same characters.
pub fn str_eq(a: &str, b: &str) -> (r: bool)
    ensures
        r == (a@ == b@),
{
    let pre = has_lit_at(a, b, 0);
    let same = pre && a.unicode_len() == b.unicode_len();
    proof {
        if same {
            assert(a@.subrange(0, b@.len() as int) =~= a@);
        }
        if a@ == b@ {
            assert(a@.subrange(0, b@.len() as int) =~= b@);
        }
    }
    same
}

/// Scans the run of digits of `s` that starts at `from`: returns where the
/// run ends and, unless it exceeds `u64::MAX`, its value.
pub fn scan_digits(s: &str, from: usize) -> (r: (usize, Option<u64>))
    requires
        from <= s@.len(),
    ensures
        from <= r.0 <= s@.len(),
        forall|j: int| from <= j < r.0 ==> is_digit(#[trigger] s@[j]),
        r.0 < s@.len() ==> !is_digit(s@[r.0 as int]),
        match r.1 {
            Some(v) => v == digits_val(s@.subrange(from as int, r.0 as int)),
            None => digits_val(s@.subrange(from as int, r.0 as int)) > u64::MAX,
        },
{
    let sl = s.unicode_len();
    let mut i: usize = from;
    let mut acc: u64 = 0;
    let mut ok: bool = true;
    loop
        invariant_except_break
            from <= i <= sl,
            sl == s@.len(),
            forall|j: int| from <= j < i ==> is_digit(#[trigger] s@[j]),
            ok ==> acc == digits_val(s@.subrange(from as int, i as int)),
            !ok ==> digits_val(s@.subrange(from as int, i as int)) > u64::MAX,
        ensures
            from <= i <= sl,
            sl == s@.len(),
            forall|j: int| from <= j < i ==> is_digit(#[trigger] s@[j]),
            i < s@.len() ==> !is_digit(s@[i as int]),
            ok ==> acc == digits_val(s@.subrange(from as int, i as int)),
            !ok ==> digits_val(s@.subrange(from as int, i as int)) > u64::MAX,
        decreases sl - i,
    {
        if i >= sl {
            break ;
        }
        let c = s.get_char(i);
        match char_digit_val(c) {
            None => {
                break ;
            },
            Some(d) => {
                proof {
                    assert(s@.subrange(from as int, i + 1).drop_last() =~= s@.subrange(
                        from as int,
                        i as int,
                    ));
                    assert(s@.subrange(from as int, i + 1).last() == s@[i as int]);
                }
                if ok {
                    if acc <= (u64::MAX - d) / 10 {
                        assert(acc * 10 + d <= u64::MAX) by (nonlinear_arith)
                            requires
                                acc <= (u64::MAX - d) / 10,
                                d <= 9,
                        ;
                        acc = acc * 10 + d;
                    } else {
                        proof {
                            assert(acc * 10 + d > u64::MAX) by (nonlinear_arith)
                                requires
                                    acc > (u64::MAX - d) / 10,
                                    d <= 9,
                            ;
                        }
                        ok = false;
                    }
                } else {
                    proof {
                        let prev = digits_val(s@.subrange(from as int, i as int));
                        assert(prev * 10 + digit_val(s@[i as int]) > u64::MAX) by (nonlinear_arith)
                            requires
                                prev > u64::MAX,
                        ;
                    }
                }
                i += 1;
            },
        }
    }
    if ok {
        (i, Some(acc))
    } else {
        (i, None)
    }
}

} // verus!
