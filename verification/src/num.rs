//! Decimal digits: rendering unsigned integers and reading canonical digit strings back.
use vstd::prelude::*;

verus! {

/// Whether `c` is an ASCII decimal digit.
pub open spec fn is_digit(c: char) -> bool {
    '0' <= c && c <= '9'
}

/// The value of an ASCII decimal digit.
pub open spec fn digit_value(c: char) -> nat {
    ((c as u32) - 48) as nat
}

/// The ASCII digit for `d < 10`.
pub open spec fn digit_char(d: nat) -> char {
    if d == 0 {
        '0'
    } else if d == 1 {
        '1'
    } else if d == 2 {
        '2'
    } else if d == 3 {
        '3'
    } else if d == 4 {
        '4'
    } else if d == 5 {
        '5'
    } else if d == 6 {
        '6'
    } else if d == 7 {
        '7'
    } else if d == 8 {
        '8'
    } else {
        '9'
    }
}

/// The canonical decimal rendering of `n`: no sign, no leading zero.
pub open spec fn dec(n: nat) -> Seq<char>
    decreases n,
{
    if n < 10 {
        seq![digit_char(n)]
    } else {
        dec(n / 10).push(digit_char(n % 10))
    }
}

/// Whether every character of `s` is a decimal digit.
pub open spec fn all_digits(s: Seq<char>) -> bool {
    forall|i: int| 0 <= i < s.len() ==> is_digit(#[trigger] s[i])
}

/// The value of a string of decimal digits.
pub open spec fn digits_value(s: Seq<char>) -> nat
    decreases s.len(),
{
    if s.len() == 0 {
        0
    } else {
        digits_value(s.drop_last()) * 10 + digit_value(s.last())
    }
}

/// A digit string as `dec` writes one: nonempty, and no leading zero unless it is "0".
pub open spec fn canonical_digits(s: Seq<char>) -> bool {
    s.len() > 0 && all_digits(s) && (s.len() == 1 || s[0] != '0')
}

proof fn lemma_digit_char(d: nat)
    requires
        d < 10,
    ensures
        is_digit(digit_char(d)),
        digit_value(digit_char(d)) == d,
        d != 0 ==> digit_char(d) != '0',
{
    if d == 0 {
        assert('0' as u32 == 48);
    } else if d == 1 {
        assert('1' as u32 == 49);
    } else if d == 2 {
        assert('2' as u32 == 50);
    } else if d == 3 {
        assert('3' as u32 == 51);
    } else if d == 4 {
        assert('4' as u32 == 52);
    } else if d == 5 {
        assert('5' as u32 == 53);
    } else if d == 6 {
        assert('6' as u32 == 54);
    } else if d == 7 {
        assert('7' as u32 == 55);
    } else if d == 8 {
        assert('8' as u32 == 56);
    } else {
        assert('9' as u32 == 57);
    }
}

/// What `dec` produces, and that reading it back gives the number.
pub proof fn lemma_dec(n: nat)
    ensures
        canonical_digits(dec(n)),
        digits_value(dec(n)) == n,
        n < 10 <==> dec(n).len() == 1,
        n < 100 <==> dec(n).len() <= 2,
        n < 1000 <==> dec(n).len() <= 3,
    decreases n,
{
    lemma_digit_char(n % 10);
    if n >= 10 {
        let q = n / 10;
        let r = n % 10;
        assert(n == q * 10 + r && r < 10) by (nonlinear_arith)
            requires
                q == n / 10,
                r == n % 10,
        ;
        assert(q < 10 <==> n < 100) by (nonlinear_arith)
            requires
                n == q * 10 + r,
                r < 10,
        ;
        assert(q < 100 <==> n < 1000) by (nonlinear_arith)
            requires
                n == q * 10 + r,
                r < 10,
        ;
        assert(q >= 1) by (nonlinear_arith)
            requires
                n == q * 10 + r,
                r < 10,
                n >= 10,
        ;
        lemma_dec(q);
        let s = dec(n);
        assert(s == dec(q).push(digit_char(r)));
        assert(s.drop_last() =~= dec(q));
        assert(s.last() == digit_char(r));
        assert forall|i: int| 0 <= i < s.len() implies is_digit(#[trigger] s[i]) by {
            if i < s.len() - 1 {
                assert(s[i] == dec(q)[i]);
            }
        }
        assert(s[0] == dec(q)[0]);
        assert(digits_value(s) == digits_value(dec(q)) * 10 + digit_value(digit_char(r)));
    } else {
        lemma_digit_char(n);
        let s = dec(n);
        assert(s.drop_last().len() == 0);
        assert(digits_value(s.drop_last()) == 0);
    }
}

/// A canonical digit string is the rendering of its value.
pub proof fn lemma_canonical_is_dec(s: Seq<char>)
    requires
        canonical_digits(s),
    ensures
        dec(digits_value(s)) == s,
    decreases s.len(),
{
    let p = s.drop_last();
    let d = digit_value(s.last());
    assert(is_digit(s[s.len() - 1]));
    if s.len() == 1 {
        assert(p.len() == 0);
        assert(digits_value(s) == d);
        assert(dec(d) =~= s);
    } else {
        assert(p[0] == s[0]);
        assert forall|i: int| 0 <= i < p.len() implies is_digit(#[trigger] p[i]) by {
            assert(p[i] == s[i]);
        }
        lemma_canonical_is_dec(p);
        lemma_dec_nonzero_lead(p);
        let v = digits_value(s);
        assert(v == digits_value(p) * 10 + d);
        assert(digits_value(p) >= 1);
        assert(v / 10 == digits_value(p));
        assert(v % 10 == d);
        assert(dec(v) =~= s);
    }
}

/// A canonical string longer than one digit starts with a nonzero digit, so its value is
/// at least one.
proof fn lemma_dec_nonzero_lead(s: Seq<char>)
    requires
        canonical_digits(s),
        s.len() > 1 || s[0] != '0',
    ensures
        digits_value(s) >= 1,
    decreases s.len(),
{
    if s.len() > 1 {
        let p = s.drop_last();
        assert(p[0] == s[0]);
        assert forall|i: int| 0 <= i < p.len() implies is_digit(#[trigger] p[i]) by {
            assert(p[i] == s[i]);
        }
        lemma_dec_nonzero_lead(p);
    } else {
        assert(is_digit(s[0]));
    }
}

/// Two renderings are equal only for equal numbers.
pub proof fn lemma_dec_injective(a: nat, b: nat)
    requires
        dec(a) == dec(b),
    ensures
        a == b,
{
    lemma_dec(a);
    lemma_dec(b);
}

/// Appends the decimal rendering of `n` to `out`.
pub fn push_decimal(out: &mut Vec<char>, n: u64)
    ensures
        final(out)@ == old(out)@ + dec(n as nat),
    decreases n,
{
    if n >= 10 {
        push_decimal(out, n / 10);
    }
    let d: u64 = n % 10;
    let c: char = if d == 0 {
        '0'
    } else if d == 1 {
        '1'
    } else if d == 2 {
        '2'
    } else if d == 3 {
        '3'
    } else if d == 4 {
        '4'
    } else if d == 5 {
        '5'
    } else if d == 6 {
        '6'
    } else if d == 7 {
        '7'
    } else if d == 8 {
        '8'
    } else {
        '9'
    };
    out.push(c);
    if n >= 10 {
        assert(final(out)@ =~= old(out)@ + dec(n as nat)) by {
            assert(dec(n as nat) == dec((n / 10) as nat).push(digit_char((n % 10) as nat)));
        }
    } else {
        assert(out@ =~= old(out)@ + dec(n as nat));
    }
}

/// The decimal rendering of `n`.
pub fn decimal(n: u64) -> (s: String)
    ensures
        s@ == dec(n as nat),
{
    let mut v: Vec<char> = Vec::new();
    push_decimal(&mut v, n);
    assert(v@ =~= dec(n as nat));
    crate::text::string_of(v.as_slice())
}

/// Whether `c` is an ASCII decimal digit.
pub fn char_is_digit(c: char) -> (b: bool)
    ensures
        b == is_digit(c),
{
    '0' <= c && c <= '9'
}

/// Reads a canonical decimal of at most three digits worth at most 255.
pub fn parse_octet(s: &[char]) -> (r: Option<u8>)
    ensures
        r matches Some(x) ==> s@ == dec(x as nat),
        r is None ==> forall|x: u8| s@ != dec(x as nat),
{
    if s.len() == 0 || s.len() > 3 || (s.len() > 1 && s[0] == '0') {
        proof {
            assert forall|x: u8| s@ != dec(x as nat) by {
                lemma_dec(x as nat);
            }
        }
        return None;
    }
    let mut v: u32 = 0;
    let mut i: usize = 0;
    while i < s.len()
        invariant
            i <= s.len() <= 3,
            all_digits(s@.subrange(0, i as int)),
            v as nat == digits_value(s@.subrange(0, i as int)),
            v < 1000,
            i <= 1 ==> v < 10,
            i <= 2 ==> v < 100,
        decreases s.len() - i,
    {
        let c = s[i];
        if !char_is_digit(c) {
            proof {
                assert forall|x: u8| s@ != dec(x as nat) by {
                    lemma_dec(x as nat);
                    if s@ == dec(x as nat) {
                        assert(is_digit(s@[i as int]));
                    }
                }
            }
            return None;
        }
        let d: u32 = (c as u32) - 48;
        proof {
            let t = s@.subrange(0, i + 1);
            assert(t.drop_last() =~= s@.subrange(0, i as int));
            assert(t.last() == c);
            assert forall|k: int| 0 <= k < t.len() implies is_digit(#[trigger] t[k]) by {
                if k < i {
                    assert(t[k] == s@.subrange(0, i as int)[k]);
                }
            }
        }
        v = v * 10 + d;
        i = i + 1;
    }
    assert(s@.subrange(0, s.len() as int) =~= s@);
    if v > 255 {
        proof {
            assert forall|x: u8| s@ != dec(x as nat) by {
                lemma_dec(x as nat);
            }
        }
        return None;
    }
    proof {
        lemma_canonical_is_dec(s@);
    }
    Some(v as u8)
}

} // verus!
