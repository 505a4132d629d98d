//! IPv4 addresses as `u32` values (most significant octet first) and their dotted-quad text.
//!
//! The text form is the one `std::net::Ipv4Addr` reads and writes: four decimal octets
//! separated by dots, each without leading zeros. Because that rendering is unique, the
//! parser's contract is simply "the input is the rendering of the result".
use vstd::prelude::*;
use crate::num::{
    char_is_digit, dec, is_digit, lemma_dec, lemma_dec_injective, parse_octet, push_decimal,
};
use crate::text::{chars_of, string_of};

verus! {

/// The first (most significant) octet.
pub open spec fn oct0(x: u32) -> u8 {
    (x >> 24u32) as u8
}

/// The second octet.
pub open spec fn oct1(x: u32) -> u8 {
    (x >> 16u32) as u8
}

/// The third octet.
pub open spec fn oct2(x: u32) -> u8 {
    (x >> 8u32) as u8
}

/// The last octet.
pub open spec fn oct3(x: u32) -> u8 {
    x as u8
}

/// The address with octets `a.b.c.d`.
pub open spec fn from_octets(a: u8, b: u8, c: u8, d: u8) -> u32 {
    ((a as u32) << 24u32) | ((b as u32) << 16u32) | ((c as u32) << 8u32) | (d as u32)
}

/// `a.b.c.d` in dotted-quad text.
pub open spec fn quad_text(a: nat, b: nat, c: nat, d: nat) -> Seq<char> {
    dec(a) + seq!['.'] + dec(b) + seq!['.'] + dec(c) + seq!['.'] + dec(d)
}

/// The dotted-quad text of `x`.
pub open spec fn ipv4_text(x: u32) -> Seq<char> {
    quad_text(oct0(x) as nat, oct1(x) as nat, oct2(x) as nat, oct3(x) as nat)
}

/// Splitting an address into octets and joining them back are inverse.
pub proof fn lemma_octets(a: u8, b: u8, c: u8, d: u8)
    ensures
        oct0(from_octets(a, b, c, d)) == a,
        oct1(from_octets(a, b, c, d)) == b,
        oct2(from_octets(a, b, c, d)) == c,
        oct3(from_octets(a, b, c, d)) == d,
{
    assert(oct0(from_octets(a, b, c, d)) == a) by (bit_vector);
    assert(oct1(from_octets(a, b, c, d)) == b) by (bit_vector);
    assert(oct2(from_octets(a, b, c, d)) == c) by (bit_vector);
    assert(oct3(from_octets(a, b, c, d)) == d) by (bit_vector);
}

/// An address is the join of its own octets.
pub proof fn lemma_join_octets(x: u32)
    ensures
        from_octets(oct0(x), oct1(x), oct2(x), oct3(x)) == x,
{
    assert(from_octets(oct0(x), oct1(x), oct2(x), oct3(x)) == x) by (bit_vector);
}

/// Appends the dotted-quad text of `x` to `out`.
pub fn push_ipv4(out: &mut Vec<char>, x: u32)
    ensures
        final(out)@ == old(out)@ + ipv4_text(x),
{
    let a = (x >> 24u32) as u8;
    let b = (x >> 16u32) as u8;
    let c = (x >> 8u32) as u8;
    let d = x as u8;
    push_decimal(out, a as u64);
    out.push('.');
    push_decimal(out, b as u64);
    out.push('.');
    push_decimal(out, c as u64);
    out.push('.');
    push_decimal(out, d as u64);
    assert(out@ =~= old(out)@ + ipv4_text(x));
}

/// The dotted-quad text of `x`.
pub fn format_ipv4(x: u32) -> (s: String)
    ensures
        s@ == ipv4_text(x),
{
    let mut v: Vec<char> = Vec::new();
    push_ipv4(&mut v, x);
    assert(v@ =~= ipv4_text(x));
    string_of(v.as_slice())
}

/// The end of the run of digits that starts at `pos`.
fn digit_run_end(s: &[char], pos: usize) -> (e: usize)
    requires
        pos <= s.len(),
    ensures
        pos <= e <= s.len(),
        forall|k: int| pos <= k < e ==> is_digit(#[trigger] s@[k]),
        e == s.len() || !is_digit(s@[e as int]),
{
    let mut e = pos;
    while e < s.len() && char_is_digit(s[e])
        invariant
            pos <= e <= s.len(),
            forall|k: int| pos <= k < e ==> is_digit(#[trigger] s@[k]),
        decreases s.len() - e,
    {
        e = e + 1;
    }
    e
}

/// Where a digit run that holds `dec(o)` at `pos` ends.
proof fn lemma_run_end(s: Seq<char>, pos: int, e: int, o: nat)
    requires
        0 <= pos <= e <= s.len(),
        forall|k: int| pos <= k < e ==> is_digit(#[trigger] s[k]),
        e == s.len() || !is_digit(s[e]),
        pos + dec(o).len() <= s.len(),
        s.subrange(pos, pos + dec(o).len()) == dec(o),
        pos + dec(o).len() == s.len() || !is_digit(s[pos + dec(o).len()]),
    ensures
        e == pos + dec(o).len(),
{
    lemma_dec(o);
    let n = dec(o).len();
    if e < pos + n {
        assert(s[e] == s.subrange(pos, pos + n)[e - pos]);
    } else if e > pos + n {
        assert(is_digit(s[pos + n]));
    }
}

/// Whether the rendering of `o` stands at `pos` in `s` as a whole digit run.
pub open spec fn field_at(s: Seq<char>, pos: int, o: u8) -> bool {
    &&& 0 <= pos
    &&& pos + dec(o as nat).len() <= s.len()
    &&& s.subrange(pos, pos + dec(o as nat).len()) == dec(o as nat)
    &&& (pos + dec(o as nat).len() == s.len() || !is_digit(s[pos + dec(o as nat).len()]))
}

/// Reads one octet at `pos`: a digit run that is the canonical rendering of a byte.
fn parse_field(s: &[char], pos: usize) -> (r: Option<(u8, usize)>)
    requires
        pos <= s.len(),
    ensures
        r matches Some((v, e)) ==> {
            &&& pos < e <= s.len()
            &&& s@.subrange(pos as int, e as int) == dec(v as nat)
            &&& (e == s.len() || !is_digit(s@[e as int]))
        },
        forall|o: u8| #[trigger] field_at(s@, pos as int, o) ==> r == Some((o, (pos + dec(o as nat).len()) as usize)),
{
    let e = digit_run_end(s, pos);
    let field = vstd::slice::slice_subrange(s, pos, e);
    match parse_octet(field) {
        Some(v) => {
            proof {
                lemma_dec(v as nat);
                assert forall|o: u8| #[trigger] field_at(s@, pos as int, o) implies Some((v, e))
                    == Some((o, (pos + dec(o as nat).len()) as usize)) by {
                    lemma_run_end(s@, pos as int, e as int, o as nat);
                    lemma_dec_injective(v as nat, o as nat);
                }
            }
            Some((v, e))
        },
        None => {
            proof {
                assert forall|o: u8| #[trigger] field_at(s@, pos as int, o) implies false by {
                    lemma_run_end(s@, pos as int, e as int, o as nat);
                    assert(field@ == dec(o as nat));
                }
            }
            None
        },
    }
}

/// The pieces of `quad_text` sit where the parser looks for them.
proof fn lemma_quad_layout(s: Seq<char>, a: u8, b: u8, c: u8, d: u8)
    requires
        s == quad_text(a as nat, b as nat, c as nat, d as nat),
    ensures
        ({
            let la = dec(a as nat).len() as int;
            let lb = dec(b as nat).len() as int;
            let lc = dec(c as nat).len() as int;
            let ld = dec(d as nat).len() as int;
            &&& s.len() == la + lb + lc + ld + 3
            &&& s.subrange(0, la) == dec(a as nat)
            &&& s[la] == '.'
            &&& s.subrange(la + 1, la + 1 + lb) == dec(b as nat)
            &&& s[la + 1 + lb] == '.'
            &&& s.subrange(la + lb + 2, la + lb + 2 + lc) == dec(c as nat)
            &&& s[la + lb + 2 + lc] == '.'
            &&& s.subrange(la + lb + lc + 3, s.len() as int) == dec(d as nat)
        }),
{
    let la = dec(a as nat).len() as int;
    let lb = dec(b as nat).len() as int;
    let lc = dec(c as nat).len() as int;
    assert(s.subrange(0, la) =~= dec(a as nat));
    assert(s.subrange(la + 1, la + 1 + lb) =~= dec(b as nat));
    assert(s.subrange(la + lb + 2, la + lb + 2 + lc) =~= dec(c as nat));
    assert(s.subrange(la + lb + lc + 3, s.len() as int) =~= dec(d as nat));
}

/// Where the octets of `x` sit in `ipv4_text(x)`, in the shape `parse_field` is stated in.
proof fn lemma_text_fields(s: Seq<char>, x: u32)
    requires
        s == ipv4_text(x),
    ensures
        ({
            let la = dec(oct0(x) as nat).len() as int;
            let lb = dec(oct1(x) as nat).len() as int;
            let lc = dec(oct2(x) as nat).len() as int;
            &&& field_at(s, 0, oct0(x))
            &&& la < s.len() && s[la] == '.'
            &&& field_at(s, la + 1, oct1(x))
            &&& la + 1 + lb < s.len() && s[la + 1 + lb] == '.'
            &&& field_at(s, la + lb + 2, oct2(x))
            &&& la + lb + 2 + lc < s.len() && s[la + lb + 2 + lc] == '.'
            &&& field_at(s, la + lb + lc + 3, oct3(x))
            &&& la + lb + lc + 3 + dec(oct3(x) as nat).len() == s.len()
        }),
{
    lemma_quad_layout(s, oct0(x), oct1(x), oct2(x), oct3(x));
    lemma_dec(oct0(x) as nat);
    lemma_dec(oct1(x) as nat);
    lemma_dec(oct2(x) as nat);
    lemma_dec(oct3(x) as nat);
}

/// Four fields separated by dots make up the dotted-quad text of their octets.
proof fn lemma_join_fields(s: Seq<char>, e1: int, e2: int, e3: int, a: u8, b: u8, c: u8, d: u8)
    requires
        0 < e1 < e2 < e3 < s.len(),
        s.subrange(0, e1) == dec(a as nat),
        s[e1] == '.',
        s.subrange(e1 + 1, e2) == dec(b as nat),
        s[e2] == '.',
        s.subrange(e2 + 1, e3) == dec(c as nat),
        s[e3] == '.',
        s.subrange(e3 + 1, s.len() as int) == dec(d as nat),
    ensures
        s == quad_text(a as nat, b as nat, c as nat, d as nat),
{
    assert(s =~= s.subrange(0, e1) + seq!['.'] + s.subrange(e1 + 1, e2) + seq!['.'] + s.subrange(
        e2 + 1,
        e3,
    ) + seq!['.'] + s.subrange(e3 + 1, s.len() as int));
}

/// Reads a dotted-quad address. `None` exactly when `s` is not the rendering of any address.
#[verifier::rlimit(40)]
pub fn parse_ipv4(s: &[char]) -> (r: Option<u32>)
    ensures
        r matches Some(x) ==> s@ == ipv4_text(x),
        r is None ==> forall|x: u32| s@ != #[trigger] ipv4_text(x),
{
    let f1 = parse_field(s, 0);
    let (a, e1) = match f1 {
        Some(p) => p,
        None => {
            proof {
                assert forall|x: u32| s@ != #[trigger] ipv4_text(x) by {
                    if s@ == ipv4_text(x) {
                        lemma_text_fields(s@, x);
                    }
                }
            }
            return None;
        },
    };
    if e1 >= s.len() || s[e1] != '.' {
        proof {
            assert forall|x: u32| s@ != #[trigger] ipv4_text(x) by {
                if s@ == ipv4_text(x) {
                    lemma_text_fields(s@, x);
                }
            }
        }
        return None;
    }
    let f2 = parse_field(s, e1 + 1);
    let (b, e2) = match f2 {
        Some(p) => p,
        None => {
            proof {
                assert forall|x: u32| s@ != #[trigger] ipv4_text(x) by {
                    if s@ == ipv4_text(x) {
                        lemma_text_fields(s@, x);
                    }
                }
            }
            return None;
        },
    };
    if e2 >= s.len() || s[e2] != '.' {
        proof {
            assert forall|x: u32| s@ != #[trigger] ipv4_text(x) by {
                if s@ == ipv4_text(x) {
                    lemma_text_fields(s@, x);
                }
            }
        }
        return None;
    }
    let f3 = parse_field(s, e2 + 1);
    let (c, e3) = match f3 {
        Some(p) => p,
        None => {
            proof {
                assert forall|x: u32| s@ != #[trigger] ipv4_text(x) by {
                    if s@ == ipv4_text(x) {
                        lemma_text_fields(s@, x);
                    }
                }
            }
            return None;
        },
    };
    if e3 >= s.len() || s[e3] != '.' {
        proof {
            assert forall|x: u32| s@ != #[trigger] ipv4_text(x) by {
                if s@ == ipv4_text(x) {
                    lemma_text_fields(s@, x);
                }
            }
        }
        return None;
    }
    let f4 = parse_field(s, e3 + 1);
    let (d, e4) = match f4 {
        Some(p) => p,
        None => {
            proof {
                assert forall|x: u32| s@ != #[trigger] ipv4_text(x) by {
                    if s@ == ipv4_text(x) {
                        lemma_text_fields(s@, x);
                    }
                }
            }
            return None;
        },
    };
    if e4 != s.len() {
        proof {
            assert forall|x: u32| s@ != #[trigger] ipv4_text(x) by {
                if s@ == ipv4_text(x) {
                    lemma_text_fields(s@, x);
                }
            }
        }
        return None;
    }
    let x: u32 = ((a as u32) << 24u32) | ((b as u32) << 16u32) | ((c as u32) << 8u32) | (
        d as u32);
    assert(x == from_octets(a, b, c, d));
    proof {
        lemma_octets(a, b, c, d);
        lemma_join_fields(s@, e1 as int, e2 as int, e3 as int, a, b, c, d);
    }
    Some(x)
}

/// Parsing the rendering of an address gives the address back.
pub proof fn lemma_ipv4_text_injective(x: u32, y: u32)
    requires
        ipv4_text(x) == ipv4_text(y),
    ensures
        x == y,
{
    let s = ipv4_text(x);
    lemma_quad_layout(s, oct0(x), oct1(x), oct2(x), oct3(x));
    lemma_quad_layout(s, oct0(y), oct1(y), oct2(y), oct3(y));
    lemma_dec(oct0(x) as nat);
    lemma_dec(oct0(y) as nat);
    lemma_dec(oct1(x) as nat);
    lemma_dec(oct1(y) as nat);
    lemma_dec(oct2(x) as nat);
    lemma_dec(oct2(y) as nat);
    lemma_dec(oct3(x) as nat);
    lemma_dec(oct3(y) as nat);
    let la = dec(oct0(x) as nat).len() as int;
    let lb = dec(oct0(y) as nat).len() as int;
    // The first field is the digit run before the first dot, in both readings.
    assert(la == lb) by {
        if la < lb {
            assert(s[la] == dec(oct0(y) as nat)[la]);
        } else if lb < la {
            assert(s[lb] == dec(oct0(x) as nat)[lb]);
        }
    }
    lemma_dec_injective(oct0(x) as nat, oct0(y) as nat);
    let lb1 = dec(oct1(x) as nat).len() as int;
    let lb2 = dec(oct1(y) as nat).len() as int;
    assert(lb1 == lb2) by {
        if lb1 < lb2 {
            assert(s[la + 1 + lb1] == dec(oct1(y) as nat)[lb1]);
        } else if lb2 < lb1 {
            assert(s[la + 1 + lb2] == dec(oct1(x) as nat)[lb2]);
        }
    }
    lemma_dec_injective(oct1(x) as nat, oct1(y) as nat);
    let lc1 = dec(oct2(x) as nat).len() as int;
    let lc2 = dec(oct2(y) as nat).len() as int;
    assert(lc1 == lc2) by {
        if lc1 < lc2 {
            assert(s[la + lb1 + 2 + lc1] == dec(oct2(y) as nat)[lc1]);
        } else if lc2 < lc1 {
            assert(s[la + lb1 + 2 + lc2] == dec(oct2(x) as nat)[lc2]);
        }
    }
    lemma_dec_injective(oct2(x) as nat, oct2(y) as nat);
    lemma_dec_injective(oct3(x) as nat, oct3(y) as nat);
    lemma_join_octets(x);
    lemma_join_octets(y);
}

/// Reading back the text of an address gives the address: `parse_ipv4(format_ipv4(x)) ==
/// Some(x)`, stated over the parser's and the formatter's contracts.
pub proof fn law_ipv4_text_round_trip(x: u32, r: Option<u32>)
    requires
        r matches Some(y) ==> ipv4_text(x) == ipv4_text(y),
        r is None ==> forall|y: u32| ipv4_text(x) != #[trigger] ipv4_text(y),
    ensures
        r == Some(x),
{
    if let Some(y) = r {
        lemma_ipv4_text_injective(x, y);
    } else {
        let t = ipv4_text(x);
        assert(t != ipv4_text(x));
    }
}

/// Reads dotted-quad text.
pub fn parse_ipv4_str(s: &str) -> (r: Option<u32>)
    ensures
        r matches Some(x) ==> s@ == ipv4_text(x),
        r is None ==> forall|x: u32| s@ != #[trigger] ipv4_text(x),
{
    let v = chars_of(s);
    parse_ipv4(v.as_slice())
}

} // verus!
