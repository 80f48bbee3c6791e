//! The wide-character encoding the target binary stores its strings in.
//!
//! Host strings are sequences of Unicode scalar values; the foreign side
//! keeps length-prefixed buffers of 16-bit code units, with characters
//! beyond the basic plane split into a surrogate pair. Encoding and
//! decoding here are exact inverses, proved in
//! [`lemma_utf16_round_trip`].

use vstd::prelude::*;

use vstd::utf8::char_is_scalar;
use vstd::utf8::char_u32_cast;
use vstd::utf8::is_scalar;

verus! {

/// The code units of one character: one unit below `0x10000`, otherwise a
/// high/low surrogate pair.
pub open spec fn utf16_encode_char(c: char) -> Seq<u16> {
    let v = c as u32;
    if v < 0x10000 {
        seq![v as u16]
    } else {
        seq![
            (0xd800 + (v - 0x10000) / 0x400) as u16,
            (0xdc00 + (v - 0x10000) % 0x400) as u16,
        ]
    }
}

/// The code units of a whole character sequence, in order.
pub open spec fn utf16_encode(s: Seq<char>) -> Seq<u16>
    decreases s.len(),
{
    if s.len() == 0 {
        seq![]
    } else {
        utf16_encode_char(s[0]) + utf16_encode(s.drop_first())
    }
}

/// Whether `u` is the leading unit of a surrogate pair.
pub open spec fn is_high_surrogate(u: u16) -> bool {
    0xd800 <= u < 0xdc00
}

/// Whether `u` is the trailing unit of a surrogate pair.
pub open spec fn is_low_surrogate(u: u16) -> bool {
    0xdc00 <= u < 0xe000
}

/// The scalar value a surrogate pair stands for.
pub open spec fn combine_surrogates(hi: u16, lo: u16) -> u32
    recommends
        is_high_surrogate(hi),
        is_low_surrogate(lo),
{
    (0x10000 + (hi - 0xd800) * 0x400 + (lo - 0xdc00)) as u32
}

/// The characters a code-unit sequence denotes: a lone non-surrogate unit
/// is a character of its own value, a high surrogate must be followed by a
/// low one, and anything else makes the sequence invalid.
pub open spec fn utf16_decode(u: Seq<u16>) -> Option<Seq<char>>
    decreases u.len(),
{
    if u.len() == 0 {
        Some(seq![])
    } else if !is_high_surrogate(u[0]) && !is_low_surrogate(u[0]) {
        match utf16_decode(u.drop_first()) {
            Some(rest) => Some(seq![(u[0] as u32) as char] + rest),
            None => None,
        }
    } else if is_high_surrogate(u[0]) && u.len() >= 2 && is_low_surrogate(u[1]) {
        match utf16_decode(u.skip(2)) {
            Some(rest) => Some(seq![combine_surrogates(u[0], u[1]) as char] + rest),
            None => None,
        }
    } else {
        None
    }
}

/// Decoding inverts encoding: every host string comes back from its
/// foreign wide form unchanged.
pub proof fn lemma_utf16_round_trip(s: Seq<char>)
    ensures
        utf16_decode(utf16_encode(s)) == Some(s),
    decreases s.len(),
{
    if s.len() == 0 {
        assert(utf16_encode(s) =~= Seq::<u16>::empty());
        assert(utf16_decode(utf16_encode(s)).unwrap() =~= s);
    } else {
        let c = s[0];
        let v = c as u32;
        char_is_scalar(c);
        lemma_utf16_round_trip(s.drop_first());
        let enc = utf16_encode(s);
        let rest_enc = utf16_encode(s.drop_first());
        if v < 0x10000 {
            let u0 = v as u16;
            assert(enc =~= seq![u0] + rest_enc);
            assert(enc[0] == u0);
            assert(!is_high_surrogate(u0) && !is_low_surrogate(u0));
            assert(enc.drop_first() =~= rest_enc);
            assert((u0 as u32) == v);
            char_u32_cast(c, v);
            assert(utf16_decode(enc).unwrap() =~= s);
        } else {
            let d = (v - 0x10000) as u32;
            assert(d <= 0xfffff);
            assert(d / 0x400 <= 0x3ff && d % 0x400 < 0x400 && d == 0x400 * (d / 0x400) + d
                % 0x400) by (nonlinear_arith)
                requires
                    d <= 0xfffff,
            ;
            let hi = (0xd800 + d / 0x400) as u16;
            let lo = (0xdc00 + d % 0x400) as u16;
            assert(enc =~= seq![hi, lo] + rest_enc);
            assert(is_high_surrogate(hi) && is_low_surrogate(lo));
            assert(enc.skip(2) =~= rest_enc);
            assert(combine_surrogates(hi, lo) == v);
            char_u32_cast(c, v);
            assert(utf16_decode(enc).unwrap() =~= s);
        }
    }
}

/// Encodes a host string into foreign code units.
pub fn encode_utf16(s: &str) -> (r: Vec<u16>)
    ensures
        r@ == utf16_encode(s@),
{
    let chars = crate::strutil::chars_of(s);
    let n = chars.len();
    let mut out: Vec<u16> = Vec::new();
    proof {
        assert(chars@.skip(0) =~= chars@);
    }
    let mut i: usize = 0;
    while i < n
        invariant
            i <= n,
            n == chars@.len(),
            chars@ == s@,
            utf16_encode(s@) =~= out@ + utf16_encode(chars@.skip(i as int)),
        decreases n - i,
    {
        let c = chars[i];
        proof {
            char_is_scalar(c);
            assert(chars@.skip(i as int)[0] == chars@[i as int]);
            assert(chars@.skip(i as int).drop_first() =~= chars@.skip(i + 1));
        }
        let v = c as u32;
        if v < 0x10000 {
            out.push(v as u16);
        } else {
            let d = v - 0x10000;
            proof {
                assert(d / 0x400 <= 0x3ff && d % 0x400 < 0x400) by (nonlinear_arith)
                    requires
                        d <= 0xfffff,
                ;
            }
            out.push(0xd800 + (d / 0x400) as u16);
            out.push(0xdc00 + (d % 0x400) as u16);
        }
        i = i + 1;
    }
    proof {
        assert(chars@.skip(n as int) =~= Seq::<char>::empty());
        assert(out@ =~= utf16_encode(s@));
    }
    out
}

/// Relies on `char::from_u32`: it returns `Some` exactly for Unicode
/// scalar values, and the character has the value passed in.
#[verifier::external_body]
fn char_from_u32(v: u32) -> (c: char)
    requires
        is_scalar(v),
    ensures
        c as u32 == v,
{
    char::from_u32(v).unwrap()
}

/// Combines an already-decoded prefix with the outcome of the remaining
/// units, the shape `decode_utf16`'s loop maintains.
spec fn decoded_with_prefix(done: Seq<char>, rest: Option<Seq<char>>) -> Option<Seq<char>> {
    match rest {
        Some(cs) => Some(done + cs),
        None => None,
    }
}

/// Decodes foreign code units back into host characters; `None` exactly
/// when the units are not a valid encoding.
pub fn decode_utf16(units: &[u16]) -> (r: Option<Vec<char>>)
    ensures
        match r {
            Some(cs) => utf16_decode(units@) == Some(cs@),
            None => utf16_decode(units@) is None,
        },
{
    let n = units.len();
    let mut out: Vec<char> = Vec::new();
    let mut i: usize = 0;
    proof {
        assert(units@.skip(0) =~= units@);
        if utf16_decode(units@) is Some {
            assert(out@ + utf16_decode(units@).unwrap() =~= utf16_decode(units@).unwrap());
        }
    }
    while i < n
        invariant
            i <= n,
            n == units@.len(),
            utf16_decode(units@) == decoded_with_prefix(
                out@,
                utf16_decode(units@.skip(i as int)),
            ),
        decreases n - i,
    {
        let u = units[i];
        proof {
            assert(units@.skip(i as int)[0] == units@[i as int]);
            assert(units@.skip(i as int).drop_first() =~= units@.skip(i + 1));
        }
        if u < 0xd800 || u >= 0xe000 {
            proof {
                if utf16_decode(units@.skip(i as int + 1)) is Some {
                    assert(out@ + (seq![(u as u32) as char] + utf16_decode(
                        units@.skip(i as int + 1),
                    ).unwrap()) =~= out@.push((u as u32) as char) + utf16_decode(
                        units@.skip(i as int + 1),
                    ).unwrap());
                }
            }
            out.push(char_from_u32(u as u32));
            i = i + 1;
        } else if u < 0xdc00 && i + 1 < n && 0xdc00 <= units[i + 1] && units[i + 1] < 0xe000 {
            let lo = units[i + 1];
            let d: u32 = (u as u32 - 0xd800) * 0x400 + (lo as u32 - 0xdc00);
            proof {
                assert((u as u32 - 0xd800) * 0x400 <= 0x3ff * 0x400) by (nonlinear_arith)
                    requires
                        u as u32 - 0xd800 <= 0x3ff,
                ;
                assert(units@.skip(i as int)[1] == units@[i as int + 1]);
                assert(units@.skip(i as int).skip(2) =~= units@.skip(i as int + 2));
                assert(combine_surrogates(u, lo) == 0x10000 + d);
                if utf16_decode(units@.skip(i as int + 2)) is Some {
                    assert(out@ + (seq![combine_surrogates(u, lo) as char] + utf16_decode(
                        units@.skip(i as int + 2),
                    ).unwrap()) =~= out@.push(combine_surrogates(u, lo) as char)
                        + utf16_decode(units@.skip(i as int + 2)).unwrap());
                }
            }
            out.push(char_from_u32(0x10000 + d));
            i = i + 2;
        } else {
            proof {
                assert(utf16_decode(units@.skip(i as int)) is None);
            }
            return None;
        }
    }
    proof {
        assert(units@.skip(n as int) =~= Seq::<u16>::empty());
        assert(out@ + Seq::<char>::empty() =~= out@);
    }
    Some(out)
}

} // verus!
