//! UTF-16 encoding and decoding of character sequences.
//!
//! The layout service reports run boundaries in 16-bit code units, while the
//! source text is kept in its own encoding.  Mapping a run's code-unit range
//! back onto the source therefore goes through an explicit UTF-16 model:
//! [`encode_utf16`] and [`decode_utf16`] specify the encoding, and the
//! executable functions here are proved against them, including the
//! round-trip law [`lemma_encode_decode_utf16`].

use vstd::prelude::*;
use vstd::string::StrSliceExecFns;
use vstd::arithmetic::div_mod::lemma_fundamental_div_mod;
use vstd::utf8::{char_is_scalar, char_u32_cast, is_scalar};

verus! {

/// A 16-bit unit in the range reserved for the first unit of a pair.
pub open spec fn is_high_surrogate(u: u16) -> bool {
    0xD800 <= u <= 0xDBFF
}

/// A 16-bit unit in the range reserved for the second unit of a pair.
pub open spec fn is_low_surrogate(u: u16) -> bool {
    0xDC00 <= u <= 0xDFFF
}

/// A 16-bit unit that cannot stand alone for a character.
pub open spec fn is_surrogate(u: u16) -> bool {
    0xD800 <= u <= 0xDFFF
}

/// The scalar value encoded by a surrogate pair.
pub open spec fn pair_scalar(hi: u16, lo: u16) -> int {
    0x10000 + (hi - 0xD800) * 0x400 + (lo - 0xDC00)
}

/// The UTF-16 encoding of one character: one unit for a value below
/// 0x10000, a surrogate pair otherwise.
pub open spec fn encode_char_utf16(c: char) -> Seq<u16> {
    let v: u32 = c as u32;
    if v < 0x10000 {
        seq![v as u16]
    } else {
        seq![
            (0xD800 + (v - 0x10000) / 0x400) as u16,
            (0xDC00 + (v - 0x10000) % 0x400) as u16,
        ]
    }
}

/// The UTF-16 encoding of a character sequence.
pub open spec fn encode_utf16(chars: Seq<char>) -> Seq<u16>
    decreases chars.len(),
{
    if chars.len() == 0 {
        Seq::empty()
    } else {
        encode_char_utf16(chars[0]) + encode_utf16(chars.drop_first())
    }
}

/// The character sequence encoded by the given units, or `None` when the
/// units are not a valid UTF-16 encoding (a lone or misordered surrogate).
pub open spec fn decode_utf16(units: Seq<u16>) -> Option<Seq<char>>
    decreases units.len(),
{
    if units.len() == 0 {
        Some(Seq::empty())
    } else if !is_surrogate(units[0]) {
        match decode_utf16(units.drop_first()) {
            Some(rest) => Some(seq![(units[0] as u32) as char] + rest),
            None => None,
        }
    } else if is_high_surrogate(units[0]) && units.len() >= 2 && is_low_surrogate(units[1]) {
        match decode_utf16(units.skip(2)) {
            Some(rest) => Some(seq![(pair_scalar(units[0], units[1]) as u32) as char] + rest),
            None => None,
        }
    } else {
        None
    }
}

/// Prefixing the decoded characters, propagating a decoding failure.
pub open spec fn prepend_chars(prefix: Seq<char>, rest: Option<Seq<char>>) -> Option<Seq<char>> {
    match rest {
        Some(r) => Some(prefix + r),
        None => None,
    }
}

/// The shape of a single character's encoding: a character below 0x10000
/// becomes one non-surrogate unit carrying its value, any other becomes a
/// high surrogate followed by a low one.
pub proof fn lemma_encode_char_utf16_facts(c: char)
    ensures
        (c as u32) < 0x10000 ==> {
            &&& encode_char_utf16(c).len() == 1
            &&& encode_char_utf16(c)[0] == c as u32
            &&& !is_surrogate(encode_char_utf16(c)[0])
        },
        (c as u32) >= 0x10000 ==> {
            &&& encode_char_utf16(c).len() == 2
            &&& is_high_surrogate(encode_char_utf16(c)[0])
            &&& is_low_surrogate(encode_char_utf16(c)[1])
            &&& pair_scalar(encode_char_utf16(c)[0], encode_char_utf16(c)[1]) == c as u32
        },
{
    char_is_scalar(c);
    let v: u32 = c as u32;
    if v >= 0x10000 {
        let w: int = v - 0x10000;
        assert(0 <= w <= 0xFFFFF);
        assert(0 <= w / 0x400 <= 0x3FF) by (nonlinear_arith)
            requires 0 <= w <= 0xFFFFF;
        assert(0 <= w % 0x400 <= 0x3FF) by (nonlinear_arith)
            requires 0 <= w;
        lemma_fundamental_div_mod(w, 0x400);
    }
}

/// Decoding after encoding one character in front of any unit tail peels
/// that character back off.
pub proof fn lemma_decode_utf16_prepend_char(c: char, tail: Seq<u16>)
    ensures
        decode_utf16(encode_char_utf16(c) + tail) == prepend_chars(seq![c], decode_utf16(tail)),
{
    char_is_scalar(c);
    lemma_encode_char_utf16_facts(c);
    char_u32_cast(c, c as u32);
    let s: Seq<u16> = encode_char_utf16(c) + tail;
    let v: u32 = c as u32;
    if v < 0x10000 {
        assert(s[0] == encode_char_utf16(c)[0]);
        assert((s[0] as u32) == v);
        assert(s.drop_first() =~= tail);
    } else {
        assert(s.len() >= 2);
        assert(s[0] == encode_char_utf16(c)[0]);
        assert(s[1] == encode_char_utf16(c)[1]);
        assert(pair_scalar(s[0], s[1]) as u32 == v);
        assert(s.skip(2) =~= tail);
    }
}

/// Round trip: decoding the encoding of any character sequence gives the
/// sequence back.
pub proof fn lemma_encode_decode_utf16(chars: Seq<char>)
    ensures
        decode_utf16(encode_utf16(chars)) == Some(chars),
    decreases chars.len(),
{
    if chars.len() == 0 {
        assert(encode_utf16(chars) =~= Seq::<u16>::empty());
        assert(Seq::<char>::empty() =~= chars);
    } else {
        lemma_encode_decode_utf16(chars.drop_first());
        lemma_decode_utf16_prepend_char(chars[0], encode_utf16(chars.drop_first()));
        assert(seq![chars[0]] + chars.drop_first() =~= chars);
    }
}

/// Encoding distributes over concatenation.
pub proof fn lemma_encode_utf16_concat(a: Seq<char>, b: Seq<char>)
    ensures
        encode_utf16(a + b) == encode_utf16(a) + encode_utf16(b),
    decreases a.len(),
{
    if a.len() == 0 {
        assert(a + b =~= b);
        assert(encode_utf16(a) + encode_utf16(b) =~= encode_utf16(b));
    } else {
        assert((a + b).drop_first() =~= a.drop_first() + b);
        lemma_encode_utf16_concat(a.drop_first(), b);
        assert(encode_utf16(a + b) =~= encode_utf16(a) + encode_utf16(b));
    }
}

/// Extending an encoded prefix by one character.
pub proof fn lemma_encode_utf16_take_snoc(chars: Seq<char>, i: int)
    requires
        0 <= i < chars.len(),
    ensures
        encode_utf16(chars.take(i + 1)) == encode_utf16(chars.take(i)) + encode_char_utf16(
            chars[i],
        ),
{
    assert(chars.take(i + 1) =~= chars.take(i) + seq![chars[i]]);
    lemma_encode_utf16_concat(chars.take(i), seq![chars[i]]);
    assert(seq![chars[i]].drop_first() =~= Seq::<char>::empty());
    assert(encode_utf16(Seq::<char>::empty()) =~= Seq::<u16>::empty());
    assert(encode_utf16(seq![chars[i]]) =~= encode_char_utf16(chars[i]) + encode_utf16(
        Seq::<char>::empty(),
    ));
    assert(encode_char_utf16(chars[i]) + Seq::<u16>::empty() =~= encode_char_utf16(chars[i]));
}

/// The whole-range slice of a text's encoding maps back to the text itself.
pub proof fn lemma_mapped_text_whole(chars: Seq<char>)
    ensures
        mapped_text(encode_utf16(chars), 0, encode_utf16(chars).len() as int) == chars,
{
    lemma_encode_decode_utf16(chars);
    assert(encode_utf16(chars).subrange(0, encode_utf16(chars).len() as int) =~= encode_utf16(
        chars,
    ));
}

/// Relies on char::from_u32: returns the character with the given value
/// exactly when the value is a Unicode scalar value.
pub assume_specification[ char::from_u32 ](v: u32) -> (r: Option<char>)
    ensures
        r is Some <==> is_scalar(v),
        r is Some ==> r->0 as u32 == v,
;

/// Relies on String::push: appends the given character to the end of the
/// string.
pub assume_specification[ String::push ](s: &mut String, c: char)
    ensures
        final(s)@ == old(s)@.push(c),
;

/// Appends the UTF-16 encoding of one character.
fn push_char_units(units: &mut Vec<u16>, c: char)
    ensures
        final(units)@ == old(units)@ + encode_char_utf16(c),
{
    proof {
        char_is_scalar(c);
        lemma_encode_char_utf16_facts(c);
    }
    let v: u32 = c as u32;
    if v < 0x10000 {
        units.push(v as u16);
        proof {
            assert(units@ =~= old(units)@ + encode_char_utf16(c));
        }
    } else {
        let w: u32 = v - 0x10000;
        let hi: u32 = 0xD800 + w / 0x400;
        let lo: u32 = 0xDC00 + w % 0x400;
        units.push(hi as u16);
        units.push(lo as u16);
        proof {
            assert(units@ =~= old(units)@ + encode_char_utf16(c));
        }
    }
}

/// Encodes the whole source text once into its 16-bit code units.
pub fn encode_utf16_units(text: &str) -> (units: Vec<u16>)
    ensures
        units@ == encode_utf16(text@),
{
    let n: usize = text.unicode_len();
    let mut units: Vec<u16> = Vec::new();
    let mut i: usize = 0;
    while i < n
        invariant
            i <= n,
            n == text@.len(),
            units@ == encode_utf16(text@.take(i as int)),
        decreases n - i,
    {
        let c = text.get_char(i);
        push_char_units(&mut units, c);
        proof {
            lemma_encode_utf16_take_snoc(text@, i as int);
        }
        i = i + 1;
    }
    proof {
        assert(text@.take(n as int) =~= text@);
    }
    units
}

/// One decoding step on a non-surrogate head unit.
proof fn lemma_decode_step_single(u: Seq<u16>, i: int)
    requires
        0 <= i < u.len(),
        !is_surrogate(u[i]),
    ensures
        decode_utf16(u.skip(i)) == prepend_chars(
            seq![(u[i] as u32) as char],
            decode_utf16(u.skip(i + 1)),
        ),
{
    assert(u.skip(i)[0] == u[i]);
    assert(u.skip(i).drop_first() =~= u.skip(i + 1));
}

/// One decoding step on a well-formed surrogate pair.
proof fn lemma_decode_step_pair(u: Seq<u16>, i: int)
    requires
        0 <= i,
        i + 2 <= u.len(),
        is_high_surrogate(u[i]),
        is_low_surrogate(u[i + 1]),
    ensures
        decode_utf16(u.skip(i)) == prepend_chars(
            seq![(pair_scalar(u[i], u[i + 1]) as u32) as char],
            decode_utf16(u.skip(i + 2)),
        ),
{
    assert(u.skip(i)[0] == u[i]);
    assert(u.skip(i)[1] == u[i + 1]);
    assert(u.skip(i).skip(2) =~= u.skip(i + 2));
}

/// A lone or misordered surrogate stops decoding.
proof fn lemma_decode_step_invalid(u: Seq<u16>, i: int)
    requires
        0 <= i < u.len(),
        is_surrogate(u[i]),
        !(is_high_surrogate(u[i]) && i + 2 <= u.len() && is_low_surrogate(u[i + 1])),
    ensures
        decode_utf16(u.skip(i)) is None,
{
    assert(u.skip(i)[0] == u[i]);
    if i + 2 <= u.len() {
        assert(u.skip(i)[1] == u[i + 1]);
    }
}

/// Combining decoded parts: peeling characters off in front one at a time
/// agrees with peeling them as one prefix.
proof fn lemma_prepend_chars_assoc(a: Seq<char>, b: Seq<char>, rest: Option<Seq<char>>)
    ensures
        prepend_chars(a + b, rest) == prepend_chars(a, prepend_chars(b, rest)),
{
    match rest {
        Some(r) => {
            assert((a + b) + r =~= a + (b + r));
        },
        None => {},
    }
}

/// Decodes 16-bit code units back to text; `None` when the units are not a
/// valid UTF-16 encoding.
pub fn decode_utf16_units(units: &[u16]) -> (r: Option<String>)
    ensures
        match r {
            Some(s) => decode_utf16(units@) == Some(s@),
            None => decode_utf16(units@) is None,
        },
{
    let n: usize = units.len();
    let mut out = String::new();
    let mut i: usize = 0;
    proof {
        assert(units@.skip(0) =~= units@);
        assert(Seq::<char>::empty() + decode_utf16(units@)->0 =~= decode_utf16(units@)->0);
    }
    while i < n
        invariant
            i <= n,
            n == units@.len(),
            decode_utf16(units@) == prepend_chars(out@, decode_utf16(units@.skip(i as int))),
        decreases n - i,
    {
        let ghost prev = out@;
        let u0: u16 = units[i];
        if !(0xD800 <= u0 && u0 <= 0xDFFF) {
            proof {
                lemma_decode_step_single(units@, i as int);
            }
            let c = match char::from_u32(u0 as u32) {
                Some(c) => c,
                None => {
                    proof {
                        assert(is_scalar(u0 as u32));
                    }
                    return None;
                },
            };
            out.push(c);
            proof {
                char_u32_cast(c, u0 as u32);
                assert(out@ =~= prev + seq![c]);
                lemma_prepend_chars_assoc(
                    prev,
                    seq![c],
                    decode_utf16(units@.skip(i as int + 1)),
                );
            }
            i = i + 1;
        } else if u0 <= 0xDBFF && i + 1 < n && 0xDC00 <= units[i + 1] && units[i + 1] <= 0xDFFF {
            let u1: u16 = units[i + 1];
            proof {
                lemma_decode_step_pair(units@, i as int);
            }
            let v: u32 = 0x10000 + (u0 as u32 - 0xD800) * 0x400 + (u1 as u32 - 0xDC00);
            proof {
                assert(v == pair_scalar(u0, u1));
                assert(is_scalar(v));
            }
            let c = match char::from_u32(v) {
                Some(c) => c,
                None => {
                    proof {
                        assert(false);
                    }
                    return None;
                },
            };
            out.push(c);
            proof {
                char_u32_cast(c, v);
                assert(out@ =~= prev + seq![c]);
                lemma_prepend_chars_assoc(
                    prev,
                    seq![c],
                    decode_utf16(units@.skip(i as int + 2)),
                );
            }
            i = i + 2;
        } else {
            proof {
                lemma_decode_step_invalid(units@, i as int);
            }
            return None;
        }
    }
    proof {
        assert(units@.skip(n as int) =~= Seq::<u16>::empty());
        assert(out@ + Seq::<char>::empty() =~= out@);
    }
    Some(out)
}

/// The text a code-unit range stands for: the decoding of the
/// `[start, start + len)` slice, or empty when the bounds or the slice
/// itself are invalid.
pub open spec fn mapped_text(units: Seq<u16>, start: int, len: int) -> Seq<char> {
    if 0 <= start && 0 <= len && start + len <= units.len() {
        match decode_utf16(units.subrange(start, start + len)) {
            Some(cs) => cs,
            None => Seq::empty(),
        }
    } else {
        Seq::empty()
    }
}

/// Converts a run's 16-bit-unit range into the corresponding substring of
/// the source, given the source's cached encoding; empty on any invalid
/// range or split pair, rather than failing.
pub fn map_to_text(units: &Vec<u16>, start_units: usize, length_units: usize) -> (r: String)
    ensures
        r@ == mapped_text(units@, start_units as int, length_units as int),
{
    if start_units > units.len() || length_units > units.len() - start_units {
        let r = String::new();
        return r;
    }
    let sub = vstd::slice::slice_subrange(units.as_slice(), start_units, start_units + length_units);
    match decode_utf16_units(sub) {
        Some(s) => s,
        None => String::new(),
    }
}

} // verus!
