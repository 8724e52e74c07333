//! UTF-16 as Win32 speaks it: encoding characters into code units, and
//! decoding units back with unpaired surrogates replaced.

use vstd::prelude::*;

verus! {

/// The UTF-16 code units of one character: one unit inside the Basic
/// Multilingual Plane, a surrogate pair above it.
pub open spec fn char_units(c: char) -> Seq<u16> {
    if (c as u32) < 0x10000 {
        seq![c as u16]
    } else {
        seq![
            (0xD800 + ((c as u32) - 0x10000) / 0x400) as u16,
            (0xDC00 + ((c as u32) - 0x10000) % 0x400) as u16,
        ]
    }
}

/// The UTF-16 encoding of a character sequence.
pub open spec fn encode(s: Seq<char>) -> Seq<u16>
    decreases s.len(),
{
    if s.len() == 0 {
        Seq::empty()
    } else {
        encode(s.drop_last()) + char_units(s.last())
    }
}

/// How many UTF-16 units a character takes.
pub fn len_units(c: char) -> (n: usize)
    ensures
        n == char_units(c).len(),
{
    if (c as u32) < 0x10000 {
        1
    } else {
        2
    }
}

/// Writes the units of `c` into `buf` at `at`.
pub fn encode_into(c: char, buf: &mut [u16], at: usize) -> (n: usize)
    requires
        at + char_units(c).len() <= old(buf)@.len(),
    ensures
        n == char_units(c).len(),
        final(buf)@.len() == old(buf)@.len(),
        final(buf)@.subrange(at as int, at + n) == char_units(c),
        forall|j: int|
            0 <= j < final(buf)@.len() && !(at <= j < at + n) ==> final(buf)@[j] == old(buf)@[j],
{
    broadcast use vstd::utf8::char_is_scalar;
    let v = c as u32;
    if v < 0x10000 {
        buf[at] = v as u16;
        assert(final(buf)@.subrange(at as int, at + 1) =~= char_units(c));
        1
    } else {
        let w = v - 0x10000;
        buf[at] = (0xD800 + w / 0x400) as u16;
        buf[at + 1] = (0xDC00 + w % 0x400) as u16;
        assert(final(buf)@.subrange(at as int, at + 2) =~= char_units(c));
        2
    }
}

pub open spec fn is_lead_surrogate(u: u16) -> bool {
    0xD800 <= u <= 0xDBFF
}

pub open spec fn is_trail_surrogate(u: u16) -> bool {
    0xDC00 <= u <= 0xDFFF
}

/// U+FFFD, which stands in for a surrogate that has no partner.
pub open spec fn replacement() -> char {
    '\u{FFFD}'
}

/// The character a surrogate pair stands for.
pub open spec fn pair_value(lead: u16, trail: u16) -> u32 {
    (0x10000 + (lead - 0xD800) * 0x400 + (trail - 0xDC00)) as u32
}

/// Decodes UTF-16, each unpaired surrogate becoming U+FFFD.
pub open spec fn decode_lossy(units: Seq<u16>) -> Seq<char>
    decreases units.len(),
{
    if units.len() == 0 {
        Seq::empty()
    } else if units.len() >= 2 && is_lead_surrogate(units[0]) && is_trail_surrogate(units[1]) {
        seq![pair_value(units[0], units[1]) as char] + decode_lossy(units.skip(2))
    } else if is_lead_surrogate(units[0]) || is_trail_surrogate(units[0]) {
        seq![replacement()] + decode_lossy(units.skip(1))
    } else {
        seq![(units[0] as u32) as char] + decode_lossy(units.skip(1))
    }
}

/// Whether `v` is a Unicode scalar value, the numbers a `char` can hold.
pub open spec fn is_scalar_value(v: u32) -> bool {
    v <= 0x10FFFF && !(0xD800 <= v <= 0xDFFF)
}

/// The character with the given number, if it is a scalar value.
///
/// Calls `char::from_u32`, which the standard library documents as returning
/// `None` exactly for surrogates and for numbers above `char::MAX`, and the
/// character with that number otherwise.
#[verifier::external_body]
pub(crate) fn char_from_u32(v: u32) -> (c: Option<char>)
    ensures
        c is Some <==> is_scalar_value(v),
        c matches Some(ch) ==> ch as u32 == v,
{
    char::from_u32(v)
}


pub proof fn lemma_encode_front(t: Seq<char>)
    requires
        t.len() > 0,
    ensures
        encode(t) == char_units(t[0]) + encode(t.skip(1)),
    decreases t.len(),
{
    if t.len() == 1 {
        assert(t.drop_last() =~= Seq::<char>::empty());
        assert(t.skip(1) =~= Seq::<char>::empty());
        assert(encode(t) =~= char_units(t[0]) + encode(t.skip(1)));
    } else {
        lemma_encode_front(t.drop_last());
        assert(t.drop_last().skip(1) =~= t.skip(1).drop_last());
        assert(t.skip(1).last() == t.last());
        assert(encode(t) =~= char_units(t[0]) + encode(t.skip(1)));
    }
}

proof fn lemma_decode_char(c: char, rest: Seq<u16>)
    ensures
        decode_lossy(char_units(c) + rest) == seq![c] + decode_lossy(rest),
{
    broadcast use vstd::utf8::char_is_scalar;
    let v = c as u32;
    let units = char_units(c) + rest;
    if v < 0x10000 {
        assert(units[0] == v as u16);
        assert((v as u16) as u32 == v);
        vstd::utf8::char_u32_cast(c, v);
        assert(units.skip(1) =~= rest);
    } else {
        let w = (v - 0x10000) as int;
        assert(w <= 0xFFFFF);
        let lead = (0xD800 + w / 0x400) as u16;
        let trail = (0xDC00 + w % 0x400) as u16;
        assert(units[0] == lead && units[1] == trail);
        assert(is_lead_surrogate(lead) && is_trail_surrogate(trail));
        assert(pair_value(lead, trail) == v) by {
            assert((w / 0x400) * 0x400 + w % 0x400 == w);
        }
        vstd::utf8::char_u32_cast(c, v);
        assert(units.skip(2) =~= rest);
    }
}

/// Decoding what was encoded gives back the same characters: UTF-16 loses
/// nothing and invents no replacement character.
pub proof fn law_decode_inverts_encode(t: Seq<char>)
    ensures
        decode_lossy(encode(t)) == t,
    decreases t.len(),
{
    if t.len() > 0 {
        lemma_encode_front(t);
        lemma_decode_char(t[0], encode(t.skip(1)));
        law_decode_inverts_encode(t.skip(1));
        assert(seq![t[0]] + t.skip(1) =~= t);
    } else {
        assert(encode(t) =~= Seq::<u16>::empty());
    }
}

} // verus!
