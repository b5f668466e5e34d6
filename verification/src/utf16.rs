//! UTF-16 text: encoding characters to code units and lossy decoding, as used
//! by USB string descriptors.

use vstd::prelude::*;
use vstd::string::*;

verus! {

/// `char::from_u32` gives the character of a scalar value, and `None` for a
/// surrogate code point or a value past the last code point.
pub assume_specification[ char::from_u32 ](i: u32) -> (c: Option<char>)
    ensures
        c == (if i < 0xD800 || 0xE000 <= i <= 0x10FFFF {
            Some(i as char)
        } else {
            None
        }),
;

/// Whether `u` opens a surrogate pair.
pub open spec fn is_high(u: u16) -> bool {
    0xD800 <= u < 0xDC00
}

/// Whether `u` closes a surrogate pair.
pub open spec fn is_low(u: u16) -> bool {
    0xDC00 <= u < 0xE000
}

/// The character of a surrogate pair.
pub open spec fn pair_char(high: u16, low: u16) -> char {
    (0x10000 + (high - 0xD800) * 0x400 + (low - 0xDC00)) as char
}

/// The code units of one character: one unit, or a surrogate pair for a
/// character outside the basic plane.
pub open spec fn encode_char(c: char) -> Seq<u16> {
    let v = c as int;
    if v < 0x10000 {
        seq![v as u16]
    } else {
        seq![(0xD800 + (v - 0x10000) / 0x400) as u16, (0xDC00 + (v - 0x10000) % 0x400) as u16]
    }
}

/// The code units of a text.
pub open spec fn encode_utf16(s: Seq<char>) -> Seq<u16>
    decreases s.len(),
{
    if s.len() == 0 {
        Seq::empty()
    } else {
        encode_utf16(s.drop_last()) + encode_char(s.last())
    }
}

/// The text of a sequence of code units; a surrogate without its partner reads
/// as U+FFFD.
pub open spec fn decode_utf16(u: Seq<u16>) -> Seq<char>
    decreases u.len(),
{
    if u.len() == 0 {
        Seq::empty()
    } else if is_high(u[0]) && u.len() > 1 && is_low(u[1]) {
        seq![pair_char(u[0], u[1])] + decode_utf16(u.skip(2))
    } else if is_high(u[0]) || is_low(u[0]) {
        seq!['\u{FFFD}'] + decode_utf16(u.skip(1))
    } else {
        seq![u[0] as char] + decode_utf16(u.skip(1))
    }
}

/// UTF-16 is what the standard says. A character of the basic plane is one unit, its own
/// number; any other is a high surrogate (0xD800 to 0xDBFF) and a low one (0xDC00 to
/// 0xDFFF) that carry the upper and the lower ten bits of its number less 0x10000.
pub proof fn utf16_units(c: char)
    ensures
        (c as int) < 0x10000 ==> encode_char(c).len() == 1 && encode_char(c)[0] == c as int,
        c as int >= 0x10000 ==> {
            let e = encode_char(c);
            &&& e.len() == 2
            &&& 0xD800 <= e[0] <= 0xDBFF
            &&& 0xDC00 <= e[1] <= 0xDFFF
            &&& (e[0] - 0xD800) * 1024 + (e[1] - 0xDC00) == c as int - 0x10000
        },
{
}

/// Decoding takes the units from the front: a high surrogate with a low one behind it is
/// one character, a surrogate without its partner reads as U+FFFD, and any other unit is
/// the character of its number.
pub proof fn utf16_is_decoded_from_the_front(u: Seq<u16>)
    requires
        u.len() > 0,
    ensures
        ({
            let s = decode_utf16(u);
            let high = 0xD800 <= u[0] <= 0xDBFF;
            let low = 0xDC00 <= u[0] <= 0xDFFF;
            let paired = high && u.len() > 1 && 0xDC00 <= u[1] <= 0xDFFF;
            &&& s.len() > 0
            &&& paired ==> s[0] as int == 0x10000 + (u[0] - 0xD800) * 1024 + (u[1] - 0xDC00)
                && s.skip(1) == decode_utf16(u.skip(2))
            &&& !paired && (high || low) ==> s[0] as int == 0xFFFD && s.skip(1) == decode_utf16(
                u.skip(1),
            )
            &&& !high && !low ==> s[0] as int == u[0] && s.skip(1) == decode_utf16(u.skip(1))
        }),
{
    let s = decode_utf16(u);
    if is_high(u[0]) && u.len() > 1 && is_low(u[1]) {
        assert(s.skip(1) =~= decode_utf16(u.skip(2)));
    } else {
        assert(s.skip(1) =~= decode_utf16(u.skip(1)));
    }
}

/// Encoding is compatible with concatenation.
proof fn lemma_encode_concat(a: Seq<char>, b: Seq<char>)
    ensures
        encode_utf16(a + b) == encode_utf16(a) + encode_utf16(b),
    decreases b.len(),
{
    if b.len() == 0 {
        assert(a + b =~= a);
        assert(encode_utf16(a) + encode_utf16(b) =~= encode_utf16(a));
    } else {
        lemma_encode_concat(a, b.drop_last());
        assert((a + b).drop_last() =~= a + b.drop_last());
        assert(encode_utf16(a + b) =~= encode_utf16(a) + encode_utf16(b));
    }
}

/// One character is coded as itself or as a surrogate pair that decodes to it.
proof fn lemma_encode_char(c: char)
    ensures
        ({
            let e = encode_char(c);
            if e.len() == 2 {
                is_high(e[0]) && is_low(e[1]) && pair_char(e[0], e[1]) == c
            } else {
                e.len() == 1 && !is_high(e[0]) && !is_low(e[0]) && e[0] as char == c
            }
        }),
{
}

/// Decoding what was encoded gives the text back, for every text.
pub proof fn decode_encode_round_trip(s: Seq<char>)
    ensures
        decode_utf16(encode_utf16(s)) == s,
    decreases s.len(),
{
    if s.len() > 0 {
        let c = s[0];
        let rest = s.skip(1);
        let head = seq![c];
        assert(s =~= head + rest);
        lemma_encode_concat(head, rest);
        assert(head.drop_last() =~= Seq::<char>::empty());
        assert(encode_utf16(head) =~= encode_char(c)) by {
            assert(encode_utf16(head.drop_last()) =~= Seq::<u16>::empty());
        }
        decode_encode_round_trip(rest);
        lemma_encode_char(c);
        let e = encode_char(c);
        let u = encode_utf16(s);
        assert(u == e + encode_utf16(rest));
        assert(u.skip(e.len() as int) =~= encode_utf16(rest));
        assert(u[0] == e[0]);
        if e.len() == 2 {
            assert(u[1] == e[1]);
        }
        assert(decode_utf16(u) =~= s);
    }
}

/// Append the code units of `s` to `out`, each as two little-endian bytes.
pub(crate) fn push_utf16_le(out: &mut Vec<u8>, s: &str)
    ensures
        final(out)@ == old(out)@ + units_le(encode_utf16(s@)),
{
    let ghost start = out@;
    let n: usize = s.unicode_len();
    let mut i: usize = 0;
    assert(s@.take(0) =~= Seq::<char>::empty());
    assert(out@ =~= start + units_le(encode_utf16(s@.take(0))));
    while i < n
        invariant
            n == s@.len(),
            i <= n,
            out@ == start + units_le(encode_utf16(s@.take(i as int))),
        decreases n - i,
    {
        let c: char = s.get_char(i);
        let v: u32 = c as u32;
        let ghost before = out@;
        if v < 0x10000 {
            crate::bytes::push_le16(out, v as u16);
        } else {
            crate::bytes::push_le16(out, (0xD800 + (v - 0x10000) / 0x400) as u16);
            crate::bytes::push_le16(out, (0xDC00 + (v - 0x10000) % 0x400) as u16);
        }
        proof {
            let t = s@.take(i + 1);
            assert(t.drop_last() =~= s@.take(i as int));
            lemma_units_le_concat(encode_utf16(s@.take(i as int)), encode_char(c));
            lemma_units_le_small(encode_char(c));
            assert(out@ =~= before + units_le(encode_char(c)));
            assert(out@ =~= start + units_le(encode_utf16(t)));
        }
        i = i + 1;
    }
    assert(s@.take(i as int) =~= s@);
}

/// The bytes of `units`, two little-endian bytes per unit.
pub open spec fn units_le(units: Seq<u16>) -> Seq<u8>
    decreases units.len(),
{
    if units.len() == 0 {
        Seq::empty()
    } else {
        units_le(units.drop_last()) + crate::bytes::le16(units.last())
    }
}

/// The complete little-endian units held in `b`; a trailing odd byte is ignored.
pub open spec fn le_units(b: Seq<u8>) -> Seq<u16> {
    Seq::new(b.len() / 2, |i: int| crate::bytes::u16_le(b[2 * i], b[2 * i + 1]))
}

/// Laying out units is compatible with concatenation.
pub proof fn lemma_units_le_concat(a: Seq<u16>, b: Seq<u16>)
    ensures
        units_le(a + b) == units_le(a) + units_le(b),
    decreases b.len(),
{
    if b.len() == 0 {
        assert(a + b =~= a);
        assert(units_le(a) + units_le(b) =~= units_le(a));
    } else {
        lemma_units_le_concat(a, b.drop_last());
        assert((a + b).drop_last() =~= a + b.drop_last());
        assert(units_le(a + b) =~= units_le(a) + units_le(b));
    }
}

proof fn lemma_units_le_small(u: Seq<u16>)
    requires
        1 <= u.len() <= 2,
    ensures
        u.len() == 1 ==> units_le(u) == crate::bytes::le16(u[0]),
        u.len() == 2 ==> units_le(u) == crate::bytes::le16(u[0]) + crate::bytes::le16(u[1]),
{
    reveal_with_fuel(units_le, 3);
    if u.len() == 1 {
        assert(units_le(u) =~= crate::bytes::le16(u[0]));
    } else {
        assert(units_le(u) =~= crate::bytes::le16(u[0]) + crate::bytes::le16(u[1]));
    }
}

/// Units read back from their layout are the units laid out.
pub proof fn lemma_le_units_round_trip(u: Seq<u16>)
    ensures
        units_le(u).len() == 2 * u.len(),
        le_units(units_le(u)) == u,
    decreases u.len(),
{
    if u.len() > 0 {
        lemma_le_units_round_trip(u.drop_last());
        let head = units_le(u.drop_last());
        assert forall|i: int| 0 <= i < u.len() implies le_units(units_le(u))[i] == u[i] by {
            if i < u.len() - 1 {
                assert(le_units(head)[i] == u.drop_last()[i]);
            }
        }
    }
    assert(le_units(units_le(u)) =~= u);
}

/// A unit is two bytes, the one of less weight first; a trailing odd byte is no unit.
pub proof fn units_are_little_endian(b: Seq<u8>, i: int)
    requires
        0 <= i,
        2 * i + 1 < b.len(),
    ensures
        le_units(b).len() == b.len() / 2,
        le_units(b)[i] == b[2 * i] + 256 * b[2 * i + 1],
{
    crate::bytes::byte_orders(0, 0, b[2 * i], b[2 * i + 1], 0, 0);
}

/// Read the complete little-endian units of `b`, from byte `start` on.
pub(crate) fn read_units(b: &[u8], start: usize) -> (u: Vec<u16>)
    requires
        start <= b@.len(),
    ensures
        u@ == le_units(b@.skip(start as int)),
{
    let ghost body = b@.skip(start as int);
    let count: usize = (b.len() - start) / 2;
    let mut u: Vec<u16> = Vec::new();
    let mut i: usize = 0;
    while i < count
        invariant
            i <= count,
            count == (b@.len() - start) / 2,
            start <= b@.len() <= usize::MAX,
            body == b@.skip(start as int),
            u@ == le_units(body).take(i as int),
        decreases count - i,
    {
        u.push(crate::bytes::read_u16_le(b[start + 2 * i], b[start + 2 * i + 1]));
        i = i + 1;
        assert(u@ =~= le_units(body).take(i as int));
    }
    assert(u@ =~= le_units(body));
    u
}

/// Decode code units to text, lossily.
pub(crate) fn decode_units(u: &Vec<u16>) -> (s: String)
    ensures
        s@ == decode_utf16(u@),
{
    let mut s = String::new();
    let mut i: usize = 0;
    assert(u@.skip(0) =~= u@);
    assert(s@ + decode_utf16(u@.skip(0)) =~= decode_utf16(u@));
    while i < u.len()
        invariant
            i <= u@.len(),
            s@ + decode_utf16(u@.skip(i as int)) == decode_utf16(u@),
        decreases u@.len() - i,
    {
        let ghost rest = u@.skip(i as int);
        let ghost done = s@;
        let a: u16 = u[i];
        if 0xD800 <= a && a < 0xDC00 && u.len() - i > 1 && 0xDC00 <= u[i + 1] && u[i + 1] < 0xE000 {
            let b: u16 = u[i + 1];
            let v: u32 = 0x10000 + (a as u32 - 0xD800) * 0x400 + (b as u32 - 0xDC00);
            if let Some(c) = char::from_u32(v) {
                s.push(c);
                proof {
                    assert(c == pair_char(a, b));
                    assert(rest.skip(2) =~= u@.skip(i + 2));
                    assert(s@ + decode_utf16(rest.skip(2)) =~= done + decode_utf16(rest));
                }
            }
            i = i + 2;
        } else {
            if 0xD800 <= a && a < 0xE000 {
                s.push('\u{FFFD}');
            } else if let Some(c) = char::from_u32(a as u32) {
                s.push(c);
            }
            proof {
                assert(rest.skip(1) =~= u@.skip(i + 1));
                assert(s@ + decode_utf16(rest.skip(1)) =~= done + decode_utf16(rest));
            }
            i = i + 1;
        }
    }
    assert(u@.skip(i as int) =~= Seq::<u16>::empty());
    assert(s@ + decode_utf16(u@.skip(i as int)) =~= s@);
    s
}

} // verus!
