//! Text building: decimal and hexadecimal numerals, padding, and substring
//! search, with the exact characters each one produces.

use vstd::prelude::*;
use vstd::string::*;

verus! {

/// `String::push` appends one character at the end of the string.
pub assume_specification[ String::push ](s: &mut String, c: char)
    ensures
        final(s)@ == old(s)@.push(c),
;

/// The decimal digit `d` as a character.
pub open spec fn digit_char(d: nat) -> char {
    (48 + d) as char
}

/// `n` written in decimal, without leading zeros.
pub open spec fn decimal(n: nat) -> Seq<char>
    decreases n,
{
    if n < 10 {
        seq![digit_char(n)]
    } else {
        decimal(n / 10).push(digit_char(n % 10))
    }
}

/// The lowercase hexadecimal digit `d` as a character.
pub open spec fn hex_char(d: nat) -> char {
    if d < 10 {
        (48 + d) as char
    } else {
        (87 + d) as char
    }
}

/// The low `width` hexadecimal digits of `n`, zero-padded.
pub open spec fn hex_fixed(n: nat, width: nat) -> Seq<char>
    decreases width,
{
    if width == 0 {
        Seq::empty()
    } else {
        hex_fixed(n / 16, (width - 1) as nat).push(hex_char(n % 16))
    }
}

/// Every byte of `bytes` as two lowercase hexadecimal digits, in order.
pub open spec fn hex_bytes(bytes: Seq<u8>) -> Seq<char>
    decreases bytes.len(),
{
    if bytes.len() == 0 {
        Seq::empty()
    } else {
        hex_bytes(bytes.drop_last()) + hex_fixed(bytes.last() as nat, 2)
    }
}

/// `n` spaces.
pub open spec fn spaces(n: nat) -> Seq<char> {
    Seq::new(n, |i: int| ' ')
}

/// `s` followed by as many spaces as reach `width` characters.
pub open spec fn pad_right(s: Seq<char>, width: nat) -> Seq<char> {
    s + spaces(if s.len() < width { (width - s.len()) as nat } else { 0 })
}

/// `s` preceded by as many spaces as reach `width` characters.
pub open spec fn pad_left(s: Seq<char>, width: nat) -> Seq<char> {
    spaces(if s.len() < width { (width - s.len()) as nat } else { 0 }) + s
}

/// Whether `needle` occurs in `s` as consecutive characters.
pub open spec fn contains_str(s: Seq<char>, needle: Seq<char>) -> bool {
    exists|i: int|
        0 <= i <= s.len() - needle.len() && #[trigger] s.subrange(i, i + needle.len()) == needle
}

/// The value of a digit: `0` to `9`, then `a` to `f`.
pub open spec fn digit_value(c: char) -> int {
    if '0' <= c && c <= '9' {
        c as int - '0' as int
    } else {
        10 + (c as int - 'a' as int)
    }
}

/// The number that digits write, the first of most weight.
pub open spec fn number(digits: Seq<char>, base: int) -> int
    decreases digits.len(),
{
    if digits.len() == 0 {
        0
    } else {
        number(digits.drop_last(), base) * base + digit_value(digits.last())
    }
}

/// `16` to the power of `n`.
pub open spec fn sixteen_to_the(n: nat) -> nat
    decreases n,
{
    if n == 0 {
        1
    } else {
        16 * sixteen_to_the((n - 1) as nat)
    }
}

/// A number in decimal reads back as itself: it is all decimal digits, at least one, and
/// starts with 0 only if it is 0.
pub proof fn decimal_reads_back(n: nat)
    ensures
        number(decimal(n), 10) == n,
        decimal(n).len() > 0,
        forall|i: int| 0 <= i < decimal(n).len() ==> '0' <= #[trigger] decimal(n)[i] <= '9',
        decimal(n)[0] == '0' ==> n == 0,
    decreases n,
{
    reveal_with_fuel(number, 2);
    if n < 10 {
        assert(decimal(n).drop_last() =~= Seq::empty());
    } else {
        decimal_reads_back(n / 10);
        let d = decimal(n);
        assert(d.drop_last() =~= decimal(n / 10));
        assert forall|i: int| 0 <= i < d.len() implies '0' <= #[trigger] d[i] <= '9' by {
            if i < d.len() - 1 {
                assert(d[i] == decimal(n / 10)[i]);
            }
        }
        assert(d[0] == decimal(n / 10)[0]);
    }
}

/// A number in a fixed count of hexadecimal digits is that many lowercase digits, and
/// reads back as what of it they have room for.
pub proof fn hex_fixed_reads_back(n: nat, width: nat)
    ensures
        hex_fixed(n, width).len() == width,
        number(hex_fixed(n, width), 16) == n % sixteen_to_the(width),
        sixteen_to_the(width) > 0,
        forall|i: int|
            0 <= i < width ==> ('0' <= #[trigger] hex_fixed(n, width)[i] <= '9' || 'a'
                <= hex_fixed(n, width)[i] <= 'f'),
    decreases width,
{
    if width > 0 {
        let w = (width - 1) as nat;
        hex_fixed_reads_back(n / 16, w);
        let h = hex_fixed(n, width);
        assert(h.drop_last() =~= hex_fixed(n / 16, w));
        vstd::arithmetic::div_mod::lemma_mod_breakdown(n as int, 16, sixteen_to_the(w) as int);
        assert forall|i: int| 0 <= i < width implies ('0' <= #[trigger] h[i] <= '9' || 'a' <= h[i]
            <= 'f') by {
            if i < width - 1 {
                assert(h[i] == hex_fixed(n / 16, w)[i]);
            }
        }
    }
}

/// Bytes in hexadecimal are two digits each, in order, the one of more weight first.
pub proof fn hex_bytes_layout(bytes: Seq<u8>, i: int)
    requires
        0 <= i < bytes.len(),
    ensures
        hex_bytes(bytes).len() == 2 * bytes.len(),
        16 * digit_value(hex_bytes(bytes)[2 * i]) + digit_value(hex_bytes(bytes)[2 * i + 1])
            == bytes[i],
        hex_bytes(bytes).subrange(2 * i, 2 * i + 2) == hex_fixed(bytes[i] as nat, 2),
    decreases bytes.len(),
{
    let before = bytes.drop_last();
    let last = bytes.last() as nat;
    reveal_with_fuel(hex_fixed, 3);
    if before.len() > 0 {
        let j = if i < before.len() {
            i
        } else {
            0
        };
        hex_bytes_layout(before, j);
    } else {
        assert(hex_bytes(before).len() == 0);
    }
    let h = hex_bytes(bytes);
    if i < before.len() {
        assert(h.subrange(2 * i, 2 * i + 2) =~= hex_bytes(before).subrange(2 * i, 2 * i + 2));
    } else {
        assert(h.subrange(2 * i, 2 * i + 2) =~= hex_fixed(last, 2));
    }
}

/// Padding reaches the width and no more: the text stays whole, at the left or at the
/// right, and everything else is spaces; a text that is wide enough stays as it is.
pub proof fn padding_keeps_the_text(s: Seq<char>, width: nat)
    ensures
        pad_right(s, width).len() == (if s.len() < width {
            width
        } else {
            s.len()
        }),
        pad_left(s, width).len() == pad_right(s, width).len(),
        pad_right(s, width).take(s.len() as int) == s,
        pad_left(s, width).skip(pad_left(s, width).len() - s.len()) == s,
        forall|i: int|
            s.len() <= i < pad_right(s, width).len() ==> #[trigger] pad_right(s, width)[i] == ' ',
        forall|i: int|
            0 <= i < pad_left(s, width).len() - s.len() ==> #[trigger] pad_left(s, width)[i] == ' ',
{
    assert(pad_right(s, width).take(s.len() as int) =~= s);
    assert(pad_left(s, width).skip(pad_left(s, width).len() - s.len()) =~= s);
}

/// A text contains another exactly if it is that one with something before and after it.
pub proof fn containing_is_being_a_part(before: Seq<char>, needle: Seq<char>, after: Seq<char>)
    ensures
        contains_str(before + needle + after, needle),
        needle.len() > before.len() ==> !contains_str(before, needle),
{
    let s = before + needle + after;
    let i = before.len() as int;
    assert(s.subrange(i, i + needle.len()) =~= needle);
}

/// Whether `needle` occurs in `s`.
pub(crate) fn contains(s: &str, needle: &str) -> (r: bool)
    ensures
        r == contains_str(s@, needle@),
{
    let n: usize = s.unicode_len();
    let m: usize = needle.unicode_len();
    if m > n {
        return false;
    }
    let mut i: usize = 0;
    while i <= n - m
        invariant
            n == s@.len(),
            m == needle@.len(),
            m <= n,
            i <= n - m,
            forall|k: int| 0 <= k < i ==> #[trigger] s@.subrange(k, k + m) != needle@,
        decreases n - m + 1 - i,
    {
        let part = s.substring_char(i, i + m);
        if same_text(part, needle) {
            assert(s@.subrange(i as int, i + m) == needle@);
            return true;
        }
        if i == n - m {
            return false;
        }
        i = i + 1;
    }
    false
}

/// Whether two texts are the same.
fn same_text(a: &str, b: &str) -> (r: bool)
    ensures
        r == (a@ == b@),
{
    let n: usize = a.unicode_len();
    if n != b.unicode_len() {
        return false;
    }
    let mut i: usize = 0;
    while i < n
        invariant
            n == a@.len(),
            n == b@.len(),
            i <= n,
            forall|k: int| 0 <= k < i ==> a@[k] == b@[k],
        decreases n - i,
    {
        if a.get_char(i) != b.get_char(i) {
            return false;
        }
        i = i + 1;
    }
    assert(a@ =~= b@);
    true
}

/// Append `n` in decimal.
pub(crate) fn push_decimal(out: &mut String, n: u64)
    ensures
        final(out)@ == old(out)@ + decimal(n as nat),
    decreases n,
{
    if n >= 10 {
        push_decimal(out, n / 10);
    }
    out.push((48 + (n % 10) as u8) as char);
    assert(out@ =~= old(out)@ + decimal(n as nat));
}

/// Append the low `width` hexadecimal digits of `n`.
pub(crate) fn push_hex(out: &mut String, n: u64, width: usize)
    ensures
        final(out)@ == old(out)@ + hex_fixed(n as nat, width as nat),
    decreases width,
{
    if width > 0 {
        push_hex(out, n / 16, width - 1);
        let d: u8 = (n % 16) as u8;
        if d < 10 {
            out.push((48 + d) as char);
        } else {
            out.push((87 + d) as char);
        }
    }
    assert(out@ =~= old(out)@ + hex_fixed(n as nat, width as nat));
}

/// Append every byte as two hexadecimal digits.
pub(crate) fn push_hex_bytes(out: &mut String, bytes: &[u8])
    ensures
        final(out)@ == old(out)@ + hex_bytes(bytes@),
{
    let ghost start = out@;
    let mut i: usize = 0;
    while i < bytes.len()
        invariant
            i <= bytes@.len(),
            out@ == start + hex_bytes(bytes@.take(i as int)),
        decreases bytes@.len() - i,
    {
        push_hex(out, bytes[i] as u64, 2);
        proof {
            let t = bytes@.take(i + 1);
            assert(t.drop_last() =~= bytes@.take(i as int));
            assert(t.last() == bytes@[i as int]);
            assert(out@ =~= start + hex_bytes(t));
        }
        i = i + 1;
    }
    assert(bytes@.take(i as int) =~= bytes@);
}

/// Append `n` spaces.
pub(crate) fn push_spaces(out: &mut String, n: usize)
    ensures
        final(out)@ == old(out)@ + spaces(n as nat),
{
    let ghost start = out@;
    let mut i: usize = 0;
    assert(out@ =~= start + spaces(0));
    while i < n
        invariant
            i <= n,
            out@ == start + spaces(i as nat),
        decreases n - i,
    {
        out.push(' ');
        i = i + 1;
        assert(out@ =~= start + spaces(i as nat));
    }
}

/// Append `s`, then spaces up to `width` characters.
pub(crate) fn push_padded_right(out: &mut String, s: &str, width: usize)
    ensures
        final(out)@ == old(out)@ + pad_right(s@, width as nat),
{
    let ghost start = out@;
    out.append(s);
    let n: usize = s.unicode_len();
    if n < width {
        push_spaces(out, width - n);
    }
    assert(out@ =~= start + pad_right(s@, width as nat));
}

/// Append `s` right-aligned in `width` characters.
pub(crate) fn push_padded_left(out: &mut String, s: &str, width: usize)
    ensures
        final(out)@ == old(out)@ + pad_left(s@, width as nat),
{
    let ghost start = out@;
    let n: usize = s.unicode_len();
    if n < width {
        push_spaces(out, width - n);
    }
    out.append(s);
    assert(out@ =~= start + pad_left(s@, width as nat));
}

/// `n` in decimal as a new string.
pub(crate) fn decimal_string(n: u64) -> (s: String)
    ensures
        s@ == decimal(n as nat),
{
    let mut s = String::new();
    push_decimal(&mut s, n);
    assert(s@ =~= decimal(n as nat));
    s
}

/// What `String::from_utf8_lossy` makes of bytes: the text they encode, with U+FFFD
/// in place of what is not valid UTF-8.
pub uninterp spec fn lossy_utf8(b: Seq<u8>) -> Seq<char>;

/// Calls `String::from_utf8_lossy`. Bytes that are valid UTF-8 come out as the
/// text they encode; what the replacement of invalid sequences looks like in
/// detail is left to the name [`lossy_utf8`].
#[verifier::external_body]
pub(crate) fn decode_utf8_lossy(b: &[u8]) -> (s: String)
    ensures
        s@ == lossy_utf8(b@),
        vstd::utf8::valid_utf8(b@) ==> s@ == vstd::utf8::decode_utf8(b@),
{
    String::from_utf8_lossy(b).into_owned()
}

} // verus!
