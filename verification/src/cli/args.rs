//! Command-line values: hexadecimal numbers and byte strings, and the messages
//! that `pd-send` is asked to send.

use vstd::prelude::*;
use vstd::string::*;

use crate::pd::PdMessage;
use crate::pd::PdPort;
use crate::pd::Vdm;
use crate::text;

verus! {

/// Why a hexadecimal text is not a number.
#[derive(Debug, Clone, Copy, PartialEq, Eq, Structural)]
pub enum HexError {
    /// There is nothing to read.
    Empty,
    /// A character is not a hexadecimal digit.
    InvalidDigit,
    /// The number does not fit.
    Overflow,
    /// A byte string has half a byte too much.
    OddLength,
}

impl HexError {
    /// The human-readable description of the error.
    pub open spec fn text(self) -> Seq<char> {
        match self {
            HexError::Empty => "cannot parse integer from empty string"@,
            HexError::InvalidDigit => "invalid digit found in string"@,
            HexError::Overflow => "number too large to fit in target type"@,
            HexError::OddLength => "hex must have an even number of digits"@,
        }
    }

    /// The human-readable description of the error.
    pub fn message(self) -> (s: &'static str)
        ensures
            s@ == self.text(),
    {
        match self {
            HexError::Empty => "cannot parse integer from empty string",
            HexError::InvalidDigit => "invalid digit found in string",
            HexError::Overflow => "number too large to fit in target type",
            HexError::OddLength => "hex must have an even number of digits",
        }
    }
}

/// Each error says what is wrong with the text.
pub proof fn hex_errors_say_what_is_wrong()
    ensures
        HexError::Empty.text() == "cannot parse integer from empty string"@,
        HexError::InvalidDigit.text() == "invalid digit found in string"@,
        HexError::Overflow.text() == "number too large to fit in target type"@,
        HexError::OddLength.text() == "hex must have an even number of digits"@,
{
}

/// Whether a character is white space (Unicode `White_Space`).
pub open spec fn is_space(c: char) -> bool {
    let v = c as int;
    ||| 9 <= v <= 13
    ||| v == 0x20
    ||| v == 0x85
    ||| v == 0xA0
    ||| v == 0x1680
    ||| 0x2000 <= v <= 0x200A
    ||| v == 0x2028
    ||| v == 0x2029
    ||| v == 0x202F
    ||| v == 0x205F
    ||| v == 0x3000
}

fn white_space(c: char) -> (r: bool)
    ensures
        r == is_space(c),
{
    let v: u32 = c as u32;
    (9 <= v && v <= 13) || v == 0x20 || v == 0x85 || v == 0xA0 || v == 0x1680 || (0x2000 <= v && v
        <= 0x200A) || v == 0x2028 || v == 0x2029 || v == 0x202F || v == 0x205F || v == 0x3000
}

/// `s` without the white space it starts with.
pub open spec fn trim_start(s: Seq<char>) -> Seq<char>
    decreases s.len(),
{
    if s.len() > 0 && is_space(s[0]) {
        trim_start(s.skip(1))
    } else {
        s
    }
}

/// `s` without the white space it ends with.
pub open spec fn trim_end(s: Seq<char>) -> Seq<char>
    decreases s.len(),
{
    if s.len() > 0 && is_space(s.last()) {
        trim_end(s.drop_last())
    } else {
        s
    }
}

/// `s` without surrounding white space and without one `0x` or `0X` in front.
pub open spec fn bare_digits(s: Seq<char>) -> Seq<char> {
    let t = trim_end(trim_start(s));
    if t.len() >= 2 && t[0] == '0' && (t[1] == 'x' || t[1] == 'X') {
        t.skip(2)
    } else {
        t
    }
}

proof fn lemma_trim_start(before: Seq<char>, s: Seq<char>)
    requires
        forall|i: int| 0 <= i < before.len() ==> is_space(#[trigger] before[i]),
        s.len() > 0 ==> !is_space(s[0]),
    ensures
        trim_start(before + s) == s,
    decreases before.len(),
{
    if before.len() > 0 {
        assert(is_space(before[0]));
        assert((before + s).skip(1) =~= before.skip(1) + s);
        assert forall|i: int| 0 <= i < before.len() - 1 implies is_space(
            #[trigger] before.skip(1)[i],
        ) by {
            assert(before.skip(1)[i] == before[i + 1]);
        }
        lemma_trim_start(before.skip(1), s);
    } else {
        assert(before + s =~= s);
    }
}

proof fn lemma_trim_end(s: Seq<char>, after: Seq<char>)
    requires
        forall|i: int| 0 <= i < after.len() ==> is_space(#[trigger] after[i]),
        s.len() > 0 ==> !is_space(s.last()),
    ensures
        trim_end(s + after) == s,
    decreases after.len(),
{
    if after.len() > 0 {
        assert(is_space(after[after.len() - 1]));
        assert((s + after).drop_last() =~= s + after.drop_last());
        assert forall|i: int| 0 <= i < after.len() - 1 implies is_space(
            #[trigger] after.drop_last()[i],
        ) by {
            assert(after.drop_last()[i] == after[i]);
        }
        lemma_trim_end(s, after.drop_last());
    } else {
        assert(s + after =~= s);
    }
}

/// Of a number with white space around it, its digits are left; `0x` or `0X` in front of
/// them is taken off, once, and nothing else is.
pub proof fn digits_are_bared(before: Seq<char>, digits: Seq<char>, after: Seq<char>, x: char)
    requires
        forall|i: int| 0 <= i < before.len() ==> is_space(#[trigger] before[i]),
        forall|i: int| 0 <= i < after.len() ==> is_space(#[trigger] after[i]),
        digits.len() > 0,
        !is_space(digits[0]),
        !is_space(digits.last()),
    ensures
        x == 'x' || x == 'X' ==> bare_digits(before + (seq!['0', x] + digits) + after) == digits,
        !(digits.len() >= 2 && digits[0] == '0' && (digits[1] == 'x' || digits[1] == 'X'))
            ==> bare_digits(before + digits + after) == digits,
{
    let marked = seq!['0', x] + digits;
    assert(before + marked + after =~= before + (marked + after));
    assert(before + digits + after =~= before + (digits + after));
    assert((digits + after)[0] == digits[0]);
    lemma_trim_start(before, digits + after);
    lemma_trim_end(digits, after);
    lemma_trim_start(before, marked + after);
    assert(marked.last() == digits.last());
    lemma_trim_end(marked, after);
    assert(marked.skip(2) =~= digits);
}

/// White space is what Unicode calls so: 25 characters, six of them in ASCII.
pub proof fn white_space_characters(c: char)
    ensures
        is_space(c) <==> seq![
            0x9int,
            0xA,
            0xB,
            0xC,
            0xD,
            0x20,
            0x85,
            0xA0,
            0x1680,
            0x2000,
            0x2001,
            0x2002,
            0x2003,
            0x2004,
            0x2005,
            0x2006,
            0x2007,
            0x2008,
            0x2009,
            0x200A,
            0x2028,
            0x2029,
            0x202F,
            0x205F,
            0x3000,
        ].contains(c as int),
{
    let all = seq![
        0x9int,
        0xA,
        0xB,
        0xC,
        0xD,
        0x20,
        0x85,
        0xA0,
        0x1680,
        0x2000,
        0x2001,
        0x2002,
        0x2003,
        0x2004,
        0x2005,
        0x2006,
        0x2007,
        0x2008,
        0x2009,
        0x200A,
        0x2028,
        0x2029,
        0x202F,
        0x205F,
        0x3000,
    ];
    let v = c as int;
    let k = if 9 <= v <= 13 {
        v - 9
    } else if v == 0x20 {
        5
    } else if v == 0x85 {
        6
    } else if v == 0xA0 {
        7
    } else if v == 0x1680 {
        8
    } else if 0x2000 <= v <= 0x200A {
        9 + (v - 0x2000)
    } else if v == 0x2028 {
        20
    } else if v == 0x2029 {
        21
    } else if v == 0x202F {
        22
    } else if v == 0x205F {
        23
    } else {
        24
    };
    assert(is_space(c) ==> all[k] == v);
}

/// Strip an optional `0x`/`0X` prefix and surrounding whitespace.
pub fn hex_digits(s: &str) -> (d: &str)
    ensures
        d@ == bare_digits(s@),
{
    let n: usize = s.unicode_len();
    let mut from: usize = 0;
    assert(s@.skip(0) =~= s@);
    while from < n && white_space(s.get_char(from))
        invariant
            n == s@.len(),
            from <= n,
            trim_start(s@.skip(from as int)) == trim_start(s@),
        decreases n - from,
    {
        assert(s@.skip(from as int).skip(1) =~= s@.skip(from + 1));
        from = from + 1;
    }
    assert(trim_start(s@) == s@.skip(from as int));
    let mut to: usize = n;
    assert(s@.subrange(from as int, n as int) =~= s@.skip(from as int));
    while to > from && white_space(s.get_char(to - 1))
        invariant
            n == s@.len(),
            from <= to <= n,
            trim_end(s@.subrange(from as int, to as int)) == trim_end(trim_start(s@)),
        decreases to,
    {
        assert(s@.subrange(from as int, to as int).drop_last() =~= s@.subrange(
            from as int,
            to - 1,
        ));
        to = to - 1;
    }
    let ghost t = s@.subrange(from as int, to as int);
    assert(trim_end(trim_start(s@)) == t);
    if to - from >= 2 && s.get_char(from) == '0' && (s.get_char(from + 1) == 'x' || s.get_char(
        from + 1,
    ) == 'X') {
        from = from + 2;
        assert(s@.subrange(from as int, to as int) =~= t.skip(2));
    }
    s.substring_char(from, to)
}

/// The value of a hexadecimal digit.
pub open spec fn hex_value(c: char) -> Option<int> {
    let v = c as int;
    if 0x30 <= v <= 0x39 {
        Some(v - 0x30)
    } else if 0x61 <= v <= 0x66 {
        Some(v - 0x57)
    } else if 0x41 <= v <= 0x46 {
        Some(v - 0x37)
    } else {
        None
    }
}

fn digit_value(c: char) -> (r: Option<u32>)
    ensures
        match r {
            Some(d) => hex_value(c) == Some(d as int) && d < 16,
            None => hex_value(c) is None,
        },
{
    let v: u32 = c as u32;
    if 0x30 <= v && v <= 0x39 {
        Some(v - 0x30)
    } else if 0x61 <= v && v <= 0x66 {
        Some(v - 0x57)
    } else if 0x41 <= v && v <= 0x46 {
        Some(v - 0x37)
    } else {
        None
    }
}

/// The number that digits make, read from the left; the first character that is
/// not a digit, or that makes the number too large, decides.
pub open spec fn digits_value(s: Seq<char>, max: int) -> core::result::Result<int, HexError>
    decreases s.len(),
{
    if s.len() == 0 {
        Ok(0)
    } else {
        match digits_value(s.drop_last(), max) {
            Err(e) => Err(e),
            Ok(v) => match hex_value(s.last()) {
                None => Err(HexError::InvalidDigit),
                Some(d) => if v * 16 + d > max {
                    Err(HexError::Overflow)
                } else {
                    Ok(v * 16 + d)
                },
            },
        }
    }
}

/// The number that a text makes: digits, with at most one `+` in front.
pub open spec fn number(s: Seq<char>, max: int) -> core::result::Result<int, HexError> {
    if s.len() == 0 {
        Err(HexError::Empty)
    } else if s[0] == '+' {
        if s.len() == 1 {
            Err(HexError::InvalidDigit)
        } else {
            digits_value(s.skip(1), max)
        }
    } else {
        digits_value(s, max)
    }
}

/// The digits are `0` to `9`, then `a` to `f` in either case, and nothing else is one.
pub proof fn hex_digits_count_up(c: char)
    ensures
        '0' <= c <= '9' ==> hex_value(c) == Some(c as int - '0' as int),
        'a' <= c <= 'f' ==> hex_value(c) == Some(10 + (c as int - 'a' as int)),
        'A' <= c <= 'F' ==> hex_value(c) == Some(10 + (c as int - 'A' as int)),
        hex_value(c) is Some ==> '0' <= c <= '9' || 'a' <= c <= 'f' || 'A' <= c <= 'F',
{
}

/// Each digit weighs a sixteenth of the one before it: one more digit makes the number
/// sixteen times itself and the digit, if that is not too large; what is no digit, or one
/// too many, makes it no number, and nothing behind it does any good.
pub proof fn numbers_grow_digit_by_digit(s: Seq<char>, c: char, rest: Seq<char>, max: int)
    requires
        0 <= max,
    ensures
        digits_value(Seq::empty(), max) == Ok::<int, HexError>(0),
        digits_value(s, max) matches Ok(v) ==> 0 <= v <= max && digits_value(s.push(c), max) == (
        if hex_value(c) is None {
            Err::<int, HexError>(HexError::InvalidDigit)
        } else if 16 * v + hex_value(c)->0 > max {
            Err::<int, HexError>(HexError::Overflow)
        } else {
            Ok::<int, HexError>(16 * v + hex_value(c)->0)
        }),
        digits_value(s, max) is Err ==> digits_value(s + rest, max) == digits_value(s, max),
    decreases s.len(),
{
    assert(s.push(c).drop_last() =~= s);
    if s.len() > 0 {
        numbers_grow_digit_by_digit(s.drop_last(), s.last(), rest, max);
    }
    if digits_value(s, max) is Err {
        assert((s + rest).take(s.len() as int) =~= s);
        lemma_digits_error(s + rest, s.len() as int, max);
    }
}

/// A number may have one `+` in front, which changes nothing; a lone `+` or nothing at all
/// is no number.
pub proof fn one_plus_is_allowed(s: Seq<char>, max: int)
    ensures
        number(Seq::empty(), max) == Err::<int, HexError>(HexError::Empty),
        number(seq!['+'], max) == Err::<int, HexError>(HexError::InvalidDigit),
        s.len() > 0 && s[0] != '+' ==> number(s, max) == digits_value(s, max) && number(
            seq!['+'] + s,
            max,
        ) == number(s, max),
        s.len() > 0 && s[0] == '+' ==> number(seq!['+'] + s, max) == Err::<int, HexError>(
            HexError::InvalidDigit,
        ),
{
    assert((seq!['+'] + s).skip(1) =~= s);
    if s.len() > 0 && s[0] == '+' {
        let first = s.take(1);
        assert(first.drop_last() =~= Seq::<char>::empty());
        assert(first.last() == '+');
        reveal_with_fuel(digits_value, 2);
        assert(hex_value('+') is None);
        lemma_digits_error(s, 1, max);
    }
}

/// Read a hexadecimal number of at most `max`.
fn parse_number(s: &str, max: u32) -> (r: core::result::Result<u32, HexError>)
    ensures
        match number(s@, max as int) {
            Ok(v) => r == Ok::<u32, HexError>(v as u32) && 0 <= v <= max,
            Err(e) => r == Err::<u32, HexError>(e),
        },
{
    let n: usize = s.unicode_len();
    if n == 0 {
        return Err(HexError::Empty);
    }
    let mut i: usize = 0;
    if s.get_char(0) == '+' {
        if n == 1 {
            return Err(HexError::InvalidDigit);
        }
        i = 1;
    }
    let ghost start = i as int;
    let ghost digits = s@.skip(start);
    assert(s@.skip(0) =~= s@);
    let mut v: u32 = 0;
    assert(digits.take(0) =~= Seq::<char>::empty());
    while i < n
        invariant
            n == s@.len(),
            start <= i <= n,
            0 <= start,
            digits == s@.skip(start),
            v <= max,
            digits_value(digits.take(i - start), max as int) == Ok::<int, HexError>(v as int),
            number(s@, max as int) == digits_value(digits, max as int),
        decreases n - i,
    {
        let ghost k = i - start;
        proof {
            assert(digits.take(k + 1).drop_last() =~= digits.take(k));
            assert(digits.take(k + 1).last() == s@[i as int]);
        }
        match digit_value(s.get_char(i)) {
            None => {
                proof {
                    lemma_digits_error(digits, k + 1, max as int);
                }
                return Err(HexError::InvalidDigit);
            },
            Some(d) => {
                let next: u64 = v as u64 * 16 + d as u64;
                if next > max as u64 {
                    proof {
                        lemma_digits_error(digits, k + 1, max as int);
                    }
                    return Err(HexError::Overflow);
                }
                v = next as u32;
            },
        }
        i = i + 1;
    }
    assert(digits.take(i - start) =~= digits);
    Ok(v)
}

/// What goes wrong in the first `n` digits is what goes wrong.
proof fn lemma_digits_error(s: Seq<char>, n: int, max: int)
    requires
        0 <= n <= s.len(),
        digits_value(s.take(n), max) is Err,
    ensures
        digits_value(s, max) == digits_value(s.take(n), max),
    decreases s.len() - n,
{
    if n < s.len() {
        assert(s.take(n + 1).drop_last() =~= s.take(n));
        lemma_digits_error(s, n + 1, max);
    } else {
        assert(s.take(n) =~= s);
    }
}

/// The 8-bit number that a text spells.
pub open spec fn u8_in(s: Seq<char>) -> core::result::Result<int, HexError> {
    number(bare_digits(s), 0xFF)
}

/// The 16-bit number that a text spells.
pub open spec fn u16_in(s: Seq<char>) -> core::result::Result<int, HexError> {
    number(bare_digits(s), 0xFFFF)
}

/// The 32-bit number that a text spells.
pub open spec fn u32_in(s: Seq<char>) -> core::result::Result<int, HexError> {
    number(bare_digits(s), 0xFFFF_FFFF)
}

/// A number of `width` bits reads back from its hexadecimal digits, with `0x` in front and
/// white space around it; and a number is never read as one that has more bits.
pub proof fn numbers_read_back_in_their_width(
    before: Seq<char>,
    n: nat,
    after: Seq<char>,
    s: Seq<char>,
)
    requires
        forall|i: int| 0 <= i < before.len() ==> is_space(#[trigger] before[i]),
        forall|i: int| 0 <= i < after.len() ==> is_space(#[trigger] after[i]),
    ensures
        n < 0x100 ==> u8_in(before + (seq!['0', 'x'] + text::hex_fixed(n, 2)) + after) == Ok::<
            int,
            HexError,
        >(n as int),
        n < 0x1_0000 ==> u16_in(before + (seq!['0', 'x'] + text::hex_fixed(n, 4)) + after) == Ok::<
            int,
            HexError,
        >(n as int),
        n < 0x1_0000_0000 ==> u32_in(before + (seq!['0', 'x'] + text::hex_fixed(n, 8)) + after)
            == Ok::<int, HexError>(n as int),
        u8_in(s) matches Ok(v) ==> 0 <= v < 0x100,
        u16_in(s) matches Ok(v) ==> 0 <= v < 0x1_0000,
        u32_in(s) matches Ok(v) ==> 0 <= v < 0x1_0000_0000,
{
    assert(vstd::arithmetic::power::pow(16, 2) == 0x100 && vstd::arithmetic::power::pow(16, 4)
        == 0x1_0000 && vstd::arithmetic::power::pow(16, 8) == 0x1_0000_0000) by {
        reveal_with_fuel(vstd::arithmetic::power::pow, 9);
    }
    if n < 0x100 {
        lemma_spelled(before, n, 2, after, 0xFF);
    }
    if n < 0x1_0000 {
        lemma_spelled(before, n, 4, after, 0xFFFF);
    }
    if n < 0x1_0000_0000 {
        lemma_spelled(before, n, 8, after, 0xFFFF_FFFF);
    }
    let d = bare_digits(s);
    numbers_grow_digit_by_digit(d, '0', Seq::empty(), 0xFF);
    numbers_grow_digit_by_digit(d, '0', Seq::empty(), 0xFFFF);
    numbers_grow_digit_by_digit(d, '0', Seq::empty(), 0xFFFF_FFFF);
    if d.len() > 0 {
        numbers_grow_digit_by_digit(d.skip(1), '0', Seq::empty(), 0xFF);
        numbers_grow_digit_by_digit(d.skip(1), '0', Seq::empty(), 0xFFFF);
        numbers_grow_digit_by_digit(d.skip(1), '0', Seq::empty(), 0xFFFF_FFFF);
    }
}

proof fn lemma_spelled(before: Seq<char>, n: nat, width: nat, after: Seq<char>, max: int)
    requires
        width > 0,
        n <= max,
        n < vstd::arithmetic::power::pow(16, width),
        forall|i: int| 0 <= i < before.len() ==> is_space(#[trigger] before[i]),
        forall|i: int| 0 <= i < after.len() ==> is_space(#[trigger] after[i]),
    ensures
        number(bare_digits(before + (seq!['0', 'x'] + text::hex_fixed(n, width)) + after), max)
            == Ok::<int, HexError>(n as int),
{
    let h = text::hex_fixed(n, width);
    text::hex_fixed_reads_back(n, width);
    assert('0' <= h[0] <= '9' || 'a' <= h[0] <= 'f');
    assert('0' <= h[width - 1] <= '9' || 'a' <= h[width - 1] <= 'f');
    digits_are_bared(before, h, after, 'x');
    hex_reads_back(n, width, max);
}

/// Read an 8-bit hexadecimal number.
pub fn parse_u8(s: &str) -> (r: core::result::Result<u8, HexError>)
    ensures
        match u8_in(s@) {
            Ok(v) => r == Ok::<u8, HexError>(v as u8) && 0 <= v <= 0xFF,
            Err(e) => r == Err::<u8, HexError>(e),
        },
{
    match parse_number(hex_digits(s), 0xFF) {
        Ok(v) => Ok(v as u8),
        Err(e) => Err(e),
    }
}

/// Read a 16-bit hexadecimal number.
pub fn parse_u16(s: &str) -> (r: core::result::Result<u16, HexError>)
    ensures
        match u16_in(s@) {
            Ok(v) => r == Ok::<u16, HexError>(v as u16) && 0 <= v <= 0xFFFF,
            Err(e) => r == Err::<u16, HexError>(e),
        },
{
    match parse_number(hex_digits(s), 0xFFFF) {
        Ok(v) => Ok(v as u16),
        Err(e) => Err(e),
    }
}

/// Read a 32-bit hexadecimal number.
pub fn parse_u32(s: &str) -> (r: core::result::Result<u32, HexError>)
    ensures
        match u32_in(s@) {
            Ok(v) => r == Ok::<u32, HexError>(v as u32) && 0 <= v <= 0xFFFF_FFFF,
            Err(e) => r == Err::<u32, HexError>(e),
        },
{
    parse_number(hex_digits(s), 0xFFFF_FFFF)
}

/// Writing a number in hexadecimal digits and reading it back gives the number.
pub proof fn hex_reads_back(n: nat, width: nat, max: int)
    requires
        n <= max,
        n < vstd::arithmetic::power::pow(16, width),
    ensures
        digits_value(text::hex_fixed(n, width), max) == Ok::<int, HexError>(n as int),
    decreases width,
{
    vstd::arithmetic::power::lemma_pow0(16);
    if width > 0 {
        let w = (width - 1) as nat;
        vstd::arithmetic::power::lemma_pow_positive(16, w);
        assert(vstd::arithmetic::power::pow(16, width) == 16 * vstd::arithmetic::power::pow(16, w))
            by {
            reveal(vstd::arithmetic::power::pow);
        }
        hex_reads_back(n / 16, w, max);
        let s = text::hex_fixed(n, width);
        assert(s.drop_last() =~= text::hex_fixed(n / 16, w));
        assert(hex_value(text::hex_char(n % 16)) == Some((n % 16) as int));
    }
}

/// The characters of a hex string that count: not white space, not `_`.
pub open spec fn significant(s: Seq<char>) -> Seq<char>
    decreases s.len(),
{
    if s.len() == 0 {
        Seq::empty()
    } else if is_space(s.last()) || s.last() == '_' {
        significant(s.drop_last())
    } else {
        significant(s.drop_last()).push(s.last())
    }
}

/// The bytes of a string of hexadecimal digit pairs, each pair read as a number;
/// the first pair that is not one decides.
pub open spec fn pairs_value(s: Seq<char>) -> core::result::Result<Seq<u8>, HexError>
    decreases s.len(),
{
    if s.len() < 2 {
        Ok(Seq::empty())
    } else {
        match pairs_value(s.take(s.len() - 2)) {
            Err(e) => Err(e),
            Ok(b) => match number(s.skip(s.len() - 2), 0xFF) {
                Ok(v) => Ok(b.push(v as u8)),
                Err(e) => Err(e),
            },
        }
    }
}

/// The bytes that a hex string stands for. Its length counts in UTF-8 bytes, and
/// a character outside ASCII is not a digit.
pub open spec fn hex_string_value(s: Seq<char>) -> core::result::Result<Seq<u8>, HexError> {
    let t = significant(s);
    if vstd::utf8::encode_utf8(t).len() % 2 != 0 {
        Err(HexError::OddLength)
    } else if !vstd::utf8::is_ascii_chars(t) {
        Err(HexError::InvalidDigit)
    } else {
        pairs_value(t)
    }
}

/// White space and `_` are passed over wherever they stand; every other character counts,
/// in order.
pub proof fn separators_are_passed_over(a: Seq<char>, b: Seq<char>, c: char)
    ensures
        significant(a + b) == significant(a) + significant(b),
        is_space(c) || c == '_' ==> significant(seq![c]) == Seq::<char>::empty(),
        !is_space(c) && c != '_' ==> significant(seq![c]) == seq![c],
        significant(Seq::empty()) == Seq::<char>::empty(),
    decreases b.len(),
{
    reveal_with_fuel(significant, 2);
    assert(seq![c].drop_last() =~= Seq::<char>::empty());
    if b.len() == 0 {
        assert(a + b =~= a);
        assert(significant(a) + significant(b) =~= significant(a));
    } else {
        separators_are_passed_over(a, b.drop_last(), c);
        assert((a + b).drop_last() =~= a + b.drop_last());
        assert(significant(a + b) =~= significant(a) + significant(b));
    }
}

/// A byte string is read pair by pair from the left: a pair more is a byte more, and the
/// first pair that is no number decides.
pub proof fn bytes_are_read_pair_by_pair(s: Seq<char>, pair: Seq<char>)
    requires
        s.len() % 2 == 0,
        pair.len() == 2,
    ensures
        pairs_value(Seq::empty()) == Ok::<Seq<u8>, HexError>(Seq::empty()),
        pairs_value(s) is Err ==> pairs_value(s + pair) == pairs_value(s),
        pairs_value(s) matches Ok(b) ==> pairs_value(s + pair) == (match number(pair, 0xFF) {
            Ok(v) => Ok::<Seq<u8>, HexError>(b.push(v as u8)),
            Err(e) => Err::<Seq<u8>, HexError>(e),
        }),
{
    let all = s + pair;
    assert(all.take(all.len() - 2) =~= s);
    assert(all.skip(all.len() - 2) =~= pair);
}

/// The hexadecimal text of some bytes decodes to them, whatever white space and `_` is put
/// into it; half a byte too much is refused.
pub proof fn spelled_bytes_read_back(s: Seq<char>, b: Seq<u8>, c: char)
    ensures
        significant(s) == text::hex_bytes(b) ==> hex_string_value(s) == Ok::<Seq<u8>, HexError>(b),
        significant(s) == text::hex_bytes(b).push(c) && (c as int) < 128 ==> hex_string_value(s)
            == Err::<Seq<u8>, HexError>(HexError::OddLength),
{
    let h = text::hex_bytes(b);
    hex_bytes_read_back(b);
    assert forall|i: int| 0 <= i < h.len() implies '\0' <= #[trigger] h[i] <= '\u{7f}' by {
        text::hex_bytes_layout(b, i / 2);
        let pair = text::hex_fixed(b[i / 2] as nat, 2);
        text::hex_fixed_reads_back(b[i / 2] as nat, 2);
        assert(h.subrange(2 * (i / 2), 2 * (i / 2) + 2)[i % 2] == h[i]);
        assert(pair[i % 2] == h[i]);
    }
    assert(vstd::utf8::is_ascii_chars(h));
    vstd::utf8::is_ascii_chars_encode_utf8(h);
    if (c as int) < 128 {
        assert(vstd::utf8::is_ascii_chars(h.push(c)));
        vstd::utf8::is_ascii_chars_encode_utf8(h.push(c));
    }
}

/// Decode a hex string (whitespace and `_` allowed) into bytes.
pub fn decode_hex(s: &str) -> (r: core::result::Result<Vec<u8>, HexError>)
    ensures
        match hex_string_value(s@) {
            Ok(b) => r matches Ok(v) && v@ == b,
            Err(e) => r matches Err(f) && f == e,
        },
{
    let n: usize = s.unicode_len();
    let mut kept = String::new();
    let mut i: usize = 0;
    assert(s@.take(0) =~= Seq::<char>::empty());
    while i < n
        invariant
            n == s@.len(),
            i <= n,
            kept@ == significant(s@.take(i as int)),
        decreases n - i,
    {
        let c: char = s.get_char(i);
        assert(s@.take(i + 1).drop_last() =~= s@.take(i as int));
        if !white_space(c) && c != '_' {
            kept.push(c);
        }
        i = i + 1;
    }
    assert(s@.take(i as int) =~= s@);
    let t = kept.as_str();
    if t.as_bytes().len() % 2 != 0 {
        return Err(HexError::OddLength);
    }
    if !t.is_ascii() {
        return Err(HexError::InvalidDigit);
    }
    proof {
        vstd::utf8::is_ascii_chars_encode_utf8(t@);
    }
    let m: usize = t.unicode_len();
    let mut out: Vec<u8> = Vec::new();
    let mut k: usize = 0;
    assert(t@.take(0) =~= Seq::<char>::empty());
    while k < m
        invariant
            m == t@.len(),
            m % 2 == 0,
            k % 2 == 0,
            k <= m,
            hex_string_value(s@) == pairs_value(t@),
            pairs_value(t@.take(k as int)) == Ok::<Seq<u8>, HexError>(out@),
        decreases m - k,
    {
        let pair = t.substring_char(k, k + 2);
        proof {
            let longer = t@.take(k + 2);
            assert(longer.take(longer.len() - 2) =~= t@.take(k as int));
            assert(longer.skip(longer.len() - 2) =~= pair@);
        }
        match parse_number(pair, 0xFF) {
            Ok(v) => out.push(v as u8),
            Err(e) => {
                proof {
                    lemma_pairs_error(t@, k + 2);
                }
                return Err(e);
            },
        }
        k = k + 2;
    }
    assert(t@.take(k as int) =~= t@);
    Ok(out)
}

/// What goes wrong in the first pairs is what goes wrong.
proof fn lemma_pairs_error(s: Seq<char>, n: int)
    requires
        0 <= n <= s.len(),
        n % 2 == 0,
        s.len() % 2 == 0,
        pairs_value(s.take(n)) is Err,
    ensures
        pairs_value(s) == pairs_value(s.take(n)),
    decreases s.len() - n,
{
    if n < s.len() {
        let longer = s.take(n + 2);
        assert(longer.take(longer.len() - 2) =~= s.take(n));
        lemma_pairs_error(s, n + 2);
    } else {
        assert(s.take(n) =~= s);
    }
}

/// The bytes of a dump are what its hexadecimal text decodes to.
pub proof fn hex_bytes_read_back(b: Seq<u8>)
    ensures
        pairs_value(text::hex_bytes(b)) == Ok::<Seq<u8>, HexError>(b),
        text::hex_bytes(b).len() == 2 * b.len(),
    decreases b.len(),
{
    let s = text::hex_bytes(b);
    if b.len() > 0 {
        let rest = b.drop_last();
        let last = b.last() as nat;
        hex_bytes_read_back(rest);
        reveal_with_fuel(text::hex_fixed, 3);
        let pair = text::hex_fixed(last, 2);
        assert(pair.len() == 2);
        assert(s.take(s.len() - 2) =~= text::hex_bytes(rest));
        assert(s.skip(s.len() - 2) =~= pair);
        assert(vstd::arithmetic::power::pow(16, 2) == 256) by {
            reveal_with_fuel(vstd::arithmetic::power::pow, 3);
        }
        hex_reads_back(last, 2, 0xFF);
        assert(pair[0] != '+');
        assert(rest.push(b.last()) =~= b);
    } else {
        assert(b =~= Seq::<u8>::empty());
    }
}

/// The label of a port in messages.
pub fn port_name(p: PdPort) -> (s: &'static str)
    ensures
        s@ == (match p {
            PdPort::TargetC => "TARGET-C"@,
            PdPort::Aux => "AUX"@,
        }),
{
    match p {
        PdPort::TargetC => "TARGET-C",
        PdPort::Aux => "AUX",
    }
}

/// VDM command type.
#[derive(Debug, Clone, Copy, PartialEq, Eq, Structural)]
pub enum VdmType {
    Req,
    Ack,
    Nak,
    Busy,
}

impl VdmType {
    /// The command-type field.
    pub open spec fn code(self) -> u8 {
        match self {
            VdmType::Req => 0,
            VdmType::Ack => 1,
            VdmType::Nak => 2,
            VdmType::Busy => 3,
        }
    }

    /// The command-type field.
    pub fn value(self) -> (v: u8)
        ensures
            v == self.code(),
    {
        match self {
            VdmType::Req => 0,
            VdmType::Ack => 1,
            VdmType::Nak => 2,
            VdmType::Busy => 3,
        }
    }
}

/// What `pd-send` was asked to send.
pub struct SendArgs {
    /// Full raw messages as hex, in order.
    pub raws: Vec<String>,
    /// Whether to send a structured VDM after them.
    pub vdm: bool,
    pub svid: Option<u16>,
    pub command: Option<u8>,
    pub vdm_type: VdmType,
    pub obj_pos: u8,
    pub vdos: Vec<u32>,
}

/// Why `pd-send` cannot send what it was asked to.
#[derive(Debug)]
pub enum SendError {
    /// The raw message at this place is not hex.
    BadHex(usize, HexError),
    /// The raw message at this place is shorter than a header.
    TooShort(usize),
    /// A VDM needs an SVID.
    NoSvid,
    /// A VDM needs a command.
    NoCommand,
    /// There is nothing to send.
    Nothing,
}

/// What is told about messages that cannot be sent.
pub open spec fn send_error_message(e: SendError, quoted: Seq<char>) -> Seq<char> {
    match e {
        SendError::BadHex(_, _) => "bad --raw hex "@ + quoted,
        SendError::TooShort(_) => "--raw message "@ + quoted
            + " is too short (need at least the 2 header bytes)"@,
        SendError::NoSvid => "--vdm requires --svid"@,
        SendError::NoCommand => "--vdm requires --command"@,
        SendError::Nothing =>
            "nothing to send \u{2014} pass --raw <hex> and/or --vdm --svid .. --command .."@,
    }
}

/// What is told names what is missing, or quotes the message that is at fault.
pub proof fn send_errors_say_what_is_wrong(i: usize, e: HexError, quoted: Seq<char>)
    ensures
        send_error_message(SendError::BadHex(i, e), quoted) == "bad --raw hex "@ + quoted,
        send_error_message(SendError::TooShort(i), quoted) == "--raw message "@ + quoted
            + " is too short (need at least the 2 header bytes)"@,
        send_error_message(SendError::NoSvid, quoted) == "--vdm requires --svid"@,
        send_error_message(SendError::NoCommand, quoted) == "--vdm requires --command"@,
        send_error_message(SendError::Nothing, quoted)
            == "nothing to send \u{2014} pass --raw <hex> and/or --vdm --svid .. --command .."@,
{
}

/// What to tell about messages that cannot be sent, with the raw message at fault (if
/// one is) in quotes. What is wrong with its hex is told by
/// [`message`](HexError::message).
pub fn send_error_text(e: &SendError, quoted: &str) -> (s: String)
    ensures
        s@ == send_error_message(*e, quoted@),
{
    match e {
        SendError::BadHex(_, _) => "bad --raw hex ".to_owned().concat(quoted),
        SendError::TooShort(_) => {
            let mut s = "--raw message ".to_owned();
            s.append(quoted);
            s.append(" is too short (need at least the 2 header bytes)");
            s
        },
        SendError::NoSvid => "--vdm requires --svid".to_owned(),
        SendError::NoCommand => "--vdm requires --command".to_owned(),
        SendError::Nothing =>
            "nothing to send \u{2014} pass --raw <hex> and/or --vdm --svid .. --command ..".to_owned(),
    }
}

/// The messages to send: raw ones verbatim, in order, then the VDM.
pub struct SendPlan {
    pub raws: Vec<PdMessage>,
    pub vdm: Option<Vdm>,
}

/// What keeps the raw message at place `i` from being sent.
pub open spec fn raw_defect(i: int, s: Seq<char>) -> Option<SendError> {
    match hex_string_value(s) {
        Err(e) => Some(SendError::BadHex(i as usize, e)),
        Ok(b) => if b.len() < 2 {
            Some(SendError::TooShort(i as usize))
        } else {
            None
        },
    }
}

/// What keeps the arguments from being sent: the first raw message that is no
/// message, then a VDM that lacks a part, then nothing to send.
pub open spec fn send_defect(args: SendArgs, from: int) -> Option<SendError>
    decreases args.raws@.len() - from,
{
    if 0 <= from < args.raws@.len() {
        match raw_defect(from, args.raws@[from]@) {
            Some(e) => Some(e),
            None => send_defect(args, from + 1),
        }
    } else if args.vdm && args.svid is None {
        Some(SendError::NoSvid)
    } else if args.vdm && args.command is None {
        Some(SendError::NoCommand)
    } else if !args.vdm && args.raws@.len() == 0 {
        Some(SendError::Nothing)
    } else {
        None
    }
}

/// The command types of a VDM are numbered as the standard has them.
pub proof fn vdm_types_are_numbered()
    ensures
        VdmType::Req.code() == 0,
        VdmType::Ack.code() == 1,
        VdmType::Nak.code() == 2,
        VdmType::Busy.code() == 3,
{
}

/// A raw message can be sent exactly if its text is hexadecimal bytes, at least the two of
/// a header; what is wrong with it is told under its place.
pub proof fn raw_messages_have_a_header(i: usize, s: Seq<char>)
    ensures
        raw_defect(i as int, s) is None <==> (hex_string_value(s) matches Ok(b) && b.len() >= 2),
        hex_string_value(s) matches Err(e) ==> raw_defect(i as int, s) == Some(
            SendError::BadHex(i, e),
        ),
        hex_string_value(s) matches Ok(b) && b.len() < 2 ==> raw_defect(i as int, s) == Some(
            SendError::TooShort(i),
        ),
{
}

/// Of several defects the first is told: the raw messages in order, then a VDM without an
/// SVID, then one without a command; without a raw message and a VDM there is nothing to
/// send. There is no defect exactly if none of these holds.
pub proof fn first_defect_is_told(args: SendArgs, from: int, i: int)
    requires
        0 <= from <= i <= args.raws@.len(),
        forall|k: int| from <= k < i ==> raw_defect(k, (#[trigger] args.raws@[k])@) is None,
    ensures
        i < args.raws@.len() && raw_defect(i, args.raws@[i]@) is Some ==> send_defect(args, from)
            == raw_defect(i, args.raws@[i]@),
        i == args.raws@.len() ==> send_defect(args, from) == (if args.vdm {
            if args.svid is None {
                Some(SendError::NoSvid)
            } else if args.command is None {
                Some(SendError::NoCommand)
            } else {
                None
            }
        } else if args.raws@.len() == 0 {
            Some(SendError::Nothing)
        } else {
            None
        }),
    decreases i - from,
{
    if from < i {
        assert(raw_defect(from, args.raws@[from]@) is None);
        first_defect_is_told(args, from + 1, i);
    }
}

/// What is planned of arguments without a defect: every raw message as its bytes, in order,
/// and, if a VDM was asked for, that VDM.
pub open spec fn planned(args: SendArgs, p: SendPlan) -> bool {
    &&& p.raws@.len() == args.raws@.len()
    &&& forall|i: int|
        0 <= i < p.raws@.len() ==> hex_string_value(args.raws@[i]@) == Ok::<Seq<u8>, HexError>(
            (#[trigger] p.raws@[i])@,
        )
    &&& match p.vdm {
        Some(v) => {
            &&& args.vdm
            &&& v.svid == args.svid->0
            &&& v.command == args.command->0
            &&& v.command_type == args.vdm_type.code()
            &&& v.object_position == args.obj_pos
            &&& v.objects@ == args.vdos@
        },
        None => !args.vdm,
    }
}

/// A plan sends what was asked: a raw message that spells some bytes is sent as those
/// bytes, and a VDM carries every value that was given for it.
pub proof fn plan_sends_what_was_asked(args: SendArgs, p: SendPlan, i: int, b: Seq<u8>)
    requires
        planned(args, p),
        0 <= i < args.raws@.len(),
        significant(args.raws@[i]@) == text::hex_bytes(b),
    ensures
        p.raws@.len() == args.raws@.len(),
        p.raws@[i]@ == b,
        p.vdm is Some <==> args.vdm,
        p.vdm matches Some(v) ==> v.svid == args.svid->0 && v.command == args.command->0
            && v.command_type == args.vdm_type.code() && v.object_position == args.obj_pos
            && v.objects@ == args.vdos@,
{
    spelled_bytes_read_back(args.raws@[i]@, b, '0');
    assert(hex_string_value(args.raws@[i]@) == Ok::<Seq<u8>, HexError>(p.raws@[i]@));
}

/// Validate what `pd-send` was asked to send (before touching any hardware).
pub fn plan_send(args: &SendArgs) -> (r: core::result::Result<SendPlan, SendError>)
    ensures
        match send_defect(*args, 0) {
            Some(e) => r == Err::<SendPlan, SendError>(e),
            None => r matches Ok(p) && planned(*args, p),
        },
{
    let mut raws: Vec<PdMessage> = Vec::new();
    let mut i: usize = 0;
    while i < args.raws.len()
        invariant
            i <= args.raws@.len(),
            raws@.len() == i,
            send_defect(*args, 0) == send_defect(*args, i as int),
            forall|k: int|
                0 <= k < i ==> hex_string_value(args.raws@[k]@) == Ok::<Seq<u8>, HexError>(
                    (#[trigger] raws@[k])@,
                ),
        decreases args.raws@.len() - i,
    {
        let bytes = match decode_hex(args.raws[i].as_str()) {
            Ok(b) => b,
            Err(e) => return Err(SendError::BadHex(i, e)),
        };
        if bytes.len() < 2 {
            return Err(SendError::TooShort(i));
        }
        raws.push(PdMessage { raw: bytes });
        i = i + 1;
    }
    let vdm = if args.vdm {
        let svid: u16 = match args.svid {
            Some(v) => v,
            None => return Err(SendError::NoSvid),
        };
        let command: u8 = match args.command {
            Some(v) => v,
            None => return Err(SendError::NoCommand),
        };
        Some(
            Vdm {
                svid,
                command,
                command_type: args.vdm_type.value(),
                object_position: args.obj_pos,
                objects: vstd::slice::slice_to_vec(args.vdos.as_slice()),
            },
        )
    } else {
        if raws.len() == 0 {
            return Err(SendError::Nothing);
        }
        None
    };
    Ok(SendPlan { raws, vdm })
}

} // verus!
