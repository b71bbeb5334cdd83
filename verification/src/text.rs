//! Text as sequences of characters: trimming, splitting, searching and number forms.

use vstd::prelude::*;

verus! {

/// `String::push`: appends one character and leaves the rest of the text alone.
pub assume_specification[ String::push ](s: &mut String, c: char)
    ensures
        final(s)@ == old(s)@.push(c),
;

// ------------------------------------------------------------------ characters

pub open spec fn is_digit(c: char) -> bool {
    '0' <= c && c <= '9'
}

pub open spec fn is_upper(c: char) -> bool {
    'A' <= c && c <= 'Z'
}

pub open spec fn is_lower(c: char) -> bool {
    'a' <= c && c <= 'z'
}

/// An ASCII letter or digit.
pub open spec fn is_alnum(c: char) -> bool {
    is_digit(c) || is_upper(c) || is_lower(c)
}

pub open spec fn is_ascii_char(c: char) -> bool {
    (c as u32) < 128
}

/// The characters with Unicode's `White_Space` property.
pub open spec fn is_white(c: char) -> bool {
    ||| '\u{9}' <= c && c <= '\u{d}'
    ||| c == ' '
    ||| c == '\u{85}'
    ||| c == '\u{a0}'
    ||| c == '\u{1680}'
    ||| '\u{2000}' <= c && c <= '\u{200a}'
    ||| c == '\u{2028}'
    ||| c == '\u{2029}'
    ||| c == '\u{202f}'
    ||| c == '\u{205f}'
    ||| c == '\u{3000}'
}

pub open spec fn to_upper(c: char) -> char {
    if is_lower(c) {
        ((c as u32) - 32) as char
    } else {
        c
    }
}

/// One of two characters, by whether the code point of `c` is even.
pub open spec fn by_parity(c: char, even: char, odd: char) -> char {
    if (c as u32) % 2 == 0 {
        even
    } else {
        odd
    }
}

/// The accents that follow the letter they stand on: combining diacritical marks.
pub open spec fn is_mark(c: char) -> bool {
    ||| '\u{300}' <= c && c <= '\u{36f}'
    ||| '\u{1ab0}' <= c && c <= '\u{1aff}'
    ||| '\u{1dc0}' <= c && c <= '\u{1dff}'
    ||| '\u{20d0}' <= c && c <= '\u{20ff}'
    ||| '\u{fe20}' <= c && c <= '\u{fe2f}'
}

/// The ASCII letter under an accented letter: the letter that Unicode takes it apart into,
/// with nothing but accents beside it. Every other character is its own.
pub open spec fn base_letter(c: char) -> char {
    if '\u{2100}' <= c {
        symbol_base(c)
    } else if '\u{1e00}' <= c {
        additional_base(c)
    } else if '\u{180}' <= c {
        extended_b_base(c)
    } else if '\u{100}' <= c {
        extended_a_base(c)
    } else {
        latin1_base(c)
    }
}

/// [`base_letter`] in Latin-1.
pub open spec fn latin1_base(c: char) -> char {
    if '\u{c0}' <= c && c <= '\u{c5}' {
        'A'
    } else if c == '\u{c7}' {
        'C'
    } else if '\u{c8}' <= c && c <= '\u{cb}' {
        'E'
    } else if '\u{cc}' <= c && c <= '\u{cf}' {
        'I'
    } else if c == '\u{d1}' {
        'N'
    } else if '\u{d2}' <= c && c <= '\u{d6}' {
        'O'
    } else if '\u{d9}' <= c && c <= '\u{dc}' {
        'U'
    } else if c == '\u{dd}' {
        'Y'
    } else if '\u{e0}' <= c && c <= '\u{e5}' {
        'a'
    } else if c == '\u{e7}' {
        'c'
    } else if '\u{e8}' <= c && c <= '\u{eb}' {
        'e'
    } else if '\u{ec}' <= c && c <= '\u{ef}' {
        'i'
    } else if c == '\u{f1}' {
        'n'
    } else if '\u{f2}' <= c && c <= '\u{f6}' {
        'o'
    } else if '\u{f9}' <= c && c <= '\u{fc}' {
        'u'
    } else if c == '\u{fd}' {
        'y'
    } else if c == '\u{ff}' {
        'y'
    } else {
        c
    }
}

/// [`base_letter`] in Latin Extended-A.
pub open spec fn extended_a_base(c: char) -> char {
    if '\u{100}' <= c && c <= '\u{105}' {
        by_parity(c, 'A', 'a')
    } else if '\u{106}' <= c && c <= '\u{10d}' {
        by_parity(c, 'C', 'c')
    } else if '\u{10e}' <= c && c <= '\u{10f}' {
        by_parity(c, 'D', 'd')
    } else if '\u{112}' <= c && c <= '\u{11b}' {
        by_parity(c, 'E', 'e')
    } else if '\u{11c}' <= c && c <= '\u{123}' {
        by_parity(c, 'G', 'g')
    } else if '\u{124}' <= c && c <= '\u{125}' {
        by_parity(c, 'H', 'h')
    } else if '\u{128}' <= c && c <= '\u{130}' {
        by_parity(c, 'I', 'i')
    } else if '\u{134}' <= c && c <= '\u{135}' {
        by_parity(c, 'J', 'j')
    } else if '\u{136}' <= c && c <= '\u{137}' {
        by_parity(c, 'K', 'k')
    } else if '\u{139}' <= c && c <= '\u{13e}' {
        by_parity(c, 'l', 'L')
    } else if '\u{143}' <= c && c <= '\u{148}' {
        by_parity(c, 'n', 'N')
    } else if '\u{14c}' <= c && c <= '\u{151}' {
        by_parity(c, 'O', 'o')
    } else if '\u{154}' <= c && c <= '\u{159}' {
        by_parity(c, 'R', 'r')
    } else if '\u{15a}' <= c && c <= '\u{161}' {
        by_parity(c, 'S', 's')
    } else if '\u{162}' <= c && c <= '\u{165}' {
        by_parity(c, 'T', 't')
    } else if '\u{168}' <= c && c <= '\u{173}' {
        by_parity(c, 'U', 'u')
    } else if '\u{174}' <= c && c <= '\u{175}' {
        by_parity(c, 'W', 'w')
    } else if '\u{176}' <= c && c <= '\u{178}' {
        by_parity(c, 'Y', 'y')
    } else if '\u{179}' <= c && c <= '\u{17e}' {
        by_parity(c, 'z', 'Z')
    } else {
        c
    }
}

/// [`base_letter`] in Latin Extended-B.
pub open spec fn extended_b_base(c: char) -> char {
    if '\u{1a0}' <= c && c <= '\u{1a1}' {
        by_parity(c, 'O', 'o')
    } else if '\u{1af}' <= c && c <= '\u{1b0}' {
        by_parity(c, 'u', 'U')
    } else if '\u{1cd}' <= c && c <= '\u{1ce}' {
        by_parity(c, 'a', 'A')
    } else if '\u{1cf}' <= c && c <= '\u{1d0}' {
        by_parity(c, 'i', 'I')
    } else if '\u{1d1}' <= c && c <= '\u{1d2}' {
        by_parity(c, 'o', 'O')
    } else if '\u{1d3}' <= c && c <= '\u{1dc}' {
        by_parity(c, 'u', 'U')
    } else if '\u{1de}' <= c && c <= '\u{1e1}' {
        by_parity(c, 'A', 'a')
    } else if '\u{1e6}' <= c && c <= '\u{1e7}' {
        by_parity(c, 'G', 'g')
    } else if '\u{1e8}' <= c && c <= '\u{1e9}' {
        by_parity(c, 'K', 'k')
    } else if '\u{1ea}' <= c && c <= '\u{1ed}' {
        by_parity(c, 'O', 'o')
    } else if c == '\u{1f0}' {
        'j'
    } else if '\u{1f4}' <= c && c <= '\u{1f5}' {
        by_parity(c, 'G', 'g')
    } else if '\u{1f8}' <= c && c <= '\u{1f9}' {
        by_parity(c, 'N', 'n')
    } else if '\u{1fa}' <= c && c <= '\u{1fb}' {
        by_parity(c, 'A', 'a')
    } else if '\u{200}' <= c && c <= '\u{203}' {
        by_parity(c, 'A', 'a')
    } else if '\u{204}' <= c && c <= '\u{207}' {
        by_parity(c, 'E', 'e')
    } else if '\u{208}' <= c && c <= '\u{20b}' {
        by_parity(c, 'I', 'i')
    } else if '\u{20c}' <= c && c <= '\u{20f}' {
        by_parity(c, 'O', 'o')
    } else if '\u{210}' <= c && c <= '\u{213}' {
        by_parity(c, 'R', 'r')
    } else if '\u{214}' <= c && c <= '\u{217}' {
        by_parity(c, 'U', 'u')
    } else if '\u{218}' <= c && c <= '\u{219}' {
        by_parity(c, 'S', 's')
    } else if '\u{21a}' <= c && c <= '\u{21b}' {
        by_parity(c, 'T', 't')
    } else if '\u{21e}' <= c && c <= '\u{21f}' {
        by_parity(c, 'H', 'h')
    } else if '\u{226}' <= c && c <= '\u{227}' {
        by_parity(c, 'A', 'a')
    } else if '\u{228}' <= c && c <= '\u{229}' {
        by_parity(c, 'E', 'e')
    } else if '\u{22a}' <= c && c <= '\u{231}' {
        by_parity(c, 'O', 'o')
    } else if '\u{232}' <= c && c <= '\u{233}' {
        by_parity(c, 'Y', 'y')
    } else {
        c
    }
}

/// [`base_letter`] in Latin Extended Additional.
pub open spec fn additional_base(c: char) -> char {
    if '\u{1e00}' <= c && c <= '\u{1e01}' {
        by_parity(c, 'A', 'a')
    } else if '\u{1e02}' <= c && c <= '\u{1e07}' {
        by_parity(c, 'B', 'b')
    } else if '\u{1e08}' <= c && c <= '\u{1e09}' {
        by_parity(c, 'C', 'c')
    } else if '\u{1e0a}' <= c && c <= '\u{1e13}' {
        by_parity(c, 'D', 'd')
    } else if '\u{1e14}' <= c && c <= '\u{1e1d}' {
        by_parity(c, 'E', 'e')
    } else if '\u{1e1e}' <= c && c <= '\u{1e1f}' {
        by_parity(c, 'F', 'f')
    } else if '\u{1e20}' <= c && c <= '\u{1e21}' {
        by_parity(c, 'G', 'g')
    } else if '\u{1e22}' <= c && c <= '\u{1e2b}' {
        by_parity(c, 'H', 'h')
    } else if '\u{1e2c}' <= c && c <= '\u{1e2f}' {
        by_parity(c, 'I', 'i')
    } else if '\u{1e30}' <= c && c <= '\u{1e35}' {
        by_parity(c, 'K', 'k')
    } else if '\u{1e36}' <= c && c <= '\u{1e3d}' {
        by_parity(c, 'L', 'l')
    } else if '\u{1e3e}' <= c && c <= '\u{1e43}' {
        by_parity(c, 'M', 'm')
    } else if '\u{1e44}' <= c && c <= '\u{1e4b}' {
        by_parity(c, 'N', 'n')
    } else if '\u{1e4c}' <= c && c <= '\u{1e53}' {
        by_parity(c, 'O', 'o')
    } else if '\u{1e54}' <= c && c <= '\u{1e57}' {
        by_parity(c, 'P', 'p')
    } else if '\u{1e58}' <= c && c <= '\u{1e5f}' {
        by_parity(c, 'R', 'r')
    } else if '\u{1e60}' <= c && c <= '\u{1e69}' {
        by_parity(c, 'S', 's')
    } else if '\u{1e6a}' <= c && c <= '\u{1e71}' {
        by_parity(c, 'T', 't')
    } else if '\u{1e72}' <= c && c <= '\u{1e7b}' {
        by_parity(c, 'U', 'u')
    } else if '\u{1e7c}' <= c && c <= '\u{1e7f}' {
        by_parity(c, 'V', 'v')
    } else if '\u{1e80}' <= c && c <= '\u{1e89}' {
        by_parity(c, 'W', 'w')
    } else if '\u{1e8a}' <= c && c <= '\u{1e8d}' {
        by_parity(c, 'X', 'x')
    } else if '\u{1e8e}' <= c && c <= '\u{1e8f}' {
        by_parity(c, 'Y', 'y')
    } else if '\u{1e90}' <= c && c <= '\u{1e95}' {
        by_parity(c, 'Z', 'z')
    } else if c == '\u{1e96}' {
        'h'
    } else if c == '\u{1e97}' {
        't'
    } else if c == '\u{1e98}' {
        'w'
    } else if c == '\u{1e99}' {
        'y'
    } else if '\u{1ea0}' <= c && c <= '\u{1eb7}' {
        by_parity(c, 'A', 'a')
    } else if '\u{1eb8}' <= c && c <= '\u{1ec7}' {
        by_parity(c, 'E', 'e')
    } else if '\u{1ec8}' <= c && c <= '\u{1ecb}' {
        by_parity(c, 'I', 'i')
    } else if '\u{1ecc}' <= c && c <= '\u{1ee3}' {
        by_parity(c, 'O', 'o')
    } else if '\u{1ee4}' <= c && c <= '\u{1ef1}' {
        by_parity(c, 'U', 'u')
    } else if '\u{1ef2}' <= c && c <= '\u{1ef9}' {
        by_parity(c, 'Y', 'y')
    } else {
        c
    }
}

/// [`base_letter`] among the letterlike symbols.
pub open spec fn symbol_base(c: char) -> char {
    if c == '\u{212a}' {
        'K'
    } else if c == '\u{212b}' {
        'A'
    } else {
        c
    }
}

pub open spec fn all_digits(s: Seq<char>) -> bool {
    forall|i: int| 0 <= i < s.len() ==> is_digit(#[trigger] s[i])
}

pub open spec fn all_alnum(s: Seq<char>) -> bool {
    forall|i: int| 0 <= i < s.len() ==> is_alnum(#[trigger] s[i])
}

pub fn digit(c: char) -> (r: bool)
    ensures
        r == is_digit(c),
{
    '0' <= c && c <= '9'
}

pub fn alnum(c: char) -> (r: bool)
    ensures
        r == is_alnum(c),
{
    digit(c) || ('A' <= c && c <= 'Z') || ('a' <= c && c <= 'z')
}

pub fn white(c: char) -> (r: bool)
    ensures
        r == is_white(c),
{
    ('\u{9}' <= c && c <= '\u{d}') || c == ' ' || c == '\u{85}' || c == '\u{a0}' || c == '\u{1680}'
        || ('\u{2000}' <= c && c <= '\u{200a}') || c == '\u{2028}' || c == '\u{2029}'
        || c == '\u{202f}' || c == '\u{205f}' || c == '\u{3000}'
}

pub fn upper(c: char) -> (r: char)
    ensures
        r == to_upper(c),
{
    if 'a' <= c && c <= 'z' {
        ((c as u8) - 32) as char
    } else {
        c
    }
}

fn pick(c: char, even: char, odd: char) -> (r: char)
    ensures
        r == by_parity(c, even, odd),
{
    if (c as u32) % 2 == 0 {
        even
    } else {
        odd
    }
}

pub fn mark(c: char) -> (r: bool)
    ensures
        r == is_mark(c),
{
    ('\u{300}' <= c && c <= '\u{36f}') || ('\u{1ab0}' <= c && c <= '\u{1aff}') || ('\u{1dc0}' <= c
        && c <= '\u{1dff}') || ('\u{20d0}' <= c && c <= '\u{20ff}') || ('\u{fe20}' <= c && c
        <= '\u{fe2f}')
}

fn base_in_latin1(c: char) -> (r: char)
    ensures
        r == latin1_base(c),
{
    if '\u{c0}' <= c && c <= '\u{c5}' {
        'A'
    } else if c == '\u{c7}' {
        'C'
    } else if '\u{c8}' <= c && c <= '\u{cb}' {
        'E'
    } else if '\u{cc}' <= c && c <= '\u{cf}' {
        'I'
    } else if c == '\u{d1}' {
        'N'
    } else if '\u{d2}' <= c && c <= '\u{d6}' {
        'O'
    } else if '\u{d9}' <= c && c <= '\u{dc}' {
        'U'
    } else if c == '\u{dd}' {
        'Y'
    } else if '\u{e0}' <= c && c <= '\u{e5}' {
        'a'
    } else if c == '\u{e7}' {
        'c'
    } else if '\u{e8}' <= c && c <= '\u{eb}' {
        'e'
    } else if '\u{ec}' <= c && c <= '\u{ef}' {
        'i'
    } else if c == '\u{f1}' {
        'n'
    } else if '\u{f2}' <= c && c <= '\u{f6}' {
        'o'
    } else if '\u{f9}' <= c && c <= '\u{fc}' {
        'u'
    } else if c == '\u{fd}' {
        'y'
    } else if c == '\u{ff}' {
        'y'
    } else {
        c
    }
}

fn base_in_extended_a(c: char) -> (r: char)
    ensures
        r == extended_a_base(c),
{
    if '\u{100}' <= c && c <= '\u{105}' {
        pick(c, 'A', 'a')
    } else if '\u{106}' <= c && c <= '\u{10d}' {
        pick(c, 'C', 'c')
    } else if '\u{10e}' <= c && c <= '\u{10f}' {
        pick(c, 'D', 'd')
    } else if '\u{112}' <= c && c <= '\u{11b}' {
        pick(c, 'E', 'e')
    } else if '\u{11c}' <= c && c <= '\u{123}' {
        pick(c, 'G', 'g')
    } else if '\u{124}' <= c && c <= '\u{125}' {
        pick(c, 'H', 'h')
    } else if '\u{128}' <= c && c <= '\u{130}' {
        pick(c, 'I', 'i')
    } else if '\u{134}' <= c && c <= '\u{135}' {
        pick(c, 'J', 'j')
    } else if '\u{136}' <= c && c <= '\u{137}' {
        pick(c, 'K', 'k')
    } else if '\u{139}' <= c && c <= '\u{13e}' {
        pick(c, 'l', 'L')
    } else if '\u{143}' <= c && c <= '\u{148}' {
        pick(c, 'n', 'N')
    } else if '\u{14c}' <= c && c <= '\u{151}' {
        pick(c, 'O', 'o')
    } else if '\u{154}' <= c && c <= '\u{159}' {
        pick(c, 'R', 'r')
    } else if '\u{15a}' <= c && c <= '\u{161}' {
        pick(c, 'S', 's')
    } else if '\u{162}' <= c && c <= '\u{165}' {
        pick(c, 'T', 't')
    } else if '\u{168}' <= c && c <= '\u{173}' {
        pick(c, 'U', 'u')
    } else if '\u{174}' <= c && c <= '\u{175}' {
        pick(c, 'W', 'w')
    } else if '\u{176}' <= c && c <= '\u{178}' {
        pick(c, 'Y', 'y')
    } else if '\u{179}' <= c && c <= '\u{17e}' {
        pick(c, 'z', 'Z')
    } else {
        c
    }
}

fn base_in_extended_b(c: char) -> (r: char)
    ensures
        r == extended_b_base(c),
{
    if '\u{1a0}' <= c && c <= '\u{1a1}' {
        pick(c, 'O', 'o')
    } else if '\u{1af}' <= c && c <= '\u{1b0}' {
        pick(c, 'u', 'U')
    } else if '\u{1cd}' <= c && c <= '\u{1ce}' {
        pick(c, 'a', 'A')
    } else if '\u{1cf}' <= c && c <= '\u{1d0}' {
        pick(c, 'i', 'I')
    } else if '\u{1d1}' <= c && c <= '\u{1d2}' {
        pick(c, 'o', 'O')
    } else if '\u{1d3}' <= c && c <= '\u{1dc}' {
        pick(c, 'u', 'U')
    } else if '\u{1de}' <= c && c <= '\u{1e1}' {
        pick(c, 'A', 'a')
    } else if '\u{1e6}' <= c && c <= '\u{1e7}' {
        pick(c, 'G', 'g')
    } else if '\u{1e8}' <= c && c <= '\u{1e9}' {
        pick(c, 'K', 'k')
    } else if '\u{1ea}' <= c && c <= '\u{1ed}' {
        pick(c, 'O', 'o')
    } else if c == '\u{1f0}' {
        'j'
    } else if '\u{1f4}' <= c && c <= '\u{1f5}' {
        pick(c, 'G', 'g')
    } else if '\u{1f8}' <= c && c <= '\u{1f9}' {
        pick(c, 'N', 'n')
    } else if '\u{1fa}' <= c && c <= '\u{1fb}' {
        pick(c, 'A', 'a')
    } else if '\u{200}' <= c && c <= '\u{203}' {
        pick(c, 'A', 'a')
    } else if '\u{204}' <= c && c <= '\u{207}' {
        pick(c, 'E', 'e')
    } else if '\u{208}' <= c && c <= '\u{20b}' {
        pick(c, 'I', 'i')
    } else if '\u{20c}' <= c && c <= '\u{20f}' {
        pick(c, 'O', 'o')
    } else if '\u{210}' <= c && c <= '\u{213}' {
        pick(c, 'R', 'r')
    } else if '\u{214}' <= c && c <= '\u{217}' {
        pick(c, 'U', 'u')
    } else if '\u{218}' <= c && c <= '\u{219}' {
        pick(c, 'S', 's')
    } else if '\u{21a}' <= c && c <= '\u{21b}' {
        pick(c, 'T', 't')
    } else if '\u{21e}' <= c && c <= '\u{21f}' {
        pick(c, 'H', 'h')
    } else if '\u{226}' <= c && c <= '\u{227}' {
        pick(c, 'A', 'a')
    } else if '\u{228}' <= c && c <= '\u{229}' {
        pick(c, 'E', 'e')
    } else if '\u{22a}' <= c && c <= '\u{231}' {
        pick(c, 'O', 'o')
    } else if '\u{232}' <= c && c <= '\u{233}' {
        pick(c, 'Y', 'y')
    } else {
        c
    }
}

fn base_in_additional(c: char) -> (r: char)
    ensures
        r == additional_base(c),
{
    if '\u{1e00}' <= c && c <= '\u{1e01}' {
        pick(c, 'A', 'a')
    } else if '\u{1e02}' <= c && c <= '\u{1e07}' {
        pick(c, 'B', 'b')
    } else if '\u{1e08}' <= c && c <= '\u{1e09}' {
        pick(c, 'C', 'c')
    } else if '\u{1e0a}' <= c && c <= '\u{1e13}' {
        pick(c, 'D', 'd')
    } else if '\u{1e14}' <= c && c <= '\u{1e1d}' {
        pick(c, 'E', 'e')
    } else if '\u{1e1e}' <= c && c <= '\u{1e1f}' {
        pick(c, 'F', 'f')
    } else if '\u{1e20}' <= c && c <= '\u{1e21}' {
        pick(c, 'G', 'g')
    } else if '\u{1e22}' <= c && c <= '\u{1e2b}' {
        pick(c, 'H', 'h')
    } else if '\u{1e2c}' <= c && c <= '\u{1e2f}' {
        pick(c, 'I', 'i')
    } else if '\u{1e30}' <= c && c <= '\u{1e35}' {
        pick(c, 'K', 'k')
    } else if '\u{1e36}' <= c && c <= '\u{1e3d}' {
        pick(c, 'L', 'l')
    } else if '\u{1e3e}' <= c && c <= '\u{1e43}' {
        pick(c, 'M', 'm')
    } else if '\u{1e44}' <= c && c <= '\u{1e4b}' {
        pick(c, 'N', 'n')
    } else if '\u{1e4c}' <= c && c <= '\u{1e53}' {
        pick(c, 'O', 'o')
    } else if '\u{1e54}' <= c && c <= '\u{1e57}' {
        pick(c, 'P', 'p')
    } else if '\u{1e58}' <= c && c <= '\u{1e5f}' {
        pick(c, 'R', 'r')
    } else if '\u{1e60}' <= c && c <= '\u{1e69}' {
        pick(c, 'S', 's')
    } else if '\u{1e6a}' <= c && c <= '\u{1e71}' {
        pick(c, 'T', 't')
    } else if '\u{1e72}' <= c && c <= '\u{1e7b}' {
        pick(c, 'U', 'u')
    } else if '\u{1e7c}' <= c && c <= '\u{1e7f}' {
        pick(c, 'V', 'v')
    } else if '\u{1e80}' <= c && c <= '\u{1e89}' {
        pick(c, 'W', 'w')
    } else if '\u{1e8a}' <= c && c <= '\u{1e8d}' {
        pick(c, 'X', 'x')
    } else if '\u{1e8e}' <= c && c <= '\u{1e8f}' {
        pick(c, 'Y', 'y')
    } else if '\u{1e90}' <= c && c <= '\u{1e95}' {
        pick(c, 'Z', 'z')
    } else if c == '\u{1e96}' {
        'h'
    } else if c == '\u{1e97}' {
        't'
    } else if c == '\u{1e98}' {
        'w'
    } else if c == '\u{1e99}' {
        'y'
    } else if '\u{1ea0}' <= c && c <= '\u{1eb7}' {
        pick(c, 'A', 'a')
    } else if '\u{1eb8}' <= c && c <= '\u{1ec7}' {
        pick(c, 'E', 'e')
    } else if '\u{1ec8}' <= c && c <= '\u{1ecb}' {
        pick(c, 'I', 'i')
    } else if '\u{1ecc}' <= c && c <= '\u{1ee3}' {
        pick(c, 'O', 'o')
    } else if '\u{1ee4}' <= c && c <= '\u{1ef1}' {
        pick(c, 'U', 'u')
    } else if '\u{1ef2}' <= c && c <= '\u{1ef9}' {
        pick(c, 'Y', 'y')
    } else {
        c
    }
}

fn base_in_symbol(c: char) -> (r: char)
    ensures
        r == symbol_base(c),
{
    if c == '\u{212a}' {
        'K'
    } else if c == '\u{212b}' {
        'A'
    } else {
        c
    }
}

/// The letter without its accent.
pub fn unaccented(c: char) -> (r: char)
    ensures
        r == base_letter(c),
{
    if '\u{2100}' <= c {
        base_in_symbol(c)
    } else if '\u{1e00}' <= c {
        base_in_additional(c)
    } else if '\u{180}' <= c {
        base_in_extended_b(c)
    } else if '\u{100}' <= c {
        base_in_extended_a(c)
    } else {
        base_in_latin1(c)
    }
}

/// ASCII characters carry no accent, and taking an accent off leaves none to take off.
pub proof fn base_letters_are_plain(c: char)
    ensures
        is_ascii_char(c) ==> base_letter(c) == c && !is_mark(c),
        base_letter(base_letter(c)) == base_letter(c),
        base_letter(c) == c || is_upper(base_letter(c)) || is_lower(base_letter(c)),
        !is_mark(c) ==> !is_mark(base_letter(c)),
{
}

// ------------------------------------------------------------------ conversions

/// The text in it, if there is one.
pub open spec fn opt(s: Option<String>) -> Option<Seq<char>> {
    match s {
        Some(t) => Some(t@),
        None => None,
    }
}

/// The characters of `s`.
pub fn chars_of(s: &str) -> (v: Vec<char>)
    ensures
        v@ == s@,
{
    let mut v: Vec<char> = Vec::new();
    for c in it: s.chars()
        invariant
            v@ == s@.take(it.index()),
            it.seq() == s@,
    {
        v.push(c);
    }
    v
}

/// The text between two character positions.
pub fn piece(v: &Vec<char>, from: usize, to: usize) -> (r: String)
    requires
        from <= to <= v@.len(),
    ensures
        r@ == v@.subrange(from as int, to as int),
{
    let mut r = String::new();
    let mut i: usize = from;
    while i < to
        invariant
            from <= i <= to <= v@.len(),
            r@ == v@.subrange(from as int, i as int),
        decreases to - i,
    {
        r.push(v[i]);
        i += 1;
    }
    r
}

pub fn same(a: &str, b: &str) -> (r: bool)
    ensures
        r == (a@ == b@),
{
    a.to_owned() == b.to_owned()
}

// ------------------------------------------------------------------ trimming

pub open spec fn trim_start(s: Seq<char>) -> Seq<char>
    decreases s.len(),
{
    if s.len() > 0 && is_white(s[0]) {
        trim_start(s.skip(1))
    } else {
        s
    }
}

pub open spec fn trim_end(s: Seq<char>) -> Seq<char>
    decreases s.len(),
{
    if s.len() > 0 && is_white(s.last()) {
        trim_end(s.drop_last())
    } else {
        s
    }
}

/// `s` without the white space at either end.
pub open spec fn trim(s: Seq<char>) -> Seq<char> {
    trim_end(trim_start(s))
}

pub fn trimmed(s: &str) -> (r: String)
    ensures
        r@ == trim(s@),
{
    let v = chars_of(s);
    let mut from: usize = 0;
    assert(v@.skip(0) =~= v@);
    while from < v.len() && white(v[from])
        invariant
            from <= v@.len(),
            trim_start(v@) == trim_start(v@.skip(from as int)),
        decreases v@.len() - from,
    {
        assert(v@.skip(from as int).skip(1) =~= v@.skip(from + 1));
        from += 1;
    }
    let ghost rest = v@.skip(from as int);
    assert(trim_start(v@) == rest);
    let mut to: usize = v.len();
    assert(v@.subrange(from as int, to as int) =~= rest);
    while from < to && white(v[to - 1])
        invariant
            from <= to <= v@.len(),
            rest == v@.skip(from as int),
            trim_end(rest) == trim_end(v@.subrange(from as int, to as int)),
        decreases to,
    {
        assert(v@.subrange(from as int, to as int).drop_last() =~= v@.subrange(
            from as int,
            to - 1,
        ));
        to -= 1;
    }
    piece(&v, from, to)
}

/// Trimming leaves a piece of the text, at most as long, with no white space at its ends.
pub proof fn trim_is_tight(s: Seq<char>)
    ensures
        exists|i: int, j: int| 0 <= i <= j <= s.len() && #[trigger] s.subrange(i, j) == trim(s),
        trim(s).len() <= s.len(),
        trim(s).len() > 0 ==> !is_white(trim(s)[0]) && !is_white(trim(s).last()),
        trim(trim(s)) == trim(s),
{
    let t = trim_start(s);
    trim_start_is_suffix(s);
    trim_end_is_prefix(t);
    let i = choose|i: int| 0 <= i <= s.len() && #[trigger] s.skip(i) == t;
    let k = choose|k: int| 0 <= k <= t.len() && #[trigger] t.take(k) == trim_end(t);
    assert(s.subrange(i, i + k) =~= trim(s));
}

/// A text without white space at its ends is what trimming leaves of it.
pub proof fn trim_of_tight(s: Seq<char>)
    requires
        s.len() > 0 ==> !is_white(s[0]) && !is_white(s.last()),
    ensures
        trim(s) == s,
{
}

proof fn trim_start_is_suffix(s: Seq<char>)
    ensures
        exists|i: int| 0 <= i <= s.len() && #[trigger] s.skip(i) == trim_start(s),
        trim_start(s).len() > 0 ==> !is_white(trim_start(s)[0]),
    decreases s.len(),
{
    if s.len() > 0 && is_white(s[0]) {
        let r = s.skip(1);
        trim_start_is_suffix(r);
        let i = choose|i: int| 0 <= i <= r.len() && #[trigger] r.skip(i) == trim_start(r);
        assert(s.skip(i + 1) =~= r.skip(i));
    } else {
        assert(s.skip(0) =~= s);
    }
}

proof fn trim_end_is_prefix(s: Seq<char>)
    ensures
        exists|k: int| 0 <= k <= s.len() && #[trigger] s.take(k) == trim_end(s),
        trim_end(s).len() > 0 ==> trim_end(s)[0] == s[0] && !is_white(trim_end(s).last()),
    decreases s.len(),
{
    if s.len() > 0 && is_white(s.last()) {
        let r = s.drop_last();
        trim_end_is_prefix(r);
        let k = choose|k: int| 0 <= k <= r.len() && #[trigger] r.take(k) == trim_end(r);
        assert(s.take(k) =~= r.take(k));
    } else {
        assert(s.take(s.len() as int) =~= s);
    }
}

// ------------------------------------------------------------------ pieces

/// `s` cut at every `sep`: one piece more than there are separators.
pub open spec fn split(s: Seq<char>, sep: char) -> Seq<Seq<char>>
    decreases s.len(),
{
    if s.len() == 0 {
        seq![Seq::empty()]
    } else {
        let before = split(s.drop_last(), sep);
        if s.last() == sep {
            before.push(Seq::empty())
        } else {
            before.update(before.len() - 1, before.last().push(s.last()))
        }
    }
}

/// The parts one after another with `sep` between them.
pub open spec fn join(parts: Seq<Seq<char>>, sep: Seq<char>) -> Seq<char>
    decreases parts.len(),
{
    if parts.len() == 0 {
        Seq::empty()
    } else if parts.len() == 1 {
        parts[0]
    } else {
        join(parts.drop_last(), sep) + sep + parts.last()
    }
}

pub open spec fn views(v: Seq<String>) -> Seq<Seq<char>> {
    v.map_values(|s: String| s@)
}

pub fn split_text(s: &str, sep: char) -> (parts: Vec<String>)
    ensures
        views(parts@) == split(s@, sep),
        parts@.len() >= 1,
{
    let v = chars_of(s);
    let mut parts: Vec<String> = Vec::new();
    let mut cur = String::new();
    let mut i: usize = 0;
    assert(views(parts@).push(cur@) =~= split(v@.take(0), sep));
    while i < v.len()
        invariant
            i <= v@.len(),
            views(parts@).push(cur@) == split(v@.take(i as int), sep),
        decreases v@.len() - i,
    {
        let ghost before = views(parts@).push(cur@);
        assert(v@.take(i + 1).drop_last() =~= v@.take(i as int));
        if v[i] == sep {
            parts.push(cur);
            cur = String::new();
            assert(views(parts@) =~= before);
            assert(views(parts@).push(cur@) =~= before.push(Seq::empty()));
        } else {
            cur.push(v[i]);
            assert(views(parts@).push(cur@) =~= before.update(
                before.len() - 1,
                before.last().push(v@[i as int]),
            ));
        }
        i += 1;
    }
    assert(v@.take(i as int) =~= v@);
    let ghost before = views(parts@).push(cur@);
    parts.push(cur);
    assert(views(parts@) =~= before);
    parts
}

pub fn join_text(parts: &Vec<String>, sep: &str) -> (r: String)
    ensures
        r@ == join(views(parts@), sep@),
{
    let mut r = String::new();
    let mut i: usize = 0;
    assert(views(parts@).take(0) =~= Seq::empty());
    while i < parts.len()
        invariant
            i <= parts@.len(),
            r@ == join(views(parts@).take(i as int), sep@),
        decreases parts@.len() - i,
    {
        assert(views(parts@).take(i + 1).drop_last() =~= views(parts@).take(i as int));
        if i > 0 {
            r.append(sep);
        }
        r.append(parts[i].as_str());
        assert(r@ =~= join(views(parts@).take(i + 1), sep@));
        i += 1;
    }
    assert(views(parts@).take(i as int) =~= views(parts@));
    r
}

/// No piece of a split holds the separator, and joining the pieces gives the text back.
pub proof fn split_then_join(s: Seq<char>, sep: char)
    ensures
        split(s, sep).len() >= 1,
        forall|i: int|
            0 <= i < split(s, sep).len() ==> !(#[trigger] split(s, sep)[i]).contains(sep),
        join(split(s, sep), seq![sep]) == s,
    decreases s.len(),
{
    let parts = split(s, sep);
    if s.len() > 0 {
        let t = s.drop_last();
        let before = split(t, sep);
        split_then_join(t, sep);
        assert(s =~= t.push(s.last()));
        if s.last() == sep {
            assert(parts.drop_last() =~= before);
            assert(join(parts, seq![sep]) =~= join(before, seq![sep]) + seq![sep] + Seq::empty());
            assert(join(parts, seq![sep]) =~= s);
        } else {
            assert(parts.drop_last() =~= before.drop_last());
            assert(join(parts, seq![sep]) =~= join(before, seq![sep]).push(s.last()));
            assert forall|i: int| 0 <= i < parts.len() implies !(#[trigger] parts[i]).contains(
                sep,
            ) by {
                if i == parts.len() - 1 {
                    let last = before.last();
                    assert(!before[before.len() - 1].contains(sep));
                    if parts[i].contains(sep) {
                        let k = choose|k: int| 0 <= k < parts[i].len() && parts[i][k] == sep;
                        assert(last[k] == sep);
                    }
                } else {
                    assert(parts[i] == before[i]);
                }
            }
        }
    }
}

/// What follows the last separator is the last piece.
pub proof fn last_piece_after(a: Seq<char>, b: Seq<char>, sep: char)
    requires
        !b.contains(sep),
    ensures
        split(a.push(sep) + b, sep).last() == b,
    decreases b.len(),
{
    let s = a.push(sep) + b;
    split_then_join(s.drop_last(), sep);
    if b.len() == 0 {
        assert(s =~= a.push(sep));
        assert(s.last() == sep);
    } else {
        let c = b.drop_last();
        assert(s.drop_last() =~= a.push(sep) + c);
        assert(b.last() != sep) by {
            assert(b[b.len() - 1] == b.last());
        }
        assert forall|i: int| 0 <= i < c.len() implies c[i] != sep by {
            assert(b[i] == c[i]);
        }
        last_piece_after(a, c, sep);
        assert(s.last() == b.last());
        assert(c.push(b.last()) =~= b);
    }
}

/// `s` cut at every white-space character.
pub open spec fn white_pieces(s: Seq<char>) -> Seq<Seq<char>>
    decreases s.len(),
{
    if s.len() == 0 {
        seq![Seq::empty()]
    } else {
        let before = white_pieces(s.drop_last());
        if is_white(s.last()) {
            before.push(Seq::empty())
        } else {
            before.update(before.len() - 1, before.last().push(s.last()))
        }
    }
}

pub open spec fn non_empty(parts: Seq<Seq<char>>) -> Seq<Seq<char>> {
    parts.filter(|p: Seq<char>| p.len() > 0)
}

/// The words of `s`: its pieces between white space.
pub open spec fn words(s: Seq<char>) -> Seq<Seq<char>> {
    non_empty(white_pieces(s))
}

pub proof fn non_empty_push(parts: Seq<Seq<char>>, last: Seq<char>)
    ensures
        non_empty(parts.push(last)) == (if last.len() > 0 {
            non_empty(parts).push(last)
        } else {
            non_empty(parts)
        }),
{
    reveal(Seq::filter);
    assert(parts.push(last).drop_last() =~= parts);
}

/// A word: not empty, and without white space.
pub open spec fn is_word(w: Seq<char>) -> bool {
    w.len() > 0 && forall|i: int| 0 <= i < w.len() ==> !is_white(#[trigger] w[i])
}

proof fn piece_after_space(a: Seq<char>, w: Seq<char>)
    requires
        forall|i: int| 0 <= i < w.len() ==> !is_white(#[trigger] w[i]),
    ensures
        white_pieces(a.push(' ') + w) == white_pieces(a).push(w),
    decreases w.len(),
{
    let s = a.push(' ') + w;
    if w.len() == 0 {
        assert(s =~= a.push(' '));
        assert(s.drop_last() =~= a);
        assert(w =~= Seq::empty());
    } else {
        let v = w.drop_last();
        assert(s.drop_last() =~= a.push(' ') + v);
        assert forall|i: int| 0 <= i < v.len() implies !is_white(#[trigger] v[i]) by {
            assert(v[i] == w[i]);
        }
        piece_after_space(a, v);
        assert(s.last() == w[w.len() - 1]);
        assert(v.push(w[w.len() - 1]) =~= w);
        assert(white_pieces(s) =~= white_pieces(a).push(w));
    }
}

proof fn pieces_of_word(w: Seq<char>)
    requires
        forall|i: int| 0 <= i < w.len() ==> !is_white(#[trigger] w[i]),
    ensures
        white_pieces(w) == seq![w],
    decreases w.len(),
{
    if w.len() > 0 {
        let v = w.drop_last();
        assert forall|i: int| 0 <= i < v.len() implies !is_white(#[trigger] v[i]) by {
            assert(v[i] == w[i]);
        }
        pieces_of_word(v);
        assert(w.last() == w[w.len() - 1]);
        assert(v.push(w.last()) =~= w);
        assert(white_pieces(w) =~= seq![w]);
    } else {
        assert(w =~= Seq::empty());
    }
}

/// Words with a space between them read back as those words.
pub proof fn joined_words_read_back(ws: Seq<Seq<char>>)
    requires
        forall|i: int| 0 <= i < ws.len() ==> is_word(#[trigger] ws[i]),
    ensures
        words(join(ws, " "@)) == ws,
    decreases ws.len(),
{
    reveal_strlit(" ");
    reveal(Seq::filter);
    let e = Seq::<Seq<char>>::empty();
    assert(non_empty(e) =~= e);
    if ws.len() == 0 {
        non_empty_push(e, Seq::empty());
        assert(e.push(Seq::empty()) =~= seq![Seq::<char>::empty()]);
        assert(ws =~= e);
    } else {
        let last = ws[ws.len() - 1];
        assert(is_word(last));
        if ws.len() == 1 {
            pieces_of_word(last);
            non_empty_push(e, last);
            assert(e.push(last) =~= seq![last]);
            assert(ws =~= seq![last]);
        } else {
            let rest = ws.drop_last();
            assert forall|i: int| 0 <= i < rest.len() implies is_word(#[trigger] rest[i]) by {
                assert(rest[i] == ws[i]);
            }
            joined_words_read_back(rest);
            let a = join(rest, " "@);
            assert(join(ws, " "@) =~= a.push(' ') + last);
            piece_after_space(a, last);
            non_empty_push(white_pieces(a), last);
            assert(ws =~= rest.push(last));
        }
    }
}

pub fn words_of(s: &str) -> (r: Vec<String>)
    ensures
        views(r@) == words(s@),
{
    let v = chars_of(s);
    let mut r: Vec<String> = Vec::new();
    let mut cur = String::new();
    let mut i: usize = 0;
    let ghost mut done: Seq<Seq<char>> = Seq::empty();
    proof {
        reveal(Seq::filter);
        assert(views(r@) =~= non_empty(done));
        assert(done.push(cur@) =~= white_pieces(v@.take(0)));
    }
    while i < v.len()
        invariant
            i <= v@.len(),
            done.push(cur@) == white_pieces(v@.take(i as int)),
            views(r@) == non_empty(done),
        decreases v@.len() - i,
    {
        let ghost before = done.push(cur@);
        assert(v@.take(i + 1).drop_last() =~= v@.take(i as int));
        if white(v[i]) {
            proof {
                non_empty_push(done, cur@);
                done = before;
            }
            let ghost words_before = views(r@);
            if cur.as_str().is_empty() {
                cur = String::new();
            } else {
                r.push(cur);
                assert(views(r@) =~= words_before.push(cur@));
                cur = String::new();
            }
        } else {
            cur.push(v[i]);
            assert(done.push(cur@) =~= before.update(
                before.len() - 1,
                before.last().push(v@[i as int]),
            ));
        }
        i += 1;
    }
    assert(v@.take(i as int) =~= v@);
    proof {
        non_empty_push(done, cur@);
    }
    let ghost words_before = views(r@);
    if !cur.as_str().is_empty() {
        r.push(cur);
        assert(views(r@) =~= words_before.push(cur@));
    }
    r
}

/// The pieces of `s` between separators, without the empty ones.
pub fn segments_of(s: &str, sep: char) -> (r: Vec<String>)
    ensures
        views(r@) == non_empty(split(s@, sep)),
{
    let parts = split_text(s, sep);
    let mut r: Vec<String> = Vec::new();
    let mut i: usize = 0;
    proof {
        reveal(Seq::filter);
        assert(views(r@) =~= non_empty(views(parts@).take(0)));
    }
    while i < parts.len()
        invariant
            i <= parts@.len(),
            views(r@) == non_empty(views(parts@).take(i as int)),
        decreases parts@.len() - i,
    {
        proof {
            non_empty_push(views(parts@).take(i as int), parts@[i as int]@);
            assert(views(parts@).take(i as int).push(parts@[i as int]@) =~= views(parts@).take(
                i + 1,
            ));
        }
        let ghost before = views(r@);
        if !parts[i].as_str().is_empty() {
            r.push(parts[i].clone());
            assert(views(r@) =~= before.push(parts@[i as int]@));
        }
        i += 1;
    }
    assert(views(parts@).take(i as int) =~= views(parts@));
    r
}

/// The position of the first `c`, or the length where there is none.
pub open spec fn first_of(s: Seq<char>, c: char) -> int
    decreases s.len(),
{
    if s.len() == 0 || s[0] == c {
        0
    } else {
        1 + first_of(s.skip(1), c)
    }
}

/// What stands before and after the first `c`.
pub open spec fn split_once(s: Seq<char>, c: char) -> Option<(Seq<char>, Seq<char>)> {
    let i = first_of(s, c);
    if i < s.len() {
        Some((s.take(i), s.skip(i + 1)))
    } else {
        None
    }
}

/// The first `c` is the one with no other before it.
pub proof fn first_of_is_first(s: Seq<char>, c: char)
    ensures
        0 <= first_of(s, c) <= s.len(),
        first_of(s, c) < s.len() ==> s[first_of(s, c)] == c,
        forall|j: int| 0 <= j < first_of(s, c) ==> s[j] != c,
    decreases s.len(),
{
    if s.len() > 0 && s[0] != c {
        let t = s.skip(1);
        first_of_is_first(t, c);
        assert forall|j: int| 0 <= j < first_of(s, c) implies s[j] != c by {
            if j > 0 {
                assert(t[j - 1] == s[j]);
            }
        }
    }
}

pub fn split_pair(s: &str, c: char) -> (r: Option<(String, String)>)
    ensures
        match split_once(s@, c) {
            Some((a, b)) => r matches Some((x, y)) && x@ == a && y@ == b,
            None => r is None,
        },
{
    let v = chars_of(s);
    let mut i: usize = 0;
    proof {
        first_of_is_first(v@, c);
    }
    while i < v.len() && v[i] != c
        invariant
            i <= v@.len(),
            i <= first_of(v@, c),
            first_of(v@, c) <= v@.len(),
            first_of(v@, c) < v@.len() ==> v@[first_of(v@, c)] == c,
        decreases v@.len() - i,
    {
        i += 1;
    }
    assert(i == first_of(v@, c));
    if i < v.len() {
        assert(v@.subrange(0, i as int) =~= v@.take(i as int));
        assert(v@.subrange(i + 1, v@.len() as int) =~= v@.skip(i + 1));
        Some((piece(&v, 0, i), piece(&v, i + 1, v.len())))
    } else {
        None
    }
}

/// The piece after the last `sep`, or all of the text where there is none.
pub fn last_piece(s: &str, sep: char) -> (r: String)
    ensures
        r@ == split(s@, sep).last(),
{
    let parts = split_text(s, sep);
    let k: usize = parts.len() - 1;
    assert(views(parts@)[k as int] == parts@[k as int]@);
    parts[k].clone()
}

// ------------------------------------------------------------------ searching

/// `pat` stands in `s` at position `i`.
pub open spec fn occurs_at(s: Seq<char>, pat: Seq<char>, i: int) -> bool {
    0 <= i && i + pat.len() <= s.len() && s.subrange(i, i + pat.len()) == pat
}

pub open spec fn contains(s: Seq<char>, pat: Seq<char>) -> bool {
    exists|i: int| occurs_at(s, pat, i)
}

pub open spec fn ends_with(s: Seq<char>, pat: Seq<char>) -> bool {
    occurs_at(s, pat, s.len() - pat.len())
}

/// `i` is the last position at which `pat` stands in `s`.
pub open spec fn is_last_occurrence(s: Seq<char>, pat: Seq<char>, i: int) -> bool {
    occurs_at(s, pat, i) && forall|j: int| i < j ==> !occurs_at(s, pat, j)
}

fn occurs(v: &Vec<char>, pat: &Vec<char>, i: usize) -> (r: bool)
    requires
        i + pat@.len() <= v@.len(),
    ensures
        r == occurs_at(v@, pat@, i as int),
{
    let len: usize = v.len();
    let mut k: usize = 0;
    while k < pat.len()
        invariant
            len == v@.len(),
            i + pat@.len() <= len,
            k <= pat@.len(),
            forall|j: int| 0 <= j < k ==> v@[i + j] == pat@[j],
        decreases pat@.len() - k,
    {
        if v[i + k] != pat[k] {
            assert(v@.subrange(i as int, i + pat@.len())[k as int] != pat@[k as int]);
            return false;
        }
        k += 1;
    }
    assert(v@.subrange(i as int, i + pat@.len()) =~= pat@);
    true
}

/// The last position of `pat`, if it occurs.
pub fn last_occurrence(v: &Vec<char>, pat: &Vec<char>) -> (r: Option<usize>)
    ensures
        r is Some <==> contains(v@, pat@),
        r matches Some(i) ==> is_last_occurrence(v@, pat@, i as int),
{
    if pat.len() > v.len() {
        return None;
    }
    let mut i: usize = v.len() - pat.len();
    loop
        invariant
            pat@.len() <= v@.len(),
            i <= v@.len() - pat@.len(),
            forall|j: int| i < j ==> !occurs_at(v@, pat@, j),
        decreases i,
    {
        if occurs(v, pat, i) {
            return Some(i);
        }
        if i == 0 {
            return None;
        }
        i -= 1;
    }
}

pub fn contains_text(s: &str, pat: &str) -> (r: bool)
    ensures
        r == contains(s@, pat@),
{
    last_occurrence(&chars_of(s), &chars_of(pat)).is_some()
}

/// A part of a text is contained in it.
pub proof fn a_part_is_contained(before: Seq<char>, part: Seq<char>, after: Seq<char>)
    ensures
        contains(before + part + after, part),
        contains(before + part, part),
        contains(part + after, part),
{
    let n = before.len() as int;
    assert((before + part + after).subrange(n, n + part.len()) =~= part);
    assert(occurs_at(before + part + after, part, n));
    assert((before + part).subrange(n, n + part.len()) =~= part);
    assert(occurs_at(before + part, part, n));
    assert((part + after).subrange(0, part.len() as int) =~= part);
    assert(occurs_at(part + after, part, 0));
}

/// Every occurrence of `pat` replaced, scanning from the front without overlap.
pub open spec fn replace_all(s: Seq<char>, pat: Seq<char>, with: Seq<char>) -> Seq<char>
    decreases s.len(),
{
    if pat.len() == 0 || s.len() == 0 {
        s
    } else if occurs_at(s, pat, 0) {
        with + replace_all(s.skip(pat.len() as int), pat, with)
    } else {
        seq![s[0]] + replace_all(s.skip(1), pat, with)
    }
}

pub fn replaced(s: &str, pat: &str, with: &str) -> (r: String)
    requires
        pat@.len() > 0,
    ensures
        r@ == replace_all(s@, pat@, with@),
{
    let v = chars_of(s);
    let p = chars_of(pat);
    let mut r = String::new();
    let mut i: usize = 0;
    assert(v@.skip(0) =~= v@);
    while i < v.len()
        invariant
            i <= v@.len(),
            p@.len() > 0,
            replace_all(v@, p@, with@) == r@ + replace_all(v@.skip(i as int), p@, with@),
        decreases v@.len() - i,
    {
        let ghost rest = v@.skip(i as int);
        assert(occurs_at(rest, p@, 0) <==> occurs_at(v@, p@, i as int)) by {
            if i + p@.len() <= v@.len() {
                assert(rest.subrange(0, p@.len() as int) =~= v@.subrange(i as int, i + p@.len()));
            }
        }
        let ghost done = r@;
        if p.len() <= v.len() - i && occurs(&v, &p, i) {
            assert(rest.skip(p@.len() as int) =~= v@.skip(i + p@.len()));
            r.append(with);
            i += p.len();
            assert(r@ + replace_all(v@.skip(i as int), p@, with@) =~= done + (with@ + replace_all(
                v@.skip(i as int),
                p@,
                with@,
            )));
        } else {
            assert(rest.skip(1) =~= v@.skip(i + 1));
            r.push(v[i]);
            i += 1;
            assert(r@ + replace_all(v@.skip(i as int), p@, with@) =~= done + (seq![rest[0]]
                + replace_all(v@.skip(i as int), p@, with@)));
        }
    }
    assert(r@ + replace_all(v@.skip(i as int), p@, with@) =~= r@);
    r
}

// ------------------------------------------------------------------ numbers

pub open spec fn digit_char(d: nat) -> char {
    if d == 0 {
        '0'
    } else if d == 1 {
        '1'
    } else if d == 2 {
        '2'
    } else if d == 3 {
        '3'
    } else if d == 4 {
        '4'
    } else if d == 5 {
        '5'
    } else if d == 6 {
        '6'
    } else if d == 7 {
        '7'
    } else if d == 8 {
        '8'
    } else {
        '9'
    }
}

/// The decimal form of `n`, without leading zeros.
pub open spec fn decimal(n: nat) -> Seq<char>
    decreases n,
{
    if n < 10 {
        seq![digit_char(n)]
    } else {
        decimal(n / 10).push(digit_char(n % 10))
    }
}

pub open spec fn digit_value(c: char) -> nat {
    ((c as int) - ('0' as int)) as nat
}

/// The number that a run of digits stands for.
pub open spec fn digits_value(s: Seq<char>) -> nat
    decreases s.len(),
{
    if s.len() == 0 {
        0
    } else {
        digits_value(s.drop_last()) * 10 + digit_value(s.last())
    }
}

/// At least one digit and nothing else.
pub open spec fn is_digit_run(s: Seq<char>) -> bool {
    s.len() > 0 && all_digits(s)
}

/// Writing a number in decimal and reading the digits gives the number back.
pub proof fn decimal_reads_back(n: nat)
    ensures
        is_digit_run(decimal(n)),
        digits_value(decimal(n)) == n,
    decreases n,
{
    if n >= 10 {
        decimal_reads_back(n / 10);
        let d = decimal(n / 10);
        assert(decimal(n).drop_last() =~= d);
        assert(n == (n / 10) * 10 + n % 10);
    } else {
        assert(decimal(n).drop_last() =~= Seq::empty());
        assert(digits_value(decimal(n).drop_last()) == 0);
    }
}

pub fn decimal_text(n: u64) -> (r: String)
    ensures
        r@ == decimal(n as nat),
    decreases n,
{
    let mut r = if n < 10 {
        String::new()
    } else {
        decimal_text(n / 10)
    };
    let d: u64 = n % 10;
    let ghost before = r@;
    if d == 0 {
        r.push('0');
    } else if d == 1 {
        r.push('1');
    } else if d == 2 {
        r.push('2');
    } else if d == 3 {
        r.push('3');
    } else if d == 4 {
        r.push('4');
    } else if d == 5 {
        r.push('5');
    } else if d == 6 {
        r.push('6');
    } else if d == 7 {
        r.push('7');
    } else if d == 8 {
        r.push('8');
    } else {
        r.push('9');
    }
    assert(r@ =~= before.push(digit_char(d as nat)));
    assert(n < 10 ==> r@ =~= seq![digit_char(n as nat)]);
    r
}

pub open spec fn without_plus(s: Seq<char>) -> Seq<char> {
    if s.len() > 0 && s[0] == '+' {
        s.skip(1)
    } else {
        s
    }
}

/// The unsigned number that `s` spells, up to `max`: digits after an optional plus sign.
pub open spec fn unsigned_value(s: Seq<char>, max: nat) -> Option<nat> {
    let digits = without_plus(s);
    if is_digit_run(digits) && digits_value(digits) <= max {
        Some(digits_value(digits))
    } else {
        None
    }
}

proof fn digits_value_grows(s: Seq<char>, k: int)
    requires
        0 <= k <= s.len(),
    ensures
        digits_value(s.take(k)) <= digits_value(s),
    decreases s.len() - k,
{
    if k < s.len() {
        digits_value_grows(s, k + 1);
        assert(s.take(k + 1).drop_last() =~= s.take(k));
    } else {
        assert(s.take(k) =~= s);
    }
}

pub fn parse_unsigned(s: &str, max: u64) -> (r: Option<u64>)
    ensures
        match unsigned_value(s@, max as nat) {
            Some(n) => r == Some(n as u64),
            None => r is None,
        },
{
    let v = chars_of(s);
    let start: usize = if v.len() > 0 && v[0] == '+' {
        1
    } else {
        0
    };
    let ghost digits = without_plus(v@);
    assert(digits =~= v@.skip(start as int));
    if start == v.len() {
        return None;
    }
    let mut n: u64 = 0;
    let mut i: usize = start;
    while i < v.len()
        invariant
            start <= i <= v@.len(),
            digits == v@.skip(start as int),
            digits == without_plus(v@),
            v@ == s@,
            all_digits(digits.take(i - start)),
            n == digits_value(digits.take(i - start)),
            n <= max,
        decreases v@.len() - i,
    {
        let c = v[i];
        assert(digits[i - start] == c);
        if !digit(c) {
            return None;
        }
        let d: u64 = (c as u64) - 48;
        proof {
            assert(digits.take(i + 1 - start).drop_last() =~= digits.take(i - start));
            digits_value_grows(digits, i + 1 - start);
        }
        if n > max / 10 {
            assert(digits_value(digits.take(i + 1 - start)) >= n * 10);
            assert(n * 10 > max);
            return None;
        }
        if d > max || n * 10 > max - d {
            return None;
        }
        n = n * 10 + d;
        i += 1;
    }
    assert(digits.take(i - start) =~= digits);
    Some(n)
}

// ------------------------------------------------------------------ the standard library's text forms

/// What `str::to_uppercase` makes of a text.
pub uninterp spec fn uppercased(s: Seq<char>) -> Seq<char>;

/// `str::to_uppercase`. The Unicode case tables fix the result for every text; the
/// contract only gives that result a name.
#[verifier::external_body]
pub(crate) fn uppercase(s: &str) -> (r: String)
    ensures
        r@ == uppercased(s@),
{
    s.to_uppercase()
}

/// What the `Debug` form of a text looks like: the text in double quotes, escaped.
pub uninterp spec fn debug_form(s: Seq<char>) -> Seq<char>;

/// `format!` with `{:?}` on a text. The escape rules fix the result for every text; the
/// contract only gives that result a name.
#[verifier::external_body]
pub(crate) fn debug_text(s: &str) -> (r: String)
    ensures
        r@ == debug_form(s@),
{
    format!("{s:?}")
}

} // verus!
