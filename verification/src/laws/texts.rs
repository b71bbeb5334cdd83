//! Texts: how timestamps, numbers and words are read.

use vstd::prelude::*;
use crate::laws::regions::non_empty_of_two;
use crate::number::{is_float, is_pointed, is_scaled, is_sign, without_sign};
use crate::text::{
    decimal, digit_value, digits_value, is_ascii_char, is_digit, is_digit_run, is_white, trim,
    trim_end, trim_start, white_pieces, words,
};
use crate::timeutil::{epoch_day, instant_ms, signed_value};

verus! {

// ------------------------------------------------------------------ timestamps

/// The digit at a place.
pub open spec fn digit_at(s: Seq<char>, i: int) -> int {
    digit_value(s[i]) as int
}

/// The two digits from a place on.
pub open spec fn two_at(s: Seq<char>, i: int) -> int {
    10 * digit_at(s, i) + digit_at(s, i + 1)
}

/// Digits where `YYYY-MM-DDThh:mm:ss` has them, and ASCII characters between them.
pub open spec fn is_written_timestamp(s: Seq<char>) -> bool {
    &&& s.len() == 19
    &&& is_digit(s[0]) && is_digit(s[1]) && is_digit(s[2]) && is_digit(s[3])
    &&& is_digit(s[5]) && is_digit(s[6]) && is_digit(s[8]) && is_digit(s[9])
    &&& is_digit(s[11]) && is_digit(s[12]) && is_digit(s[14]) && is_digit(s[15])
    &&& is_digit(s[17]) && is_digit(s[18])
    &&& is_ascii_char(s[4]) && is_ascii_char(s[7]) && is_ascii_char(s[10])
    &&& is_ascii_char(s[13]) && is_ascii_char(s[16])
}

proof fn two_digits_are_read(s: Seq<char>, i: int)
    requires
        0 <= i,
        i + 2 <= s.len(),
        is_digit(s[i]),
        is_digit(s[i + 1]),
    ensures
        signed_value(s.subrange(i, i + 2)) == Some(two_at(s, i)),
{
    let t = s.subrange(i, i + 2);
    reveal_with_fuel(digits_value, 3);
    assert(t[0] == s[i] && t[1] == s[i + 1]);
    assert(t.drop_last().drop_last() =~= Seq::empty());
    assert(without_sign(t) == t);
    assert(t.last() == t[1] && t.drop_last().last() == t[0]);
}

proof fn four_digits_are_read(s: Seq<char>)
    requires
        s.len() >= 4,
        is_digit(s[0]) && is_digit(s[1]) && is_digit(s[2]) && is_digit(s[3]),
    ensures
        signed_value(s.subrange(0, 4)) == Some(100 * two_at(s, 0) + two_at(s, 2)),
{
    let t = s.subrange(0, 4);
    reveal_with_fuel(digits_value, 5);
    assert(t[0] == s[0] && t[1] == s[1] && t[2] == s[2] && t[3] == s[3]);
    let u = t.drop_last();
    let v = u.drop_last();
    let w = v.drop_last();
    assert(w.drop_last() =~= Seq::empty());
    assert(t.last() == t[3] && u.last() == t[2] && v.last() == t[1] && w.last() == t[0]);
    assert(without_sign(t) == t);
}

/// A timestamp is the instant that its fields name: so many days, hours, minutes and seconds
/// after the start of 1970, each read from its own digits.
pub proof fn a_timestamp_is_read_field_by_field(s: Seq<char>)
    requires
        is_written_timestamp(s),
    ensures
        ({
            let (y, m, d) = (100 * two_at(s, 0) + two_at(s, 2), two_at(s, 5), two_at(s, 8));
            if 1 <= m <= 12 && 1 <= d <= 31 {
                instant_ms(s) == Some(
                    (((epoch_day(y, m, d) * 24 + two_at(s, 11)) * 60 + two_at(s, 14)) * 60 + two_at(
                        s,
                        17,
                    )) * 1000,
                )
            } else {
                instant_ms(s) is None
            }
        }),
{
    four_digits_are_read(s);
    two_digits_are_read(s, 5);
    two_digits_are_read(s, 8);
    two_digits_are_read(s, 11);
    two_digits_are_read(s, 14);
    two_digits_are_read(s, 17);
    assert(s.skip(19) =~= Seq::empty());
    assert(trim(s.skip(19)).len() == 0);
}

/// A text that is too short for a timestamp names no instant.
pub proof fn a_short_text_is_no_timestamp(s: Seq<char>)
    requires
        s.len() < 19,
    ensures
        instant_ms(s) is None,
{
}

// ------------------------------------------------------------------ numbers

/// A number in decimal starts with a zero only if it is zero.
pub proof fn decimals_have_no_leading_zero(n: nat)
    ensures
        decimal(n).len() > 0,
        n > 0 ==> decimal(n)[0] != '0',
        n == 0 ==> decimal(n) == seq!['0'],
    decreases n,
{
    if n >= 10 {
        decimals_have_no_leading_zero(n / 10);
    }
}

/// Digits, with a sign before them and a point and digits after them or not, spell a number.
pub proof fn plain_decimals_are_numbers(a: Seq<char>, b: Seq<char>, sign: char)
    requires
        is_digit_run(a),
        is_digit_run(b),
        is_sign(sign),
    ensures
        is_float(a),
        is_float(a + seq!['.'] + b),
        is_float(seq![sign] + a),
        is_float(seq![sign] + a + seq!['.'] + b),
{
    let p = a + seq!['.'] + b;
    let n = a.len() as int;
    assert(is_digit(a[0]));
    assert(p[0] == a[0]);
    assert(a.take(n) =~= a);
    assert(is_scaled(a, n));
    assert(p.take(p.len() as int) =~= p);
    assert(p.take(n) =~= a);
    assert(p.skip(n + 1) =~= b);
    assert(is_pointed(p, n));
    assert(is_scaled(p, p.len() as int));
    assert(without_sign(seq![sign] + a) =~= a);
    assert(without_sign(seq![sign] + a + seq!['.'] + b) =~= p);
}

// ------------------------------------------------------------------ white space and words

/// Among ASCII characters the white ones are the space and the five controls that move the
/// place of writing.
pub proof fn ascii_white_space(c: char)
    requires
        is_ascii_char(c),
    ensures
        is_white(c) <==> c == ' ' || '\t' <= c <= '\r',
{
}

proof fn start_is_white(s: Seq<char>) -> (a: Seq<char>)
    ensures
        s == a + trim_start(s),
        forall|i: int| 0 <= i < a.len() ==> is_white(#[trigger] a[i]),
    decreases s.len(),
{
    if s.len() > 0 && is_white(s[0]) {
        let b = start_is_white(s.skip(1));
        let a = seq![s[0]] + b;
        assert(s =~= seq![s[0]] + s.skip(1));
        assert(a + trim_start(s) =~= seq![s[0]] + (b + trim_start(s.skip(1))));
        assert forall|i: int| 0 <= i < a.len() implies is_white(#[trigger] a[i]) by {
            if i > 0 {
                assert(a[i] == b[i - 1]);
            }
        }
        a
    } else {
        assert(Seq::<char>::empty() + s =~= s);
        Seq::empty()
    }
}

proof fn end_is_white(s: Seq<char>) -> (b: Seq<char>)
    ensures
        s == trim_end(s) + b,
        forall|i: int| 0 <= i < b.len() ==> is_white(#[trigger] b[i]),
    decreases s.len(),
{
    if s.len() > 0 && is_white(s.last()) {
        let a = end_is_white(s.drop_last());
        let b = a.push(s.last());
        assert(s =~= s.drop_last().push(s.last()));
        assert(trim_end(s) + b =~= (trim_end(s.drop_last()) + a).push(s.last()));
        b
    } else {
        assert(s + Seq::<char>::empty() =~= s);
        Seq::empty()
    }
}

/// Trimming takes white space off both ends and nothing else: a text is white space, what
/// trimming leaves of it, and white space.
pub proof fn trimming_takes_off_white_space(s: Seq<char>) -> (ends: (Seq<char>, Seq<char>))
    ensures
        s == ends.0 + trim(s) + ends.1,
        forall|i: int| 0 <= i < ends.0.len() ==> is_white(#[trigger] ends.0[i]),
        forall|i: int| 0 <= i < ends.1.len() ==> is_white(#[trigger] ends.1[i]),
{
    let a = start_is_white(s);
    let b = end_is_white(trim_start(s));
    assert(s =~= a + trim(s) + b);
    (a, b)
}

proof fn pieces_of_two(a: Seq<char>, c: char, b: Seq<char>)
    requires
        is_white(c),
    ensures
        white_pieces(a.push(c) + b) == white_pieces(a) + white_pieces(b),
        white_pieces(b).len() >= 1,
    decreases b.len(),
{
    let s = a.push(c) + b;
    if b.len() == 0 {
        assert(s =~= a.push(c));
        assert(s.drop_last() =~= a);
        assert(white_pieces(s) =~= white_pieces(a) + white_pieces(b));
    } else {
        pieces_of_two(a, c, b.drop_last());
        assert(s.drop_last() =~= a.push(c) + b.drop_last());
        assert(s.last() == b.last());
        assert(white_pieces(s) =~= white_pieces(a) + white_pieces(b));
    }
}

/// White space parts words: the words of the whole are those before it and those after it.
pub proof fn white_space_parts_words(a: Seq<char>, c: char, b: Seq<char>)
    requires
        is_white(c),
    ensures
        words(a.push(c) + b) == words(a) + words(b),
{
    pieces_of_two(a, c, b);
    non_empty_of_two(white_pieces(a), white_pieces(b));
}

} // verus!
