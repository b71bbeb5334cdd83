//! Decimal numbers kept as the text that spells them.
//!
//! The feeds send every measurement as text. A [`Number`] is such a text that is known to
//! spell a floating-point number, so turning it into one cannot fail later.

use vstd::prelude::*;
use crate::text::{all_digits, chars_of, decimal, decimal_text, digit, is_digit, is_digit_run, upper, to_upper};

verus! {

pub open spec fn is_sign(c: char) -> bool {
    c == '+' || c == '-'
}

pub open spec fn without_sign(s: Seq<char>) -> Seq<char> {
    if s.len() > 0 && is_sign(s[0]) {
        s.skip(1)
    } else {
        s
    }
}

/// Digits with an optional point among them, and at least one digit.
pub open spec fn is_mantissa(s: Seq<char>) -> bool {
    ||| is_digit_run(s)
    ||| exists|p: int| #[trigger] is_pointed(s, p)
}

/// Digits with a point at `p`, and at least one digit.
pub open spec fn is_pointed(s: Seq<char>, p: int) -> bool {
    &&& 0 <= p < s.len()
    &&& s[p] == '.'
    &&& all_digits(s.take(p))
    &&& all_digits(s.skip(p + 1))
    &&& s.len() > 1
}

/// `e` or `E`, an optional sign, and at least one digit.
pub open spec fn is_exponent(s: Seq<char>) -> bool {
    &&& s.len() > 0
    &&& s[0] == 'e' || s[0] == 'E'
    &&& is_digit_run(without_sign(s.skip(1)))
}

/// A mantissa that ends at `k`, and an exponent after it unless the text ends there.
pub open spec fn is_scaled(s: Seq<char>, k: int) -> bool {
    &&& 0 <= k <= s.len()
    &&& is_mantissa(s.take(k))
    &&& k == s.len() || is_exponent(s.skip(k))
}

pub open spec fn uppercase_letters(s: Seq<char>) -> Seq<char> {
    s.map_values(|c: char| to_upper(c))
}

/// `inf`, `infinity` or `nan` in any case.
pub open spec fn is_special(s: Seq<char>) -> bool {
    ||| uppercase_letters(s) == seq!['I', 'N', 'F']
    ||| uppercase_letters(s) == seq!['I', 'N', 'F', 'I', 'N', 'I', 'T', 'Y']
    ||| uppercase_letters(s) == seq!['N', 'A', 'N']
}

/// The texts that spell a floating-point number.
pub open spec fn is_float(s: Seq<char>) -> bool {
    let body = without_sign(s);
    is_special(body) || exists|k: int| #[trigger] is_scaled(body, k)
}

/// `n` tenths with one digit after the point.
pub open spec fn tenths_text(n: nat) -> Seq<char> {
    decimal(n / 10) + "."@ + decimal(n % 10)
}

/// A text that spells a number is not empty and holds neither white space nor a comma.
pub proof fn float_has_no_gaps(s: Seq<char>)
    requires
        is_float(s),
    ensures
        s.len() > 0,
        forall|i: int| 0 <= i < s.len() ==> s[i] != ',' && !crate::text::is_white(#[trigger] s[i]),
{
    let body = without_sign(s);
    assert(body.len() > 0 && forall|i: int|
        0 <= i < body.len() ==> body[i] != ',' && !crate::text::is_white(#[trigger] body[i])) by {
        if is_special(body) {
            let w = uppercase_letters(body);
            assert(w.len() == body.len());
            assert forall|i: int| 0 <= i < body.len() implies body[i] != ','
                && !crate::text::is_white(#[trigger] body[i]) by {
                assert(w[i] == to_upper(body[i]));
                assert(crate::text::is_upper(w[i]));
            }
        } else {
            let k = choose|k: int| is_scaled(body, k);
            scaled_has_no_gaps(body, k);
        }
    }
    assert forall|i: int| 0 <= i < s.len() implies s[i] != ',' && !crate::text::is_white(
        #[trigger] s[i],
    ) by {
        if s.len() > body.len() {
            if i > 0 {
                assert(body[i - 1] == s[i]);
            }
        } else {
            assert(body[i] == s[i]);
        }
    }
}

proof fn scaled_has_no_gaps(s: Seq<char>, k: int)
    requires
        is_scaled(s, k),
    ensures
        s.len() > 0,
        forall|i: int| 0 <= i < s.len() ==> s[i] != ',' && !crate::text::is_white(#[trigger] s[i]),
{
    let m = s.take(k);
    assert forall|i: int| 0 <= i < s.len() implies s[i] != ',' && !crate::text::is_white(
        #[trigger] s[i],
    ) by {
        if i < k {
            assert(m[i] == s[i]);
            if !is_digit_run(m) {
                let p = choose|p: int| is_pointed(m, p);
                if i < p {
                    assert(m.take(p)[i] == s[i]);
                } else if i > p {
                    assert(m.skip(p + 1)[i - p - 1] == s[i]);
                }
            }
        } else {
            let e = s.skip(k);
            let d = without_sign(e.skip(1));
            if i == k {
                assert(e[0] == s[k]);
            } else {
                assert(e.skip(1)[i - k - 1] == s[i]);
                if d.len() < e.skip(1).len() {
                    if i > k + 1 {
                        assert(d[i - k - 2] == s[i]);
                    }
                } else {
                    assert(d[i - k - 1] == s[i]);
                }
            }
        }
    }
}

/// Why a text is not a number.
#[derive(Clone, Copy, PartialEq, Eq, Structural, Debug)]
pub enum NumberError {
    Empty,
    Invalid,
}

impl NumberError {
    pub open spec fn text(self) -> Seq<char> {
        match self {
            NumberError::Empty => "cannot parse float from empty string"@,
            NumberError::Invalid => "invalid float literal"@,
        }
    }

    pub fn message(&self) -> (r: String)
        ensures
            r@ == self.text(),
    {
        match self {
            NumberError::Empty => "cannot parse float from empty string".to_owned(),
            NumberError::Invalid => "invalid float literal".to_owned(),
        }
    }
}

/// The end of the run of digits that starts at `from`.
fn run_end(v: &Vec<char>, from: usize) -> (to: usize)
    requires
        from <= v@.len(),
    ensures
        from <= to <= v@.len(),
        all_digits(v@.subrange(from as int, to as int)),
        to < v@.len() ==> !is_digit(v@[to as int]),
{
    let mut to: usize = from;
    while to < v.len() && digit(v[to])
        invariant
            from <= to <= v@.len(),
            forall|i: int| from <= i < to ==> is_digit(#[trigger] v@[i]),
        decreases v@.len() - to,
    {
        to += 1;
    }
    to
}

/// A mantissa followed by an exponent or by nothing ends where the scan for it ends.
proof fn mantissa_end_is_unique(s: Seq<char>, a: int, c: int, k: int)
    requires
        0 <= a <= s.len(),
        all_digits(s.take(a)),
        a < s.len() ==> !is_digit(s[a]),
        a < s.len() && s[a] == '.' ==> {
            &&& a + 1 <= c <= s.len()
            &&& all_digits(s.subrange(a + 1, c))
            &&& c < s.len() ==> !is_digit(s[c])
        },
        is_scaled(s, k),
    ensures
        a < s.len() && s[a] == '.' ==> k == c && c > 1,
        !(a < s.len() && s[a] == '.') ==> k == a && a > 0,
{
    let m = s.take(k);
    if k < s.len() {
        assert(s.skip(k)[0] == s[k]);
    }
    assert forall|i: int| 0 <= i < a implies is_digit(s[i]) by {
        assert(s.take(a)[i] == s[i]);
    }
    if is_digit_run(m) {
        assert forall|i: int| 0 <= i < k implies is_digit(s[i]) by {
            assert(m[i] == s[i]);
        }
        assert(k == a);
    } else {
        let p = choose|p: int| is_pointed(m, p);
        assert forall|i: int| 0 <= i < p implies is_digit(s[i]) by {
            assert(m.take(p)[i] == s[i]);
        }
        assert(s[p] == '.');
        assert(p == a);
        assert forall|i: int| p + 1 <= i < k implies is_digit(s[i]) by {
            assert(m.skip(p + 1)[i - (p + 1)] == s[i]);
        }
        assert forall|i: int| a + 1 <= i < c implies is_digit(s[i]) by {
            assert(s.subrange(a + 1, c)[i - (a + 1)] == s[i]);
        }
        assert(k == c);
    }
}

fn special(v: &Vec<char>, from: usize) -> (r: bool)
    requires
        from <= v@.len(),
    ensures
        r == is_special(v@.skip(from as int)),
{
    let mut u: Vec<char> = Vec::new();
    let mut i: usize = from;
    while i < v.len()
        invariant
            from <= i <= v@.len(),
            u@ == uppercase_letters(v@.subrange(from as int, i as int)),
        decreases v@.len() - i,
    {
        u.push(upper(v[i]));
        i += 1;
        assert(u@ =~= uppercase_letters(v@.subrange(from as int, i as int)));
    }
    let ghost body = v@.skip(from as int);
    assert(v@.subrange(from as int, i as int) =~= body);
    let r = (u.len() == 3 && u[0] == 'I' && u[1] == 'N' && u[2] == 'F') || (u.len() == 3 && u[0]
        == 'N' && u[1] == 'A' && u[2] == 'N') || (u.len() == 8 && u[0] == 'I' && u[1] == 'N' && u[2]
        == 'F' && u[3] == 'I' && u[4] == 'N' && u[5] == 'I' && u[6] == 'T' && u[7] == 'Y');
    proof {
        let w = uppercase_letters(body);
        assert(r ==> w =~= seq!['I', 'N', 'F'] || w =~= seq!['N', 'A', 'N'] || w =~= seq![
            'I', 'N', 'F', 'I', 'N', 'I', 'T', 'Y',
        ]);
    }
    r
}

fn exponent(v: &Vec<char>, from: usize) -> (r: bool)
    requires
        from < v@.len(),
    ensures
        r == is_exponent(v@.skip(from as int)),
{
    let len: usize = v.len();
    let ghost tail = v@.skip(from as int);
    assert(tail[0] == v@[from as int]);
    if v[from] != 'e' && v[from] != 'E' {
        return false;
    }
    let j: usize = if from + 1 < len && (v[from + 1] == '+' || v[from + 1] == '-') {
        from + 2
    } else {
        from + 1
    };
    let e = run_end(v, j);
    let ghost digits = v@.skip(j as int);
    assert(without_sign(tail.skip(1)) =~= digits);
    if e == len {
        assert(digits =~= v@.subrange(j as int, e as int));
    } else {
        assert(digits[e - j] == v@[e as int]);
    }
    e == len && e > j
}

/// Whether the characters spell a floating-point number.
pub fn spells_float(v: &Vec<char>) -> (r: bool)
    ensures
        r == is_float(v@),
{
    let len: usize = v.len();
    let b: usize = if len > 0 && (v[0] == '+' || v[0] == '-') {
        1
    } else {
        0
    };
    let ghost body = without_sign(v@);
    assert(body =~= v@.skip(b as int));
    if special(v, b) {
        return true;
    }
    let a = run_end(v, b);
    assert(body.take(a - b) =~= v@.subrange(b as int, a as int));
    let pointed = a < len && v[a] == '.';
    let c: usize = if pointed {
        run_end(v, a + 1)
    } else {
        a
    };
    let k: usize = c;
    proof {
        if pointed {
            assert(body.subrange(a - b + 1, c - b) =~= v@.subrange(a + 1, c as int));
        }
        assert forall|j: int| is_scaled(body, j) implies j == k - b && (if pointed {
            k - b > 1
        } else {
            k - b > 0
        }) by {
            mantissa_end_is_unique(body, a - b, c - b, j);
        }
    }
    if (pointed && k - b <= 1) || (!pointed && k == b) {
        return false;
    }
    let ghost m = body.take(k - b);
    proof {
        if pointed {
            assert(m.take(a - b) =~= body.take(a - b));
            assert(m.skip(a - b + 1) =~= body.subrange(a - b + 1, k - b));
            assert(is_pointed(m, a - b));
        }
        assert(is_mantissa(m));
    }
    if k == len {
        assert(is_scaled(body, k - b));
        return true;
    }
    assert(body.skip(k - b) =~= v@.skip(k as int));
    let r = exponent(v, k);
    assert(r ==> is_scaled(body, k - b));
    r
}

/// A text that spells a floating-point number.
#[derive(Debug, PartialEq, Eq)]
pub struct Number {
    text: String,
}

impl View for Number {
    type V = Seq<char>;

    closed spec fn view(&self) -> Seq<char> {
        self.text@
    }
}

/// The text of the number, if there is one.
pub open spec fn opt_number(n: Option<Number>) -> Option<Seq<char>> {
    match n {
        Some(x) => Some(x@),
        None => None,
    }
}

impl Number {
    #[verifier::type_invariant]
    spec fn spells(self) -> bool {
        is_float(self.text@)
    }

    /// Reads a number. The text has to spell one from its first character to its last.
    pub fn parse(s: &str) -> (r: Result<Number, NumberError>)
        ensures
            r is Ok <==> is_float(s@),
            r matches Ok(n) ==> n@ == s@,
            r matches Err(e) ==> e == (if s@.len() == 0 {
                NumberError::Empty
            } else {
                NumberError::Invalid
            }),
    {
        let v = chars_of(s);
        if spells_float(&v) {
            Ok(Number { text: s.to_owned() })
        } else if v.len() == 0 {
            Err(NumberError::Empty)
        } else {
            Err(NumberError::Invalid)
        }
    }

    /// The number that a whole number's decimal form spells, with a minus sign if asked for.
    pub fn whole(magnitude: u64, negative: bool) -> (r: Number)
        ensures
            r@ == (if negative {
                seq!['-'] + decimal(magnitude as nat)
            } else {
                decimal(magnitude as nat)
            }),
    {
        let digits = decimal_text(magnitude);
        let mut text = String::new();
        if negative {
            text.push('-');
        }
        text.append(digits.as_str());
        proof {
            let d = decimal(magnitude as nat);
            crate::text::decimal_reads_back(magnitude as nat);
            assert(text@ =~= if negative { seq!['-'] + d } else { d });
            assert(without_sign(text@) =~= d) by {
                assert(is_digit(d[0]));
            }
            assert(d.take(d.len() as int) =~= d);
            assert(is_scaled(d, d.len() as int));
        }
        Number { text }
    }

    /// The number of tenths, with one digit after the point.
    pub fn tenths(n: u64) -> (r: Number)
        ensures
            r@ == tenths_text(n as nat),
    {
        let mut text = decimal_text(n / 10);
        text.append(".");
        text.append(decimal_text(n % 10).as_str());
        proof {
            reveal_strlit(".");
            let a = decimal(n as nat / 10);
            let b = decimal(n as nat % 10);
            let t = tenths_text(n as nat);
            crate::text::decimal_reads_back(n as nat / 10);
            crate::text::decimal_reads_back(n as nat % 10);
            assert(text@ =~= t);
            assert(is_digit(a[0]));
            assert(t[0] == a[0]);
            assert(without_sign(t) == t);
            let k = t.len() as int;
            let p = a.len() as int;
            assert(t.take(k) =~= t);
            assert(t.take(p) =~= a);
            assert(t.skip(p + 1) =~= b);
            assert(is_pointed(t, p));
            assert(is_scaled(t, k));
        }
        Number { text }
    }

    /// The text itself.
    pub fn as_str(&self) -> (r: &str)
        ensures
            r@ == self@,
            is_float(r@),
    {
        proof {
            use_type_invariant(self);
        }
        self.text.as_str()
    }
}

impl Clone for Number {
    fn clone(&self) -> (r: Number)
        ensures
            r@ == self@,
    {
        proof {
            use_type_invariant(self);
        }
        Number { text: self.text.clone() }
    }
}

} // verus!
