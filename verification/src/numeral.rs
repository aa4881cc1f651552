//! The texts that denote a floating-point number.
//!
//! A sample's value arrives as text. The grammar below says which texts are
//! numbers:
//!
//! ```text
//! Float  ::= Sign? ( 'inf' | 'infinity' | 'nan' | Number )
//! Number ::= ( Digit+ | Digit+ '.' Digit* | Digit* '.' Digit+ ) Exp?
//! Exp    ::= 'e' Sign? Digit+
//! Sign   ::= [+-]
//! Digit  ::= [0-9]
//! ```
//!
//! Letters match in either case. It is the grammar of `str::parse` for the
//! floating-point types, so a text that passes here converts there.

use vstd::prelude::*;
use vstd::string::*;
use vstd::utf8::*;

verus! {

pub open spec fn is_digit(c: char) -> bool {
    '0' <= c <= '9'
}

pub open spec fn is_sign(c: char) -> bool {
    c == '+' || c == '-'
}

/// The upper case of a lower-case ASCII letter.
pub open spec fn upper_case(letter: char) -> char
    recommends
        'a' <= letter <= 'z',
{
    (((letter as u8) - 32) as u8) as char
}

/// Whether `c` is the lower-case ASCII letter `letter`, in either case.
pub open spec fn same_letter(c: char, letter: char) -> bool {
    c == letter || c == upper_case(letter)
}

/// `Digit*`
pub open spec fn all_digits(s: Seq<char>) -> bool {
    forall|i: int| 0 <= i < s.len() ==> is_digit(#[trigger] s[i])
}

/// A word of lower-case letters, in either case.
pub open spec fn is_word(s: Seq<char>, word: Seq<char>) -> bool {
    &&& s.len() == word.len()
    &&& forall|i: int| 0 <= i < word.len() ==> same_letter(s[i], #[trigger] word[i])
}

/// Digits, a point at `point`, digits: and one digit at least.
pub open spec fn is_pointed_at(s: Seq<char>, point: int) -> bool {
    &&& 0 <= point < s.len()
    &&& s[point] == '.'
    &&& s.len() > 1
    &&& all_digits(s.take(point))
    &&& all_digits(s.skip(point + 1))
}

/// `Digit+ | Digit+ '.' Digit* | Digit* '.' Digit+`
pub open spec fn is_mantissa(s: Seq<char>) -> bool {
    ||| s.len() > 0 && all_digits(s)
    ||| exists|point: int| is_pointed_at(s, point)
}

/// `Exp`
pub open spec fn is_exponent(s: Seq<char>) -> bool {
    let digits = if s.len() > 1 && is_sign(s[1]) {
        s.skip(2)
    } else {
        s.skip(1)
    };
    &&& s.len() > 0
    &&& (s[0] == 'e' || s[0] == 'E')
    &&& digits.len() > 0
    &&& all_digits(digits)
}

/// A mantissa up to `at`, and an exponent from there.
pub open spec fn is_scientific_at(s: Seq<char>, at: int) -> bool {
    &&& 0 < at < s.len()
    &&& is_mantissa(s.take(at))
    &&& is_exponent(s.skip(at))
}

/// `Number`
pub open spec fn is_number(s: Seq<char>) -> bool {
    ||| is_mantissa(s)
    ||| exists|at: int| is_scientific_at(s, at)
}

/// `'inf' | 'infinity' | 'nan' | Number`
pub open spec fn is_unsigned_float(s: Seq<char>) -> bool {
    ||| is_word(s, "inf"@)
    ||| is_word(s, "infinity"@)
    ||| is_word(s, "nan"@)
    ||| is_number(s)
}

/// `Float`
pub open spec fn is_float_literal(s: Seq<char>) -> bool {
    if s.len() > 0 && is_sign(s[0]) {
        is_unsigned_float(s.skip(1))
    } else {
        is_unsigned_float(s)
    }
}

/// Where the run of digits that starts at `from` ends.
spec fn digits_end(s: Seq<char>, from: int) -> int
    decreases s.len() - from,
{
    if 0 <= from < s.len() && is_digit(s[from]) {
        digits_end(s, from + 1)
    } else {
        from
    }
}

/// An exponent from `from` to the end, as a scan from the left finds it.
spec fn exponent_from(s: Seq<char>, from: int) -> bool {
    let digits = if from + 1 < s.len() && is_sign(s[from + 1]) {
        from + 2
    } else {
        from + 1
    };
    &&& 0 <= from < s.len()
    &&& (s[from] == 'e' || s[from] == 'E')
    &&& digits < s.len()
    &&& digits_end(s, digits) == s.len()
}

/// A number, as a scan from the left finds it.
spec fn number_scan(s: Seq<char>) -> bool {
    let point = digits_end(s, 0);
    if point < s.len() && s[point] == '.' {
        let end = digits_end(s, point + 1);
        &&& end >= 2
        &&& (end == s.len() || exponent_from(s, end))
    } else {
        &&& point > 0
        &&& (point == s.len() || exponent_from(s, point))
    }
}

proof fn lemma_digits_end(s: Seq<char>, from: int)
    requires
        0 <= from <= s.len(),
    ensures
        from <= digits_end(s, from) <= s.len(),
        forall|i: int| from <= i < digits_end(s, from) ==> is_digit(#[trigger] s[i]),
        digits_end(s, from) < s.len() ==> !is_digit(s[digits_end(s, from)]),
    decreases s.len() - from,
{
    if from < s.len() && is_digit(s[from]) {
        lemma_digits_end(s, from + 1);
    }
}

proof fn lemma_digits_end_is(s: Seq<char>, from: int, end: int)
    requires
        0 <= from <= end <= s.len(),
        forall|i: int| from <= i < end ==> is_digit(#[trigger] s[i]),
        end < s.len() ==> !is_digit(s[end]),
    ensures
        digits_end(s, from) == end,
    decreases end - from,
{
    if from < end {
        lemma_digits_end_is(s, from + 1, end);
    }
}

proof fn lemma_exponent_from(s: Seq<char>, from: int)
    requires
        0 <= from < s.len(),
    ensures
        exponent_from(s, from) == is_exponent(s.skip(from)),
{
    let digits = if from + 1 < s.len() && is_sign(s[from + 1]) {
        from + 2
    } else {
        from + 1
    };
    let t = s.skip(from);
    let rest = if t.len() > 1 && is_sign(t[1]) {
        t.skip(2)
    } else {
        t.skip(1)
    };
    if digits <= s.len() {
        assert(rest =~= s.skip(digits));
        lemma_digits_end(s, digits);
        if all_digits(rest) {
            assert forall|i: int| digits <= i < s.len() implies is_digit(#[trigger] s[i]) by {
                assert(s[i] == rest[i - digits]);
            }
            lemma_digits_end_is(s, digits, s.len() as int);
        }
    }
}

proof fn lemma_number_scan_finds_only_numbers(s: Seq<char>)
    requires
        number_scan(s),
    ensures
        is_number(s),
{
    let point = digits_end(s, 0);
    lemma_digits_end(s, 0);
    let end = if point < s.len() && s[point] == '.' {
        digits_end(s, point + 1)
    } else {
        point
    };
    if point < end {
        lemma_digits_end(s, point + 1);
        assert(is_pointed_at(s.take(end), point));
    }
    if end == s.len() {
        assert(s.take(end) =~= s);
    } else {
        lemma_exponent_from(s, end);
        assert(is_scientific_at(s, end));
    }
}

/// A mantissa that ends where the text ends, or where something that is
/// neither a digit nor a point stands.
proof fn lemma_number_scan_reads_mantissa(s: Seq<char>, at: int)
    requires
        0 < at <= s.len(),
        is_mantissa(s.take(at)),
        at < s.len() ==> !is_digit(s[at]) && s[at] != '.',
    ensures
        ({
            let point = digits_end(s, 0);
            if point < s.len() && s[point] == '.' {
                digits_end(s, point + 1) == at && at >= 2
            } else {
                point == at
            }
        }),
{
    let m = s.take(at);
    if m.len() > 0 && all_digits(m) {
        assert forall|i: int| 0 <= i < at implies is_digit(#[trigger] s[i]) by {
            assert(s[i] == m[i]);
        }
        lemma_digits_end_is(s, 0, at);
    } else {
        let point = choose|point: int| is_pointed_at(m, point);
        assert forall|i: int| 0 <= i < point implies is_digit(#[trigger] s[i]) by {
            assert(s[i] == m.take(point)[i]);
        }
        lemma_digits_end_is(s, 0, point);
        assert forall|i: int| point + 1 <= i < at implies is_digit(#[trigger] s[i]) by {
            assert(s[i] == m.skip(point + 1)[i - point - 1]);
        }
        lemma_digits_end_is(s, point + 1, at);
    }
}

proof fn lemma_number_scan_finds_every_number(s: Seq<char>)
    requires
        is_number(s),
    ensures
        number_scan(s),
{
    if is_mantissa(s) {
        assert(s.take(s.len() as int) =~= s);
        lemma_number_scan_reads_mantissa(s, s.len() as int);
    } else {
        let at = choose|at: int| is_scientific_at(s, at);
        lemma_number_scan_reads_mantissa(s, at);
        lemma_exponent_from(s, at);
    }
}

const ZERO: u8 = 0x30;

const NINE: u8 = 0x39;

const PLUS: u8 = 0x2b;

const MINUS: u8 = 0x2d;

const POINT: u8 = 0x2e;

const UPPER_E: u8 = 0x45;

const LOWER_E: u8 = 0x65;

/// `bytes` are the characters of the ASCII text `s`.
spec fn ascii_of(bytes: Seq<u8>, s: Seq<char>) -> bool {
    &&& bytes.len() == s.len()
    &&& forall|i: int|
        #![trigger bytes[i]]
        #![trigger s[i]]
        0 <= i < s.len() ==> '\0' <= s[i] <= '\u{7f}' && bytes[i] == s[i] as u8
}

fn scan_digits(bytes: &[u8], from: usize, Ghost(s): Ghost<Seq<char>>) -> (end: usize)
    requires
        ascii_of(bytes@, s),
        from <= bytes@.len(),
    ensures
        end == digits_end(s, from as int),
        from <= end <= bytes@.len(),
{
    let mut i: usize = from;
    while i < bytes.len() && bytes[i] >= ZERO && bytes[i] <= NINE
        invariant
            ascii_of(bytes@, s),
            from <= i <= bytes@.len(),
            digits_end(s, from as int) == digits_end(s, i as int),
        decreases bytes@.len() - i,
    {
        i += 1;
    }
    i
}

fn scan_word(bytes: &[u8], word: &str, Ghost(s): Ghost<Seq<char>>) -> (r: bool)
    requires
        ascii_of(bytes@, s),
        forall|i: int| 0 <= i < word@.len() ==> 'a' <= #[trigger] word@[i] <= 'z',
    ensures
        r == is_word(s, word@),
{
    let letters = word.as_bytes();
    proof {
        is_ascii_chars_encode_utf8(word@);
    }
    if bytes.len() != letters.len() {
        return false;
    }
    let mut i: usize = 0;
    while i < letters.len()
        invariant
            ascii_of(bytes@, s),
            ascii_of(letters@, word@),
            forall|k: int| 0 <= k < word@.len() ==> 'a' <= #[trigger] word@[k] <= 'z',
            bytes@.len() == letters@.len(),
            i <= letters@.len(),
            forall|k: int| 0 <= k < i ==> same_letter(s[k], #[trigger] word@[k]),
        decreases letters@.len() - i,
    {
        let c: u8 = bytes[i];
        let letter: u8 = letters[i];
        // An upper-case ASCII letter stands 32 below its lower case.
        if !(c == letter || c + 32 == letter) {
            return false;
        }
        i += 1;
    }
    true
}

fn scan_exponent(bytes: &[u8], from: usize, Ghost(s): Ghost<Seq<char>>) -> (r: bool)
    requires
        ascii_of(bytes@, s),
        from < bytes@.len(),
    ensures
        r == exponent_from(s, from as int),
{
    let n: usize = bytes.len();
    if !(bytes[from] == LOWER_E || bytes[from] == UPPER_E) {
        return false;
    }
    let digits: usize = if from + 1 < n && (bytes[from + 1] == PLUS || bytes[from + 1] == MINUS) {
        from + 2
    } else {
        from + 1
    };
    if digits >= n {
        return false;
    }
    scan_digits(bytes, digits, Ghost(s)) == n
}

fn scan_number(bytes: &[u8], Ghost(s): Ghost<Seq<char>>) -> (r: bool)
    requires
        ascii_of(bytes@, s),
    ensures
        r == is_number(s),
{
    let n: usize = bytes.len();
    let point: usize = scan_digits(bytes, 0, Ghost(s));
    let found = if point < n && bytes[point] == POINT {
        let end: usize = scan_digits(bytes, point + 1, Ghost(s));
        end >= 2 && (end == n || scan_exponent(bytes, end, Ghost(s)))
    } else {
        point > 0 && (point == n || scan_exponent(bytes, point, Ghost(s)))
    };
    proof {
        if found {
            lemma_number_scan_finds_only_numbers(s);
        }
        if is_number(s) {
            lemma_number_scan_finds_every_number(s);
        }
    }
    found
}

fn scan_unsigned(bytes: &[u8], Ghost(s): Ghost<Seq<char>>) -> (r: bool)
    requires
        ascii_of(bytes@, s),
    ensures
        r == is_unsigned_float(s),
{
    proof {
        reveal_strlit("inf");
        reveal_strlit("infinity");
        reveal_strlit("nan");
    }
    scan_word(bytes, "inf", Ghost(s)) || scan_word(bytes, "infinity", Ghost(s)) || scan_word(
        bytes,
        "nan",
        Ghost(s),
    ) || scan_number(bytes, Ghost(s))
}

/// No text with a character outside ASCII is a number.
proof fn lemma_float_literal_is_ascii(s: Seq<char>)
    requires
        is_float_literal(s),
    ensures
        is_ascii_chars(s),
{
    reveal_strlit("inf");
    reveal_strlit("infinity");
    reveal_strlit("nan");
    let signed = s.len() > 0 && is_sign(s[0]);
    let body = if signed {
        s.skip(1)
    } else {
        s
    };
    assert forall|i: int| 0 <= i < body.len() implies '\0' <= #[trigger] body[i] <= '\u{7f}' by {
        if is_word(body, "inf"@) {
            assert(same_letter(body[i], "inf"@[i]));
        } else if is_word(body, "infinity"@) {
            assert(same_letter(body[i], "infinity"@[i]));
        } else if is_word(body, "nan"@) {
            assert(same_letter(body[i], "nan"@[i]));
        } else {
            lemma_number_scan_finds_every_number(body);
            lemma_number_is_ascii(body, i);
        }
    }
    assert forall|i: int| 0 <= i < s.len() implies '\0' <= #[trigger] s[i] <= '\u{7f}' by {
        if signed && i > 0 {
            assert(s[i] == body[i - 1]);
        }
    }
}

proof fn lemma_number_is_ascii(s: Seq<char>, i: int)
    requires
        number_scan(s),
        0 <= i < s.len(),
    ensures
        '\0' <= s[i] <= '\u{7f}',
{
    let point = digits_end(s, 0);
    lemma_digits_end(s, 0);
    let end = if point < s.len() && s[point] == '.' {
        digits_end(s, point + 1)
    } else {
        point
    };
    if point < s.len() && s[point] == '.' {
        lemma_digits_end(s, point + 1);
    }
    if end < s.len() {
        let digits = if end + 1 < s.len() && is_sign(s[end + 1]) {
            end + 2
        } else {
            end + 1
        };
        lemma_digits_end(s, digits);
    }
}

/// Whether a text denotes a floating-point number.
pub fn is_float_text(text: &str) -> (r: bool)
    ensures
        r == is_float_literal(text@),
{
    if !text.is_ascii() {
        proof {
            if is_float_literal(text@) {
                lemma_float_literal_is_ascii(text@);
            }
        }
        return false;
    }
    let bytes = text.as_bytes();
    let ghost s = text@;
    proof {
        is_ascii_chars_encode_utf8(s);
    }
    if bytes.len() > 0 && (bytes[0] == PLUS || bytes[0] == MINUS) {
        let body = &bytes[1..bytes.len()];
        assert(ascii_of(body@, s.skip(1)));
        scan_unsigned(body, Ghost(s.skip(1)))
    } else {
        scan_unsigned(bytes, Ghost(s))
    }
}

} // verus!
