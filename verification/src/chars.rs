//! Character-level helpers shared by the parser: whitespace trimming,
//! ASCII upper-casing, and conversion between `&str` and `Vec<char>`.

use vstd::prelude::*;

verus! {

use vstd::std_specs::iter::IteratorSpec;
use crate::error::IntParseError;

broadcast use vstd::string::next_postcondition, vstd::string::axiom_spec_iter;

/// The ASCII whitespace characters (space, tab, line feed, form feed,
/// carriage return).
pub open spec fn is_ws(c: char) -> bool {
    c == ' ' || c == '\t' || c == '\n' || c == '\x0c' || c == '\r'
}

pub fn ws_char(c: char) -> (r: bool)
    ensures
        r == is_ws(c),
{
    c == ' ' || c == '\t' || c == '\n' || c == '\x0c' || c == '\r'
}

/// A lower-case ASCII letter mapped to its upper-case form; any other
/// character is unchanged.
pub open spec fn upper_char(c: char) -> char {
    if 97 <= c as u32 && c as u32 <= 122 {
        ((c as u32 - 32) as u8) as char
    } else {
        c
    }
}

pub fn to_upper_char(c: char) -> (r: char)
    ensures
        r == upper_char(c),
{
    let u = c as u32;
    if 97 <= u && u <= 122 {
        ((u - 32) as u8) as char
    } else {
        c
    }
}

/// The characters of a string, in order, as a vector.
pub fn chars_of(s: &str) -> (r: Vec<char>)
    ensures
        r@ == s@,
{
    let mut r: Vec<char> = Vec::new();
    for c in it: s.chars()
        invariant
            it.seq() == s@,
            r@ == it.seq().subrange(0, it.index() as int),
    {
        r.push(c);
    }
    proof {
        assert(r@ =~= s@);
    }
    r
}

/// Relies on `String::push`: appends one character at the end of the string.
pub assume_specification[ String::push ](s: &mut String, c: char)
    ensures
        final(s)@ == old(s)@.push(c),
;

/// A string holding exactly the given characters, in order.
pub fn string_from_chars(v: &Vec<char>) -> (r: String)
    ensures
        r@ == v@,
{
    let mut r = String::new();
    let mut i: usize = 0;
    while i < v.len()
        invariant
            i <= v.len(),
            r@ == v@.subrange(0, i as int),
        decreases v.len() - i,
    {
        r.push(v[i]);
        proof {
            assert(r@ =~= v@.subrange(0, i + 1 as int));
        }
        i += 1;
    }
    proof {
        assert(r@ =~= v@);
    }
    r
}

/// The characters of `v` from `from` (inclusive) to `to` (exclusive).
pub fn sub_vec(v: &Vec<char>, from: usize, to: usize) -> (r: Vec<char>)
    requires
        from <= to <= v.len(),
    ensures
        r@ == v@.subrange(from as int, to as int),
{
    let mut r: Vec<char> = Vec::new();
    let mut i: usize = from;
    while i < to
        invariant
            from <= i <= to <= v.len(),
            r@ == v@.subrange(from as int, i as int),
        decreases to - i,
    {
        r.push(v[i]);
        proof {
            assert(r@ =~= v@.subrange(from as int, i + 1 as int));
        }
        i += 1;
    }
    r
}

// ---------------------------------------------------------------------------
// Trimming
// ---------------------------------------------------------------------------
pub open spec fn trim_front(s: Seq<char>) -> Seq<char>
    decreases s.len(),
{
    if s.len() > 0 && is_ws(s[0]) {
        trim_front(s.drop_first())
    } else {
        s
    }
}

pub open spec fn trim_back(s: Seq<char>) -> Seq<char>
    decreases s.len(),
{
    if s.len() > 0 && is_ws(s[s.len() - 1]) {
        trim_back(s.drop_last())
    } else {
        s
    }
}

/// `s` with leading and trailing whitespace removed.
pub open spec fn trimmed(s: Seq<char>) -> Seq<char> {
    trim_back(trim_front(s))
}

proof fn lemma_trim_front_range(s: Seq<char>, i: int)
    requires
        0 <= i <= s.len(),
        forall|k: int| 0 <= k < i ==> is_ws(s[k]),
        i < s.len() ==> !is_ws(s[i]),
    ensures
        trim_front(s) == s.subrange(i, s.len() as int),
    decreases i,
{
    if i == 0 {
        assert(s.subrange(0, s.len() as int) =~= s);
    } else {
        let t = s.drop_first();
        lemma_trim_front_range(t, i - 1);
        assert(t.subrange(i - 1, t.len() as int) =~= s.subrange(i, s.len() as int));
    }
}

proof fn lemma_trim_back_range(s: Seq<char>, j: int)
    requires
        0 <= j <= s.len(),
        forall|k: int| j <= k < s.len() ==> is_ws(s[k]),
        j > 0 ==> !is_ws(s[j - 1]),
    ensures
        trim_back(s) == s.subrange(0, j),
    decreases s.len() - j,
{
    if j == s.len() {
        if j == 0 {
            assert(s.subrange(0, 0) =~= s);
        } else {
            assert(s.subrange(0, j) =~= s);
        }
    } else {
        let t = s.drop_last();
        lemma_trim_back_range(t, j);
        assert(t.subrange(0, j) =~= s.subrange(0, j));
    }
}

pub proof fn lemma_trimmed_len(s: Seq<char>)
    ensures
        trimmed(s).len() <= s.len(),
    decreases s.len(),
{
    lemma_trim_front_len(s);
    lemma_trim_back_len(trim_front(s));
}

proof fn lemma_trim_front_len(s: Seq<char>)
    ensures
        trim_front(s).len() <= s.len(),
    decreases s.len(),
{
    if s.len() > 0 && is_ws(s[0]) {
        lemma_trim_front_len(s.drop_first());
    }
}

proof fn lemma_trim_back_len(s: Seq<char>)
    ensures
        trim_back(s).len() <= s.len(),
    decreases s.len(),
{
    if s.len() > 0 && is_ws(s[s.len() - 1]) {
        lemma_trim_back_len(s.drop_last());
    }
}

proof fn lemma_trim_front_ws(s: Seq<char>)
    ensures
        trim_front(s).len() > 0 ==> !is_ws(trim_front(s)[0]),
    decreases s.len(),
{
    if s.len() > 0 && is_ws(s[0]) {
        lemma_trim_front_ws(s.drop_first());
    }
}

proof fn lemma_trim_back_ws(s: Seq<char>)
    ensures
        trim_back(s).len() > 0 ==> !is_ws(trim_back(s)[trim_back(s).len() - 1]),
        trim_back(s).len() > 0 ==> trim_back(s)[0] == s[0],
        s.len() > 0 && !is_ws(s[s.len() - 1]) ==> trim_back(s) == s,
    decreases s.len(),
{
    if s.len() > 0 && is_ws(s[s.len() - 1]) {
        lemma_trim_back_ws(s.drop_last());
    }
}

/// `v` with leading and trailing ASCII whitespace removed.
pub fn trim_chars(v: &Vec<char>) -> (r: Vec<char>)
    ensures
        r@ == trimmed(v@),
{
    let mut i: usize = 0;
    while i < v.len() && ws_char(v[i])
        invariant
            i <= v.len(),
            forall|k: int| 0 <= k < i ==> is_ws(v@[k]),
        decreases v.len() - i,
    {
        i += 1;
    }
    proof {
        lemma_trim_front_range(v@, i as int);
    }
    let ghost tf = trim_front(v@);
    let mut j: usize = v.len();
    while j > i && ws_char(v[j - 1])
        invariant
            i <= j <= v.len(),
            forall|k: int| j <= k < v.len() ==> is_ws(v@[k]),
        decreases j,
    {
        j -= 1;
    }
    proof {
        assert(tf == v@.subrange(i as int, v@.len() as int));
        assert forall|k: int| (j - i) <= k < tf.len() implies is_ws(tf[k]) by {
            assert(tf[k] == v@[k + i]);
        }
        if j > i {
            assert(tf[j - i - 1] == v@[j - 1]);
        }
        lemma_trim_back_range(tf, j - i);
        assert(tf.subrange(0, j - i) =~= v@.subrange(i as int, j as int));
    }
    sub_vec(v, i, j)
}

// ---------------------------------------------------------------------------
// Upper-casing
// ---------------------------------------------------------------------------
/// `s` with every lower-case ASCII letter replaced by its upper-case form.
pub open spec fn upper_seq(s: Seq<char>) -> Seq<char> {
    s.map_values(|c: char| upper_char(c))
}

pub fn upper_chars(v: &Vec<char>) -> (r: Vec<char>)
    ensures
        r@ == upper_seq(v@),
{
    let mut r: Vec<char> = Vec::new();
    let mut i: usize = 0;
    while i < v.len()
        invariant
            i <= v.len(),
            r@ == upper_seq(v@.subrange(0, i as int)),
        decreases v.len() - i,
    {
        r.push(to_upper_char(v[i]));
        proof {
            assert(r@ =~= upper_seq(v@.subrange(0, i + 1 as int)));
        }
        i += 1;
    }
    proof {
        assert(v@.subrange(0, v@.len() as int) =~= v@);
    }
    r
}

// ---------------------------------------------------------------------------
// Comparison with literals, and searching
// ---------------------------------------------------------------------------
/// Whether `v` holds exactly the characters of `lit`.
pub fn eq_lit(v: &Vec<char>, lit: &str) -> (r: bool)
    ensures
        r == (v@ == lit@),
{
    let l = chars_of(lit);
    if v.len() != l.len() {
        return false;
    }
    let mut i: usize = 0;
    while i < v.len()
        invariant
            i <= v.len(),
            v@.len() == l@.len(),
            l@ == lit@,
            forall|k: int| 0 <= k < i ==> v@[k] == l@[k],
        decreases v.len() - i,
    {
        if v[i] != l[i] {
            return false;
        }
        i += 1;
    }
    proof {
        assert(v@ =~= lit@);
    }
    true
}

/// Whether `lit` is a prefix of `v`.
pub fn starts_with_lit(v: &Vec<char>, lit: &str) -> (r: bool)
    ensures
        r == (v@.len() >= lit@.len() && v@.subrange(0, lit@.len() as int) == lit@),
{
    let l = chars_of(lit);
    if v.len() < l.len() {
        return false;
    }
    let mut i: usize = 0;
    while i < l.len()
        invariant
            i <= l.len() <= v.len(),
            l@ == lit@,
            forall|k: int| 0 <= k < i ==> v@[k] == l@[k],
        decreases l.len() - i,
    {
        if v[i] != l[i] {
            proof {
                assert(v@.subrange(0, lit@.len() as int)[i as int] == v@[i as int]);
            }
            return false;
        }
        i += 1;
    }
    proof {
        assert(v@.subrange(0, lit@.len() as int) =~= lit@);
    }
    true
}

/// The first index at or after `i` holding `c`, or the length of `s` if none.
pub open spec fn find_from(s: Seq<char>, i: int, c: char) -> int
    decreases s.len() - i,
{
    if i < 0 {
        i
    } else if i >= s.len() {
        s.len() as int
    } else if s[i] == c {
        i
    } else {
        find_from(s, i + 1, c)
    }
}

pub proof fn lemma_find_from(s: Seq<char>, i: int, c: char)
    requires
        0 <= i <= s.len(),
    ensures
        i <= find_from(s, i, c) <= s.len(),
        find_from(s, i, c) < s.len() ==> s[find_from(s, i, c)] == c,
        forall|k: int| i <= k < find_from(s, i, c) ==> s[k] != c,
    decreases s.len() - i,
{
    if i < s.len() && s[i] != c {
        lemma_find_from(s, i + 1, c);
    }
}

pub fn find_char(v: &Vec<char>, from: usize, c: char) -> (r: usize)
    requires
        from <= v.len(),
    ensures
        r == find_from(v@, from as int, c),
{
    let mut i: usize = from;
    while i < v.len()
        invariant
            from <= i <= v.len(),
            find_from(v@, from as int, c) == find_from(v@, i as int, c),
        decreases v.len() - i,
    {
        if v[i] == c {
            return i;
        }
        i += 1;
    }
    i
}

/// The first index at or after `i` that does not hold whitespace.
pub open spec fn ws_end(s: Seq<char>, i: int) -> int
    decreases s.len() - i,
{
    if 0 <= i < s.len() && is_ws(s[i]) {
        ws_end(s, i + 1)
    } else {
        i
    }
}

pub proof fn lemma_ws_end(s: Seq<char>, i: int)
    requires
        0 <= i <= s.len(),
    ensures
        i <= ws_end(s, i) <= s.len(),
        ws_end(s, i) < s.len() ==> !is_ws(s[ws_end(s, i)]),
        forall|k: int| i <= k < ws_end(s, i) ==> is_ws(s[k]),
    decreases s.len() - i,
{
    if i < s.len() && is_ws(s[i]) {
        lemma_ws_end(s, i + 1);
    }
}

pub fn skip_ws(v: &Vec<char>, from: usize) -> (r: usize)
    requires
        from <= v.len(),
    ensures
        r == ws_end(v@, from as int),
        from <= r <= v.len(),
{
    proof {
        lemma_ws_end(v@, from as int);
    }
    let mut i: usize = from;
    while i < v.len() && ws_char(v[i])
        invariant
            from <= i <= v.len(),
            ws_end(v@, from as int) == ws_end(v@, i as int),
        decreases v.len() - i,
    {
        i += 1;
    }
    i
}

/// An ASCII letter or digit.
pub open spec fn is_alnum(c: char) -> bool {
    ||| 48 <= c as u32 && c as u32 <= 57
    ||| 65 <= c as u32 && c as u32 <= 90
    ||| 97 <= c as u32 && c as u32 <= 122
}

pub fn alnum_char(c: char) -> (r: bool)
    ensures
        r == is_alnum(c),
{
    let u = c as u32;
    (48 <= u && u <= 57) || (65 <= u && u <= 90) || (97 <= u && u <= 122)
}

/// The first index at or after `i` that does not hold an ASCII letter or
/// digit.
pub open spec fn alnum_end(s: Seq<char>, i: int) -> int
    decreases s.len() - i,
{
    if 0 <= i < s.len() && is_alnum(s[i]) {
        alnum_end(s, i + 1)
    } else {
        i
    }
}

pub proof fn lemma_alnum_end(s: Seq<char>, i: int)
    requires
        0 <= i <= s.len(),
    ensures
        i <= alnum_end(s, i) <= s.len(),
    decreases s.len() - i,
{
    if i < s.len() && is_alnum(s[i]) {
        lemma_alnum_end(s, i + 1);
    }
}

pub fn skip_alnum(v: &Vec<char>, from: usize) -> (r: usize)
    requires
        from <= v.len(),
    ensures
        r == alnum_end(v@, from as int),
        from <= r <= v.len(),
{
    proof {
        lemma_alnum_end(v@, from as int);
    }
    let mut i: usize = from;
    while i < v.len() && alnum_char(v[i])
        invariant
            from <= i <= v.len(),
            alnum_end(v@, from as int) == alnum_end(v@, i as int),
        decreases v.len() - i,
    {
        i += 1;
    }
    i
}

// ---------------------------------------------------------------------------
// Digits and decimal integers
// ---------------------------------------------------------------------------
pub open spec fn is_digit(c: char) -> bool {
    48 <= c as u32 && c as u32 <= 57
}

pub open spec fn digit_val(c: char) -> int {
    c as u32 - 48
}

pub fn digit_char(c: char) -> (r: bool)
    ensures
        r == is_digit(c),
{
    let u = c as u32;
    48 <= u && u <= 57
}

/// The first index at or after `i` that does not hold an ASCII digit.
pub open spec fn digits_end(s: Seq<char>, i: int) -> int
    decreases s.len() - i,
{
    if 0 <= i < s.len() && is_digit(s[i]) {
        digits_end(s, i + 1)
    } else {
        i
    }
}

pub proof fn lemma_digits_end(s: Seq<char>, i: int)
    requires
        0 <= i <= s.len(),
    ensures
        i <= digits_end(s, i) <= s.len(),
        digits_end(s, i) < s.len() ==> !is_digit(s[digits_end(s, i)]),
        forall|k: int| i <= k < digits_end(s, i) ==> is_digit(s[k]),
    decreases s.len() - i,
{
    if i < s.len() && is_digit(s[i]) {
        lemma_digits_end(s, i + 1);
    }
}

pub fn skip_digits(v: &Vec<char>, from: usize) -> (r: usize)
    requires
        from <= v.len(),
    ensures
        r == digits_end(v@, from as int),
        from <= r <= v.len(),
{
    proof {
        lemma_digits_end(v@, from as int);
    }
    let mut i: usize = from;
    while i < v.len() && digit_char(v[i])
        invariant
            from <= i <= v.len(),
            digits_end(v@, from as int) == digits_end(v@, i as int),
        decreases v.len() - i,
    {
        i += 1;
    }
    i
}

/// Scanning `s` from index `i` with accumulator `acc`, as Rust's decimal
/// integer parser does: a non-digit stops with an invalid-digit error, a
/// value past `usize::MAX` with an overflow error.
pub open spec fn usize_scan(s: Seq<char>, i: int, acc: int) -> Result<int, IntParseError>
    decreases s.len() - i,
{
    if i < 0 || i >= s.len() {
        Ok(acc)
    } else if !is_digit(s[i]) {
        Err(IntParseError::InvalidDigit)
    } else if acc * 10 + digit_val(s[i]) > usize::MAX {
        Err(IntParseError::PosOverflow)
    } else {
        usize_scan(s, i + 1, acc * 10 + digit_val(s[i]))
    }
}

/// The value of `s` read as a decimal `usize` with an optional leading `+`,
/// or the reason it does not parse.
pub open spec fn usize_from_chars(s: Seq<char>) -> Result<int, IntParseError> {
    if s.len() == 0 {
        Err(IntParseError::Empty)
    } else {
        let b: int = if s[0] == '+' {
            1
        } else {
            0
        };
        if s.len() == b {
            Err(IntParseError::InvalidDigit)
        } else {
            usize_scan(s, b, 0)
        }
    }
}

/// Reads `v` as a decimal `usize`, accepting exactly what
/// [`usize_from_chars`] accepts.
pub fn parse_usize_chars(v: &Vec<char>) -> (r: Result<usize, IntParseError>)
    ensures
        match r {
            Ok(n) => usize_from_chars(v@) == Ok::<int, IntParseError>(n as int),
            Err(e) => usize_from_chars(v@) == Err::<int, IntParseError>(e),
        },
{
    if v.len() == 0 {
        return Err(IntParseError::Empty);
    }
    let start: usize = if v[0] == '+' {
        1
    } else {
        0
    };
    if v.len() == start {
        return Err(IntParseError::InvalidDigit);
    }
    let mut acc: usize = 0;
    let mut i: usize = start;
    while i < v.len()
        invariant
            start <= i <= v.len(),
            usize_from_chars(v@) == usize_scan(v@, i as int, acc as int),
        decreases v.len() - i,
    {
        let c = v[i];
        if !digit_char(c) {
            return Err(IntParseError::InvalidDigit);
        }
        let d = (c as u32 - 48) as usize;
        let overflow = if acc > usize::MAX / 10 {
            true
        } else if acc == usize::MAX / 10 {
            d > usize::MAX % 10
        } else {
            false
        };
        proof {
            assert(overflow == (acc * 10 + d > usize::MAX)) by (nonlinear_arith)
                requires
                    overflow == (acc > usize::MAX / 10 || (acc == usize::MAX / 10 && d > usize::MAX
                        % 10)),
                    acc >= 0,
                    0 <= d <= 9,
            ;
        }
        if overflow {
            return Err(IntParseError::PosOverflow);
        }
        acc = acc * 10 + d;
        i += 1;
    }
    Ok(acc)
}

// ---------------------------------------------------------------------------
// The floating point literal grammar
// ---------------------------------------------------------------------------
/// An exponent part starting at index `i`: `e` or `E`, an optional sign, and
/// at least one digit running to the end of `s`.
pub open spec fn is_exp_from(s: Seq<char>, i: int) -> bool {
    &&& 0 <= i < s.len()
    &&& (s[i] == 'e' || s[i] == 'E')
    &&& {
        let j = if i + 1 < s.len() && (s[i + 1] == '+' || s[i + 1] == '-') {
            i + 2
        } else {
            i + 1
        };
        j < s.len() && digits_end(s, j) == s.len()
    }
}

/// A decimal mantissa with optional fraction and exponent, starting at `i`
/// and running to the end of `s`: digits, optionally `.` and more digits
/// (at least one digit on one of the two sides), then an optional exponent.
pub open spec fn is_decimal_from(s: Seq<char>, i: int) -> bool {
    let a = digits_end(s, i);
    if a == s.len() {
        a > i
    } else if s[a] == '.' {
        let b = digits_end(s, a + 1);
        let has_digits = a > i || b > a + 1;
        if b == s.len() {
            has_digits
        } else {
            has_digits && is_exp_from(s, b)
        }
    } else {
        a > i && is_exp_from(s, a)
    }
}

/// A floating point literal: an optional sign, then (case-insensitively)
/// `inf`, `infinity` or `nan`, or a decimal number.  This is the grammar
/// Rust's floating point parser documents.
pub open spec fn is_float_lit(s: Seq<char>) -> bool {
    s.len() > 0 && {
        let body = if s[0] == '+' || s[0] == '-' {
            s.drop_first()
        } else {
            s
        };
        ||| upper_seq(body) == "INF"@
        ||| upper_seq(body) == "INFINITY"@
        ||| upper_seq(body) == "NAN"@
        ||| is_decimal_from(body, 0)
    }
}

/// Decides [`is_float_lit`].
pub fn check_float_lit(v: &Vec<char>) -> (r: bool)
    ensures
        r == is_float_lit(v@),
{
    if v.len() == 0 {
        return false;
    }
    let b0: usize = if v[0] == '+' || v[0] == '-' {
        1
    } else {
        0
    };
    let body = sub_vec(v, b0, v.len());
    proof {
        if b0 == 0 {
            assert(body@ =~= v@);
        } else {
            assert(body@ =~= v@.drop_first());
        }
    }
    let ub = upper_chars(&body);
    if eq_lit(&ub, "INF") || eq_lit(&ub, "INFINITY") || eq_lit(&ub, "NAN") {
        return true;
    }
    // decimal number
    let a = skip_digits(&body, 0);
    if a == body.len() {
        return a > 0;
    }
    let (frac_end, has_digits) = if body[a] == '.' {
        let b = skip_digits(&body, a + 1);
        (b, a > 0 || b > a + 1)
    } else {
        (a, a > 0)
    };
    if !has_digits {
        return false;
    }
    if frac_end == body.len() {
        return body[a] == '.';
    }
    // exponent part
    let e = body[frac_end];
    if !(e == 'e' || e == 'E') {
        return false;
    }
    let j: usize = if frac_end + 1 < body.len() && (body[frac_end + 1] == '+' || body[frac_end + 1]
        == '-') {
        frac_end + 2
    } else {
        frac_end + 1
    };
    if j >= body.len() {
        return false;
    }
    skip_digits(&body, j) == body.len()
}

// ---------------------------------------------------------------------------
// Decimal rendering
// ---------------------------------------------------------------------------
pub open spec fn digit_char_of(d: int) -> char {
    ((d + 48) as u8) as char
}

/// The decimal digits of `n`, most significant first.
pub open spec fn dec_seq(n: int) -> Seq<char>
    decreases n,
{
    if n < 10 {
        seq![digit_char_of(if n >= 0 {
            n % 10
        } else {
            0
        })]
    } else {
        dec_seq(n / 10).push(digit_char_of(n % 10))
    }
}

/// Renders `n` in decimal.
pub fn dec_chars(n: u64) -> (r: Vec<char>)
    ensures
        r@ == dec_seq(n as int),
    decreases n,
{
    if n < 10 {
        let c = ((n as u8) + 48) as char;
        let mut r: Vec<char> = Vec::new();
        r.push(c);
        proof {
            assert(r@ =~= dec_seq(n as int));
        }
        r
    } else {
        let mut r = dec_chars(n / 10);
        r.push((((n % 10) as u8) + 48) as char);
        r
    }
}

} // verus!


