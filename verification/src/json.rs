//! A small JSON object reader, used to pull a structured evaluation out of
//! free-form model output.
//!
//! The accepted text is one JSON object. The fields the evaluation reads are
//! strings and numbers, so those are parsed in full; a member value that is
//! itself an object or an array is validated — to bounded nesting depth, as
//! mainstream readers bound it — but its contents are not retained, and the
//! field reading treats it as a value of the wrong type. String escapes
//! cover the standard single-character ones and `\uXXXX`, with escaped
//! surrogate pairs combined into one character; lone surrogate halves are
//! rejected. Duplicate keys are allowed; a lookup returns the value of the
//! last one, as a map built by inserting members in order would.
//!
//! Every parsing function is specified exactly against the recursive spec
//! functions below, so what the parser accepts and what it returns are both
//! pinned down.

use vstd::prelude::*;
use vstd::string::StrSliceExecFns;

verus! {

/// JSON whitespace.
pub open spec fn is_ws(c: char) -> bool {
    c == ' ' || c == '\t' || c == '\n' || c == '\r'
}

/// A decimal digit.
pub open spec fn is_digit(c: char) -> bool {
    '0' <= c && c <= '9'
}

/// Value of a decimal digit character.
pub open spec fn digit_val(c: char) -> u8 {
    ((c as u32) - 48) as u8
}

/// A hexadecimal digit.
pub open spec fn is_hex(c: char) -> bool {
    is_digit(c) || ('a' <= c && c <= 'f') || ('A' <= c && c <= 'F')
}

/// Value of a hexadecimal digit character.
pub open spec fn hex_val(c: char) -> int {
    if is_digit(c) {
        (c as u32) - 48
    } else if 'a' <= c && c <= 'f' {
        (c as u32) - 87
    } else {
        (c as u32) - 55
    }
}

/// Value of the four hexadecimal digits at `s[i .. i + 4]`.
pub open spec fn spec_hex4(s: Seq<char>, i: int) -> int {
    hex_val(s[i]) * 0x1000 + hex_val(s[i + 1]) * 0x100 + hex_val(s[i + 2]) * 0x10 + hex_val(
        s[i + 3],
    )
}

/// First position at or after `i` that does not hold whitespace.
pub open spec fn spec_skip_ws(s: Seq<char>, i: int) -> int
    decreases s.len() - i,
{
    if 0 <= i < s.len() && is_ws(s[i]) {
        spec_skip_ws(s, i + 1)
    } else {
        i
    }
}

/// First position at or after `i` that does not hold a decimal digit.
pub open spec fn spec_digits_end(s: Seq<char>, i: int) -> int
    decreases s.len() - i,
{
    if 0 <= i < s.len() && is_digit(s[i]) {
        spec_digits_end(s, i + 1)
    } else {
        i
    }
}

/// `spec_skip_ws` stays within `[i, len]`.
pub proof fn lemma_skip_ws_bounds(s: Seq<char>, i: int)
    requires
        0 <= i <= s.len(),
    ensures
        i <= spec_skip_ws(s, i) <= s.len(),
    decreases s.len() - i,
{
    if i < s.len() && is_ws(s[i]) {
        lemma_skip_ws_bounds(s, i + 1);
    }
}

/// `spec_digits_end` stays within `[i, len]`.
pub proof fn lemma_digits_end_bounds(s: Seq<char>, i: int)
    requires
        0 <= i <= s.len(),
    ensures
        i <= spec_digits_end(s, i) <= s.len(),
    decreases s.len() - i,
{
    if i < s.len() && is_digit(s[i]) {
        lemma_digits_end_bounds(s, i + 1);
    }
}

/// The character a single-letter escape stands for, if the letter is one of
/// the simple JSON escapes.
pub open spec fn spec_escape_char(c: char) -> Option<char> {
    if c == '"' {
        Some('"')
    } else if c == '\\' {
        Some('\\')
    } else if c == '/' {
        Some('/')
    } else if c == 'b' {
        Some('\u{0008}')
    } else if c == 'f' {
        Some('\u{000C}')
    } else if c == 'n' {
        Some('\n')
    } else if c == 'r' {
        Some('\r')
    } else if c == 't' {
        Some('\t')
    } else {
        None
    }
}

/// The character with unicode scalar value `cp`; meaningful for codes the
/// trusted conversion below accepts.
pub uninterp spec fn code_char(cp: u32) -> char;

/// Relies on `char::from_u32`: it returns a character exactly for the
/// unicode scalar values — codes below the surrogate range, or above it and
/// at most 0x10FFFF — and the returned character has the code given.
#[verifier::external_body]
fn char_from_code(cp: u32) -> (r: Option<char>)
    ensures
        r matches Some(c) ==> c == code_char(cp) && c as u32 == cp,
        (r is Some) == (cp < 0xD800 || (0xE000 <= cp && cp <= 0x10FFFF)),
{
    char::from_u32(cp)
}

/// Prefixes the content of a partial string parse.
pub open spec fn spec_prepend_str(p: Seq<char>, o: Option<(Seq<char>, int)>) -> Option<
    (Seq<char>, int),
> {
    match o {
        Some((c, j)) => Some((p + c, j)),
        None => None,
    }
}

proof fn lemma_prepend_str_assoc(p: Seq<char>, q: Seq<char>, o: Option<(Seq<char>, int)>)
    ensures
        spec_prepend_str(p, spec_prepend_str(q, o)) == spec_prepend_str(p + q, o),
{
    match o {
        Some((c, j)) => {
            assert(p + (q + c) =~= (p + q) + c);
        },
        None => {},
    }
}

/// Content and end position of a string body starting at `i`, just after the
/// opening quote: characters up to the closing quote, with escapes decoded
/// and escaped surrogate pairs combined. Raw control characters, bad
/// escapes, lone surrogate halves and an unterminated string make it fail.
pub open spec fn spec_parse_str_rest(s: Seq<char>, i: int) -> Option<(Seq<char>, int)>
    decreases s.len() - i,
{
    if i < 0 || i >= s.len() {
        None
    } else if s[i] == '"' {
        Some((Seq::empty(), i + 1))
    } else if s[i] == '\\' {
        if i + 1 >= s.len() {
            None
        } else if s[i + 1] == 'u' {
            if i + 6 <= s.len() && is_hex(s[i + 2]) && is_hex(s[i + 3]) && is_hex(s[i + 4])
                && is_hex(s[i + 5]) {
                let cp = spec_hex4(s, i + 2);
                if 0xD800 <= cp && cp < 0xDC00 {
                    // a high surrogate must be followed by an escaped low one
                    if i + 12 <= s.len() && s[i + 6] == '\\' && s[i + 7] == 'u' && is_hex(
                        s[i + 8],
                    ) && is_hex(s[i + 9]) && is_hex(s[i + 10]) && is_hex(s[i + 11]) {
                        let lo = spec_hex4(s, i + 8);
                        if 0xDC00 <= lo && lo < 0xE000 {
                            let combined = 0x10000 + (cp - 0xD800) * 0x400 + (lo - 0xDC00);
                            spec_prepend_str(
                                seq![code_char(combined as u32)],
                                spec_parse_str_rest(s, i + 12),
                            )
                        } else {
                            None
                        }
                    } else {
                        None
                    }
                } else if 0xDC00 <= cp && cp < 0xE000 {
                    None
                } else {
                    spec_prepend_str(seq![code_char(cp as u32)], spec_parse_str_rest(s, i + 6))
                }
            } else {
                None
            }
        } else {
            match spec_escape_char(s[i + 1]) {
                Some(c) => spec_prepend_str(seq![c], spec_parse_str_rest(s, i + 2)),
                None => None,
            }
        }
    } else if (s[i] as u32) < 32 {
        None
    } else {
        spec_prepend_str(seq![s[i]], spec_parse_str_rest(s, i + 1))
    }
}

/// A quoted string starting at `i`: its decoded content and the position
/// just after the closing quote.
pub open spec fn spec_parse_string(s: Seq<char>, i: int) -> Option<(Seq<char>, int)> {
    if 0 <= i < s.len() && s[i] == '"' {
        spec_parse_str_rest(s, i + 1)
    } else {
        None
    }
}

/// A successful string-body parse ends past where it began, within the text.
pub proof fn lemma_str_rest_bounds(s: Seq<char>, i: int)
    requires
        spec_parse_str_rest(s, i) is Some,
    ensures
        i < (spec_parse_str_rest(s, i)->0).1 <= s.len(),
    decreases s.len() - i,
{
    if 0 <= i < s.len() {
        if s[i] == '"' {
        } else if s[i] == '\\' {
            if i + 1 < s.len() && s[i + 1] == 'u' {
                if i + 6 <= s.len() && is_hex(s[i + 2]) && is_hex(s[i + 3]) && is_hex(s[i + 4])
                    && is_hex(s[i + 5]) && 0xD800 <= spec_hex4(s, i + 2) < 0xDC00 {
                    lemma_str_rest_bounds(s, i + 12);
                } else {
                    lemma_str_rest_bounds(s, i + 6);
                }
            } else {
                lemma_str_rest_bounds(s, i + 2);
            }
        } else if (s[i] as u32) >= 32 {
            lemma_str_rest_bounds(s, i + 1);
        }
    }
}

/// A successful string parse consumes at least the two quotes.
pub proof fn lemma_parse_string_bounds(s: Seq<char>, i: int)
    requires
        spec_parse_string(s, i) is Some,
    ensures
        i + 2 <= (spec_parse_string(s, i)->0).1 <= s.len(),
{
    lemma_str_rest_bounds(s, i + 1);
}

/// Whether `c` is JSON whitespace.
fn char_is_ws(c: char) -> (b: bool)
    ensures
        b == is_ws(c),
{
    c == ' ' || c == '\t' || c == '\n' || c == '\r'
}

/// Whether `c` is a decimal digit.
fn char_is_digit(c: char) -> (b: bool)
    ensures
        b == is_digit(c),
{
    '0' <= c && c <= '9'
}

/// First position at or after `i` without whitespace.
fn skip_ws(v: &Vec<char>, i: usize) -> (r: usize)
    requires
        i <= v.len(),
    ensures
        r as int == spec_skip_ws(v@, i as int),
        i <= r <= v.len(),
{
    let mut k: usize = i;
    while k < v.len() && char_is_ws(v[k])
        invariant
            i <= k <= v.len(),
            spec_skip_ws(v@, i as int) == spec_skip_ws(v@, k as int),
        decreases v.len() - k,
    {
        k = k + 1;
    }
    k
}

/// First position at or after `i` without a decimal digit.
fn digits_end(v: &Vec<char>, i: usize) -> (r: usize)
    requires
        i <= v.len(),
    ensures
        r as int == spec_digits_end(v@, i as int),
        i <= r <= v.len(),
        forall|k: int| i <= k < r ==> is_digit(v@[k]),
{
    let mut k: usize = i;
    while k < v.len() && char_is_digit(v[k])
        invariant
            i <= k <= v.len(),
            spec_digits_end(v@, i as int) == spec_digits_end(v@, k as int),
            forall|m: int| i <= m < k ==> is_digit(v@[m]),
        decreases v.len() - k,
    {
        k = k + 1;
    }
    proof {
        lemma_digits_end_bounds(v@, k as int);
    }
    k
}

/// The simple escape `c` stands for, if any.
fn escape_char_exec(c: char) -> (r: Option<char>)
    ensures
        r == spec_escape_char(c),
{
    if c == '"' {
        Some('"')
    } else if c == '\\' {
        Some('\\')
    } else if c == '/' {
        Some('/')
    } else if c == 'b' {
        Some('\u{0008}')
    } else if c == 'f' {
        Some('\u{000C}')
    } else if c == 'n' {
        Some('\n')
    } else if c == 'r' {
        Some('\r')
    } else if c == 't' {
        Some('\t')
    } else {
        None
    }
}

/// Value of a hexadecimal digit, or nothing if `c` is not one.
fn hex_val_exec(c: char) -> (r: Option<u32>)
    ensures
        match r {
            Some(h) => is_hex(c) && h as int == hex_val(c) && h < 16,
            None => !is_hex(c),
        },
{
    if '0' <= c && c <= '9' {
        Some(c as u32 - 48)
    } else if 'a' <= c && c <= 'f' {
        Some(c as u32 - 87)
    } else if 'A' <= c && c <= 'F' {
        Some(c as u32 - 55)
    } else {
        None
    }
}

/// Parses a quoted string starting at `i`, decoding escapes; returns the
/// content and the position just after the closing quote.
#[verifier::rlimit(60)]
fn parse_string(v: &Vec<char>, i: usize) -> (r: Option<(Vec<char>, usize)>)
    requires
        i <= v.len(),
    ensures
        ({
            let sp = spec_parse_string(v@, i as int);
            match r {
                Some(p) => sp == Some((p.0@, p.1 as int)) && i + 2 <= p.1 <= v.len(),
                None => sp is None,
            }
        }),
{
    if i == v.len() || !(v[i] == '"') {
        return None;
    }
    let mut acc: Vec<char> = Vec::new();
    let mut k: usize = i + 1;
    loop
        invariant
            i + 1 <= k <= v.len(),
            i < v.len() && v@[i as int] == '"',
            spec_parse_str_rest(v@, i as int + 1) == spec_prepend_str(
                acc@,
                spec_parse_str_rest(v@, k as int),
            ),
        decreases v.len() - k,
    {
        if k == v.len() {
            return None;
        }
        let c = v[k];
        if c == '"' {
            proof {
                assert(acc@ + Seq::<char>::empty() =~= acc@);
            }
            return Some((acc, k + 1));
        } else if c == '\\' {
            if k + 1 == v.len() {
                return None;
            }
            let e = v[k + 1];
            if e == 'u' {
                if v.len() - k < 6 {
                    return None;
                }
                let h2 = hex_val_exec(v[k + 2]);
                let h3 = hex_val_exec(v[k + 3]);
                let h4 = hex_val_exec(v[k + 4]);
                let h5 = hex_val_exec(v[k + 5]);
                match (h2, h3, h4, h5) {
                    (Some(a), Some(b), Some(cc), Some(d)) => {
                        let cp: u32 = a * 0x1000 + b * 0x100 + cc * 0x10 + d;
                        if 0xD800 <= cp && cp < 0xDC00 {
                            // an escaped high surrogate: its low half must follow
                            if v.len() - k < 12 {
                                return None;
                            }
                            if !(v[k + 6] == '\\') || !(v[k + 7] == 'u') {
                                return None;
                            }
                            let l2 = hex_val_exec(v[k + 8]);
                            let l3 = hex_val_exec(v[k + 9]);
                            let l4 = hex_val_exec(v[k + 10]);
                            let l5 = hex_val_exec(v[k + 11]);
                            match (l2, l3, l4, l5) {
                                (Some(w), Some(x), Some(y), Some(z)) => {
                                    let lo: u32 = w * 0x1000 + x * 0x100 + y * 0x10 + z;
                                    if !(0xDC00 <= lo && lo < 0xE000) {
                                        return None;
                                    }
                                    let combined: u32 = 0x10000 + (cp - 0xD800) * 0x400 + (lo
                                        - 0xDC00);
                                    match char_from_code(combined) {
                                        Some(ch) => {
                                            proof {
                                                let ghost acc_old = acc@;
                                                lemma_prepend_str_assoc(
                                                    acc_old,
                                                    seq![code_char(combined)],
                                                    spec_parse_str_rest(v@, k as int + 12),
                                                );
                                                assert(acc_old.push(ch) =~= acc_old + seq![
                                                    code_char(combined),
                                                ]);
                                            }
                                            acc.push(ch);
                                            k = k + 12;
                                        },
                                        None => {
                                            proof {
                                                assert(false);
                                            }
                                            return None;
                                        },
                                    }
                                },
                                _ => {
                                    return None;
                                },
                            }
                        } else if 0xDC00 <= cp && cp < 0xE000 {
                            return None;
                        } else {
                            match char_from_code(cp) {
                                Some(ch) => {
                                    proof {
                                        let ghost acc_old = acc@;
                                        lemma_prepend_str_assoc(
                                            acc_old,
                                            seq![code_char(cp)],
                                            spec_parse_str_rest(v@, k as int + 6),
                                        );
                                        assert(acc_old.push(ch) =~= acc_old + seq![code_char(cp)]);
                                    }
                                    acc.push(ch);
                                    k = k + 6;
                                },
                                None => {
                                    proof {
                                        assert(false);
                                    }
                                    return None;
                                },
                            }
                        }
                    },
                    _ => {
                        return None;
                    },
                }
            } else {
                match escape_char_exec(e) {
                    Some(ch) => {
                        proof {
                            let ghost acc_old = acc@;
                            lemma_prepend_str_assoc(
                                acc_old,
                                seq![ch],
                                spec_parse_str_rest(v@, k as int + 2),
                            );
                            assert(acc_old.push(ch) =~= acc_old + seq![ch]);
                        }
                        acc.push(ch);
                        k = k + 2;
                    },
                    None => {
                        return None;
                    },
                }
            }
        } else if (c as u32) < 32 {
            return None;
        } else {
            proof {
                let ghost acc_old = acc@;
                lemma_prepend_str_assoc(acc_old, seq![c], spec_parse_str_rest(v@, k as int + 1));
                assert(acc_old.push(c) =~= acc_old + seq![c]);
            }
            acc.push(c);
            k = k + 1;
        }
    }
}

/// A JSON number in decimal positional form: a sign, its mantissa digits in
/// order, and the position of the decimal point within them, with any
/// exponent folded in. An exponent's magnitude is saturated at one million;
/// beyond that the value's thousandths are unaffected.
pub struct JsonNum {
    pub neg: bool,
    pub digits: Vec<u8>,
    pub point: i128,
}

/// Mathematical model of a [`JsonNum`].
#[verifier::ext_equal]
pub ghost struct NumModel {
    pub neg: bool,
    pub digits: Seq<u8>,
    pub point: int,
}

impl View for JsonNum {
    type V = NumModel;

    open spec fn view(&self) -> NumModel {
        NumModel { neg: self.neg, digits: self.digits@, point: self.point as int }
    }
}

/// A parsed JSON value. A nested object or array is validated in full but
/// its contents are not retained: no field of an evaluation reads them, and
/// the field readers treat such a value as one of the wrong type.
pub enum JsonValue {
    Null,
    Bool(bool),
    Num(JsonNum),
    Str(Vec<char>),
    Nested,
}

/// Mathematical model of a [`JsonValue`].
#[verifier::ext_equal]
pub ghost enum ValueModel {
    Null,
    Bool(bool),
    Num(NumModel),
    Str(Seq<char>),
    Nested,
}

impl View for JsonValue {
    type V = ValueModel;

    open spec fn view(&self) -> ValueModel {
        match self {
            JsonValue::Null => ValueModel::Null,
            JsonValue::Bool(b) => ValueModel::Bool(*b),
            JsonValue::Num(n) => ValueModel::Num(n@),
            JsonValue::Str(s) => ValueModel::Str(s@),
            JsonValue::Nested => ValueModel::Nested,
        }
    }
}

/// The digit values of `s[i .. j]`.
pub open spec fn spec_digit_seq(s: Seq<char>, i: int, j: int) -> Seq<u8> {
    s.subrange(i, j).map_values(|c: char| digit_val(c))
}

/// One step of reading a decimal value, saturated at one million.
pub open spec fn spec_sat_step(acc: int, d: int) -> int {
    if acc * 10 + d > 1000000 {
        1000000
    } else {
        acc * 10 + d
    }
}

/// The decimal value of the digits in `s[i .. end]` folded onto `acc`,
/// saturated at one million.
pub open spec fn spec_sat_digits_val(s: Seq<char>, i: int, end: int, acc: int) -> int
    decreases end - i,
{
    if i < end {
        spec_sat_digits_val(s, i + 1, end, spec_sat_step(acc, digit_val(s[i]) as int))
    } else {
        acc
    }
}

/// A JSON number starting at `i`: optional minus, an integer part without
/// leading zeros, an optional fraction, an optional exponent. Returns its
/// decimal form and the position just after it.
pub open spec fn spec_parse_number(s: Seq<char>, i: int) -> Option<(NumModel, int)> {
    let neg = 0 <= i < s.len() && s[i] == '-';
    let i1 = if neg {
        i + 1
    } else {
        i
    };
    let int_end = spec_digits_end(s, i1);
    if int_end == i1 {
        None
    } else if s[i1] == '0' && int_end > i1 + 1 {
        None
    } else {
        let frac_present = int_end < s.len() && s[int_end] == '.';
        let frac_end = if frac_present {
            spec_digits_end(s, int_end + 1)
        } else {
            int_end
        };
        if frac_present && frac_end == int_end + 1 {
            None
        } else {
            let digits = spec_digit_seq(s, i1, int_end) + if frac_present {
                spec_digit_seq(s, int_end + 1, frac_end)
            } else {
                Seq::empty()
            };
            let n_int = int_end - i1;
            let exp_present = frac_end < s.len() && (s[frac_end] == 'e' || s[frac_end] == 'E');
            if exp_present {
                let sign_neg = frac_end + 1 < s.len() && s[frac_end + 1] == '-';
                let sign_pos = frac_end + 1 < s.len() && s[frac_end + 1] == '+';
                let e1 = if sign_neg || sign_pos {
                    frac_end + 2
                } else {
                    frac_end + 1
                };
                let e_end = spec_digits_end(s, e1);
                if e_end == e1 {
                    None
                } else {
                    let e_sat = spec_sat_digits_val(s, e1, e_end, 0);
                    let point = if sign_neg {
                        n_int - e_sat
                    } else {
                        n_int + e_sat
                    };
                    Some((NumModel { neg, digits, point }, e_end))
                }
            } else {
                Some((NumModel { neg, digits, point: n_int }, frac_end))
            }
        }
    }
}

/// How deep a member value may nest below the object it sits in; deeper
/// texts are rejected, as mainstream readers with a recursion limit do.
pub const JSON_NESTING_LIMIT: u32 = 127;

/// A JSON value starting at `i`: a string, a number, `true`, `false`,
/// `null`, or — while `d` allows going deeper — an object or an array, which
/// is validated and summarised as [`ValueModel::Nested`].
pub open spec fn spec_parse_value(s: Seq<char>, i: int, d: nat) -> Option<(ValueModel, int)>
    decreases d, s.len() - i, 0int,
{
    if i < 0 || i >= s.len() {
        None
    } else if s[i] == '"' {
        match spec_parse_string(s, i) {
            Some((c, j)) => Some((ValueModel::Str(c), j)),
            None => None,
        }
    } else if s[i] == '-' || is_digit(s[i]) {
        match spec_parse_number(s, i) {
            Some((n, j)) => Some((ValueModel::Num(n), j)),
            None => None,
        }
    } else if s[i] == 't' {
        if i + 4 <= s.len() && s[i + 1] == 'r' && s[i + 2] == 'u' && s[i + 3] == 'e' {
            Some((ValueModel::Bool(true), i + 4))
        } else {
            None
        }
    } else if s[i] == 'f' {
        if i + 5 <= s.len() && s[i + 1] == 'a' && s[i + 2] == 'l' && s[i + 3] == 's' && s[i + 4]
            == 'e' {
            Some((ValueModel::Bool(false), i + 5))
        } else {
            None
        }
    } else if s[i] == 'n' {
        if i + 4 <= s.len() && s[i + 1] == 'u' && s[i + 2] == 'l' && s[i + 3] == 'l' {
            Some((ValueModel::Null, i + 4))
        } else {
            None
        }
    } else if s[i] == '{' {
        if d == 0 {
            None
        } else {
            let j = spec_skip_ws(s, i + 1);
            if j < s.len() && s[j] == '}' {
                Some((ValueModel::Nested, j + 1))
            } else {
                match spec_parse_members(s, j, (d - 1) as nat) {
                    Some((ms, end)) => Some((ValueModel::Nested, end)),
                    None => None,
                }
            }
        }
    } else if s[i] == '[' {
        if d == 0 {
            None
        } else {
            let j = spec_skip_ws(s, i + 1);
            if j < s.len() && s[j] == ']' {
                Some((ValueModel::Nested, j + 1))
            } else {
                match spec_parse_elements(s, j, (d - 1) as nat) {
                    Some(end) => Some((ValueModel::Nested, end)),
                    None => None,
                }
            }
        }
    } else {
        None
    }
}

/// `spec_skip_ws` never moves backward, and never past the end when it
/// starts within the text.
proof fn lemma_skip_ws_all(s: Seq<char>)
    ensures
        forall|p: int| #[trigger] spec_skip_ws(s, p) >= p,
        forall|p: int| p <= s.len() ==> #[trigger] spec_skip_ws(s, p) <= s.len(),
{
    assert forall|p: int| #[trigger] spec_skip_ws(s, p) >= p by {
        if 0 <= p <= s.len() {
            lemma_skip_ws_bounds(s, p);
        }
    }
    assert forall|p: int| p <= s.len() implies #[trigger] spec_skip_ws(s, p) <= s.len() by {
        if 0 <= p {
            lemma_skip_ws_bounds(s, p);
        }
    }
}

/// Prefixes the members of a partial member-list parse.
pub open spec fn spec_prepend_members(
    p: Seq<(Seq<char>, ValueModel)>,
    o: Option<(Seq<(Seq<char>, ValueModel)>, int)>,
) -> Option<(Seq<(Seq<char>, ValueModel)>, int)> {
    match o {
        Some((ms, j)) => Some((p + ms, j)),
        None => None,
    }
}

proof fn lemma_prepend_members_assoc(
    p: Seq<(Seq<char>, ValueModel)>,
    q: Seq<(Seq<char>, ValueModel)>,
    o: Option<(Seq<(Seq<char>, ValueModel)>, int)>,
)
    ensures
        spec_prepend_members(p, spec_prepend_members(q, o)) == spec_prepend_members(p + q, o),
{
    match o {
        Some((ms, j)) => {
            assert(p + (q + ms) =~= (p + q) + ms);
        },
        None => {},
    }
}

/// The members of an object body from the start of a key at `i` up to and
/// including the closing brace: `"key" : value` pairs separated by commas,
/// with member values allowed to nest `d` levels deeper. Returns the members
/// in order and the position just after the brace.
pub open spec fn spec_parse_members(s: Seq<char>, i: int, d: nat) -> Option<
    (Seq<(Seq<char>, ValueModel)>, int),
>
    decreases d, s.len() - i, 1int,
    via spec_parse_members_decreases
{
    match spec_parse_string(s, i) {
        None => None,
        Some((key, j)) => {
            let j2 = spec_skip_ws(s, j);
            if j2 < s.len() && s[j2] == ':' {
                let j3 = spec_skip_ws(s, j2 + 1);
                match spec_parse_value(s, j3, d) {
                    None => None,
                    Some((v, vend)) => {
                        // a parsed value in fact ends past its start; the bound
                        // only keeps the recursion measure visibly decreasing
                        let j4 = if vend < j3 + 1 {
                            j3 + 1
                        } else {
                            vend
                        };
                        let j5 = spec_skip_ws(s, j4);
                        if j5 < s.len() && s[j5] == ',' {
                            let j6 = spec_skip_ws(s, j5 + 1);
                            spec_prepend_members(seq![(key, v)], spec_parse_members(s, j6, d))
                        } else if j5 < s.len() && s[j5] == '}' {
                            Some((seq![(key, v)], j5 + 1))
                        } else {
                            None
                        }
                    },
                }
            } else {
                None
            }
        },
    }
}

#[via_fn]
proof fn spec_parse_members_decreases(s: Seq<char>, i: int, d: nat) {
    lemma_skip_ws_all(s);
    if spec_parse_string(s, i) is Some {
        lemma_parse_string_bounds(s, i);
    }
}

/// The elements of an array body from the start of a value at `i` up to and
/// including the closing bracket, each element allowed to nest `d` levels
/// deeper. Returns the position just after the bracket.
pub open spec fn spec_parse_elements(s: Seq<char>, i: int, d: nat) -> Option<int>
    decreases d, s.len() - i, 1int,
    via spec_parse_elements_decreases
{
    match spec_parse_value(s, i, d) {
        None => None,
        Some((v, vend)) => {
            // as above: a parsed value always ends past its start
            let j4 = if vend < i + 1 {
                i + 1
            } else {
                vend
            };
            let j5 = spec_skip_ws(s, j4);
            if j5 < s.len() && s[j5] == ',' {
                let j6 = spec_skip_ws(s, j5 + 1);
                spec_parse_elements(s, j6, d)
            } else if j5 < s.len() && s[j5] == ']' {
                Some(j5 + 1)
            } else {
                None
            }
        },
    }
}

#[via_fn]
proof fn spec_parse_elements_decreases(s: Seq<char>, i: int, d: nat) {
    lemma_skip_ws_all(s);
}

/// A whole text holding one JSON object and nothing else but whitespace:
/// its top-level members, in order.
pub open spec fn spec_parse_object(s: Seq<char>) -> Option<Seq<(Seq<char>, ValueModel)>> {
    let i = spec_skip_ws(s, 0);
    if i < s.len() && s[i] == '{' {
        let j = spec_skip_ws(s, i + 1);
        if j < s.len() && s[j] == '}' {
            if spec_skip_ws(s, j + 1) == s.len() {
                Some(Seq::empty())
            } else {
                None
            }
        } else {
            match spec_parse_members(s, j, JSON_NESTING_LIMIT as nat) {
                Some((ms, k)) => if spec_skip_ws(s, k) == s.len() {
                    Some(ms)
                } else {
                    None
                },
                None => None,
            }
        }
    } else {
        None
    }
}

/// Why a text failed to parse as one JSON object.
#[derive(Debug, PartialEq, Eq, Structural)]
pub enum JsonObjectError {
    /// No opening brace starts the text.
    NoObject,
    /// The object's members are malformed (or nested too deep).
    MalformedObject,
    /// A well-formed object is followed by more than whitespace.
    TrailingText,
}

/// The reason a text rejected by [`spec_parse_object`] fails.
pub open spec fn spec_object_failure(s: Seq<char>) -> JsonObjectError {
    let i = spec_skip_ws(s, 0);
    if !(i < s.len() && s[i] == '{') {
        JsonObjectError::NoObject
    } else {
        let j = spec_skip_ws(s, i + 1);
        if j < s.len() && s[j] == '}' {
            JsonObjectError::TrailingText
        } else {
            match spec_parse_members(s, j, JSON_NESTING_LIMIT as nat) {
                Some((ms, k)) => JsonObjectError::TrailingText,
                None => JsonObjectError::MalformedObject,
            }
        }
    }
}

/// The models of parsed members.
pub open spec fn members_view(ms: Seq<(Vec<char>, JsonValue)>) -> Seq<(Seq<char>, ValueModel)> {
    Seq::new(ms.len(), |k: int| (ms[k].0@, ms[k].1@))
}

/// The value of the last member named `key`, the one a map built by
/// inserting members in order would hold.
pub open spec fn spec_lookup(ms: Seq<(Seq<char>, ValueModel)>, key: Seq<char>) -> Option<ValueModel>
    decreases ms.len(),
{
    if ms.len() == 0 {
        None
    } else if ms.last().0 == key {
        Some(ms.last().1)
    } else {
        spec_lookup(ms.drop_last(), key)
    }
}

/// Parses a JSON number starting at `i`.
fn parse_number(v: &Vec<char>, i: usize) -> (r: Option<(JsonNum, usize)>)
    requires
        i <= v.len(),
    ensures
        ({
            let sp = spec_parse_number(v@, i as int);
            match r {
                Some(p) => sp == Some((p.0@, p.1 as int)) && i < p.1 <= v.len(),
                None => sp is None,
            }
        }),
{
    let neg: bool = i < v.len() && v[i] == '-';
    let i1: usize = if neg {
        i + 1
    } else {
        i
    };
    let int_end: usize = digits_end(v, i1);
    if int_end == i1 {
        return None;
    }
    if v[i1] == '0' && int_end > i1 + 1 {
        return None;
    }
    let mut digits: Vec<u8> = Vec::new();
    let mut k: usize = i1;
    while k < int_end
        invariant
            i1 <= k <= int_end <= v.len(),
            forall|m: int| i1 <= m < int_end ==> is_digit(v@[m]),
            digits@ == spec_digit_seq(v@, i1 as int, k as int),
        decreases int_end - k,
    {
        let c = v[k];
        let d: u8 = (c as u32 - 48) as u8;
        proof {
            assert(spec_digit_seq(v@, i1 as int, k as int + 1) =~= spec_digit_seq(
                v@,
                i1 as int,
                k as int,
            ).push(digit_val(v@[k as int])));
        }
        digits.push(d);
        k = k + 1;
    }
    let mut j: usize = int_end;
    let frac_present: bool = int_end < v.len() && v[int_end] == '.';
    if frac_present {
        let fs: usize = int_end + 1;
        let fe: usize = digits_end(v, fs);
        if fe == fs {
            return None;
        }
        let mut k2: usize = fs;
        while k2 < fe
            invariant
                i1 <= int_end < fs <= k2 <= fe <= v.len(),
                forall|m: int| fs <= m < fe ==> is_digit(v@[m]),
                digits@ == spec_digit_seq(v@, i1 as int, int_end as int) + spec_digit_seq(
                    v@,
                    fs as int,
                    k2 as int,
                ),
            decreases fe - k2,
        {
            let c = v[k2];
            let d: u8 = (c as u32 - 48) as u8;
            proof {
                assert(spec_digit_seq(v@, fs as int, k2 as int + 1) =~= spec_digit_seq(
                    v@,
                    fs as int,
                    k2 as int,
                ).push(digit_val(v@[k2 as int])));
                assert(digits@.push(digit_val(v@[k2 as int])) =~= spec_digit_seq(
                    v@,
                    i1 as int,
                    int_end as int,
                ) + spec_digit_seq(v@, fs as int, k2 as int + 1));
            }
            digits.push(d);
            k2 = k2 + 1;
        }
        j = fe;
    } else {
        proof {
            assert(digits@ =~= spec_digit_seq(v@, i1 as int, int_end as int) + Seq::<u8>::empty());
        }
    }
    let n_int: usize = int_end - i1;
    if j < v.len() && (v[j] == 'e' || v[j] == 'E') {
        let sign_neg: bool = j + 1 < v.len() && v[j + 1] == '-';
        let sign_pos: bool = j + 1 < v.len() && v[j + 1] == '+';
        let e1: usize = if sign_neg || sign_pos {
            j + 2
        } else {
            j + 1
        };
        let e_end: usize = digits_end(v, e1);
        if e_end == e1 {
            return None;
        }
        let mut es: u32 = 0;
        let mut k3: usize = e1;
        while k3 < e_end
            invariant
                e1 <= k3 <= e_end <= v.len(),
                es <= 1000000,
                forall|m: int| e1 <= m < e_end ==> is_digit(v@[m]),
                spec_sat_digits_val(v@, e1 as int, e_end as int, 0) == spec_sat_digits_val(
                    v@,
                    k3 as int,
                    e_end as int,
                    es as int,
                ),
            decreases e_end - k3,
        {
            let d: u32 = v[k3] as u32 - 48;
            let t: u32 = es * 10 + d;
            es = if t > 1000000 {
                1000000
            } else {
                t
            };
            k3 = k3 + 1;
        }
        let point: i128 = if sign_neg {
            n_int as i128 - es as i128
        } else {
            n_int as i128 + es as i128
        };
        let num = JsonNum { neg, digits, point };
        return Some((num, e_end));
    }
    let num = JsonNum { neg, digits, point: n_int as i128 };
    Some((num, j))
}

/// Parses a JSON value starting at `i`, descending at most `d` levels into
/// nested objects and arrays.
fn parse_value(v: &Vec<char>, i: usize, d: u32) -> (r: Option<(JsonValue, usize)>)
    requires
        i <= v.len(),
    ensures
        ({
            let sp = spec_parse_value(v@, i as int, d as nat);
            match r {
                Some(p) => sp == Some((p.0@, p.1 as int)) && i < p.1 <= v.len(),
                None => sp is None,
            }
        }),
    decreases d, 0int,
{
    if i == v.len() {
        return None;
    }
    let c = v[i];
    if c == '"' {
        match parse_string(v, i) {
            Some((content, j)) => Some((JsonValue::Str(content), j)),
            None => None,
        }
    } else if c == '-' || ('0' <= c && c <= '9') {
        match parse_number(v, i) {
            Some((n, j)) => Some((JsonValue::Num(n), j)),
            None => None,
        }
    } else if c == 't' {
        if v.len() - i >= 4 && v[i + 1] == 'r' && v[i + 2] == 'u' && v[i + 3] == 'e' {
            Some((JsonValue::Bool(true), i + 4))
        } else {
            None
        }
    } else if c == 'f' {
        if v.len() - i >= 5 && v[i + 1] == 'a' && v[i + 2] == 'l' && v[i + 3] == 's' && v[i + 4]
            == 'e' {
            Some((JsonValue::Bool(false), i + 5))
        } else {
            None
        }
    } else if c == 'n' {
        if v.len() - i >= 4 && v[i + 1] == 'u' && v[i + 2] == 'l' && v[i + 3] == 'l' {
            Some((JsonValue::Null, i + 4))
        } else {
            None
        }
    } else if c == '{' {
        if d == 0 {
            return None;
        }
        let j = skip_ws(v, i + 1);
        if j < v.len() && v[j] == '}' {
            Some((JsonValue::Nested, j + 1))
        } else {
            match parse_members(v, j, d - 1) {
                Some(p) => Some((JsonValue::Nested, p.1)),
                None => None,
            }
        }
    } else if c == '[' {
        if d == 0 {
            return None;
        }
        let j = skip_ws(v, i + 1);
        if j < v.len() && v[j] == ']' {
            Some((JsonValue::Nested, j + 1))
        } else {
            match parse_elements(v, j, d - 1) {
                Some(end) => Some((JsonValue::Nested, end)),
                None => None,
            }
        }
    } else {
        None
    }
}

/// Parses the members of an object body from the start of a key at `i` up to
/// and including the closing brace, member values nesting at most `d` levels.
fn parse_members(v: &Vec<char>, i: usize, d: u32) -> (r: Option<
    (Vec<(Vec<char>, JsonValue)>, usize),
>)
    requires
        i <= v.len(),
    ensures
        ({
            let sp = spec_parse_members(v@, i as int, d as nat);
            match r {
                Some(p) => sp == Some((members_view(p.0@), p.1 as int)) && i < p.1 <= v.len(),
                None => sp is None,
            }
        }),
    decreases d, 1int,
{
    let mut acc: Vec<(Vec<char>, JsonValue)> = Vec::new();
    let mut k: usize = i;
    loop
        invariant
            i <= k <= v.len(),
            spec_parse_members(v@, i as int, d as nat) == spec_prepend_members(
                members_view(acc@),
                spec_parse_members(v@, k as int, d as nat),
            ),
        decreases v.len() - k,
    {
        let key = match parse_string(v, k) {
            Some(p) => p,
            None => {
                return None;
            },
        };
        let j2 = skip_ws(v, key.1);
        if j2 == v.len() || !(v[j2] == ':') {
            return None;
        }
        let j3 = skip_ws(v, j2 + 1);
        let val = match parse_value(v, j3, d) {
            Some(p) => p,
            None => {
                return None;
            },
        };
        let j5 = skip_ws(v, val.1);
        if j5 < v.len() && v[j5] == ',' {
            let j6 = skip_ws(v, j5 + 1);
            proof {
                let ghost acc_old = members_view(acc@);
                let ghost kv = (key.0@, val.0@);
                assert(spec_parse_members(v@, k as int, d as nat) == spec_prepend_members(
                    seq![kv],
                    spec_parse_members(v@, j6 as int, d as nat),
                ));
                lemma_prepend_members_assoc(
                    acc_old,
                    seq![kv],
                    spec_parse_members(v@, j6 as int, d as nat),
                );
                assert(members_view(acc@.push((key.0, val.0))) =~= acc_old + seq![kv]);
            }
            acc.push((key.0, val.0));
            k = j6;
        } else if j5 < v.len() && v[j5] == '}' {
            proof {
                let ghost acc_old = members_view(acc@);
                let ghost kv = (key.0@, val.0@);
                assert(spec_parse_members(v@, k as int, d as nat) == Some((seq![kv], j5 + 1)));
                assert(members_view(acc@.push((key.0, val.0))) =~= acc_old + seq![kv]);
            }
            acc.push((key.0, val.0));
            return Some((acc, j5 + 1));
        } else {
            return None;
        }
    }
}

/// Parses the elements of an array body from the start of a value at `i` up
/// to and including the closing bracket, elements nesting at most `d` levels.
fn parse_elements(v: &Vec<char>, i: usize, d: u32) -> (r: Option<usize>)
    requires
        i <= v.len(),
    ensures
        ({
            let sp = spec_parse_elements(v@, i as int, d as nat);
            match r {
                Some(end) => sp == Some(end as int) && i < end <= v.len(),
                None => sp is None,
            }
        }),
    decreases d, 1int,
{
    let mut k: usize = i;
    loop
        invariant
            i <= k <= v.len(),
            spec_parse_elements(v@, i as int, d as nat) == spec_parse_elements(
                v@,
                k as int,
                d as nat,
            ),
        decreases v.len() - k,
    {
        let val = match parse_value(v, k, d) {
            Some(p) => p,
            None => {
                return None;
            },
        };
        let j5 = skip_ws(v, val.1);
        if j5 < v.len() && v[j5] == ',' {
            let j6 = skip_ws(v, j5 + 1);
            proof {
                assert(spec_parse_elements(v@, k as int, d as nat) == spec_parse_elements(
                    v@,
                    j6 as int,
                    d as nat,
                ));
            }
            k = j6;
        } else if j5 < v.len() && v[j5] == ']' {
            return Some(j5 + 1);
        } else {
            return None;
        }
    }
}

/// Parses a whole text as one JSON object with nothing around it but
/// whitespace, returning its top-level members in order, or the reason the
/// text is not such an object.
pub fn parse_object_text(v: &Vec<char>) -> (r: Result<
    Vec<(Vec<char>, JsonValue)>,
    JsonObjectError,
>)
    ensures
        ({
            let sp = spec_parse_object(v@);
            match r {
                Ok(ms) => sp == Some(members_view(ms@)),
                Err(e) => sp is None && e == spec_object_failure(v@),
            }
        }),
{
    let i = skip_ws(v, 0);
    if i == v.len() || !(v[i] == '{') {
        return Err(JsonObjectError::NoObject);
    }
    let j = skip_ws(v, i + 1);
    if j < v.len() && v[j] == '}' {
        let t = skip_ws(v, j + 1);
        if t == v.len() {
            let empty: Vec<(Vec<char>, JsonValue)> = Vec::new();
            proof {
                assert(members_view(empty@) =~= Seq::<(Seq<char>, ValueModel)>::empty());
            }
            return Ok(empty);
        } else {
            return Err(JsonObjectError::TrailingText);
        }
    }
    match parse_members(v, j, JSON_NESTING_LIMIT) {
        Some((ms, k)) => {
            let t = skip_ws(v, k);
            if t == v.len() {
                Ok(ms)
            } else {
                Err(JsonObjectError::TrailingText)
            }
        },
        None => Err(JsonObjectError::MalformedObject),
    }
}

/// Whether a parsed text equals a borrowed string, character for character.
pub fn chars_eq_str(v: &Vec<char>, s: &str) -> (b: bool)
    ensures
        b == (v@ == s@),
{
    let n: usize = s.unicode_len();
    if n != v.len() {
        return false;
    }
    let mut i: usize = 0;
    while i < n
        invariant
            i <= n,
            n == v.len(),
            n == s@.len(),
            forall|m: int| 0 <= m < i ==> v@[m] == s@[m],
        decreases n - i,
    {
        if !(v[i] == s.get_char(i)) {
            return false;
        }
        i = i + 1;
    }
    proof {
        assert(v@ =~= s@);
    }
    true
}

/// The value of the last member named `key`, if any.
pub fn lookup_member<'a>(ms: &'a Vec<(Vec<char>, JsonValue)>, key: &str) -> (r: Option<
    &'a JsonValue,
>)
    ensures
        ({
            let sp = spec_lookup(members_view(ms@), key@);
            match r {
                Some(val) => sp == Some(val@),
                None => sp is None,
            }
        }),
{
    let mut k: usize = ms.len();
    proof {
        assert(members_view(ms@).take(ms@.len() as int) =~= members_view(ms@));
    }
    loop
        invariant
            k <= ms.len(),
            spec_lookup(members_view(ms@), key@) == spec_lookup(
                members_view(ms@).take(k as int),
                key@,
            ),
        decreases k,
    {
        if k == 0 {
            proof {
                assert(members_view(ms@).take(0) =~= Seq::<(Seq<char>, ValueModel)>::empty());
            }
            return None;
        }
        k = k - 1;
        proof {
            assert(members_view(ms@).take(k as int + 1).drop_last() =~= members_view(ms@).take(
                k as int,
            ));
            assert(members_view(ms@).take(k as int + 1).last() == (ms@[k as int].0@, ms@[
                k as int
            ].1@));
        }
        if chars_eq_str(&ms[k].0, key) {
            return Some(&ms[k].1);
        }
    }
}

/// Digit at position `k`, zero past the end.
pub open spec fn spec_digit_at(digits: Seq<u8>, k: int) -> int {
    if 0 <= k < digits.len() {
        digits[k] as int
    } else {
        0
    }
}

/// The integer formed by the first `stop` digit positions (zero-padded past
/// the end): the number's value in units of ten to the power
/// `point - stop`, truncated.
pub open spec fn spec_prefix_val(digits: Seq<u8>, stop: int) -> int
    decreases stop,
{
    if stop <= 0 {
        0
    } else {
        spec_prefix_val(digits, stop - 1) * 10 + spec_digit_at(digits, stop - 1)
    }
}

/// The saturated decimal value of a digit run stays within `[acc, 1000000]`
/// when it starts within that range.
pub proof fn lemma_sat_digits_val_bound(s: Seq<char>, i: int, end: int, acc: int)
    requires
        0 <= acc <= 1000000,
    ensures
        0 <= spec_sat_digits_val(s, i, end, acc) <= 1000000,
    decreases end - i,
{
    if i < end {
        lemma_sat_digits_val_bound(s, i + 1, end, spec_sat_step(acc, digit_val(s[i]) as int));
    }
}

/// A digit-prefix value is never negative.
pub proof fn lemma_prefix_val_nonneg(digits: Seq<u8>, stop: int)
    ensures
        spec_prefix_val(digits, stop) >= 0,
    decreases stop,
{
    if stop > 0 {
        lemma_prefix_val_nonneg(digits, stop - 1);
    }
}

proof fn lemma_prefix_val_gt_keeps(digits: Seq<u8>, k: int, stop: int)
    requires
        0 <= k <= stop,
        spec_prefix_val(digits, k) > 1000,
    ensures
        spec_prefix_val(digits, stop) > 1000,
    decreases stop - k,
{
    if k < stop {
        lemma_prefix_val_gt_keeps(digits, k + 1, stop);
    }
}

proof fn lemma_prefix_val_zero_tail(digits: Seq<u8>, k: int, stop: int)
    requires
        0 <= k <= stop,
        digits.len() <= k,
        spec_prefix_val(digits, k) == 0,
    ensures
        spec_prefix_val(digits, stop) == 0,
    decreases stop - k,
{
    if k < stop {
        lemma_prefix_val_zero_tail(digits, k + 1, stop);
    }
}

proof fn lemma_prefix_val_all_zero(digits: Seq<u8>, stop: int)
    requires
        forall|m: int| 0 <= m < digits.len() ==> digits[m] == 0,
    ensures
        spec_prefix_val(digits, stop) == 0,
    decreases stop,
{
    if stop > 0 {
        lemma_prefix_val_all_zero(digits, stop - 1);
    }
}

proof fn lemma_prefix_val_exceeds(digits: Seq<u8>, k: int, stop: int)
    requires
        0 <= k,
        k + 4 <= stop,
        spec_prefix_val(digits, k) >= 1,
    ensures
        spec_prefix_val(digits, stop) > 1000,
{
    assert(spec_prefix_val(digits, k + 1) >= 10);
    assert(spec_prefix_val(digits, k + 2) >= 100);
    assert(spec_prefix_val(digits, k + 3) >= 1000);
    assert(spec_prefix_val(digits, k + 4) >= 10000);
    lemma_prefix_val_gt_keeps(digits, k + 4, stop);
}

/// The number's value in thousandths, truncated toward zero and clamped to
/// `[0, 1000]`: negative values give 0, values above one give 1000.
pub open spec fn spec_clamped_milli(n: NumModel) -> int {
    if n.neg {
        0
    } else if spec_prefix_val(n.digits, n.point + 3) > 1000 {
        1000
    } else {
        spec_prefix_val(n.digits, n.point + 3)
    }
}

/// The number's value in thousandths, truncated toward zero and clamped to
/// `[0, 1000]`.
pub fn clamped_milli(n: &JsonNum) -> (r: u32)
    ensures
        r as int == spec_clamped_milli(n@),
        r <= 1000,
{
    if n.neg {
        return 0;
    }
    if n.point > n.digits.len() as i128 + 3 {
        // The value has at least four integer digit positions past the
        // mantissa: above one if any digit is set, zero otherwise.
        let mut m: usize = 0;
        while m < n.digits.len()
            invariant
                m <= n.digits.len(),
                n@.point > n@.digits.len() + 3,
                !n@.neg,
                forall|q: int| 0 <= q < m ==> n@.digits[q] == 0,
            decreases n.digits.len() - m,
        {
            if n.digits[m] > 0 {
                proof {
                    lemma_prefix_val_nonneg(n@.digits, m as int);
                    assert(spec_prefix_val(n@.digits, m as int + 1) >= 1);
                    lemma_prefix_val_exceeds(n@.digits, m as int + 1, n@.point + 3);
                }
                return 1000;
            }
            m = m + 1;
        }
        proof {
            lemma_prefix_val_all_zero(n@.digits, n@.point + 3);
        }
        return 0;
    }
    let stop: i128 = n.point + 3;
    if stop <= 0 {
        proof {
            assert(spec_prefix_val(n@.digits, n@.point + 3) == 0);
        }
        return 0;
    }
    let mut acc: u32 = 0;
    let mut k: i128 = 0;
    while k < stop
        invariant
            0 <= k <= stop,
            stop == n@.point + 3,
            !n@.neg,
            acc <= 1001,
            (acc <= 1000 && acc as int == spec_prefix_val(n@.digits, k as int)) || (acc == 1001
                && spec_prefix_val(n@.digits, k as int) > 1000),
        decreases stop - k,
    {
        if acc == 1001 {
            proof {
                lemma_prefix_val_gt_keeps(n@.digits, k as int, stop as int);
            }
            return 1000;
        }
        if acc == 0 && k >= n.digits.len() as i128 {
            proof {
                lemma_prefix_val_zero_tail(n@.digits, k as int, stop as int);
            }
            return 0;
        }
        let d: u32 = if k < n.digits.len() as i128 {
            n.digits[k as usize] as u32
        } else {
            0
        };
        let t: u32 = acc * 10 + d;
        acc = if t > 1000 {
            1001
        } else {
            t
        };
        k = k + 1;
    }
    if acc > 1000 {
        proof {
            assert(spec_prefix_val(n@.digits, stop as int) > 1000);
        }
        1000
    } else {
        acc
    }
}

/// Relies on `String::push`: it appends exactly the one character.
#[verifier::external_body]
fn push_char(s: &mut String, c: char)
    ensures
        final(s)@ == old(s)@ + seq![c],
{
    s.push(c);
}

/// The characters of a borrowed string, in order.
pub fn str_to_chars(s: &str) -> (v: Vec<char>)
    ensures
        v@ == s@,
{
    let n: usize = s.unicode_len();
    let mut v: Vec<char> = Vec::new();
    let mut i: usize = 0;
    while i < n
        invariant
            i <= n,
            n == s@.len(),
            v@ == s@.subrange(0, i as int),
        decreases n - i,
    {
        let c = s.get_char(i);
        proof {
            assert(s@.subrange(0, i as int + 1) =~= s@.subrange(0, i as int).push(s@[i as int]));
        }
        v.push(c);
        i = i + 1;
    }
    proof {
        assert(s@.subrange(0, n as int) =~= s@);
    }
    v
}

/// A string holding exactly the given characters.
pub fn chars_to_string(v: &Vec<char>) -> (s: String)
    ensures
        s@ == v@,
{
    let mut s = String::new();
    let mut i: usize = 0;
    while i < v.len()
        invariant
            i <= v.len(),
            s@ == v@.subrange(0, i as int),
        decreases v.len() - i,
    {
        proof {
            assert(v@.subrange(0, i as int) + seq![v@[i as int]] =~= v@.subrange(0, i as int + 1));
        }
        push_char(&mut s, v[i]);
        i = i + 1;
    }
    proof {
        assert(v@.subrange(0, v.len() as int) =~= v@);
    }
    s
}


} // verus!
