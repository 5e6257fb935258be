//! The JSON text grammar, as the dictionary service uses it: specification
//! functions that fix where each construct ends and what each string
//! denotes, and executable scanners proved against them.
//!
//! Positions are character indices into the response text. A specification
//! function returns `None` where the text at the given position is not the
//! construct in question.

use vstd::prelude::*;

verus! {

/// Relies on `String::push`: appends the given character to the end of the
/// string.
pub assume_specification[ String::push ](s: &mut String, c: char)
    ensures
        final(s)@ == old(s)@.push(c),
;

/// Relies on `char::from_u32`: returns the character with the given code
/// point, and `None` exactly on surrogate code points and values above the
/// Unicode maximum.
pub assume_specification[ char::from_u32 ](u: u32) -> (r: Option<char>)
    ensures
        r is Some <==> (u < 0xD800 || (0xDFFF < u && u <= 0x10FFFF)),
        r matches Some(c) ==> c as u32 == u,
;

/// JSON insignificant whitespace.
pub open spec fn is_ws(c: char) -> bool {
    c == ' ' || c == '\n' || c == '\r' || c == '\t'
}

/// An ASCII decimal digit.
pub open spec fn is_digit(c: char) -> bool {
    48 <= c as u32 && c as u32 <= 57
}

/// An ASCII hexadecimal digit.
pub open spec fn is_hex_digit(c: char) -> bool {
    is_digit(c) || (97 <= c as u32 && c as u32 <= 102) || (65 <= c as u32 && c as u32 <= 70)
}

/// The numeric value of a hexadecimal digit.
pub open spec fn hex_value(c: char) -> int {
    if is_digit(c) {
        c as u32 - 48
    } else if 97 <= c as u32 && c as u32 <= 102 {
        c as u32 - 87
    } else {
        c as u32 - 55
    }
}

/// The first position at or after `i` that does not hold whitespace.
pub open spec fn ws_end(s: Seq<char>, i: int) -> int
    decreases s.len() - i,
{
    if 0 <= i < s.len() && is_ws(s[i]) {
        ws_end(s, i + 1)
    } else {
        i
    }
}

/// The first position at or after `i` that does not hold a digit.
pub open spec fn digits_end(s: Seq<char>, i: int) -> int
    decreases s.len() - i,
{
    if 0 <= i < s.len() && is_digit(s[i]) {
        digits_end(s, i + 1)
    } else {
        i
    }
}

pub proof fn lemma_ws_end(s: Seq<char>, i: int)
    requires
        0 <= i <= s.len(),
    ensures
        i <= ws_end(s, i) <= s.len(),
    decreases s.len() - i,
{
    if i < s.len() && is_ws(s[i]) {
        lemma_ws_end(s, i + 1);
    }
}

pub proof fn lemma_digits_end(s: Seq<char>, i: int)
    requires
        0 <= i <= s.len(),
    ensures
        i <= digits_end(s, i) <= s.len(),
    decreases s.len() - i,
{
    if i < s.len() && is_digit(s[i]) {
        lemma_digits_end(s, i + 1);
    }
}

/// Whether `c` is JSON whitespace.
pub fn ws_char(c: char) -> (b: bool)
    ensures
        b == is_ws(c),
{
    c == ' ' || c == '\n' || c == '\r' || c == '\t'
}

/// Whether `c` is a decimal digit.
pub fn digit_char(c: char) -> (b: bool)
    ensures
        b == is_digit(c),
{
    let u = c as u32;
    48 <= u && u <= 57
}

/// Whether `c` is a hexadecimal digit.
pub fn hex_digit_char(c: char) -> (b: bool)
    ensures
        b == is_hex_digit(c),
{
    let u = c as u32;
    (48 <= u && u <= 57) || (97 <= u && u <= 102) || (65 <= u && u <= 70)
}

/// The numeric value of the hexadecimal digit `c`.
pub fn hex_digit_value(c: char) -> (v: u32)
    requires
        is_hex_digit(c),
    ensures
        v == hex_value(c),
        v <= 15,
{
    let u = c as u32;
    if 48 <= u && u <= 57 {
        u - 48
    } else if 97 <= u && u <= 102 {
        u - 87
    } else {
        u - 55
    }
}

/// Scans past whitespace, starting at `i`.
pub fn scan_ws(s: &Vec<char>, i: usize) -> (r: usize)
    requires
        i <= s.len(),
    ensures
        r as int == ws_end(s@, i as int),
        i <= r <= s.len(),
{
    let mut j: usize = i;
    while j < s.len() && ws_char(s[j])
        invariant
            i <= j <= s.len(),
            ws_end(s@, i as int) == ws_end(s@, j as int),
        decreases s.len() - j,
    {
        j = j + 1;
    }
    j
}

/// Scans past decimal digits, starting at `i`.
pub fn scan_digits(s: &Vec<char>, i: usize) -> (r: usize)
    requires
        i <= s.len(),
    ensures
        r as int == digits_end(s@, i as int),
        i <= r <= s.len(),
{
    let mut j: usize = i;
    while j < s.len() && digit_char(s[j])
        invariant
            i <= j <= s.len(),
            digits_end(s@, i as int) == digits_end(s@, j as int),
        decreases s.len() - j,
    {
        j = j + 1;
    }
    j
}

/// The characters of `s`, in order.
pub fn chars_of(s: &str) -> (v: Vec<char>)
    ensures
        v@ == s@,
{
    let n = s.unicode_len();
    let mut v: Vec<char> = Vec::new();
    let mut i: usize = 0;
    while i < n
        invariant
            n == s@.len(),
            i <= n,
            v@ == s@.subrange(0, i as int),
        decreases n - i,
    {
        v.push(s.get_char(i));
        i = i + 1;
        proof {
            assert(v@ =~= s@.subrange(0, i as int));
        }
    }
    proof {
        assert(v@ =~= s@);
    }
    v
}

/// What a simple escape character after a backslash denotes, if anything.
pub open spec fn escape_char(e: char) -> Option<char> {
    if e == '"' {
        Some('"')
    } else if e == '\\' {
        Some('\\')
    } else if e == '/' {
        Some('/')
    } else if e == 'b' {
        Some('\u{0008}')
    } else if e == 'f' {
        Some('\u{000C}')
    } else if e == 'n' {
        Some('\n')
    } else if e == 'r' {
        Some('\r')
    } else if e == 't' {
        Some('\t')
    } else {
        None
    }
}

/// Whether four hexadecimal digits stand at `i`.
pub open spec fn is_hex4(s: Seq<char>, i: int) -> bool {
    &&& 0 <= i
    &&& i + 4 <= s.len()
    &&& is_hex_digit(s[i])
    &&& is_hex_digit(s[i + 1])
    &&& is_hex_digit(s[i + 2])
    &&& is_hex_digit(s[i + 3])
}

/// The value of the four hexadecimal digits at `i`.
pub open spec fn hex4_value(s: Seq<char>, i: int) -> int {
    hex_value(s[i]) * 4096 + hex_value(s[i + 1]) * 256 + hex_value(s[i + 2]) * 16 + hex_value(
        s[i + 3],
    )
}

/// The scalar value that a surrogate pair denotes.
pub open spec fn surrogate_scalar(hi: int, lo: int) -> int {
    0x10000 + (hi - 0xD800) * 0x400 + (lo - 0xDC00)
}

/// Parses the body of a JSON string: `i` stands just after the opening
/// quote, and a successful parse gives the denoted text and the position
/// just after the closing quote.
pub open spec fn string_body(s: Seq<char>, i: int) -> Option<(Seq<char>, int)>
    decreases s.len() - i,
{
    if i < 0 || i >= s.len() {
        None
    } else {
        let c = s[i];
        if c == '"' {
            Some((Seq::empty(), i + 1))
        } else if c == '\\' {
            if i + 1 >= s.len() {
                None
            } else {
                let e = s[i + 1];
                if e == 'u' {
                    if !is_hex4(s, i + 2) {
                        None
                    } else {
                        let cp = hex4_value(s, i + 2);
                        if 0xD800 <= cp < 0xDC00 {
                            if i + 12 <= s.len() && s[i + 6] == '\\' && s[i + 7] == 'u' && is_hex4(
                                s,
                                i + 8,
                            ) {
                                let lo = hex4_value(s, i + 8);
                                if 0xDC00 <= lo < 0xE000 {
                                    match string_body(s, i + 12) {
                                        None => None,
                                        Some(r) => Some(
                                            (
                                                seq![(surrogate_scalar(cp, lo) as u32) as char]
                                                    + r.0,
                                                r.1,
                                            ),
                                        ),
                                    }
                                } else {
                                    None
                                }
                            } else {
                                None
                            }
                        } else if 0xDC00 <= cp < 0xE000 {
                            None
                        } else {
                            match string_body(s, i + 6) {
                                None => None,
                                Some(r) => Some((seq![(cp as u32) as char] + r.0, r.1)),
                            }
                        }
                    }
                } else {
                    match escape_char(e) {
                        None => None,
                        Some(d) => match string_body(s, i + 2) {
                            None => None,
                            Some(r) => Some((seq![d] + r.0, r.1)),
                        },
                    }
                }
            }
        } else if (c as u32) < 0x20 {
            None
        } else {
            match string_body(s, i + 1) {
                None => None,
                Some(r) => Some((seq![c] + r.0, r.1)),
            }
        }
    }
}

/// A successful string parse ends after its start and within the text.
pub proof fn lemma_string_body_end(s: Seq<char>, i: int)
    ensures
        string_body(s, i) matches Some(r) ==> i < r.1 <= s.len(),
    decreases s.len() - i,
{
    if 0 <= i < s.len() {
        lemma_string_body_end(s, i + 1);
        if i + 2 <= s.len() {
            lemma_string_body_end(s, i + 2);
        }
        if i + 6 <= s.len() {
            lemma_string_body_end(s, i + 6);
        }
        if i + 12 <= s.len() {
            lemma_string_body_end(s, i + 12);
        }
    }
}

/// Whether the executable outcome `r` agrees with the specification
/// outcome `m` of a string-body parse.
pub open spec fn string_res_ok(r: Option<(Vec<char>, usize)>, m: Option<(Seq<char>, int)>) -> bool {
    match r {
        Some(p) => m matches Some(q) && p.0@ == q.0 && p.1 as int == q.1,
        None => m is None,
    }
}

/// Reads the four hexadecimal digits at `i`, if they stand there.
fn read_hex4(s: &Vec<char>, i: usize) -> (r: Option<u32>)
    requires
        i <= s.len(),
    ensures
        r is Some <==> is_hex4(s@, i as int),
        r matches Some(v) ==> v as int == hex4_value(s@, i as int) && v <= 0xFFFF,
{
    if s.len() >= 4 && i <= s.len() - 4 && hex_digit_char(s[i]) && hex_digit_char(s[i + 1])
        && hex_digit_char(s[i + 2]) && hex_digit_char(s[i + 3]) {
        let v = hex_digit_value(s[i]) * 4096 + hex_digit_value(s[i + 1]) * 256 + hex_digit_value(
            s[i + 2],
        ) * 16 + hex_digit_value(s[i + 3]);
        Some(v)
    } else {
        None
    }
}

/// Parses the body of a JSON string, as `string_body` fixes it.
pub fn scan_string_body(s: &Vec<char>, i: usize) -> (r: Option<(Vec<char>, usize)>)
    requires
        i <= s.len(),
    ensures
        string_res_ok(r, string_body(s@, i as int)),
    decreases s.len() - i,
{
    if i >= s.len() {
        return None;
    }
    let c = s[i];
    if c == '"' {
        Some((Vec::new(), i + 1))
    } else if c == '\\' {
        if i + 1 >= s.len() {
            return None;
        }
        let e = s[i + 1];
        if e == 'u' {
            let cp = match read_hex4(s, i + 2) {
                None => {
                    return None;
                },
                Some(v) => v,
            };
            if 0xD800 <= cp && cp < 0xDC00 {
                if s.len() >= 12 && i <= s.len() - 12 && s[i + 6] == '\\' && s[i + 7] == 'u' {
                    let lo = match read_hex4(s, i + 8) {
                        None => {
                            return None;
                        },
                        Some(v) => v,
                    };
                    if 0xDC00 <= lo && lo < 0xE000 {
                        let scalar: u32 = 0x10000 + (cp - 0xD800) * 0x400 + (lo - 0xDC00);
                        let d = match char::from_u32(scalar) {
                            None => {
                                return None;
                            },
                            Some(d) => d,
                        };
                        proof {
                            vstd::utf8::char_u32_cast(d, scalar);
                        }
                        match scan_string_body(s, i + 12) {
                            None => None,
                            Some(r) => {
                                let mut t = r.0;
                                let ghost t0: Seq<char> = t@;
                                t.insert(0, d);
                                proof {
                                    assert(t@ =~= seq![d] + t0);
                                }
                                Some((t, r.1))
                            },
                        }
                    } else {
                        None
                    }
                } else {
                    None
                }
            } else if 0xDC00 <= cp && cp < 0xE000 {
                None
            } else {
                let d = match char::from_u32(cp) {
                    None => {
                        return None;
                    },
                    Some(d) => d,
                };
                proof {
                    vstd::utf8::char_u32_cast(d, cp);
                }
                match scan_string_body(s, i + 6) {
                    None => None,
                    Some(r) => {
                        let mut t = r.0;
                        let ghost t0: Seq<char> = t@;
                        t.insert(0, d);
                        proof {
                            assert(t@ =~= seq![d] + t0);
                        }
                        Some((t, r.1))
                    },
                }
            }
        } else {
            let d: char = if e == '"' {
                '"'
            } else if e == '\\' {
                '\\'
            } else if e == '/' {
                '/'
            } else if e == 'b' {
                '\u{0008}'
            } else if e == 'f' {
                '\u{000C}'
            } else if e == 'n' {
                '\n'
            } else if e == 'r' {
                '\r'
            } else if e == 't' {
                '\t'
            } else {
                return None;
            };
            match scan_string_body(s, i + 2) {
                None => None,
                Some(r) => {
                    let mut t = r.0;
                    let ghost t0: Seq<char> = t@;
                    t.insert(0, d);
                    proof {
                        assert(t@ =~= seq![d] + t0);
                    }
                    Some((t, r.1))
                },
            }
        }
    } else if (c as u32) < 0x20 {
        None
    } else {
        match scan_string_body(s, i + 1) {
            None => None,
            Some(r) => {
                let mut t = r.0;
                let ghost t0: Seq<char> = t@;
                t.insert(0, c);
                proof {
                    assert(t@ =~= seq![c] + t0);
                }
                Some((t, r.1))
            },
        }
    }
}

/// Where the JSON number starting at `i` ends, if one stands there.
pub open spec fn number_end(s: Seq<char>, i: int) -> Option<int> {
    if i < 0 || i >= s.len() {
        None
    } else {
        let j = if s[i] == '-' {
            i + 1
        } else {
            i
        };
        if j >= s.len() || !is_digit(s[j]) {
            None
        } else {
            let k = if s[j] == '0' {
                j + 1
            } else {
                digits_end(s, j)
            };
            let k2 = if k < s.len() && s[k] == '.' {
                if k + 1 < s.len() && is_digit(s[k + 1]) {
                    digits_end(s, k + 1)
                } else {
                    -1
                }
            } else {
                k
            };
            if k2 < 0 {
                None
            } else {
                let k3 = if k2 < s.len() && (s[k2] == 'e' || s[k2] == 'E') {
                    let m = if k2 + 1 < s.len() && (s[k2 + 1] == '+' || s[k2 + 1] == '-') {
                        k2 + 2
                    } else {
                        k2 + 1
                    };
                    if m < s.len() && is_digit(s[m]) {
                        digits_end(s, m)
                    } else {
                        -1
                    }
                } else {
                    k2
                };
                if k3 < 0 {
                    None
                } else {
                    Some(k3)
                }
            }
        }
    }
}

/// A successful number parse ends after its start and within the text.
pub proof fn lemma_number_end(s: Seq<char>, i: int)
    ensures
        number_end(s, i) matches Some(e) ==> i < e <= s.len(),
{
    if 0 <= i < s.len() {
        let j = if s[i] == '-' {
            i + 1
        } else {
            i
        };
        if j < s.len() && is_digit(s[j]) {
            lemma_digits_end(s, j);
            let k = if s[j] == '0' {
                j + 1
            } else {
                digits_end(s, j)
            };
            if k + 1 <= s.len() {
                lemma_digits_end(s, k + 1);
            }
            let k2 = if k < s.len() && s[k] == '.' {
                if k + 1 < s.len() && is_digit(s[k + 1]) {
                    digits_end(s, k + 1)
                } else {
                    -1
                }
            } else {
                k
            };
            if 0 <= k2 && k2 + 2 <= s.len() {
                lemma_digits_end(s, k2 + 2);
            }
            if 0 <= k2 && k2 + 1 <= s.len() {
                lemma_digits_end(s, k2 + 1);
            }
        }
    }
}

/// The next position after `i`, clamped into the text: equal to `r`
/// whenever `i < r <= s.len()`, which every continuation position here
/// satisfies. The clamp keeps the grammar's recursion visibly bounded.
pub open spec fn step_pos(s: Seq<char>, i: int, r: int) -> int {
    let j = if r > i {
        r
    } else {
        i + 1
    };
    if j > s.len() {
        s.len() as int
    } else {
        j
    }
}

/// Where the JSON value starting at `i` ends, if one stands there.
pub open spec fn value_end(s: Seq<char>, i: int) -> Option<int>
    decreases s.len() - i, 0int,
{
    if i < 0 || i >= s.len() {
        None
    } else {
        let c = s[i];
        if c == '"' {
            match string_body(s, i + 1) {
                None => None,
                Some(r) => Some(r.1),
            }
        } else if c == '-' || is_digit(c) {
            number_end(s, i)
        } else if c == 't' {
            if i + 4 <= s.len() && s[i + 1] == 'r' && s[i + 2] == 'u' && s[i + 3] == 'e' {
                Some(i + 4)
            } else {
                None
            }
        } else if c == 'f' {
            if i + 5 <= s.len() && s[i + 1] == 'a' && s[i + 2] == 'l' && s[i + 3] == 's' && s[i + 4]
                == 'e' {
                Some(i + 5)
            } else {
                None
            }
        } else if c == 'n' {
            if i + 4 <= s.len() && s[i + 1] == 'u' && s[i + 2] == 'l' && s[i + 3] == 'l' {
                Some(i + 4)
            } else {
                None
            }
        } else if c == '[' {
            let k = step_pos(s, i, ws_end(s, i + 1));
            if k < s.len() && s[k] == ']' {
                Some(k + 1)
            } else {
                elements_end(s, k)
            }
        } else if c == '{' {
            let k = step_pos(s, i, ws_end(s, i + 1));
            if k < s.len() && s[k] == '}' {
                Some(k + 1)
            } else {
                members_end(s, k)
            }
        } else {
            None
        }
    }
}

/// Where the non-empty array element list starting at `i` ends (just after
/// the closing bracket), if one stands there.
pub open spec fn elements_end(s: Seq<char>, i: int) -> Option<int>
    decreases s.len() - i, 1int,
{
    if i < 0 || i >= s.len() {
        None
    } else {
        match value_end(s, i) {
            None => None,
            Some(e0) => {
                let e = step_pos(s, i, e0);
                let k = step_pos(s, i, ws_end(s, e));
                if k < s.len() && s[k] == ',' {
                    elements_end(s, step_pos(s, k, ws_end(s, k + 1)))
                } else if k < s.len() && s[k] == ']' {
                    Some(k + 1)
                } else {
                    None
                }
            },
        }
    }
}

/// Where the non-empty object member list starting at `i` ends (just after
/// the closing brace), if one stands there.
pub open spec fn members_end(s: Seq<char>, i: int) -> Option<int>
    decreases s.len() - i, 1int,
{
    if i < 0 || i >= s.len() || s[i] != '"' {
        None
    } else {
        match string_body(s, i + 1) {
            None => None,
            Some(key) => {
                let k = step_pos(s, i, ws_end(s, step_pos(s, i, key.1)));
                if k < s.len() && s[k] == ':' {
                    let vs = step_pos(s, k, ws_end(s, k + 1));
                    match value_end(s, vs) {
                        None => None,
                        Some(ve0) => {
                            let k2 = step_pos(s, vs, ws_end(s, step_pos(s, vs, ve0)));
                            if k2 < s.len() && s[k2] == ',' {
                                members_end(s, step_pos(s, k2, ws_end(s, k2 + 1)))
                            } else if k2 < s.len() && s[k2] == '}' {
                                Some(k2 + 1)
                            } else {
                                None
                            }
                        },
                    }
                } else {
                    None
                }
            },
        }
    }
}

/// A successful value parse ends after its start and within the text.
pub proof fn lemma_value_end(s: Seq<char>, i: int)
    ensures
        value_end(s, i) matches Some(e) ==> i < e <= s.len(),
    decreases s.len() - i, 0int,
{
    if 0 <= i < s.len() {
        let c = s[i];
        if c == '"' {
            lemma_string_body_end(s, i + 1);
        } else if c == '-' || is_digit(c) {
            lemma_number_end(s, i);
        } else if c == '[' || c == '{' {
            lemma_ws_end(s, i + 1);
            let k = step_pos(s, i, ws_end(s, i + 1));
            if c == '[' {
                lemma_elements_end(s, k);
            } else {
                lemma_members_end(s, k);
            }
        }
    }
}

/// A successful element-list parse ends after its start and within the text.
pub proof fn lemma_elements_end(s: Seq<char>, i: int)
    ensures
        elements_end(s, i) matches Some(e) ==> i < e <= s.len(),
    decreases s.len() - i, 1int,
{
    if 0 <= i < s.len() {
        lemma_value_end(s, i);
        match value_end(s, i) {
            None => {},
            Some(e0) => {
                let e = step_pos(s, i, e0);
                lemma_ws_end(s, e);
                let k = step_pos(s, i, ws_end(s, e));
                if k < s.len() && s[k] == ',' {
                    lemma_ws_end(s, k + 1);
                    lemma_elements_end(s, step_pos(s, k, ws_end(s, k + 1)));
                }
            },
        }
    }
}

/// A successful member-list parse ends after its start and within the text.
pub proof fn lemma_members_end(s: Seq<char>, i: int)
    ensures
        members_end(s, i) matches Some(e) ==> i < e <= s.len(),
    decreases s.len() - i, 1int,
{
    if 0 <= i < s.len() && s[i] == '"' {
        lemma_string_body_end(s, i + 1);
        match string_body(s, i + 1) {
            None => {},
            Some(key) => {
                lemma_ws_end(s, step_pos(s, i, key.1));
                let k = step_pos(s, i, ws_end(s, step_pos(s, i, key.1)));
                if k < s.len() && s[k] == ':' {
                    lemma_ws_end(s, k + 1);
                    let vs = step_pos(s, k, ws_end(s, k + 1));
                    lemma_value_end(s, vs);
                    match value_end(s, vs) {
                        None => {},
                        Some(ve0) => {
                            lemma_ws_end(s, step_pos(s, vs, ve0));
                            let k2 = step_pos(s, vs, ws_end(s, step_pos(s, vs, ve0)));
                            if k2 < s.len() && s[k2] == ',' {
                                lemma_ws_end(s, k2 + 1);
                                lemma_members_end(s, step_pos(s, k2, ws_end(s, k2 + 1)));
                            }
                        },
                    }
                }
            },
        }
    }
}

/// Whether the executable outcome `r` agrees with the specification
/// outcome `m` of an end-position parse.
pub open spec fn pos_res_ok(r: Option<usize>, m: Option<int>) -> bool {
    match r {
        Some(e) => m matches Some(me) && e as int == me,
        None => m is None,
    }
}

/// Scans the JSON number starting at `i`, as `number_end` fixes it.
pub fn scan_number(s: &Vec<char>, i: usize) -> (r: Option<usize>)
    requires
        i <= s.len(),
    ensures
        pos_res_ok(r, number_end(s@, i as int)),
{
    if i >= s.len() {
        return None;
    }
    let j: usize = if s[i] == '-' {
        i + 1
    } else {
        i
    };
    if j >= s.len() || !digit_char(s[j]) {
        return None;
    }
    let k: usize = if s[j] == '0' {
        j + 1
    } else {
        scan_digits(s, j)
    };
    let k2: usize = if k < s.len() && s[k] == '.' {
        if k + 1 < s.len() && digit_char(s[k + 1]) {
            scan_digits(s, k + 1)
        } else {
            return None;
        }
    } else {
        k
    };
    if k2 < s.len() && (s[k2] == 'e' || s[k2] == 'E') {
        let m: usize = if k2 + 1 < s.len() && (s[k2 + 1] == '+' || s[k2 + 1] == '-') {
            k2 + 2
        } else {
            k2 + 1
        };
        if m < s.len() && digit_char(s[m]) {
            Some(scan_digits(s, m))
        } else {
            None
        }
    } else {
        Some(k2)
    }
}

/// Scans the JSON value starting at `i`, as `value_end` fixes it.
pub fn scan_value(s: &Vec<char>, i: usize) -> (r: Option<usize>)
    requires
        i <= s.len(),
    ensures
        pos_res_ok(r, value_end(s@, i as int)),
    decreases s.len() - i, 0int,
{
    if i >= s.len() {
        return None;
    }
    let c = s[i];
    if c == '"' {
        match scan_string_body(s, i + 1) {
            None => None,
            Some(r) => Some(r.1),
        }
    } else if c == '-' || digit_char(c) {
        scan_number(s, i)
    } else if c == 't' {
        if s.len() >= 4 && i <= s.len() - 4 && s[i + 1] == 'r' && s[i + 2] == 'u' && s[i + 3]
            == 'e' {
            Some(i + 4)
        } else {
            None
        }
    } else if c == 'f' {
        if s.len() >= 5 && i <= s.len() - 5 && s[i + 1] == 'a' && s[i + 2] == 'l' && s[i + 3] == 's'
            && s[i + 4] == 'e' {
            Some(i + 5)
        } else {
            None
        }
    } else if c == 'n' {
        if s.len() >= 4 && i <= s.len() - 4 && s[i + 1] == 'u' && s[i + 2] == 'l' && s[i + 3]
            == 'l' {
            Some(i + 4)
        } else {
            None
        }
    } else if c == '[' {
        let k = scan_ws(s, i + 1);
        if k < s.len() && s[k] == ']' {
            Some(k + 1)
        } else {
            scan_elements(s, k)
        }
    } else if c == '{' {
        let k = scan_ws(s, i + 1);
        if k < s.len() && s[k] == '}' {
            Some(k + 1)
        } else {
            scan_members(s, k)
        }
    } else {
        None
    }
}

/// Scans the array element list starting at `i`, as `elements_end` fixes it.
pub fn scan_elements(s: &Vec<char>, i: usize) -> (r: Option<usize>)
    requires
        i <= s.len(),
    ensures
        pos_res_ok(r, elements_end(s@, i as int)),
    decreases s.len() - i, 1int,
{
    if i >= s.len() {
        return None;
    }
    match scan_value(s, i) {
        None => None,
        Some(e) => {
            proof {
                lemma_value_end(s@, i as int);
            }
            let k = scan_ws(s, e);
            if k < s.len() && s[k] == ',' {
                let n = scan_ws(s, k + 1);
                scan_elements(s, n)
            } else if k < s.len() && s[k] == ']' {
                Some(k + 1)
            } else {
                None
            }
        },
    }
}

/// Scans the object member list starting at `i`, as `members_end` fixes it.
pub fn scan_members(s: &Vec<char>, i: usize) -> (r: Option<usize>)
    requires
        i <= s.len(),
    ensures
        pos_res_ok(r, members_end(s@, i as int)),
    decreases s.len() - i, 1int,
{
    if i >= s.len() || s[i] != '"' {
        return None;
    }
    match scan_string_body(s, i + 1) {
        None => None,
        Some(key) => {
            proof {
                lemma_string_body_end(s@, i as int + 1);
            }
            let k = scan_ws(s, key.1);
            if k < s.len() && s[k] == ':' {
                let vs = scan_ws(s, k + 1);
                match scan_value(s, vs) {
                    None => None,
                    Some(ve) => {
                        proof {
                            lemma_value_end(s@, vs as int);
                        }
                        let k2 = scan_ws(s, ve);
                        if k2 < s.len() && s[k2] == ',' {
                            let n = scan_ws(s, k2 + 1);
                            scan_members(s, n)
                        } else if k2 < s.len() && s[k2] == '}' {
                            Some(k2 + 1)
                        } else {
                            None
                        }
                    },
                }
            } else {
                None
            }
        },
    }
}

/// A `String` holding exactly the characters of `v`.
pub fn chars_to_string(v: &Vec<char>) -> (s: String)
    ensures
        s@ == v@,
{
    let mut s = String::new();
    let mut i: usize = 0;
    while i < v.len()
        invariant
            i <= v.len(),
            s@ == v@.subrange(0, i as int),
        decreases v.len() - i,
    {
        s.push(v[i]);
        i = i + 1;
        proof {
            assert(s@ =~= v@.subrange(0, i as int));
        }
    }
    proof {
        assert(s@ =~= v@);
    }
    s
}

/// A `String` holding the characters of `s` from `a` (inclusive) to `b`
/// (exclusive).
pub fn range_string(s: &Vec<char>, a: usize, b: usize) -> (r: String)
    requires
        a <= b <= s.len(),
    ensures
        r@ == s@.subrange(a as int, b as int),
{
    let mut r = String::new();
    let mut i: usize = a;
    while i < b
        invariant
            a <= i <= b <= s.len(),
            r@ == s@.subrange(a as int, i as int),
        decreases b - i,
    {
        r.push(s[i]);
        i = i + 1;
        proof {
            assert(r@ =~= s@.subrange(a as int, i as int));
        }
    }
    r
}

} // verus!
