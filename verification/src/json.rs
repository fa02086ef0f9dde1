use crate::strutil::char_from_u32;
use vstd::prelude::*;

verus! {

/// Whether `c` is one of the four whitespace characters the request
/// grammar allows between tokens.
pub open spec fn is_json_ws(c: char) -> bool {
    c == ' ' || c == '\t' || c == '\n' || c == '\r'
}

/// The first position at or after `i` that does not hold whitespace.
pub open spec fn skip_ws(s: Seq<char>, i: int) -> int
    decreases s.len() - i,
{
    if 0 <= i && i < s.len() && is_json_ws(s[i]) {
        skip_ws(s, i + 1)
    } else {
        i
    }
}

/// Skipping whitespace stays inside the text and never moves backwards.
pub proof fn lemma_skip_ws_bounds(s: Seq<char>, i: int)
    requires
        0 <= i <= s.len(),
    ensures
        i <= skip_ws(s, i) <= s.len(),
    decreases s.len() - i,
{
    if i < s.len() && is_json_ws(s[i]) {
        lemma_skip_ws_bounds(s, i + 1);
    }
}

/// The first position at or after `i` that does not hold whitespace.
pub fn skip_ws_exec(s: &Vec<char>, i: usize) -> (r: usize)
    requires
        i <= s@.len(),
    ensures
        r == skip_ws(s@, i as int),
        i <= r <= s@.len(),
{
    let n = s.len();
    let mut cur = i;
    while cur < n && (s[cur] == ' ' || s[cur] == '\t' || s[cur] == '\n' || s[cur] == '\r')
        invariant
            i <= cur <= n,
            n == s@.len(),
            skip_ws(s@, i as int) == skip_ws(s@, cur as int),
        decreases n - cur,
    {
        cur = cur + 1;
    }
    cur
}

/// The character a simple backslash escape stands for, if the escape
/// exists: the quote, the backslash, the slash, and the named control
/// characters.
pub open spec fn simple_unescape(e: char) -> Option<char> {
    if e == '"' {
        Some('"')
    } else if e == '\\' {
        Some('\\')
    } else if e == '/' {
        Some('/')
    } else if e == 'b' {
        Some('\u{8}')
    } else if e == 'f' {
        Some('\u{c}')
    } else if e == 'n' {
        Some('\n')
    } else if e == 'r' {
        Some('\r')
    } else if e == 't' {
        Some('\t')
    } else {
        None
    }
}

/// Whether `c` is a hexadecimal digit, in either case.
pub open spec fn is_hex_digit(c: char) -> bool {
    ('0' as u32 <= c as u32 && c as u32 <= '9' as u32) || ('a' as u32 <= c as u32 && c as u32
        <= 'f' as u32) || ('A' as u32 <= c as u32 && c as u32 <= 'F' as u32)
}

/// The value of a hexadecimal digit.
pub open spec fn hex_val(c: char) -> int {
    if '0' as u32 <= c as u32 && c as u32 <= '9' as u32 {
        c as u32 - '0' as u32
    } else if 'a' as u32 <= c as u32 && c as u32 <= 'f' as u32 {
        c as u32 - 'a' as u32 + 10
    } else {
        c as u32 - 'A' as u32 + 10
    }
}

/// Whether `c` is a hexadecimal digit, in either case.
pub fn is_hex_digit_exec(c: char) -> (r: bool)
    ensures
        r == is_hex_digit(c),
{
    let v = c as u32;
    (0x30 <= v && v <= 0x39) || (0x61 <= v && v <= 0x66) || (0x41 <= v && v <= 0x46)
}

/// The value of a hexadecimal digit.
pub fn hex_val_exec(c: char) -> (r: u32)
    requires
        is_hex_digit(c),
    ensures
        r == hex_val(c),
        r < 16,
{
    let v = c as u32;
    if 0x30 <= v && v <= 0x39 {
        v - 0x30
    } else if 0x61 <= v && v <= 0x66 {
        v - 0x61 + 10
    } else {
        v - 0x41 + 10
    }
}

/// The content and end position of a string literal's remainder, read from
/// position `i`, which stands just after the opening quote. The content ends
/// at the next unescaped quote; backslash escapes (the simple ones and
/// `\uXXXX` for a non-surrogate scalar) stand for their characters, and a
/// bare control character is refused.
pub open spec fn parse_string_rest(s: Seq<char>, i: int) -> Option<(Seq<char>, int)>
    decreases s.len() - i,
{
    if i < 0 || i >= s.len() {
        None
    } else if s[i] == '"' {
        Some((Seq::empty(), i + 1))
    } else if s[i] == '\\' {
        if i + 2 <= s.len() {
            if s[i + 1] == 'u' {
                if i + 6 <= s.len() && is_hex_digit(s[i + 2]) && is_hex_digit(s[i + 3])
                    && is_hex_digit(s[i + 4]) && is_hex_digit(s[i + 5]) {
                    let v = hex_val(s[i + 2]) * 0x1000 + hex_val(s[i + 3]) * 0x100 + hex_val(
                        s[i + 4],
                    ) * 0x10 + hex_val(s[i + 5]);
                    if v < 0xD800 || v > 0xDFFF {
                        match parse_string_rest(s, i + 6) {
                            Some(p) => Some((seq![(v as u32) as char] + p.0, p.1)),
                            None => None,
                        }
                    } else {
                        None
                    }
                } else {
                    None
                }
            } else {
                match simple_unescape(s[i + 1]) {
                    Some(c) => match parse_string_rest(s, i + 2) {
                        Some(p) => Some((seq![c] + p.0, p.1)),
                        None => None,
                    },
                    None => None,
                }
            }
        } else {
            None
        }
    } else if (s[i] as u32) < 0x20 {
        None
    } else {
        match parse_string_rest(s, i + 1) {
            Some(p) => Some((seq![s[i]] + p.0, p.1)),
            None => None,
        }
    }
}

/// A successfully read string remainder ends after its starting position and
/// inside the text.
pub proof fn lemma_parse_string_rest_bounds(s: Seq<char>, i: int)
    requires
        0 <= i,
    ensures
        parse_string_rest(s, i) matches Some(p) ==> i < p.1 <= s.len(),
    decreases s.len() - i,
{
    if i >= s.len() {
    } else if s[i] == '"' {
    } else if s[i] == '\\' {
        if i + 2 <= s.len() {
            if s[i + 1] == 'u' {
                if i + 6 <= s.len() && is_hex_digit(s[i + 2]) && is_hex_digit(s[i + 3])
                    && is_hex_digit(s[i + 4]) && is_hex_digit(s[i + 5]) {
                    lemma_parse_string_rest_bounds(s, i + 6);
                }
            } else {
                lemma_parse_string_rest_bounds(s, i + 2);
            }
        }
    } else {
        lemma_parse_string_rest_bounds(s, i + 1);
    }
}

/// The string remainder read from `i`, as the accumulated prefix `acc`
/// followed by whatever remains.
pub open spec fn string_cont(acc: Seq<char>, r: Option<(Seq<char>, int)>) -> Option<
    (Seq<char>, int),
> {
    match r {
        Some(p) => Some((acc + p.0, p.1)),
        None => None,
    }
}

/// The content and end position of a string literal's remainder, read from
/// position `i` just after the opening quote.
pub fn parse_string_rest_exec(s: &Vec<char>, i: usize) -> (r: Option<(Vec<char>, usize)>)
    requires
        i <= s@.len(),
    ensures
        match r {
            Some(p) => parse_string_rest(s@, i as int) == Some((p.0@, p.1 as int)) && i < p.1
                <= s@.len(),
            None => parse_string_rest(s@, i as int) is None,
        },
{
    let n = s.len();
    let mut acc: Vec<char> = Vec::new();
    let mut cur = i;
    proof {
        match parse_string_rest(s@, i as int) {
            Some(p) => {
                assert(Seq::<char>::empty() + p.0 =~= p.0);
            },
            None => {},
        }
        lemma_parse_string_rest_bounds(s@, i as int);
    }
    while cur < n
        invariant
            i <= cur <= n,
            n == s@.len(),
            parse_string_rest(s@, i as int) == string_cont(
                acc@,
                parse_string_rest(s@, cur as int),
            ),
            parse_string_rest(s@, i as int) matches Some(p) ==> i < p.1 <= s@.len(),
        decreases n - cur,
    {
        let c = s[cur];
        if c == '"' {
            proof {
                assert(acc@ + Seq::<char>::empty() =~= acc@);
            }
            return Some((acc, cur + 1));
        } else if c == '\\' {
            if n - cur < 2 {
                return None;
            }
            let e = s[cur + 1];
            if e == 'u' {
                if n - cur < 6 {
                    return None;
                }
                let h0 = s[cur + 2];
                let h1 = s[cur + 3];
                let h2 = s[cur + 4];
                let h3 = s[cur + 5];
                if !(is_hex_digit_exec(h0) && is_hex_digit_exec(h1) && is_hex_digit_exec(h2)
                    && is_hex_digit_exec(h3)) {
                    return None;
                }
                let v = hex_val_exec(h0) * 0x1000 + hex_val_exec(h1) * 0x100 + hex_val_exec(h2)
                    * 0x10 + hex_val_exec(h3);
                if 0xD800 <= v && v <= 0xDFFF {
                    return None;
                }
                let decoded = match char_from_u32(v) {
                    Some(d) => d,
                    None => {
                        proof {
                            assert(vstd::utf8::is_scalar(v));
                        }
                        return None;
                    },
                };
                let ghost prev = acc@;
                acc.push(decoded);
                proof {
                    vstd::utf8::char_u32_cast(decoded, v);
                    match parse_string_rest(s@, cur + 6 as int) {
                        Some(p) => {
                            assert(prev + (seq![decoded] + p.0) =~= acc@ + p.0);
                        },
                        None => {},
                    }
                }
                cur = cur + 6;
            } else {
                let decoded: char;
                if e == '"' {
                    decoded = '"';
                } else if e == '\\' {
                    decoded = '\\';
                } else if e == '/' {
                    decoded = '/';
                } else if e == 'b' {
                    decoded = '\u{8}';
                } else if e == 'f' {
                    decoded = '\u{c}';
                } else if e == 'n' {
                    decoded = '\n';
                } else if e == 'r' {
                    decoded = '\r';
                } else if e == 't' {
                    decoded = '\t';
                } else {
                    return None;
                }
                let ghost prev = acc@;
                acc.push(decoded);
                proof {
                    match parse_string_rest(s@, cur + 2 as int) {
                        Some(p) => {
                            assert(prev + (seq![decoded] + p.0) =~= acc@ + p.0);
                        },
                        None => {},
                    }
                }
                cur = cur + 2;
            }
        } else if (c as u32) < 0x20 {
            return None;
        } else {
            let ghost prev = acc@;
            acc.push(c);
            proof {
                match parse_string_rest(s@, cur + 1 as int) {
                    Some(p) => {
                        assert(prev + (seq![c] + p.0) =~= acc@ + p.0);
                    },
                    None => {},
                }
            }
            cur = cur + 1;
        }
    }
    None
}

/// Whether `c` is a decimal digit.
pub open spec fn is_digit(c: char) -> bool {
    '0' as u32 <= c as u32 && c as u32 <= '9' as u32
}

/// Whether `c` is a decimal digit.
pub fn is_digit_exec(c: char) -> (r: bool)
    ensures
        r == is_digit(c),
{
    let v = c as u32;
    0x30 <= v && v <= 0x39
}

/// The value of a decimal digit.
pub open spec fn digit_val(c: char) -> int {
    c as u32 - '0' as u32
}

/// The first position at or after `i` that does not hold a decimal digit.
pub open spec fn digits_end(s: Seq<char>, i: int) -> int
    decreases s.len() - i,
{
    if 0 <= i && i < s.len() && is_digit(s[i]) {
        digits_end(s, i + 1)
    } else {
        i
    }
}

/// The run of digits stays inside the text, never moves backwards, and holds
/// digits throughout.
pub proof fn lemma_digits_end_bounds(s: Seq<char>, i: int)
    requires
        0 <= i <= s.len(),
    ensures
        i <= digits_end(s, i) <= s.len(),
        forall|m: int| i <= m < digits_end(s, i) ==> is_digit(s[m]),
    decreases s.len() - i,
{
    if i < s.len() && is_digit(s[i]) {
        lemma_digits_end_bounds(s, i + 1);
    }
}

/// The value of the decimal numeral standing between positions `i` and `j`.
pub open spec fn digits_value(s: Seq<char>, i: int, j: int) -> int
    decreases j - i,
{
    if i < j {
        digits_value(s, i, j - 1) * 10 + digit_val(s[j - 1])
    } else {
        0
    }
}

/// A numeral of digits has a non-negative value.
pub proof fn lemma_digits_value_nonneg(s: Seq<char>, i: int, j: int)
    requires
        forall|m: int| i <= m < j ==> is_digit(s[m]),
    ensures
        digits_value(s, i, j) >= 0,
    decreases j - i,
{
    if i < j {
        lemma_digits_value_nonneg(s, i, j - 1);
    }
}

/// Reading more digits of a numeral never shrinks its value.
pub proof fn lemma_digits_value_mono(s: Seq<char>, i: int, j: int, k: int)
    requires
        i <= j <= k,
        forall|m: int| i <= m < k ==> is_digit(s[m]),
    ensures
        digits_value(s, i, j) <= digits_value(s, i, k),
    decreases k - j,
{
    if j < k {
        lemma_digits_value_mono(s, i, j, k - 1);
        lemma_digits_value_nonneg(s, i, k - 1);
    }
}

/// The value and end position of the decimal numeral standing at position
/// `i`: at least one digit, no superfluous leading zero, and a value that
/// fits the machine's word.
pub open spec fn parse_number(s: Seq<char>, i: int) -> Option<(int, int)> {
    let j = digits_end(s, i);
    if j == i {
        None
    } else if s[i] == '0' && j > i + 1 {
        None
    } else if digits_value(s, i, j) > usize::MAX {
        None
    } else {
        Some((digits_value(s, i, j), j))
    }
}

/// The value and end position of the decimal numeral standing at position
/// `i`.
pub fn parse_number_exec(s: &Vec<char>, i: usize) -> (r: Option<(usize, usize)>)
    requires
        i <= s@.len(),
    ensures
        match r {
            Some(p) => parse_number(s@, i as int) == Some((p.0 as int, p.1 as int)) && i < p.1
                <= s@.len(),
            None => parse_number(s@, i as int) is None,
        },
{
    let n = s.len();
    proof {
        lemma_digits_end_bounds(s@, i as int);
    }
    // find the end of the digit run
    let mut j = i;
    while j < n && is_digit_exec(s[j])
        invariant
            i <= j <= n,
            n == s@.len(),
            digits_end(s@, i as int) == digits_end(s@, j as int),
        decreases n - j,
    {
        j = j + 1;
    }
    proof {
        assert(digits_end(s@, i as int) == j as int);
    }
    if j == i {
        return None;
    }
    if s[i] == '0' && j > i + 1 {
        return None;
    }
    let ghost jj = j as int;
    let mut acc: usize = 0;
    let mut m = i;
    while m < j
        invariant
            i <= m <= j <= n,
            n == s@.len(),
            jj == j as int,
            digits_end(s@, i as int) == jj,
            forall|t: int| i <= t < jj ==> is_digit(s@[t]),
            acc as int == digits_value(s@, i as int, m as int),
        decreases j - m,
    {
        let d = (s[m] as u32) - 0x30;
        let next = match acc.checked_mul(10) {
            Some(t) => t.checked_add(d as usize),
            None => None,
        };
        match next {
            Some(t) => {
                acc = t;
            },
            None => {
                proof {
                    assert(digits_value(s@, i as int, m + 1 as int) > usize::MAX);
                    lemma_digits_value_mono(s@, i as int, m + 1 as int, jj);
                }
                return None;
            },
        }
        m = m + 1;
    }
    Some((acc, j))
}

/// The boolean literal standing at position `i` and its end position.
pub open spec fn parse_bool(s: Seq<char>, i: int) -> Option<(bool, int)> {
    if i >= 0 && i + 4 <= s.len() && s[i] == 't' && s[i + 1] == 'r' && s[i + 2] == 'u' && s[i + 3]
        == 'e' {
        Some((true, i + 4))
    } else if i >= 0 && i + 5 <= s.len() && s[i] == 'f' && s[i + 1] == 'a' && s[i + 2] == 'l' && s[i
        + 3] == 's' && s[i + 4] == 'e' {
        Some((false, i + 5))
    } else {
        None
    }
}

/// The boolean literal standing at position `i` and its end position.
pub fn parse_bool_exec(s: &Vec<char>, i: usize) -> (r: Option<(bool, usize)>)
    requires
        i <= s@.len(),
    ensures
        match r {
            Some(p) => parse_bool(s@, i as int) == Some((p.0, p.1 as int)) && i < p.1 <= s@.len(),
            None => parse_bool(s@, i as int) is None,
        },
{
    let n = s.len();
    if n - i >= 4 && s[i] == 't' && s[i + 1] == 'r' && s[i + 2] == 'u' && s[i + 3] == 'e' {
        Some((true, i + 4))
    } else if n - i >= 5 && s[i] == 'f' && s[i + 1] == 'a' && s[i + 2] == 'l' && s[i + 3] == 's'
        && s[i + 4] == 'e' {
        Some((false, i + 5))
    } else {
        None
    }
}

} // verus!
