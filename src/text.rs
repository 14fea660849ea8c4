use vstd::prelude::*;

verus! {

pub open spec fn is_digit(b: u8) -> bool {
    48 <= b <= 57
}

pub open spec fn is_alnum(b: u8) -> bool {
    is_digit(b) || (65 <= b <= 90) || (97 <= b <= 122)
}

/// A byte that ends a line's content: `\r` or `\n`.
pub open spec fn is_eol(b: u8) -> bool {
    b == 10 || b == 13
}

/// A byte that ends a word: a space, a tab or a line end.
pub open spec fn is_word_end(b: u8) -> bool {
    b == 32 || b == 9 || is_eol(b)
}

pub open spec fn at(s: Seq<u8>, p: int, b: u8) -> bool {
    0 <= p < s.len() && s[p] == b
}

/// End of the run of digits that starts at `p`.
pub open spec fn digits_end(s: Seq<u8>, p: int) -> int
    decreases s.len() - p,
{
    if 0 <= p < s.len() && is_digit(s[p]) {
        digits_end(s, p + 1)
    } else {
        p
    }
}

/// End of the run of ASCII letters and digits that starts at `p`.
pub open spec fn alnum_end(s: Seq<u8>, p: int) -> int
    decreases s.len() - p,
{
    if 0 <= p < s.len() && is_alnum(s[p]) {
        alnum_end(s, p + 1)
    } else {
        p
    }
}

/// End of the word (no space, tab or line end) that starts at `p`.
pub open spec fn word_end(s: Seq<u8>, p: int) -> int
    decreases s.len() - p,
{
    if 0 <= p < s.len() && !is_word_end(s[p]) {
        word_end(s, p + 1)
    } else {
        p
    }
}

/// End of the run of spaces that starts at `p`.
pub open spec fn spaces_end(s: Seq<u8>, p: int) -> int
    decreases s.len() - p,
{
    if 0 <= p < s.len() && s[p] == 32 {
        spaces_end(s, p + 1)
    } else {
        p
    }
}

/// End of the content of the line that `p` is in: the first `\r`, `\n` or the
/// end of input from `p` on.
pub open spec fn content_end(s: Seq<u8>, p: int) -> int
    decreases s.len() - p,
{
    if 0 <= p < s.len() && !is_eol(s[p]) {
        content_end(s, p + 1)
    } else {
        p
    }
}

/// The start of the next line after `p`, or `None` where the line's content
/// ends in a `\r` that no `\n` follows.
pub open spec fn next_line(s: Seq<u8>, p: int) -> Option<int> {
    let q = content_end(s, p);
    if q >= s.len() {
        Some(q)
    } else if s[q] == 10 {
        Some(q + 1)
    } else if at(s, q + 1, 10) {
        Some(q + 2)
    } else {
        None
    }
}

/// Skips blank lines and comment lines (those that begin with `#`).
pub open spec fn skip_ignorable(s: Seq<u8>, p: int) -> int
    decreases s.len() - p,
{
    if at(s, p, 10) {
        skip_ignorable(s, p + 1)
    } else if at(s, p, 13) && at(s, p + 1, 10) {
        skip_ignorable(s, p + 2)
    } else if at(s, p, 35) {
        match next_line(s, p) {
            Some(q) => if p < q <= s.len() {
                skip_ignorable(s, q)
            } else {
                p
            },
            None => p,
        }
    } else {
        p
    }
}

/// The decimal value of the digits `s[a..b)`.
pub open spec fn digits_value(s: Seq<u8>, a: int, b: int) -> int
    decreases b - a,
{
    if b <= a {
        0
    } else {
        digits_value(s, a, b - 1) * 10 + (s[b - 1] - 48)
    }
}

/// End of the exponent part that may start at `c` (`e`, an optional sign and
/// digits), or `None` where an `e` is not followed by digits.
pub open spec fn exponent_end(s: Seq<u8>, c: int) -> Option<int> {
    if at(s, c, 101) || at(s, c, 69) {
        let d = if at(s, c + 1, 43) || at(s, c + 1, 45) {
            c + 2
        } else {
            c + 1
        };
        if digits_end(s, d) > d {
            Some(digits_end(s, d))
        } else {
            None
        }
    } else {
        Some(c)
    }
}

/// End of the decimal literal that starts at `p`: an optional sign, digits
/// with an optional fraction (or a fraction alone), and an optional exponent.
pub open spec fn decimal_end(s: Seq<u8>, p: int) -> Option<int> {
    let a = if at(s, p, 43) || at(s, p, 45) {
        p + 1
    } else {
        p
    };
    let b = digits_end(s, a);
    if b > a {
        if at(s, b, 46) {
            exponent_end(s, digits_end(s, b + 1))
        } else {
            exponent_end(s, b)
        }
    } else if at(s, a, 46) && digits_end(s, a + 1) > a + 1 {
        exponent_end(s, digits_end(s, a + 1))
    } else {
        None
    }
}

pub fn scan_digits(s: &[u8], p: usize) -> (r: usize)
    requires
        p <= s@.len(),
    ensures
        r == digits_end(s@, p as int),
        p <= r <= s@.len(),
{
    let mut i: usize = p;
    while i < s.len() && 48 <= s[i] && s[i] <= 57
        invariant
            p <= i <= s@.len(),
            digits_end(s@, i as int) == digits_end(s@, p as int),
        decreases s@.len() - i,
    {
        i = i + 1;
    }
    i
}

pub fn scan_alnum(s: &[u8], p: usize) -> (r: usize)
    requires
        p <= s@.len(),
    ensures
        r == alnum_end(s@, p as int),
        p <= r <= s@.len(),
{
    let mut i: usize = p;
    while i < s.len() && ((48 <= s[i] && s[i] <= 57) || (65 <= s[i] && s[i] <= 90) || (97 <= s[i]
        && s[i] <= 122))
        invariant
            p <= i <= s@.len(),
            alnum_end(s@, i as int) == alnum_end(s@, p as int),
        decreases s@.len() - i,
    {
        i = i + 1;
    }
    i
}

pub fn scan_word(s: &[u8], p: usize) -> (r: usize)
    requires
        p <= s@.len(),
    ensures
        r == word_end(s@, p as int),
        p <= r <= s@.len(),
{
    let mut i: usize = p;
    while i < s.len() && s[i] != 32 && s[i] != 9 && s[i] != 10 && s[i] != 13
        invariant
            p <= i <= s@.len(),
            word_end(s@, i as int) == word_end(s@, p as int),
        decreases s@.len() - i,
    {
        i = i + 1;
    }
    i
}

pub fn scan_spaces(s: &[u8], p: usize) -> (r: usize)
    requires
        p <= s@.len(),
    ensures
        r == spaces_end(s@, p as int),
        p <= r <= s@.len(),
{
    let mut i: usize = p;
    while i < s.len() && s[i] == 32
        invariant
            p <= i <= s@.len(),
            spaces_end(s@, i as int) == spaces_end(s@, p as int),
        decreases s@.len() - i,
    {
        i = i + 1;
    }
    i
}

pub fn scan_content(s: &[u8], p: usize) -> (r: usize)
    requires
        p <= s@.len(),
    ensures
        r == content_end(s@, p as int),
        p <= r <= s@.len(),
{
    let mut i: usize = p;
    while i < s.len() && s[i] != 10 && s[i] != 13
        invariant
            p <= i <= s@.len(),
            content_end(s@, i as int) == content_end(s@, p as int),
        decreases s@.len() - i,
    {
        i = i + 1;
    }
    i
}

pub fn byte_is(s: &[u8], p: usize, b: u8) -> (r: bool)
    ensures
        r == at(s@, p as int, b),
{
    p < s.len() && s[p] == b
}

/// Moves past the rest of the line that `p` is in, line break included.
pub fn to_next_line(s: &[u8], p: usize) -> (r: Option<usize>)
    requires
        p <= s@.len(),
    ensures
        r matches Some(q) ==> next_line(s@, p as int) == Some(q as int) && p <= q <= s@.len(),
        r is None ==> next_line(s@, p as int) is None,
{
    let len = s.len();
    assert(len == s@.len());
    let q = scan_content(s, p);
    if q >= s.len() {
        Some(q)
    } else if s[q] == 10 {
        Some(q + 1)
    } else if byte_is(s, q + 1, 10) {
        Some(q + 2)
    } else {
        None
    }
}

/// Skips blank lines and comment lines.
pub fn skip_ignorable_lines(s: &[u8], p: usize) -> (r: usize)
    requires
        p <= s@.len(),
    ensures
        r == skip_ignorable(s@, p as int),
        p <= r <= s@.len(),
{
    let len = s.len();
    assert(len == s@.len());
    let mut i: usize = p;
    loop
        invariant
            p <= i <= s@.len(),
            len == s@.len(),
            skip_ignorable(s@, i as int) == skip_ignorable(s@, p as int),
        decreases s@.len() - i,
    {
        if byte_is(s, i, 10) {
            i = i + 1;
        } else if byte_is(s, i, 13) && byte_is(s, i + 1, 10) {
            i = i + 2;
        } else if byte_is(s, i, 35) {
            match to_next_line(s, i) {
                Some(q) => {
                    if i < q && q <= s.len() {
                        i = q;
                    } else {
                        return i;
                    }
                },
                None => {
                    return i;
                },
            }
        } else {
            return i;
        }
    }
}

/// Reads the digits `s[a..)` as a decimal number no larger than `limit`.
/// Returns the end of the digits, and their value where it does not exceed
/// `limit`.
pub fn scan_decimal(s: &[u8], a: usize, limit: u64) -> (r: (usize, Option<u64>))
    requires
        a <= s@.len(),
    ensures
        r.0 == digits_end(s@, a as int),
        a <= r.0 <= s@.len(),
        digits_value(s@, a as int, r.0 as int) >= 0,
        r.1 == (if digits_value(s@, a as int, r.0 as int) <= limit {
            Some(digits_value(s@, a as int, r.0 as int) as u64)
        } else {
            None::<u64>
        }),
{
    let mut i: usize = a;
    let mut acc: u64 = 0;
    let mut over = false;
    while i < s.len() && 48 <= s[i] && s[i] <= 57
        invariant
            a <= i <= s@.len(),
            digits_end(s@, i as int) == digits_end(s@, a as int),
            digits_value(s@, a as int, i as int) >= 0,
            over == (digits_value(s@, a as int, i as int) > limit),
            !over ==> acc == digits_value(s@, a as int, i as int),
        decreases s@.len() - i,
    {
        let d = (s[i] - 48) as u64;
        let ghost v = digits_value(s@, a as int, i as int);
        assert(digits_value(s@, a as int, i + 1) == v * 10 + d);
        if !over {
            if d > limit || acc > (limit - d) / 10 {
                assert(v * 10 + d > limit) by (nonlinear_arith)
                    requires
                        v == acc,
                        d > limit || acc > (limit - d) / 10,
                        0 <= d,
                        v >= 0,
                ;
                over = true;
            } else {
                assert(v * 10 + d <= limit) by (nonlinear_arith)
                    requires
                        v == acc,
                        acc <= (limit - d) / 10,
                        d <= limit,
                        0 <= d,
                ;
                acc = acc * 10 + d;
            }
        } else {
            assert(v * 10 + d > limit) by (nonlinear_arith)
                requires
                    v > limit,
                    0 <= d,
                    limit >= 0,
            ;
        }
        i = i + 1;
    }
    if over {
        (i, None)
    } else {
        (i, Some(acc))
    }
}

/// Finds the end of the exponent part that may start at `c`.
pub fn scan_exponent(s: &[u8], c: usize) -> (r: Option<usize>)
    requires
        c <= s@.len(),
    ensures
        r matches Some(e) ==> exponent_end(s@, c as int) == Some(e as int) && c <= e <= s@.len(),
        r is None ==> exponent_end(s@, c as int) is None,
{
    let len = s.len();
    assert(len == s@.len());
    if byte_is(s, c, 101) || byte_is(s, c, 69) {
        let d = if byte_is(s, c + 1, 43) || byte_is(s, c + 1, 45) {
            c + 2
        } else {
            c + 1
        };
        let e = scan_digits(s, d);
        if e > d {
            Some(e)
        } else {
            None
        }
    } else {
        Some(c)
    }
}

/// Finds the end of the decimal literal that starts at `p`.
pub fn scan_decimal_literal(s: &[u8], p: usize) -> (r: Option<usize>)
    requires
        p <= s@.len(),
    ensures
        r matches Some(e) ==> decimal_end(s@, p as int) == Some(e as int) && p < e <= s@.len(),
        r is None ==> decimal_end(s@, p as int) is None,
{
    let len = s.len();
    assert(len == s@.len());
    let a = if byte_is(s, p, 43) || byte_is(s, p, 45) {
        p + 1
    } else {
        p
    };
    let b = scan_digits(s, a);
    if b > a {
        if byte_is(s, b, 46) {
            let c = scan_digits(s, b + 1);
            scan_exponent(s, c)
        } else {
            scan_exponent(s, b)
        }
    } else if byte_is(s, a, 46) {
        let c = scan_digits(s, a + 1);
        if c > a + 1 {
            scan_exponent(s, c)
        } else {
            None
        }
    } else {
        None
    }
}

} // verus!
