//! A byte-level reader for the JSON subset the control protocol speaks.
//!
//! Received control frames are JSON objects whose members are numbers,
//! strings, arrays of those, and nested objects to be skipped. The
//! functions here parse exactly that grammar: object member order is
//! free, whitespace is free, strings take the short escapes, numbers are
//! non-negative decimals whose fraction digits are read and dropped
//! (exponents are not accepted). Each executable parser is proved to
//! return precisely what its specification-level twin describes.
use vstd::prelude::*;
use vstd::string::*;

verus! {

/// JSON whitespace.
pub open spec fn is_ws(b: u8) -> bool {
    b == 0x20 || b == 0x09 || b == 0x0a || b == 0x0d
}

/// ASCII decimal digit.
pub open spec fn is_digit(b: u8) -> bool {
    0x30 <= b && b <= 0x39
}

/// First index at or after `i` holding a non-whitespace byte.
pub open spec fn spec_skip_ws(s: Seq<u8>, i: int) -> int
    decreases s.len() - i,
{
    if 0 <= i < s.len() && is_ws(s[i]) {
        spec_skip_ws(s, i + 1)
    } else {
        i
    }
}

/// Advances over whitespace.
pub fn skip_ws(s: &[u8], i: usize) -> (r: usize)
    requires
        i <= s@.len(),
    ensures
        r == spec_skip_ws(s@, i as int),
        i <= r <= s@.len(),
        r < s@.len() ==> !is_ws(s@[r as int]),
{
    let mut p = i;
    while p < s.len() && (s[p] == 0x20 || s[p] == 0x09 || s[p] == 0x0a || s[p] == 0x0d)
        invariant
            i <= p <= s@.len(),
            spec_skip_ws(s@, i as int) == spec_skip_ws(s@, p as int),
        decreases s@.len() - p,
    {
        p = p + 1;
    }
    p
}

/// First index at or after `i` holding a non-digit byte.
pub open spec fn spec_digits_end(s: Seq<u8>, i: int) -> int
    decreases s.len() - i,
{
    if 0 <= i < s.len() && is_digit(s[i]) {
        spec_digits_end(s, i + 1)
    } else {
        i
    }
}

pub proof fn lemma_digits_end_bounds(s: Seq<u8>, i: int)
    requires
        0 <= i <= s.len(),
    ensures
        i <= spec_digits_end(s, i) <= s.len(),
        forall|k: int| i <= k < spec_digits_end(s, i) ==> is_digit(s[k]),
    decreases s.len() - i,
{
    if i < s.len() && is_digit(s[i]) {
        lemma_digits_end_bounds(s, i + 1);
    }
}

pub fn digits_end(s: &[u8], i: usize) -> (r: usize)
    requires
        i <= s@.len(),
    ensures
        r == spec_digits_end(s@, i as int),
        i <= r <= s@.len(),
{
    let mut p = i;
    while p < s.len() && 0x30 <= s[p] && s[p] <= 0x39
        invariant
            i <= p <= s@.len(),
            spec_digits_end(s@, i as int) == spec_digits_end(s@, p as int),
        decreases s@.len() - p,
    {
        p = p + 1;
    }
    p
}

/// The number read from the digit run `s[i..j]`, folded onto `acc`.
pub open spec fn spec_dec_val(s: Seq<u8>, i: int, j: int, acc: nat) -> nat
    decreases j - i,
{
    if i >= j {
        acc
    } else {
        spec_dec_val(s, i + 1, j, (acc * 10 + (s[i] - 0x30)) as nat)
    }
}

/// Folding a larger accumulator never yields a smaller value.
proof fn lemma_dec_val_lower(s: Seq<u8>, i: int, j: int, acc: nat)
    requires
        0 <= i,
        j <= s.len(),
        forall|k: int| i <= k < j ==> is_digit(s[k]),
    ensures
        spec_dec_val(s, i, j, acc) >= acc,
    decreases j - i,
{
    if i < j {
        lemma_dec_val_lower(s, i + 1, j, (acc * 10 + (s[i] - 0x30)) as nat);
    }
}

/// A non-negative decimal number at `i`: one or more integer digits,
/// optionally a dot with one or more fraction digits (read and dropped).
/// `None` on anything else, or when the integer part exceeds `u64`.
pub open spec fn spec_parse_number(s: Seq<u8>, i: int) -> Option<(u64, int)> {
    let j = spec_digits_end(s, i);
    if j == i {
        None
    } else {
        let v = spec_dec_val(s, i, j, 0);
        if v > u64::MAX {
            None
        } else if j < s.len() && s[j] == 0x2e {
            let k = spec_digits_end(s, j + 1);
            if k == j + 1 {
                None
            } else {
                Some((v as u64, k))
            }
        } else {
            Some((v as u64, j))
        }
    }
}

pub proof fn lemma_parse_number_bounds(s: Seq<u8>, i: int)
    requires
        0 <= i <= s.len(),
    ensures
        spec_parse_number(s, i) matches Some(p) ==> i < p.1 <= s.len(),
{
    lemma_digits_end_bounds(s, i);
    let j = spec_digits_end(s, i);
    if j < s.len() && s[j] == 0x2e {
        lemma_digits_end_bounds(s, j + 1);
    }
}

/// Maps an executable parse result to its specification form.
pub open spec fn opt_num(r: Option<(u64, usize)>) -> Option<(u64, int)> {
    match r {
        None => None,
        Some((v, j)) => Some((v, j as int)),
    }
}

/// Reads a number as `spec_parse_number` describes.
pub fn parse_number(s: &[u8], i: usize) -> (r: Option<(u64, usize)>)
    requires
        i <= s@.len(),
    ensures
        opt_num(r) == spec_parse_number(s@, i as int),
        r matches Some(p) ==> i < p.1 <= s@.len(),
{
    proof {
        lemma_parse_number_bounds(s@, i as int);
        lemma_digits_end_bounds(s@, i as int);
    }
    let j = digits_end(s, i);
    if j == i {
        return None;
    }
    let mut acc: u64 = 0;
    let mut p = i;
    while p < j
        invariant
            i <= p <= j <= s@.len(),
            j == spec_digits_end(s@, i as int),
            forall|k: int| i <= k < j ==> is_digit(s@[k]),
            spec_dec_val(s@, i as int, j as int, 0) == spec_dec_val(
                s@,
                p as int,
                j as int,
                acc as nat,
            ),
        decreases j - p,
    {
        let d = s[p] - 0x30;
        if acc > (u64::MAX - d as u64) / 10 {
            proof {
                lemma_dec_val_lower(s@, p + 1, j as int, (acc * 10 + d) as nat);
            }
            return None;
        }
        acc = acc * 10 + d as u64;
        p = p + 1;
    }
    if j < s.len() && s[j] == 0x2e {
        let k = digits_end(s, j + 1);
        if k == j + 1 {
            None
        } else {
            Some((acc, k))
        }
    } else {
        Some((acc, j))
    }
}

/// What one escape character after a backslash denotes, if anything.
pub open spec fn spec_unescape(b: u8) -> Option<u8> {
    if b == 0x22 {
        Some(0x22)
    } else if b == 0x5c {
        Some(0x5c)
    } else if b == 0x2f {
        Some(0x2f)
    } else if b == 0x62 {
        Some(0x08)
    } else if b == 0x66 {
        Some(0x0c)
    } else if b == 0x6e {
        Some(0x0a)
    } else if b == 0x72 {
        Some(0x0d)
    } else if b == 0x74 {
        Some(0x09)
    } else {
        None
    }
}

/// The body of a string literal from `i` to its closing quote: the
/// decoded bytes and the index after the quote.
pub open spec fn spec_str_body(s: Seq<u8>, i: int) -> Option<(Seq<u8>, int)>
    decreases s.len() - i,
{
    if i < 0 || i >= s.len() {
        None
    } else if s[i] == 0x22 {
        Some((Seq::empty(), i + 1))
    } else if s[i] == 0x5c {
        if i + 1 >= s.len() {
            None
        } else {
            match spec_unescape(s[i + 1]) {
                None => None,
                Some(e) => match spec_str_body(s, i + 2) {
                    None => None,
                    Some((rest, j)) => Some((seq![e] + rest, j)),
                },
            }
        }
    } else {
        match spec_str_body(s, i + 1) {
            None => None,
            Some((rest, j)) => Some((seq![s[i]] + rest, j)),
        }
    }
}

/// A string literal at `i`: opening quote, body, closing quote.
pub open spec fn spec_parse_string(s: Seq<u8>, i: int) -> Option<(Seq<u8>, int)> {
    if 0 <= i < s.len() && s[i] == 0x22 {
        spec_str_body(s, i + 1)
    } else {
        None
    }
}

pub proof fn lemma_str_body_bounds(s: Seq<u8>, i: int)
    requires
        0 <= i <= s.len(),
    ensures
        spec_str_body(s, i) matches Some(p) ==> i < p.1 <= s.len(),
    decreases s.len() - i,
{
    if i < s.len() {
        if s[i] == 0x5c {
            if i + 2 <= s.len() {
                lemma_str_body_bounds(s, i + 2);
            }
        } else if s[i] != 0x22 {
            lemma_str_body_bounds(s, i + 1);
        }
    }
}

pub proof fn lemma_parse_string_bounds(s: Seq<u8>, i: int)
    requires
        0 <= i <= s.len(),
    ensures
        spec_parse_string(s, i) matches Some(p) ==> i < p.1 <= s.len(),
{
    if i < s.len() && s[i] == 0x22 {
        lemma_str_body_bounds(s, i + 1);
    }
}

/// Maps an executable string parse to its specification form.
pub open spec fn opt_bytes(r: Option<(Vec<u8>, usize)>) -> Option<(Seq<u8>, int)> {
    match r {
        None => None,
        Some((v, j)) => Some((v@, j as int)),
    }
}

/// Prepends already-decoded bytes onto a parse continuation.
pub open spec fn prepend(b: Seq<u8>, o: Option<(Seq<u8>, int)>) -> Option<(Seq<u8>, int)> {
    match o {
        None => None,
        Some((rest, j)) => Some((b + rest, j)),
    }
}

/// Reads a string literal as `spec_parse_string` describes.
pub fn parse_string(s: &[u8], i: usize) -> (r: Option<(Vec<u8>, usize)>)
    requires
        i <= s@.len(),
    ensures
        opt_bytes(r) == spec_parse_string(s@, i as int),
        r matches Some(p) ==> i < p.1 <= s@.len(),
{
    proof {
        lemma_parse_string_bounds(s@, i as int);
    }
    if !(i < s.len() && s[i] == 0x22) {
        return None;
    }
    let mut out: Vec<u8> = Vec::new();
    let mut p = i + 1;
    proof {
        if let Some((rest, jj)) = spec_str_body(s@, i + 1) {
            assert(Seq::<u8>::empty() + rest =~= rest);
        }
    }
    loop
        invariant
            i + 1 <= p <= s@.len(),
            i < s@.len() && s@[i as int] == 0x22,
            spec_str_body(s@, i + 1) == prepend(out@, spec_str_body(s@, p as int)),
        decreases s@.len() - p,
    {
        if p >= s.len() {
            return None;
        }
        let b = s[p];
        if b == 0x22 {
            proof {
                assert(spec_str_body(s@, p as int) == Some((Seq::<u8>::empty(), p + 1)));
                assert(out@ + Seq::<u8>::empty() =~= out@);
            }
            return Some((out, p + 1));
        } else if b == 0x5c {
            if p + 1 >= s.len() {
                return None;
            }
            let decoded_opt = unescape(s[p + 1]);
            match decoded_opt {
                None => {
                    proof {
                        assert(spec_str_body(s@, p as int) is None);
                    }
                    return None;
                },
                Some(decoded) => {
                    let ghost before = out@;
                    out.push(decoded);
                    proof {
                        if let Some((rest, jj)) = spec_str_body(s@, p + 2) {
                            assert(spec_str_body(s@, p as int) == Some((seq![decoded] + rest, jj)));
                            assert(before + (seq![decoded] + rest) =~= out@ + rest);
                        } else {
                            assert(spec_str_body(s@, p as int) is None);
                        }
                    }
                    p = p + 2;
                },
            }
        } else {
            let ghost before = out@;
            out.push(b);
            proof {
                if let Some((rest, jj)) = spec_str_body(s@, p + 1) {
                    assert(spec_str_body(s@, p as int) == Some((seq![b] + rest, jj)));
                    assert(before + (seq![b] + rest) =~= out@ + rest);
                } else {
                    assert(spec_str_body(s@, p as int) is None);
                }
            }
            p = p + 1;
        }
    }
}

/// Decodes one escape character as `spec_unescape` describes.
pub fn unescape(b: u8) -> (r: Option<u8>)
    ensures
        r == spec_unescape(b),
{
    if b == 0x22 {
        Some(0x22)
    } else if b == 0x5c {
        Some(0x5c)
    } else if b == 0x2f {
        Some(0x2f)
    } else if b == 0x62 {
        Some(0x08)
    } else if b == 0x66 {
        Some(0x0c)
    } else if b == 0x6e {
        Some(0x0a)
    } else if b == 0x72 {
        Some(0x0d)
    } else if b == 0x74 {
        Some(0x09)
    } else {
        None
    }
}

/// Byte-for-byte equality of two slices.
pub fn bytes_eq(a: &[u8], b: &[u8]) -> (r: bool)
    ensures
        r == (a@ == b@),
{
    if a.len() != b.len() {
        proof {
            assert(a@.len() != b@.len());
        }
        return false;
    }
    let mut i: usize = 0;
    while i < a.len()
        invariant
            i <= a@.len(),
            a@.len() == b@.len(),
            forall|j: int| 0 <= j < i ==> a@[j] == b@[j],
        decreases a@.len() - i,
    {
        if a[i] != b[i] {
            return false;
        }
        i = i + 1;
    }
    proof {
        assert(a@ =~= b@);
    }
    true
}



/// End of a skipped (unread) JSON number at `i`: an optional minus,
/// digits, an optional fraction and an optional exponent. Values are
/// not computed, so any magnitude passes.
pub open spec fn spec_skip_number(s: Seq<u8>, i: int) -> Option<int> {
    if i < 0 || i >= s.len() {
        None
    } else {
        let p0 = if s[i] == 0x2d {
            i + 1
        } else {
            i
        };
        let j = spec_digits_end(s, p0);
        if j == p0 {
            None
        } else {
            let j2 = if j < s.len() && s[j] == 0x2e {
                let k = spec_digits_end(s, j + 1);
                if k == j + 1 {
                    -1
                } else {
                    k
                }
            } else {
                j
            };
            if j2 < 0 {
                None
            } else {
                let j3 = if j2 < s.len() && (s[j2] == 0x65 || s[j2] == 0x45) {
                    let p1 = if j2 + 1 < s.len() && (s[j2 + 1] == 0x2b || s[j2 + 1] == 0x2d) {
                        j2 + 2
                    } else {
                        j2 + 1
                    };
                    let k = spec_digits_end(s, p1);
                    if k == p1 {
                        -1
                    } else {
                        k
                    }
                } else {
                    j2
                };
                if j3 < 0 {
                    None
                } else {
                    Some(j3)
                }
            }
        }
    }
}

/// Skips a number as `spec_skip_number` describes.
pub fn skip_number(s: &[u8], i: usize) -> (r: Option<usize>)
    requires
        i < s@.len(),
    ensures
        opt_end(r) == spec_skip_number(s@, i as int),
        r matches Some(j) ==> i < j <= s@.len(),
{
    proof {
        lemma_digits_end_bounds(s@, i as int);
    }
    let p0 = if s[i] == 0x2d {
        i + 1
    } else {
        i
    };
    proof {
        lemma_digits_end_bounds(s@, p0 as int);
    }
    let j = digits_end(s, p0);
    if j == p0 {
        return None;
    }
    let j2: usize;
    if j < s.len() && s[j] == 0x2e {
        let k = digits_end(s, j + 1);
        if k == j + 1 {
            return None;
        }
        j2 = k;
    } else {
        j2 = j;
    }
    if j2 < s.len() && (s[j2] == 0x65 || s[j2] == 0x45) {
        let p1 = if j2 + 1 < s.len() && (s[j2 + 1] == 0x2b || s[j2 + 1] == 0x2d) {
            j2 + 2
        } else {
            j2 + 1
        };
        let k = digits_end(s, p1);
        if k == p1 {
            None
        } else {
            Some(k)
        }
    } else {
        Some(j2)
    }
}

/// Nesting allowance when skipping unknown values.
pub open spec fn spec_max_depth() -> nat {
    128
}

/// End of the JSON value starting at `i`, skipping at most `depth`
/// levels of nesting inside objects and arrays.
pub open spec fn spec_skip_value(s: Seq<u8>, i: int, depth: nat) -> Option<int>
    decreases depth, s.len() - i, 1int,
{
    if i < 0 || i >= s.len() {
        None
    } else if s[i] == 0x22 {
        match spec_parse_string(s, i) {
            None => None,
            Some((_, j)) => Some(j),
        }
    } else if s[i] == 0x2d || is_digit(s[i]) {
        spec_skip_number(s, i)
    } else if s[i] == 0x74 {
        if i + 4 <= s.len() && s[i + 1] == 0x72 && s[i + 2] == 0x75 && s[i + 3] == 0x65 {
            Some(i + 4)
        } else {
            None
        }
    } else if s[i] == 0x66 {
        if i + 5 <= s.len() && s[i + 1] == 0x61 && s[i + 2] == 0x6c && s[i + 3] == 0x73 && s[i + 4]
            == 0x65 {
            Some(i + 5)
        } else {
            None
        }
    } else if s[i] == 0x6e {
        if i + 4 <= s.len() && s[i + 1] == 0x75 && s[i + 2] == 0x6c && s[i + 3] == 0x6c {
            Some(i + 4)
        } else {
            None
        }
    } else if s[i] == 0x7b {
        if depth == 0 {
            None
        } else {
            let j = spec_skip_ws(s, i + 1);
            if j < i + 1 || j > s.len() {
                None
            } else if j < s.len() && s[j] == 0x7d {
                Some(j + 1)
            } else {
                spec_skip_members(s, j, (depth - 1) as nat)
            }
        }
    } else if s[i] == 0x5b {
        if depth == 0 {
            None
        } else {
            let j = spec_skip_ws(s, i + 1);
            if j < i + 1 || j > s.len() {
                None
            } else if j < s.len() && s[j] == 0x5d {
                Some(j + 1)
            } else {
                spec_skip_elems(s, j, (depth - 1) as nat)
            }
        }
    } else {
        None
    }
}

/// End of an object body starting at a key, up to and including the
/// closing brace.
pub open spec fn spec_skip_members(s: Seq<u8>, i: int, depth: nat) -> Option<int>
    decreases depth, s.len() - i, 2int,
{
    match spec_parse_string(s, i) {
        None => None,
        Some((_, j)) => {
            let j1 = spec_skip_ws(s, j);
            if !(0 <= j1 < s.len() && s[j1] == 0x3a) {
                None
            } else {
                let j2 = spec_skip_ws(s, j1 + 1);
                if j2 <= i || j2 > s.len() {
                    None
                } else {
                    match spec_skip_value(s, j2, depth) {
                        None => None,
                        Some(e) => {
                            let e1 = spec_skip_ws(s, e);
                            if 0 <= e1 < s.len() && s[e1] == 0x2c {
                                let e2 = spec_skip_ws(s, e1 + 1);
                                if e2 <= i || e2 > s.len() {
                                    None
                                } else {
                                    spec_skip_members(s, e2, depth)
                                }
                            } else if 0 <= e1 < s.len() && s[e1] == 0x7d {
                                Some(e1 + 1)
                            } else {
                                None
                            }
                        },
                    }
                }
            }
        },
    }
}

/// End of an array body starting at an element, up to and including the
/// closing bracket.
pub open spec fn spec_skip_elems(s: Seq<u8>, i: int, depth: nat) -> Option<int>
    decreases depth, s.len() - i, 2int,
{
    if i < 0 {
        None
    } else {
        match spec_skip_value(s, i, depth) {
            None => None,
            Some(e) => {
                let e1 = spec_skip_ws(s, e);
                if 0 <= e1 < s.len() && s[e1] == 0x2c {
                    let e2 = spec_skip_ws(s, e1 + 1);
                    if e2 <= i || e2 > s.len() {
                        None
                    } else {
                        spec_skip_elems(s, e2, depth)
                    }
                } else if 0 <= e1 < s.len() && s[e1] == 0x5d {
                    Some(e1 + 1)
                } else {
                    None
                }
            },
        }
    }
}

/// Maps an executable skip result to its specification form.
pub open spec fn opt_end(r: Option<usize>) -> Option<int> {
    match r {
        None => None,
        Some(j) => Some(j as int),
    }
}

/// Skips one value as `spec_skip_value` describes.
pub fn skip_value(s: &[u8], i: usize, depth: u32) -> (r: Option<usize>)
    requires
        i <= s@.len(),
    ensures
        opt_end(r) == spec_skip_value(s@, i as int, depth as nat),
        r matches Some(j) ==> i <= j <= s@.len(),
    decreases depth, s@.len() - i, 1int,
{
    if i >= s.len() {
        return None;
    }
    let b = s[i];
    if b == 0x22 {
        match parse_string(s, i) {
            None => None,
            Some((_, j)) => Some(j),
        }
    } else if b == 0x2d || (0x30 <= b && b <= 0x39) {
        skip_number(s, i)
    } else if b == 0x74 {
        if s.len() - i >= 4 && s[i + 1] == 0x72 && s[i + 2] == 0x75 && s[i + 3] == 0x65 {
            Some(i + 4)
        } else {
            None
        }
    } else if b == 0x66 {
        if s.len() - i >= 5 && s[i + 1] == 0x61 && s[i + 2] == 0x6c && s[i + 3] == 0x73 && s[i + 4]
            == 0x65 {
            Some(i + 5)
        } else {
            None
        }
    } else if b == 0x6e {
        if s.len() - i >= 4 && s[i + 1] == 0x75 && s[i + 2] == 0x6c && s[i + 3] == 0x6c {
            Some(i + 4)
        } else {
            None
        }
    } else if b == 0x7b {
        if depth == 0 {
            None
        } else {
            let j = skip_ws(s, i + 1);
            if j < s.len() && s[j] == 0x7d {
                Some(j + 1)
            } else {
                skip_members(s, j, depth - 1)
            }
        }
    } else if b == 0x5b {
        if depth == 0 {
            None
        } else {
            let j = skip_ws(s, i + 1);
            if j < s.len() && s[j] == 0x5d {
                Some(j + 1)
            } else {
                skip_elems(s, j, depth - 1)
            }
        }
    } else {
        None
    }
}

/// Skips object members as `spec_skip_members` describes.
pub fn skip_members(s: &[u8], i: usize, depth: u32) -> (r: Option<usize>)
    requires
        i <= s@.len(),
    ensures
        opt_end(r) == spec_skip_members(s@, i as int, depth as nat),
        r matches Some(j) ==> i <= j <= s@.len(),
    decreases depth, s@.len() - i, 2int,
{
    match parse_string(s, i) {
        None => None,
        Some((_, j)) => {
            let j1 = skip_ws(s, j);
            if !(j1 < s.len() && s[j1] == 0x3a) {
                None
            } else {
                let j2 = skip_ws(s, j1 + 1);
                if j2 <= i {
                    None
                } else {
                    match skip_value(s, j2, depth) {
                        None => None,
                        Some(e) => {
                            let e1 = skip_ws(s, e);
                            if e1 < s.len() && s[e1] == 0x2c {
                                let e2 = skip_ws(s, e1 + 1);
                                if e2 <= i {
                                    None
                                } else {
                                    skip_members(s, e2, depth)
                                }
                            } else if e1 < s.len() && s[e1] == 0x7d {
                                Some(e1 + 1)
                            } else {
                                None
                            }
                        },
                    }
                }
            }
        },
    }
}

/// Skips array elements as `spec_skip_elems` describes.
pub fn skip_elems(s: &[u8], i: usize, depth: u32) -> (r: Option<usize>)
    requires
        i <= s@.len(),
    ensures
        opt_end(r) == spec_skip_elems(s@, i as int, depth as nat),
        r matches Some(j) ==> i <= j <= s@.len(),
    decreases depth, s@.len() - i, 2int,
{
    match skip_value(s, i, depth) {
        None => None,
        Some(e) => {
            let e1 = skip_ws(s, e);
            if e1 < s.len() && s[e1] == 0x2c {
                let e2 = skip_ws(s, e1 + 1);
                if e2 <= i {
                    None
                } else {
                    skip_elems(s, e2, depth)
                }
            } else if e1 < s.len() && s[e1] == 0x5d {
                Some(e1 + 1)
            } else {
                None
            }
        },
    }
}


/// Prepends an already-parsed list of strings onto a parse continuation.
pub open spec fn prepend_sv(b: Seq<Seq<u8>>, o: Option<(Seq<Seq<u8>>, int)>) -> Option<
    (Seq<Seq<u8>>, int),
> {
    match o {
        None => None,
        Some((rest, j)) => Some((b + rest, j)),
    }
}

/// One or more comma-separated string literals up to and including the
/// closing bracket.
pub open spec fn spec_str_items(s: Seq<u8>, i: int) -> Option<(Seq<Seq<u8>>, int)>
    decreases s.len() - i,
{
    match spec_parse_string(s, i) {
        None => None,
        Some((v, j)) => {
            let e1 = spec_skip_ws(s, j);
            if 0 <= e1 < s.len() && s[e1] == 0x2c {
                let e2 = spec_skip_ws(s, e1 + 1);
                if e2 <= i || e2 > s.len() {
                    None
                } else {
                    match spec_str_items(s, e2) {
                        None => None,
                        Some((rest, k)) => Some((seq![v] + rest, k)),
                    }
                }
            } else if 0 <= e1 < s.len() && s[e1] == 0x5d {
                Some((seq![v], e1 + 1))
            } else {
                None
            }
        },
    }
}

/// A JSON array of strings.
pub open spec fn spec_parse_str_array(s: Seq<u8>, i: int) -> Option<(Seq<Seq<u8>>, int)> {
    if 0 <= i < s.len() && s[i] == 0x5b {
        let j = spec_skip_ws(s, i + 1);
        if j < i + 1 || j > s.len() {
            None
        } else if j < s.len() && s[j] == 0x5d {
            Some((Seq::empty(), j + 1))
        } else {
            spec_str_items(s, j)
        }
    } else {
        None
    }
}

/// Maps an executable string-array parse to its specification form.
pub open spec fn opt_sv(r: Option<(Vec<Vec<u8>>, usize)>) -> Option<(Seq<Seq<u8>>, int)> {
    match r {
        None => None,
        Some((v, j)) => Some((v.deep_view(), j as int)),
    }
}

/// Reads an array of strings as `spec_parse_str_array` describes.
#[verifier::loop_isolation(false)]
pub fn parse_str_array(s: &[u8], i: usize) -> (r: Option<(Vec<Vec<u8>>, usize)>)
    requires
        i <= s@.len(),
    ensures
        opt_sv(r) == spec_parse_str_array(s@, i as int),
        r matches Some(p) ==> p.1 <= s@.len(),
{
    if !(i < s.len() && s[i] == 0x5b) {
        return None;
    }
    let j = skip_ws(s, i + 1);
    if j < s.len() && s[j] == 0x5d {
        let empty: Vec<Vec<u8>> = Vec::new();
        proof {
            assert(empty.deep_view() =~= Seq::<Seq<u8>>::empty());
        }
        return Some((empty, j + 1));
    }
    let mut acc: Vec<Vec<u8>> = Vec::new();
    let mut p = j;
    proof {
        assert(acc.deep_view() =~= Seq::<Seq<u8>>::empty());
        if let Some((rest, k)) = spec_str_items(s@, j as int) {
            assert(Seq::<Seq<u8>>::empty() + rest =~= rest);
        }
    }
    loop
        invariant
            j <= p <= s@.len(),
            spec_str_items(s@, j as int) == prepend_sv(acc.deep_view(), spec_str_items(s@, p as int)),
        decreases s@.len() - p,
    {
        match parse_string(s, p) {
            None => {
                proof {
                    assert(spec_str_items(s@, p as int) is None);
                }
                return None;
            },
            Some((v, k)) => {
                let e1 = skip_ws(s, k);
                if e1 < s.len() && s[e1] == 0x2c {
                    let e2 = skip_ws(s, e1 + 1);
                    if e2 <= p {
                        proof {
                            assert(spec_str_items(s@, p as int) is None);
                        }
                        return None;
                    }
                    let ghost before = acc.deep_view();
                    let ghost vv = v@;
                    acc.push(v);
                    proof {
                        assert(acc.deep_view() =~~= before.push(vv));
                        if let Some((rest, k2)) = spec_str_items(s@, e2 as int) {
                            assert(spec_str_items(s@, p as int) == Some(
                                (seq![vv] + rest, k2),
                            ));
                            assert(before + (seq![vv] + rest) =~~= before.push(vv) + rest);
                        } else {
                            assert(spec_str_items(s@, p as int) is None);
                        }
                    }
                    p = e2;
                } else if e1 < s.len() && s[e1] == 0x5d {
                    let ghost before = acc.deep_view();
                    let ghost vv = v@;
                    acc.push(v);
                    proof {
                        assert(acc.deep_view() =~~= before.push(vv));
                        assert(spec_str_items(s@, p as int) == Some((seq![vv], e1 + 1)));
                        assert(before + seq![vv] =~~= before.push(vv));
                    }
                    return Some((acc, e1 + 1));
                } else {
                    proof {
                        assert(spec_str_items(s@, p as int) is None);
                    }
                    return None;
                }
            },
        }
    }
}

/// Prepends already-parsed bytes onto a byte-array continuation.
pub open spec fn prepend_bv(b: Seq<u8>, o: Option<(Seq<u8>, int)>) -> Option<(Seq<u8>, int)> {
    match o {
        None => None,
        Some((rest, j)) => Some((b + rest, j)),
    }
}

/// One or more comma-separated byte-sized numbers up to and including
/// the closing bracket.
pub open spec fn spec_byte_items(s: Seq<u8>, i: int) -> Option<(Seq<u8>, int)>
    decreases s.len() - i,
{
    match spec_parse_number(s, i) {
        None => None,
        Some((v, j)) => {
            if v > 255 {
                None
            } else {
                let e1 = spec_skip_ws(s, j);
                if 0 <= e1 < s.len() && s[e1] == 0x2c {
                    let e2 = spec_skip_ws(s, e1 + 1);
                    if e2 <= i || e2 > s.len() {
                        None
                    } else {
                        match spec_byte_items(s, e2) {
                            None => None,
                            Some((rest, k)) => Some((seq![v as u8] + rest, k)),
                        }
                    }
                } else if 0 <= e1 < s.len() && s[e1] == 0x5d {
                    Some((seq![v as u8], e1 + 1))
                } else {
                    None
                }
            }
        },
    }
}

/// A JSON array of byte-sized numbers.
pub open spec fn spec_parse_byte_array(s: Seq<u8>, i: int) -> Option<(Seq<u8>, int)> {
    if 0 <= i < s.len() && s[i] == 0x5b {
        let j = spec_skip_ws(s, i + 1);
        if j < i + 1 || j > s.len() {
            None
        } else if j < s.len() && s[j] == 0x5d {
            Some((Seq::empty(), j + 1))
        } else {
            spec_byte_items(s, j)
        }
    } else {
        None
    }
}

/// Reads an array of byte-sized numbers as `spec_parse_byte_array`
/// describes.
#[verifier::loop_isolation(false)]
pub fn parse_byte_array(s: &[u8], i: usize) -> (r: Option<(Vec<u8>, usize)>)
    requires
        i <= s@.len(),
    ensures
        opt_bytes(r) == spec_parse_byte_array(s@, i as int),
        r matches Some(p) ==> p.1 <= s@.len(),
{
    if !(i < s.len() && s[i] == 0x5b) {
        return None;
    }
    let j = skip_ws(s, i + 1);
    if j < s.len() && s[j] == 0x5d {
        let empty: Vec<u8> = Vec::new();
        return Some((empty, j + 1));
    }
    let mut acc: Vec<u8> = Vec::new();
    let mut p = j;
    proof {
        if let Some((rest, k)) = spec_byte_items(s@, j as int) {
            assert(Seq::<u8>::empty() + rest =~= rest);
        }
    }
    loop
        invariant
            j <= p <= s@.len(),
            spec_byte_items(s@, j as int) == prepend_bv(acc@, spec_byte_items(s@, p as int)),
        decreases s@.len() - p,
    {
        match parse_number(s, p) {
            None => {
                proof {
                    assert(spec_byte_items(s@, p as int) is None);
                }
                return None;
            },
            Some((v, k)) => {
                if v > 255 {
                    proof {
                        assert(spec_byte_items(s@, p as int) is None);
                    }
                    return None;
                }
                let e1 = skip_ws(s, k);
                if e1 < s.len() && s[e1] == 0x2c {
                    let e2 = skip_ws(s, e1 + 1);
                    if e2 <= p {
                        proof {
                            assert(spec_byte_items(s@, p as int) is None);
                        }
                        return None;
                    }
                    let ghost before = acc@;
                    acc.push(v as u8);
                    proof {
                        if let Some((rest, k2)) = spec_byte_items(s@, e2 as int) {
                            assert(spec_byte_items(s@, p as int) == Some(
                                (seq![(v as u8)] + rest, k2),
                            ));
                            assert(before + (seq![(v as u8)] + rest) =~= acc@ + rest);
                        } else {
                            assert(spec_byte_items(s@, p as int) is None);
                        }
                    }
                    p = e2;
                } else if e1 < s.len() && s[e1] == 0x5d {
                    let ghost before = acc@;
                    acc.push(v as u8);
                    proof {
                        assert(spec_byte_items(s@, p as int) == Some((seq![(v as u8)], e1 + 1)));
                        assert(before + seq![(v as u8)] =~= acc@);
                    }
                    return Some((acc, e1 + 1));
                } else {
                    proof {
                        assert(spec_byte_items(s@, p as int) is None);
                    }
                    return None;
                }
            },
        }
    }
}

} // verus!
