//! A byte-level scanner for JSON documents.
//!
//! The proxy never needs a parse tree: it needs to know that a body is one
//! well-formed JSON value, to find the members of the top-level object by
//! key, and to cut their raw byte ranges out so they can be re-emitted
//! untouched. The grammar is defined once, as the spec functions below, and
//! the executable scanner is proved to decide exactly that grammar.
//!
//! Strings keep their escape sequences raw: a member value is always the
//! exact byte range the caller sent, so nothing this module hands out can
//! drift from the wire bytes.

use vstd::prelude::*;

verus! {

/// JSON whitespace: space, tab, line feed, carriage return.
pub open spec fn is_ws(c: u8) -> bool {
    c == 32 || c == 9 || c == 10 || c == 13
}

/// ASCII decimal digit.
pub open spec fn is_digit(c: u8) -> bool {
    48 <= c <= 57
}

/// ASCII hexadecimal digit, either case.
pub open spec fn is_hex(c: u8) -> bool {
    is_digit(c) || (97 <= c <= 102) || (65 <= c <= 70)
}

/// Index of the first non-whitespace byte at or after `i`.
pub open spec fn skip_ws(b: Seq<u8>, i: int) -> int
    decreases b.len() - i,
{
    if 0 <= i && i < b.len() && is_ws(b[i]) {
        skip_ws(b, i + 1)
    } else {
        i
    }
}

pub proof fn lemma_skip_ws_bounds(b: Seq<u8>, i: int)
    requires
        0 <= i <= b.len(),
    ensures
        i <= skip_ws(b, i) <= b.len(),
    decreases b.len() - i,
{
    if i < b.len() && is_ws(b[i]) {
        lemma_skip_ws_bounds(b, i + 1);
    }
}

/// Index of the first non-digit byte at or after `i`.
pub open spec fn skip_digits(b: Seq<u8>, i: int) -> int
    decreases b.len() - i,
{
    if 0 <= i && i < b.len() && is_digit(b[i]) {
        skip_digits(b, i + 1)
    } else {
        i
    }
}

pub proof fn lemma_skip_digits_bounds(b: Seq<u8>, i: int)
    requires
        0 <= i <= b.len(),
    ensures
        i <= skip_digits(b, i) <= b.len(),
    decreases b.len() - i,
{
    if i < b.len() && is_digit(b[i]) {
        lemma_skip_digits_bounds(b, i + 1);
    }
}

/// End of a string literal whose opening quote sits just before `i`:
/// the index after the closing quote, or `None` if the bytes from `i`
/// are not a valid string remainder. Escape sequences are checked but
/// kept raw.
pub open spec fn scan_str_rest(b: Seq<u8>, i: int) -> Option<int>
    decreases b.len() - i,
{
    if i < 0 || i >= b.len() {
        None
    } else if b[i] == 34 {  // '"'
        Some(i + 1)
    } else if b[i] == 92 {  // '\'
        if i + 1 < b.len() {
            let e = b[i + 1];
            if e == 34 || e == 92 || e == 47 || e == 98 || e == 102 || e == 110 || e == 114
                || e == 116 {
                scan_str_rest(b, i + 2)
            } else if e == 117 {  // 'u' and four hex digits
                if i + 6 <= b.len() && is_hex(b[i + 2]) && is_hex(b[i + 3]) && is_hex(b[i + 4])
                    && is_hex(b[i + 5]) {
                    scan_str_rest(b, i + 6)
                } else {
                    None
                }
            } else {
                None
            }
        } else {
            None
        }
    } else if b[i] < 32 {  // raw control bytes never appear in a string
        None
    } else {
        scan_str_rest(b, i + 1)
    }
}

pub proof fn lemma_scan_str_rest_bounds(b: Seq<u8>, i: int)
    requires
        scan_str_rest(b, i) is Some,
    ensures
        i + 1 <= scan_str_rest(b, i).unwrap() <= b.len(),
    decreases b.len() - i,
{
    if 0 <= i && i < b.len() {
        if b[i] == 34 {
        } else if b[i] == 92 {
            if b[i + 1] == 117 {
                lemma_scan_str_rest_bounds(b, i + 6);
            } else {
                lemma_scan_str_rest_bounds(b, i + 2);
            }
        } else {
            lemma_scan_str_rest_bounds(b, i + 1);
        }
    }
}

/// End of an optional fraction part starting at `k`; `None` when a `.`
/// is not followed by at least one digit.
pub open spec fn scan_frac(b: Seq<u8>, k: int) -> Option<int> {
    if 0 <= k && k < b.len() && b[k] == 46 {  // '.'
        let d = skip_digits(b, k + 1);
        if d > k + 1 {
            Some(d)
        } else {
            None
        }
    } else {
        Some(k)
    }
}

/// End of an optional exponent part starting at `k`; `None` when an `e`
/// or `E` is not followed by at least one digit.
pub open spec fn scan_exp(b: Seq<u8>, k: int) -> Option<int> {
    if 0 <= k && k < b.len() && (b[k] == 101 || b[k] == 69) {  // 'e' 'E'
        let s = if k + 1 < b.len() && (b[k + 1] == 43 || b[k + 1] == 45) {  // '+' '-'
            k + 2
        } else {
            k + 1
        };
        let d = skip_digits(b, s);
        if d > s {
            Some(d)
        } else {
            None
        }
    } else {
        Some(k)
    }
}

/// End of a JSON number starting at `i`: optional minus, an integer part
/// without a superfluous leading zero, optional fraction, optional exponent.
pub open spec fn scan_number(b: Seq<u8>, i: int) -> Option<int> {
    if i < 0 || i >= b.len() {
        None
    } else {
        let j = if b[i] == 45 {  // '-'
            i + 1
        } else {
            i
        };
        if j < b.len() && is_digit(b[j]) {
            let k = if b[j] == 48 {  // a leading '0' stands alone
                j + 1
            } else {
                skip_digits(b, j)
            };
            match scan_frac(b, k) {
                Some(k2) => scan_exp(b, k2),
                None => None,
            }
        } else {
            None
        }
    }
}

pub proof fn lemma_scan_number_bounds(b: Seq<u8>, i: int)
    requires
        scan_number(b, i) is Some,
    ensures
        i + 1 <= scan_number(b, i).unwrap() <= b.len(),
{
    let j = if b[i] == 45 {
        i + 1
    } else {
        i
    };
    lemma_skip_digits_bounds(b, j + 1);
    assert(is_digit(b[j]) ==> skip_digits(b, j) == skip_digits(b, j + 1));
    let k = if b[j] == 48 {
        j + 1
    } else {
        skip_digits(b, j)
    };
    let k2 = scan_frac(b, k).unwrap();
    if 0 <= k && k < b.len() && b[k] == 46 {
        lemma_skip_digits_bounds(b, k + 1);
    }
    if 0 <= k2 && k2 < b.len() && (b[k2] == 101 || b[k2] == 69) {
        if k2 + 1 < b.len() && (b[k2 + 1] == 43 || b[k2 + 1] == 45) {
            lemma_skip_digits_bounds(b, k2 + 2);
        } else {
            lemma_skip_digits_bounds(b, k2 + 1);
        }
    }
}

/// End of the JSON value that starts at `i` (no leading whitespace).
pub open spec fn scan_value(b: Seq<u8>, i: int) -> Option<int>
    decreases b.len() - i, 0int,
{
    if i < 0 || i >= b.len() {
        None
    } else if b[i] == 123 {  // '{'
        let j = skip_ws(b, i + 1);
        if i < j && j <= b.len() {
            if j < b.len() && b[j] == 125 {  // '}'
                Some(j + 1)
            } else {
                scan_members(b, j)
            }
        } else {
            None
        }
    } else if b[i] == 91 {  // '['
        let j = skip_ws(b, i + 1);
        if i < j && j <= b.len() {
            if j < b.len() && b[j] == 93 {  // ']'
                Some(j + 1)
            } else {
                scan_elements(b, j)
            }
        } else {
            None
        }
    } else if b[i] == 34 {  // '"'
        scan_str_rest(b, i + 1)
    } else if b[i] == 116 {  // "true"
        if i + 4 <= b.len() && b[i + 1] == 114 && b[i + 2] == 117 && b[i + 3] == 101 {
            Some(i + 4)
        } else {
            None
        }
    } else if b[i] == 102 {  // "false"
        if i + 5 <= b.len() && b[i + 1] == 97 && b[i + 2] == 108 && b[i + 3] == 115 && b[i + 4]
            == 101 {
            Some(i + 5)
        } else {
            None
        }
    } else if b[i] == 110 {  // "null"
        if i + 4 <= b.len() && b[i + 1] == 117 && b[i + 2] == 108 && b[i + 3] == 108 {
            Some(i + 4)
        } else {
            None
        }
    } else if b[i] == 45 || is_digit(b[i]) {
        scan_number(b, i)
    } else {
        None
    }
}

/// End of an object tail: `i` stands on the key string of a member, and the
/// scan runs to the index after the closing `}`.
pub open spec fn scan_members(b: Seq<u8>, i: int) -> Option<int>
    decreases b.len() - i, 1int,
{
    if i < 0 || i >= b.len() || b[i] != 34 {
        None
    } else {
        match scan_str_rest(b, i + 1) {
            None => None,
            Some(ke) => {
                let j = skip_ws(b, ke);
                if j < b.len() && b[j] == 58 {  // ':'
                    let v = skip_ws(b, j + 1);
                    if i <= v && v <= b.len() {
                        match scan_value(b, v) {
                            None => None,
                            Some(ve) => {
                                let j2 = skip_ws(b, ve);
                                if j2 < b.len() {
                                    if b[j2] == 125 {  // '}'
                                        Some(j2 + 1)
                                    } else if b[j2] == 44 {  // ','
                                        let n = skip_ws(b, j2 + 1);
                                        if i < n && n <= b.len() {
                                            scan_members(b, n)
                                        } else {
                                            None
                                        }
                                    } else {
                                        None
                                    }
                                } else {
                                    None
                                }
                            },
                        }
                    } else {
                        None
                    }
                } else {
                    None
                }
            },
        }
    }
}

/// End of an array tail: `i` stands on the first byte of an element, and
/// the scan runs to the index after the closing `]`.
pub open spec fn scan_elements(b: Seq<u8>, i: int) -> Option<int>
    decreases b.len() - i, 1int,
{
    if i < 0 || i > b.len() {
        None
    } else {
        match scan_value(b, i) {
            None => None,
            Some(ve) => {
                let j = skip_ws(b, ve);
                if j < b.len() {
                    if b[j] == 93 {  // ']'
                        Some(j + 1)
                    } else if b[j] == 44 {  // ','
                        let n = skip_ws(b, j + 1);
                        if i < n && n <= b.len() {
                            scan_elements(b, n)
                        } else {
                            None
                        }
                    } else {
                        None
                    }
                } else {
                    None
                }
            },
        }
    }
}

pub proof fn lemma_scan_value_bounds(b: Seq<u8>, i: int)
    requires
        scan_value(b, i) is Some,
    ensures
        i + 1 <= scan_value(b, i).unwrap() <= b.len(),
    decreases b.len() - i, 0int,
{
    if 0 <= i && i < b.len() {
        if b[i] == 123 || b[i] == 91 {
            let j = skip_ws(b, i + 1);
            lemma_skip_ws_bounds(b, i + 1);
            let close: u8 = if b[i] == 123 {
                125
            } else {
                93
            };
            if j < b.len() && b[j] == close {
            } else if b[i] == 123 {
                lemma_scan_members_bounds(b, j);
            } else {
                lemma_scan_elements_bounds(b, j);
            }
        } else if b[i] == 34 {
            lemma_scan_str_rest_bounds(b, i + 1);
        } else if b[i] == 45 || is_digit(b[i]) {
            lemma_scan_number_bounds(b, i);
        }
    }
}

pub proof fn lemma_scan_members_bounds(b: Seq<u8>, i: int)
    requires
        scan_members(b, i) is Some,
    ensures
        i + 1 <= scan_members(b, i).unwrap() <= b.len(),
    decreases b.len() - i, 1int,
{
    let ke = scan_str_rest(b, i + 1).unwrap();
    lemma_scan_str_rest_bounds(b, i + 1);
    let j = skip_ws(b, ke);
    lemma_skip_ws_bounds(b, ke);
    let v = skip_ws(b, j + 1);
    lemma_skip_ws_bounds(b, j + 1);
    let ve = scan_value(b, v).unwrap();
    lemma_scan_value_bounds(b, v);
    let j2 = skip_ws(b, ve);
    lemma_skip_ws_bounds(b, ve);
    if b[j2] == 44 {
        let n = skip_ws(b, j2 + 1);
        lemma_skip_ws_bounds(b, j2 + 1);
        lemma_scan_members_bounds(b, n);
    }
}

pub proof fn lemma_scan_elements_bounds(b: Seq<u8>, i: int)
    requires
        scan_elements(b, i) is Some,
    ensures
        i + 1 <= scan_elements(b, i).unwrap() <= b.len(),
    decreases b.len() - i, 1int,
{
    let ve = scan_value(b, i).unwrap();
    lemma_scan_value_bounds(b, i);
    let j = skip_ws(b, ve);
    lemma_skip_ws_bounds(b, ve);
    if b[j] == 44 {
        let n = skip_ws(b, j + 1);
        lemma_skip_ws_bounds(b, j + 1);
        lemma_scan_elements_bounds(b, n);
    }
}

/// End of the single JSON value of a whole document, leading whitespace
/// skipped.
pub open spec fn doc_value_end(b: Seq<u8>) -> Option<int> {
    scan_value(b, skip_ws(b, 0))
}

/// The bytes are exactly one JSON value, surrounded by whitespace at most.
pub open spec fn is_json_doc(b: Seq<u8>) -> bool {
    match doc_value_end(b) {
        Some(e) => skip_ws(b, e) == b.len(),
        None => false,
    }
}

fn ws_byte(c: u8) -> (r: bool)
    ensures
        r == is_ws(c),
{
    c == 32 || c == 9 || c == 10 || c == 13
}

fn digit_byte(c: u8) -> (r: bool)
    ensures
        r == is_digit(c),
{
    48 <= c && c <= 57
}

fn hex_byte(c: u8) -> (r: bool)
    ensures
        r == is_hex(c),
{
    (48 <= c && c <= 57) || (97 <= c && c <= 102) || (65 <= c && c <= 70)
}

pub fn skip_ws_x(b: &[u8], i: usize) -> (r: usize)
    requires
        i <= b.len(),
    ensures
        i <= r <= b.len(),
        r as int == skip_ws(b@, i as int),
    decreases b.len() - i,
{
    if i < b.len() && ws_byte(b[i]) {
        skip_ws_x(b, i + 1)
    } else {
        i
    }
}

fn skip_digits_x(b: &[u8], i: usize) -> (r: usize)
    requires
        i <= b.len(),
    ensures
        i <= r <= b.len(),
        r as int == skip_digits(b@, i as int),
    decreases b.len() - i,
{
    if i < b.len() && digit_byte(b[i]) {
        skip_digits_x(b, i + 1)
    } else {
        i
    }
}

fn scan_str_rest_x(b: &[u8], i: usize) -> (r: Option<usize>)
    requires
        i <= b.len(),
    ensures
        (match r {
            Some(e) => scan_str_rest(b@, i as int) == Some(e as int) && i < e <= b.len(),
            None => scan_str_rest(b@, i as int) is None,
        }),
    decreases b.len() - i,
{
    if i >= b.len() {
        None
    } else if b[i] == 34 {
        Some(i + 1)
    } else if b[i] == 92 {
        if i + 1 < b.len() {
            let e = b[i + 1];
            if e == 34 || e == 92 || e == 47 || e == 98 || e == 102 || e == 110 || e == 114
                || e == 116 {
                scan_str_rest_x(b, i + 2)
            } else if e == 117 {
                if b.len() - i >= 6 && hex_byte(b[i + 2]) && hex_byte(b[i + 3]) && hex_byte(
                    b[i + 4],
                ) && hex_byte(b[i + 5]) {
                    scan_str_rest_x(b, i + 6)
                } else {
                    None
                }
            } else {
                None
            }
        } else {
            None
        }
    } else if b[i] < 32 {
        None
    } else {
        scan_str_rest_x(b, i + 1)
    }
}

fn scan_number_x(b: &[u8], i: usize) -> (r: Option<usize>)
    requires
        i <= b.len(),
    ensures
        (match r {
            Some(e) => scan_number(b@, i as int) == Some(e as int) && i < e <= b.len(),
            None => scan_number(b@, i as int) is None,
        }),
{
    if i >= b.len() {
        return None;
    }
    let j = if b[i] == 45 {
        i + 1
    } else {
        i
    };
    if !(j < b.len() && digit_byte(b[j])) {
        return None;
    }
    let k = if b[j] == 48 {
        j + 1
    } else {
        let kk = skip_digits_x(b, j);
        proof {
            lemma_skip_digits_bounds(b@, j as int + 1);
            assert(skip_digits(b@, j as int) == skip_digits(b@, j as int + 1));
        }
        kk
    };
    let k2 = if k < b.len() && b[k] == 46 {
        let d = skip_digits_x(b, k + 1);
        if d > k + 1 {
            d
        } else {
            return None;
        }
    } else {
        k
    };
    if k2 < b.len() && (b[k2] == 101 || b[k2] == 69) {
        let s = if k2 + 1 < b.len() && (b[k2 + 1] == 43 || b[k2 + 1] == 45) {
            k2 + 2
        } else {
            k2 + 1
        };
        let d = skip_digits_x(b, s);
        if d > s {
            Some(d)
        } else {
            None
        }
    } else {
        Some(k2)
    }
}

pub fn scan_value_x(b: &[u8], i: usize) -> (r: Option<usize>)
    requires
        i <= b.len(),
    ensures
        (match r {
            Some(e) => scan_value(b@, i as int) == Some(e as int) && i < e <= b.len(),
            None => scan_value(b@, i as int) is None,
        }),
    decreases b.len() - i, 0int,
{
    if i >= b.len() {
        None
    } else if b[i] == 123 {
        let j = skip_ws_x(b, i + 1);
        if j < b.len() && b[j] == 125 {
            Some(j + 1)
        } else {
            scan_members_x(b, j)
        }
    } else if b[i] == 91 {
        let j = skip_ws_x(b, i + 1);
        if j < b.len() && b[j] == 93 {
            Some(j + 1)
        } else {
            scan_elements_x(b, j)
        }
    } else if b[i] == 34 {
        scan_str_rest_x(b, i + 1)
    } else if b[i] == 116 {
        if b.len() - i >= 4 && b[i + 1] == 114 && b[i + 2] == 117 && b[i + 3] == 101 {
            Some(i + 4)
        } else {
            None
        }
    } else if b[i] == 102 {
        if b.len() - i >= 5 && b[i + 1] == 97 && b[i + 2] == 108 && b[i + 3] == 115 && b[i + 4]
            == 101 {
            Some(i + 5)
        } else {
            None
        }
    } else if b[i] == 110 {
        if b.len() - i >= 4 && b[i + 1] == 117 && b[i + 2] == 108 && b[i + 3] == 108 {
            Some(i + 4)
        } else {
            None
        }
    } else if b[i] == 45 || digit_byte(b[i]) {
        scan_number_x(b, i)
    } else {
        None
    }
}

fn scan_members_x(b: &[u8], i: usize) -> (r: Option<usize>)
    requires
        i <= b.len(),
    ensures
        (match r {
            Some(e) => scan_members(b@, i as int) == Some(e as int) && i < e <= b.len(),
            None => scan_members(b@, i as int) is None,
        }),
    decreases b.len() - i, 1int,
{
    if i >= b.len() || b[i] != 34 {
        return None;
    }
    let ke = match scan_str_rest_x(b, i + 1) {
        None => {
            return None;
        },
        Some(ke) => ke,
    };
    let j = skip_ws_x(b, ke);
    if !(j < b.len() && b[j] == 58) {
        return None;
    }
    let v = skip_ws_x(b, j + 1);
    let ve = match scan_value_x(b, v) {
        None => {
            return None;
        },
        Some(ve) => ve,
    };
    let j2 = skip_ws_x(b, ve);
    if j2 >= b.len() {
        None
    } else if b[j2] == 125 {
        Some(j2 + 1)
    } else if b[j2] == 44 {
        let n = skip_ws_x(b, j2 + 1);
        scan_members_x(b, n)
    } else {
        None
    }
}

fn scan_elements_x(b: &[u8], i: usize) -> (r: Option<usize>)
    requires
        i <= b.len(),
    ensures
        (match r {
            Some(e) => scan_elements(b@, i as int) == Some(e as int) && i < e <= b.len(),
            None => scan_elements(b@, i as int) is None,
        }),
    decreases b.len() - i, 1int,
{
    let ve = match scan_value_x(b, i) {
        None => {
            return None;
        },
        Some(ve) => ve,
    };
    let j = skip_ws_x(b, ve);
    if j >= b.len() {
        None
    } else if b[j] == 93 {
        Some(j + 1)
    } else if b[j] == 44 {
        let n = skip_ws_x(b, j + 1);
        scan_elements_x(b, n)
    } else {
        None
    }
}

/// Walks the members of an object whose first key starts at `i` and yields
/// the byte range of the value of the first member whose raw key bytes
/// (between the quotes, escapes untouched) equal `key`.
pub open spec fn find_member(b: Seq<u8>, i: int, key: Seq<u8>) -> Option<(int, int)>
    decreases b.len() - i,
{
    if i < 0 || i >= b.len() || b[i] != 34 {
        None
    } else {
        match scan_str_rest(b, i + 1) {
            None => None,
            Some(ke) => {
                let j = skip_ws(b, ke);
                if j < b.len() && b[j] == 58 {
                    let v = skip_ws(b, j + 1);
                    if i <= v && v <= b.len() {
                        match scan_value(b, v) {
                            None => None,
                            Some(ve) => {
                                if b.subrange(i + 1, ke - 1) == key {
                                    Some((v, ve))
                                } else {
                                    let j2 = skip_ws(b, ve);
                                    if j2 < b.len() && b[j2] == 44 {
                                        let n = skip_ws(b, j2 + 1);
                                        if i < n && n <= b.len() {
                                            find_member(b, n, key)
                                        } else {
                                            None
                                        }
                                    } else {
                                        None
                                    }
                                }
                            },
                        }
                    } else {
                        None
                    }
                } else {
                    None
                }
            },
        }
    }
}

/// The range a member lookup yields is the exact span of one well-formed
/// value inside the document.
pub proof fn lemma_find_member_range(b: Seq<u8>, i: int, key: Seq<u8>)
    requires
        find_member(b, i, key) is Some,
    ensures
        ({
            let (v, ve) = find_member(b, i, key).unwrap();
            i < v < ve <= b.len() && scan_value(b, v) == Some(ve)
        }),
    decreases b.len() - i,
{
    let ke = scan_str_rest(b, i + 1).unwrap();
    lemma_scan_str_rest_bounds(b, i + 1);
    let j = skip_ws(b, ke);
    lemma_skip_ws_bounds(b, ke);
    let v = skip_ws(b, j + 1);
    lemma_skip_ws_bounds(b, j + 1);
    lemma_scan_value_bounds(b, v);
    let ve = scan_value(b, v).unwrap();
    if b.subrange(i + 1, ke - 1) == key {
    } else {
        let j2 = skip_ws(b, ve);
        lemma_skip_ws_bounds(b, ve);
        let n = skip_ws(b, j2 + 1);
        lemma_skip_ws_bounds(b, j2 + 1);
        lemma_find_member_range(b, n, key);
    }
}

/// All raw member keys of the object whose first key starts at `i` are
/// among `keys`, and the member list itself is well-formed.
pub open spec fn keys_within(b: Seq<u8>, i: int, keys: Seq<Seq<u8>>) -> bool
    decreases b.len() - i,
{
    if i < 0 || i >= b.len() || b[i] != 34 {
        false
    } else {
        match scan_str_rest(b, i + 1) {
            None => false,
            Some(ke) => {
                let ok = keys.contains(b.subrange(i + 1, ke - 1));
                let j = skip_ws(b, ke);
                if j < b.len() && b[j] == 58 {
                    let v = skip_ws(b, j + 1);
                    if i <= v && v <= b.len() {
                        match scan_value(b, v) {
                            None => false,
                            Some(ve) => {
                                let j2 = skip_ws(b, ve);
                                if j2 < b.len() {
                                    if b[j2] == 125 {
                                        ok
                                    } else if b[j2] == 44 {
                                        let n = skip_ws(b, j2 + 1);
                                        if i < n && n <= b.len() {
                                            ok && keys_within(b, n, keys)
                                        } else {
                                            false
                                        }
                                    } else {
                                        false
                                    }
                                } else {
                                    false
                                }
                            },
                        }
                    } else {
                        false
                    }
                } else {
                    false
                }
            },
        }
    }
}

/// The views of a list of byte vectors.
pub open spec fn vecs_view(v: Seq<Vec<u8>>) -> Seq<Seq<u8>> {
    Seq::new(v.len(), |i: int| v[i]@)
}

/// Compare the byte range `lo..hi` of `b` with `key`.
pub fn range_eq(b: &[u8], lo: usize, hi: usize, key: &[u8]) -> (r: bool)
    requires
        lo <= hi <= b.len(),
    ensures
        r == (b@.subrange(lo as int, hi as int) == key@),
{
    if hi - lo != key.len() {
        return false;
    }
    let mut k: usize = 0;
    while k < key.len()
        invariant
            lo <= hi <= b.len(),
            hi - lo == key.len(),
            k <= key.len(),
            forall|m: int| 0 <= m < k ==> b@[lo + m] == key@[m],
        decreases key.len() - k,
    {
        if b[lo + k] != key[k] {
            assert(b@.subrange(lo as int, hi as int)[k as int] != key@[k as int]);
            return false;
        }
        k = k + 1;
    }
    proof {
        assert(b@.subrange(lo as int, hi as int) =~= key@);
    }
    true
}

fn range_in_keys(b: &[u8], lo: usize, hi: usize, keys: &Vec<Vec<u8>>) -> (r: bool)
    requires
        lo <= hi <= b.len(),
    ensures
        r == vecs_view(keys@).contains(b@.subrange(lo as int, hi as int)),
{
    let ghost sub = b@.subrange(lo as int, hi as int);
    let mut t: usize = 0;
    while t < keys.len()
        invariant
            lo <= hi <= b.len(),
            t <= keys.len(),
            sub == b@.subrange(lo as int, hi as int),
            forall|m: int| 0 <= m < t ==> vecs_view(keys@)[m] != sub,
        decreases keys.len() - t,
    {
        proof {
            assert(vecs_view(keys@)[t as int] == keys@[t as int]@);
        }
        if range_eq(b, lo, hi, keys[t].as_slice()) {
            assert(vecs_view(keys@)[t as int] == sub);
            return true;
        }
        t = t + 1;
    }
    assert(!vecs_view(keys@).contains(sub)) by {
        if vecs_view(keys@).contains(sub) {
            let m = choose|m: int| 0 <= m < vecs_view(keys@).len() && vecs_view(keys@)[m] == sub;
            assert(vecs_view(keys@)[m] != sub);
        }
    }
    false
}

/// Executable member lookup; mirrors `find_member`.
pub fn find_member_x(b: &[u8], i: usize, key: &[u8]) -> (r: Option<(usize, usize)>)
    requires
        i <= b.len(),
    ensures
        (match r {
            Some((v, ve)) => find_member(b@, i as int, key@) == Some((v as int, ve as int)) && i
                < v < ve <= b.len(),
            None => find_member(b@, i as int, key@) is None,
        }),
    decreases b.len() - i,
{
    if i >= b.len() || b[i] != 34 {
        return None;
    }
    let ke = match scan_str_rest_x(b, i + 1) {
        None => {
            return None;
        },
        Some(ke) => ke,
    };
    let j = skip_ws_x(b, ke);
    if !(j < b.len() && b[j] == 58) {
        return None;
    }
    let v = skip_ws_x(b, j + 1);
    let ve = match scan_value_x(b, v) {
        None => {
            return None;
        },
        Some(ve) => ve,
    };
    if range_eq(b, i + 1, ke - 1, key) {
        Some((v, ve))
    } else {
        let j2 = skip_ws_x(b, ve);
        if j2 < b.len() && b[j2] == 44 {
            let n = skip_ws_x(b, j2 + 1);
            find_member_x(b, n, key)
        } else {
            None
        }
    }
}

/// Executable key check; mirrors `keys_within`.
pub fn keys_within_x(b: &[u8], i: usize, keys: &Vec<Vec<u8>>) -> (r: bool)
    requires
        i <= b.len(),
    ensures
        r == keys_within(b@, i as int, vecs_view(keys@)),
    decreases b.len() - i,
{
    if i >= b.len() || b[i] != 34 {
        return false;
    }
    let ke = match scan_str_rest_x(b, i + 1) {
        None => {
            return false;
        },
        Some(ke) => ke,
    };
    let ok = range_in_keys(b, i + 1, ke - 1, keys);
    let j = skip_ws_x(b, ke);
    if !(j < b.len() && b[j] == 58) {
        return false;
    }
    let v = skip_ws_x(b, j + 1);
    let ve = match scan_value_x(b, v) {
        None => {
            return false;
        },
        Some(ve) => ve,
    };
    let j2 = skip_ws_x(b, ve);
    if j2 >= b.len() {
        false
    } else if b[j2] == 125 {
        ok
    } else if b[j2] == 44 {
        let n = skip_ws_x(b, j2 + 1);
        if ok {
            keys_within_x(b, n, keys)
        } else {
            false
        }
    } else {
        false
    }
}

/// Copy the byte range `lo..hi` of `b` into a fresh vector.
pub fn copy_range(b: &[u8], lo: usize, hi: usize) -> (r: Vec<u8>)
    requires
        lo <= hi <= b.len(),
    ensures
        r@ == b@.subrange(lo as int, hi as int),
{
    let mut out: Vec<u8> = Vec::new();
    let mut k: usize = lo;
    while k < hi
        invariant
            lo <= k <= hi <= b.len(),
            out@ == b@.subrange(lo as int, k as int),
        decreases hi - k,
    {
        out.push(b[k]);
        proof {
            assert(out@ =~= b@.subrange(lo as int, k + 1 as int));
        }
        k = k + 1;
    }
    out
}

} // verus!
