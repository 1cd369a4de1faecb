//! The progress gauge: a coarse position estimate read off a key's text.

use vstd::prelude::*;

verus! {

/// The largest value the gauge can take.
pub const GAUGE_MAX: u64 = 0xFFFF;

/// The value of `c` as a base-16 digit, if it is one.
pub open spec fn hex_digit(c: char) -> Option<nat> {
    if '0' <= c <= '9' {
        Some((c as nat - '0' as nat) as nat)
    } else if 'a' <= c <= 'f' {
        Some((c as nat - 'a' as nat + 10) as nat)
    } else if 'A' <= c <= 'F' {
        Some((c as nat - 'A' as nat + 10) as nat)
    } else {
        None
    }
}

/// Reads `c` as a base-16 digit.
pub fn hex_digit_value(c: char) -> (digit: Option<u64>)
    ensures
        digit is Some <==> hex_digit(c) is Some,
        digit matches Some(d) ==> hex_digit(c) == Some(d as nat) && d < 16,
{
    let code: u32 = c as u32;
    if 0x30 <= code && code <= 0x39 {
        Some((code - 0x30) as u64)
    } else if 0x61 <= code && code <= 0x66 {
        Some((code - 0x61 + 10) as u64)
    } else if 0x41 <= code && code <= 0x46 {
        Some((code - 0x41 + 10) as u64)
    } else {
        None
    }
}

/// Whether the two-character marker `0x` stands at position `at` of `text`.
pub open spec fn marker_at(text: Seq<char>, at: int) -> bool {
    &&& 0 <= at
    &&& at + 2 <= text.len()
    &&& text[at] == '0'
    &&& text[at + 1] == 'x'
}

/// Whether `at` is the position of the leftmost marker in `text`.
pub open spec fn first_marker(text: Seq<char>, at: int) -> bool {
    &&& marker_at(text, at)
    &&& forall|before: int| 0 <= before < at ==> !marker_at(text, before)
}

/// Whether `text` holds a marker at all.
pub open spec fn has_marker(text: Seq<char>) -> bool {
    exists|at: int| first_marker(text, at)
}

/// The position of the leftmost marker in a text that has one.
pub open spec fn marker_index(text: Seq<char>) -> int
    recommends
        has_marker(text),
{
    choose|at: int| first_marker(text, at)
}

/// The number that the four characters at `at` spell in base 16, if all
/// four are there and each is a base-16 digit.
pub open spec fn hex_block(text: Seq<char>, at: int) -> Option<nat> {
    if 0 <= at && at + 4 <= text.len() {
        match (
            hex_digit(text[at]),
            hex_digit(text[at + 1]),
            hex_digit(text[at + 2]),
            hex_digit(text[at + 3]),
        ) {
            (Some(a), Some(b), Some(c), Some(d)) => Some(a * 4096 + b * 256 + c * 16 + d),
            _ => None,
        }
    } else {
        None
    }
}

/// The gauge value of a key's text: the four base-16 digits that follow the
/// leftmost marker, and 0 where there is no marker or no such digits.
pub open spec fn estimate_of(text: Seq<char>) -> nat {
    if has_marker(text) {
        match hex_block(text, marker_index(text) + 2) {
            Some(value) => value,
            None => 0,
        }
    } else {
        0
    }
}

/// A text has at most one leftmost marker.
pub proof fn lemma_first_marker_unique(text: Seq<char>, a: int, b: int)
    requires
        first_marker(text, a),
        first_marker(text, b),
    ensures
        a == b,
{
}

/// The gauge value of every text fits in 16 bits.
pub proof fn lemma_estimate_bounded(text: Seq<char>)
    ensures
        estimate_of(text) <= GAUGE_MAX,
{
}

/// The gauge value of a text with its leftmost marker at `at` is read at `at + 2`.
pub proof fn lemma_estimate_at_marker(text: Seq<char>, at: int)
    requires
        first_marker(text, at),
    ensures
        has_marker(text),
        marker_index(text) == at,
        estimate_of(text) == match hex_block(text, at + 2) {
            Some(value) => value,
            None => 0,
        },
{
    lemma_first_marker_unique(text, at, marker_index(text));
}

/// A text without a marker has gauge value 0.
pub proof fn lemma_estimate_without_marker(text: Seq<char>)
    requires
        forall|at: int| !marker_at(text, at),
    ensures
        !has_marker(text),
        estimate_of(text) == 0,
{
}

/// The position of the leftmost marker among `chars`.
fn find_marker(chars: &Vec<char>) -> (found: Option<usize>)
    ensures
        found matches Some(at) ==> first_marker(chars@, at as int),
        found is None ==> forall|at: int| !marker_at(chars@, at),
{
    let n: usize = chars.len();
    let mut i: usize = 0;
    while i < n && n - i >= 2
        invariant
            n == chars.len(),
            i <= n,
            forall|before: int| 0 <= before < i ==> !marker_at(chars@, before),
        decreases n - i,
    {
        if chars[i] == '0' && chars[i + 1] == 'x' {
            return Some(i);
        }
        i = i + 1;
    }
    None
}

/// Reads the four base-16 digits that start at `at`.
fn read_hex_block(chars: &Vec<char>, at: usize) -> (value: Option<u64>)
    ensures
        value is Some <==> hex_block(chars@, at as int) is Some,
        value matches Some(v) ==> hex_block(chars@, at as int) == Some(v as nat) && v <= GAUGE_MAX,
{
    let n: usize = chars.len();
    if at > n || n - at < 4 {
        return None;
    }
    let a = hex_digit_value(chars[at]);
    let b = hex_digit_value(chars[at + 1]);
    let c = hex_digit_value(chars[at + 2]);
    let d = hex_digit_value(chars[at + 3]);
    match (a, b, c, d) {
        (Some(a), Some(b), Some(c), Some(d)) => Some(a * 4096 + b * 256 + c * 16 + d),
        _ => None,
    }
}

/// The characters of `text`, in order.
fn text_chars(text: &str) -> (chars: Vec<char>)
    ensures
        chars@ == text@,
{
    let mut chars: Vec<char> = Vec::new();
    for c in it: text.chars()
        invariant
            it.seq() == text@,
            chars@ == it.seq().take(it.index()),
    {
        chars.push(c);
    }
    chars
}

/// Estimates the position of a key within its range from the key's text.
///
/// The text is searched for the marker `0x`; the four characters behind the
/// leftmost one are read as a base-16 number. A text without a marker, with
/// fewer than four characters behind it, or with anything but base-16 digits
/// there has the value 0.
pub fn estimate(text: &str) -> (gauge: u64)
    ensures
        gauge == estimate_of(text@),
        gauge <= GAUGE_MAX,
{
    let chars = text_chars(text);
    match find_marker(&chars) {
        Some(at) => {
            proof {
                lemma_estimate_at_marker(chars@, at as int);
            }
            match read_hex_block(&chars, at + 2) {
                Some(value) => value,
                None => 0,
            }
        },
        None => {
            proof {
                lemma_estimate_without_marker(chars@);
            }
            0
        },
    }
}

/// The gauge value of the key text `input`.
pub fn progress(input: String) -> (gauge: u64)
    ensures
        gauge == estimate_of(input@),
        gauge <= GAUGE_MAX,
{
    estimate(input.as_str())
}

} // verus!
