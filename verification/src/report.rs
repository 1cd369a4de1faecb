//! What a run shows of itself: the gauge, the status line, the summary.

use vstd::prelude::*;
use crate::gauge::{estimate, estimate_of, GAUGE_MAX};
use crate::run::{RunState, RunView};

verus! {

/// The character that stands for the decimal digit `d`.
pub open spec fn digit_char(d: nat) -> char {
    if d == 0 {
        '0'
    } else if d == 1 {
        '1'
    } else if d == 2 {
        '2'
    } else if d == 3 {
        '3'
    } else if d == 4 {
        '4'
    } else if d == 5 {
        '5'
    } else if d == 6 {
        '6'
    } else if d == 7 {
        '7'
    } else if d == 8 {
        '8'
    } else {
        '9'
    }
}

/// The decimal numeral of `n`, without leading zeros.
pub open spec fn decimal(n: nat) -> Seq<char>
    decreases n,
{
    if n < 10 {
        seq![digit_char(n)]
    } else {
        decimal(n / 10) + seq![digit_char(n % 10)]
    }
}

/// What stands for "no error yet" in the status line.
pub open spec fn no_error_text() -> Seq<char> {
    "N/A"@
}

/// The status line of a run: the two counters, the cursor and the latest
/// error message.
pub open spec fn status_text(run: RunView) -> Seq<char> {
    "Deleted: "@ + decimal(run.deleted) + " | Errors: "@ + decimal(run.errors) + "\nLast Key: "@
        + run.start + "\nLast Error: "@ + match run.last_error {
        Some(message) => message,
        None => no_error_text(),
    }
}

/// The closing summary of a run: the number of keys it deleted.
pub open spec fn summary_text(run: RunView) -> Seq<char> {
    "Done! Deleted "@ + decimal(run.deleted) + " keys"@
}

/// The one-character string of the decimal digit `d`.
fn digit_str(d: u64) -> (s: &'static str)
    requires
        d < 10,
    ensures
        s@ == seq![digit_char(d as nat)],
{
    proof {
        reveal_strlit("0");
        reveal_strlit("1");
        reveal_strlit("2");
        reveal_strlit("3");
        reveal_strlit("4");
        reveal_strlit("5");
        reveal_strlit("6");
        reveal_strlit("7");
        reveal_strlit("8");
        reveal_strlit("9");
    }
    let s = if d == 0 {
        "0"
    } else if d == 1 {
        "1"
    } else if d == 2 {
        "2"
    } else if d == 3 {
        "3"
    } else if d == 4 {
        "4"
    } else if d == 5 {
        "5"
    } else if d == 6 {
        "6"
    } else if d == 7 {
        "7"
    } else if d == 8 {
        "8"
    } else {
        "9"
    };
    assert(s@ =~= seq![digit_char(d as nat)]);
    s
}

/// Appends the decimal numeral of `n` to `out`.
pub fn push_decimal(out: &mut String, n: u64)
    ensures
        final(out)@ == old(out)@ + decimal(n as nat),
    decreases n,
{
    if n >= 10 {
        push_decimal(out, n / 10);
    }
    out.append(digit_str(n % 10));
    assert(final(out)@ =~= old(out)@ + decimal(n as nat));
}

/// The decimal numeral of `n`.
pub fn decimal_string(n: u64) -> (s: String)
    ensures
        s@ == decimal(n as nat),
{
    let mut s = String::new();
    push_decimal(&mut s, n);
    assert(s@ =~= decimal(n as nat));
    s
}

/// The position of the run on the gauge: the estimate read off the cursor.
pub fn gauge(state: &RunState) -> (position: u64)
    ensures
        position == estimate_of(state@.start),
        position <= GAUGE_MAX,
{
    estimate(state.start().as_str())
}

/// Renders the status line of the run.
pub fn status_line(state: &RunState) -> (line: String)
    ensures
        line@ == status_text(state@),
{
    let mut line = String::from_str("Deleted: ");
    push_decimal(&mut line, state.deleted());
    line.append(" | Errors: ");
    push_decimal(&mut line, state.errors());
    line.append("\nLast Key: ");
    line.append(state.start().as_str());
    line.append("\nLast Error: ");
    match state.last_error() {
        Some(message) => line.append(message.as_str()),
        None => line.append("N/A"),
    }
    line
}

/// Renders the closing summary of the run.
pub fn summary_line(state: &RunState) -> (line: String)
    ensures
        line@ == summary_text(state@),
{
    let mut line = String::from_str("Done! Deleted ");
    push_decimal(&mut line, state.deleted());
    line.append(" keys");
    line
}

} // verus!
