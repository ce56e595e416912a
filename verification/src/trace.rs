//! The line-per-check log: an alternative to counting, in which every alias
//! check is written out as one line of text.

use crate::text::{append_decimal, append_lower_hex, decimal, digit_char, digit_text, lower_hex};
use vstd::prelude::*;

verus! {

/// The line that records one alias check: the packed identifier in decimal,
/// `1` if the two addresses are equal and `0` if not, and the two addresses
/// in hexadecimal.
pub open spec fn log_line_text(p: usize, q: usize, packed_id: u32) -> Seq<char> {
    "ID:"@ + decimal(packed_id as nat) + " RES:"@ + seq![
        digit_char(
            if p == q {
                1
            } else {
                0
            },
        ),
    ] + " (0x"@ + lower_hex(p as nat) + " vs 0x"@ + lower_hex(q as nat) + ")\n"@
}

/// Writes the line that records one alias check.
pub fn log_line(p: usize, q: usize, packed_id: u32) -> (line: String)
    ensures
        line@ == log_line_text(p, q, packed_id),
{
    let mut line = String::from_str("ID:");
    append_decimal(&mut line, packed_id as u64);
    line.append(" RES:");
    line.append(
        digit_text(
            if p == q {
                1
            } else {
                0
            },
        ),
    );
    line.append(" (0x");
    append_lower_hex(&mut line, p as u64);
    line.append(" vs 0x");
    append_lower_hex(&mut line, q as u64);
    line.append(")\n");
    line
}

} // verus!
