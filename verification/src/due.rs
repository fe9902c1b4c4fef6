//! Due dates read from free text. The reading itself is done by the
//! `chrono-english` parser; this module decides which texts are handed to it.

use vstd::prelude::*;
use chrono::Local;
use chrono_english::{parse_date_string, Dialect};
use crate::text::chars_of;

verus! {

/// One of the characters `0` to `9`.
pub open spec fn is_ascii_digit(c: char) -> bool {
    48 <= c as u32 <= 57
}

/// The number of digits that stand directly before position `i` of `s`.
pub open spec fn digits_before(s: Seq<char>, i: int) -> nat
    decreases i,
{
    if i <= 0 || i > s.len() || !is_ascii_digit(s[i - 1]) {
        0
    } else {
        1 + digits_before(s, i - 1)
    }
}

/// The texts that are handed to the date parser: ASCII only, no number of
/// more than four digits, and no `.` that is followed by anything but a digit.
/// On other texts the parser may stop the program, so they are read as
/// holding no date.
pub open spec fn plain_date_text(s: Seq<char>) -> bool {
    &&& s.len() < u32::MAX
    &&& forall|i: int| 0 <= i < s.len() ==> (#[trigger] s[i]) as u32 <= 127
    &&& forall|i: int| 0 <= i <= s.len() ==> #[trigger] digits_before(s, i) <= 4
    &&& forall|i: int|
        0 <= i && i + 1 < s.len() && #[trigger] s[i] == '.' ==> is_ascii_digit(s[i + 1])
}

/// Whether a text may be handed to the date parser.
pub fn is_plain_date_text(text: &str) -> (ok: bool)
    ensures
        ok == plain_date_text(text@),
{
    let chars = chars_of(text);
    if chars.len() >= 0xffff_ffff {
        return false;
    }
    let mut run: usize = 0;
    let mut i: usize = 0;
    while i < chars.len()
        invariant
            chars@ == text@,
            chars.len() < u32::MAX,
            i <= chars.len(),
            run == digits_before(chars@, i as int),
            run <= 4,
            forall|k: int| 0 <= k < i ==> (#[trigger] chars@[k]) as u32 <= 127,
            forall|k: int| 0 <= k <= i ==> #[trigger] digits_before(chars@, k) <= 4,
            forall|k: int|
                0 <= k && k + 1 <= i && #[trigger] chars@[k] == '.' ==> is_ascii_digit(
                    chars@[k + 1],
                ) || k + 1 == i,
        decreases chars.len() - i,
    {
        let c: char = chars[i];
        let code: u32 = c as u32;
        if code > 127 {
            return false;
        }
        let digit: bool = 48 <= code && code <= 57;
        if i > 0 && chars[i - 1] == '.' && !digit {
            assert(!is_ascii_digit(chars@[(i - 1) + 1]));
            return false;
        }
        if digit {
            if run == 4 {
                assert(digits_before(chars@, i + 1) == 5);
                return false;
            }
            run += 1;
        } else {
            run = 0;
        }
        i += 1;
    }
    true
}

/// Calls `chrono_english::parse_date_string` on `text`, with the local time
/// of this moment (`chrono::Local::now`) and the US dialect, and writes the
/// day it found as year, month and day (`DateTime::format` with `%Y-%m-%d`).
/// Trusted. Nothing is claimed of the outcome: it depends on the clock and on
/// the time zone of the machine. The precondition leaves out the texts on
/// which the parser may stop the program: it cuts names at byte offsets,
/// which fails inside a character of several bytes; it multiplies and adds
/// the numbers it reads without a check; and it takes what follows the `.`
/// after the seconds for a number. The clock and the time zone data of the
/// machine are taken to be in order.
#[verifier::external_body]
pub(crate) fn parse_us_date(text: &str) -> (date: Option<String>)
    requires
        plain_date_text(text@),
{
    match parse_date_string(text, Local::now(), Dialect::Us) {
        Ok(day) => Some(day.format("%Y-%m-%d").to_string()),
        Err(_) => None,
    }
}

/// The due date that a text names, if the parser finds one in it. A text
/// that is not handed to the parser names none.
pub fn due_date_from(text: &str) -> (due: Option<String>)
    ensures
        !plain_date_text(text@) ==> due is None,
{
    if is_plain_date_text(text) {
        parse_us_date(text)
    } else {
        None
    }
}

} // verus!
