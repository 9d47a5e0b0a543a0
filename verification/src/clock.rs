//! The wall clock, read for the stamp of a log record.

use vstd::prelude::*;

verus! {

/// The layout of a stamp: date and time of day, to the second.
pub const STAMP_PATTERN: &'static str = "%Y-%m-%d %H:%M:%S";

/// Whether `ch` can occur in a stamp: a decimal digit, a sign, or one of the
/// separators of `STAMP_PATTERN`.
pub open spec fn is_stamp_char(ch: char) -> bool {
    ||| '0' as int <= ch as int <= '9' as int
    ||| ch == '+'
    ||| ch == '-'
    ||| ch == ' '
    ||| ch == ':'
}

/// Whether `text` is made of the characters of a stamp only.
pub open spec fn is_stamp(text: Seq<char>) -> bool {
    forall|i: int| 0 <= i < text.len() ==> is_stamp_char(#[trigger] text[i])
}

/// The current local date and time in the layout `pattern`, from chrono's
/// `Local::now` and `DateTime::format`. Which text comes back depends on the
/// clock and on the time zone of the machine. What is claimed of it is what
/// chrono writes for the specifiers of `STAMP_PATTERN`, whatever the time:
/// numbers in decimal digits, the year with a sign where it is not within
/// 0 to 9999, and the pattern's own hyphens, space and colons between them.
/// `pattern` is held to `STAMP_PATTERN`: a pattern with a specifier that
/// chrono does not know makes the formatting fail. chrono stops the program
/// where the system clock stands before 1970.
#[verifier::external_body]
pub(crate) fn local_time_text(pattern: &str) -> (text: String)
    requires
        pattern@ == STAMP_PATTERN@,
    ensures
        is_stamp(text@),
{
    chrono::Local::now().format(pattern).to_string()
}

} // verus!
