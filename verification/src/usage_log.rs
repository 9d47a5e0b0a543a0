//! The records of the usage log and the lines shown on the console.
//!
//! The log is line-oriented and comma-separated: a header line, then one
//! record per emitted interval. Names are written as they are. A reader that
//! splits a record at every comma is misled by a name that holds one; the
//! first and the last comma of a record bound the name whatever it holds.

use crate::text::{
    decimal_digits, decimal_value, is_decimal_digit, law_decimal_reads_back, push_decimal,
};
use vstd::prelude::*;
use vstd::string::StringExecFns;

verus! {

/// The header of the log: the names of the three columns.
pub const LOG_HEADER: &'static str = "Timestamp,AppName,Duration";

/// The header of the log, without its line end.
pub open spec fn header_text() -> Seq<char> {
    LOG_HEADER@
}

/// The record of `seconds` seconds of `app`, stamped `timestamp`, without its
/// line end.
pub open spec fn record_text(timestamp: Seq<char>, app: Seq<char>, seconds: nat) -> Seq<char> {
    timestamp + seq![','] + app + seq![','] + decimal_digits(seconds)
}

/// A text as one line of the log.
pub open spec fn line_of(text: Seq<char>) -> Seq<char> {
    text.push('\n')
}

/// What is written to a log of `sink_len` bytes before the first record: the
/// header line where the log is empty, nothing where it holds anything.
pub open spec fn opening_text(sink_len: u64) -> Seq<char> {
    if sink_len == 0 {
        line_of(header_text())
    } else {
        Seq::empty()
    }
}

/// What the console shows for `seconds` seconds of `app`, stamped
/// `timestamp`.
pub open spec fn console_text(timestamp: Seq<char>, app: Seq<char>, seconds: nat) -> Seq<char> {
    seq!['['] + timestamp + seq![']', ' '] + app + seq![' ', '-', '>', ' '] + decimal_digits(
        seconds,
    ) + seq!['s']
}

/// The header line of the log.
pub fn header_line() -> (line: String)
    ensures
        line@ == line_of(header_text()),
{
    let mut line = LOG_HEADER.to_owned();
    line.push('\n');
    line
}

/// What to append to a log that holds `sink_len` bytes when it is opened:
/// the header line if it is empty, nothing otherwise.
pub fn opening(sink_len: u64) -> (text: String)
    ensures
        text@ == opening_text(sink_len),
{
    if sink_len == 0 {
        header_line()
    } else {
        String::new()
    }
}

/// The log line for `seconds` seconds of `app`, stamped `timestamp`.
pub fn record_line(timestamp: &str, app: &str, seconds: u64) -> (line: String)
    ensures
        line@ == line_of(record_text(timestamp@, app@, seconds as nat)),
{
    let mut line = timestamp.to_owned();
    line.push(',');
    line.append(app);
    line.push(',');
    push_decimal(&mut line, seconds);
    line.push('\n');
    assert(line@ =~= line_of(record_text(timestamp@, app@, seconds as nat)));
    line
}

/// The console line for `seconds` seconds of `app`, stamped `timestamp`,
/// without a line end.
pub fn console_line(timestamp: &str, app: &str, seconds: u64) -> (line: String)
    ensures
        line@ == console_text(timestamp@, app@, seconds as nat),
{
    let mut line = String::new();
    line.push('[');
    line.append(timestamp);
    line.push(']');
    line.push(' ');
    line.append(app);
    line.push(' ');
    line.push('-');
    line.push('>');
    line.push(' ');
    push_decimal(&mut line, seconds);
    line.push('s');
    assert(line@ =~= console_text(timestamp@, app@, seconds as nat));
    line
}

/// The three fields of a record can be told apart whatever the name holds:
/// where the stamp holds no comma, the stamp ends at the record's first
/// comma, the seconds begin after its last comma, and what stands between
/// the two is the name. The seconds read back as the number they were
/// written for.
pub proof fn law_record_fields_read_back(timestamp: Seq<char>, app: Seq<char>, seconds: nat)
    requires
        !timestamp.contains(','),
    ensures
        ({
            let record = record_text(timestamp, app, seconds);
            let digits = decimal_digits(seconds);
            let first = timestamp.len() as int;
            let last = record.len() - digits.len() - 1;
            &&& 0 <= first <= last < record.len()
            &&& record[first] == ','
            &&& forall|i: int| 0 <= i < first ==> record[i] != ','
            &&& record[last] == ','
            &&& forall|i: int| last < i < record.len() ==> record[i] != ','
            &&& record.subrange(0, first) == timestamp
            &&& record.subrange(first + 1, last) == app
            &&& record.subrange(last + 1, record.len() as int) == digits
            &&& decimal_value(digits) == seconds
        }),
{
    let record = record_text(timestamp, app, seconds);
    let digits = decimal_digits(seconds);
    let first = timestamp.len() as int;
    let last = record.len() - digits.len() - 1;
    law_decimal_reads_back(seconds);
    assert forall|i: int| 0 <= i < first implies record[i] != ',' by {
        assert(record[i] == timestamp[i]);
    }
    assert forall|i: int| last < i < record.len() implies record[i] != ',' by {
        assert(record[i] == digits[i - last - 1]);
        assert(is_decimal_digit(digits[i - last - 1]));
    }
    assert(record.subrange(0, first) =~= timestamp);
    assert(record.subrange(first + 1, last) =~= app);
    assert(record.subrange(last + 1, record.len() as int) =~= digits);
}

/// A record is one line: where neither the stamp nor the name holds a line
/// end, the only line end of the record's line is its last character.
pub proof fn law_record_is_one_line(timestamp: Seq<char>, app: Seq<char>, seconds: nat)
    requires
        !timestamp.contains('\n'),
        !app.contains('\n'),
    ensures
        ({
            let line = line_of(record_text(timestamp, app, seconds));
            &&& line.len() > 0
            &&& line.last() == '\n'
            &&& forall|i: int| 0 <= i < line.len() - 1 ==> line[i] != '\n'
        }),
{
    let record = record_text(timestamp, app, seconds);
    let digits = decimal_digits(seconds);
    let line = line_of(record);
    law_decimal_reads_back(seconds);
    assert forall|i: int| 0 <= i < line.len() - 1 implies line[i] != '\n' by {
        if i < timestamp.len() {
            assert(line[i] == timestamp[i]);
        } else if i == timestamp.len() {
        } else if i < timestamp.len() + 1 + app.len() {
            assert(line[i] == app[i - timestamp.len() - 1]);
        } else if i == timestamp.len() + 1 + app.len() {
        } else {
            let k = i - timestamp.len() - app.len() - 2;
            assert(line[i] == digits[k]);
            assert(is_decimal_digit(digits[k]));
        }
    }
}

/// Opening a log never touches what it holds: the text after opening starts
/// with the text before, and a log that held anything gets nothing added.
pub proof fn law_opening_keeps_the_log(log: Seq<char>, sink_len: u64)
    requires
        (sink_len == 0) == (log.len() == 0),
    ensures
        log.is_prefix_of(log + opening_text(sink_len)),
        log.len() > 0 ==> log + opening_text(sink_len) == log,
        log.len() == 0 ==> log + opening_text(sink_len) == line_of(header_text()),
{
    assert(log.len() > 0 ==> log + opening_text(sink_len) =~= log);
    assert(log.len() == 0 ==> log + opening_text(sink_len) =~= line_of(header_text()));
}

} // verus!
