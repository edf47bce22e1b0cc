//! Report lines: one timestamped reading of the open and closed task counts.

use crate::clock::{local_timestamp, naive_datetime, naive_datetime_parses, Timestamp};
use crate::count::{
    count_text, count_value, decimal, lemma_count_round_trip, lemma_decimal_no_blank, parse_count,
};
use crate::text::{
    chars_of, fields, lemma_fields_after_blank, lemma_fields_after_word, next_field, no_blank,
};
use vstd::prelude::*;
use vstd::slice::slice_subrange;

verus! {

/// Why a report could not be read.
#[derive(Clone, Copy, Debug, PartialEq, Eq, Structural)]
pub enum ReportError {
    /// The report file could not be read.
    IoError,
    /// A line has fewer than three fields.
    MalformedLine,
    /// A line's first field is no date and time, or names a local time that
    /// a change of the clocks skips or repeats.
    InvalidTimestamp,
    /// A line's second or third field is no count from 0 to 255.
    InvalidCount,
    /// The report has no line.
    EmptyReport,
}

impl ReportError {
    /// The words that say what went wrong.
    pub open spec fn message_text(self) -> Seq<char> {
        match self {
            ReportError::IoError => "the report file could not be read"@,
            ReportError::MalformedLine => "a line has fewer than three fields"@,
            ReportError::InvalidTimestamp => {
                "a date and time cannot be read or has no single place in the local zone"@
            },
            ReportError::InvalidCount => "a count is not a number from 0 to 255"@,
            ReportError::EmptyReport => "the report has no lines"@,
        }
    }

    /// Says what went wrong, for the one who runs the program.
    pub fn message(&self) -> (r: String)
        ensures
            r@ == self.message_text(),
    {
        match self {
            ReportError::IoError => "the report file could not be read".to_owned(),
            ReportError::MalformedLine => "a line has fewer than three fields".to_owned(),
            ReportError::InvalidTimestamp => {
                "a date and time cannot be read or has no single place in the local zone".to_owned()
            },
            ReportError::InvalidCount => "a count is not a number from 0 to 255".to_owned(),
            ReportError::EmptyReport => "the report has no lines".to_owned(),
        }
    }
}

/// `r` is the failure `e`.
pub open spec fn rejected_with<T>(r: Result<T, ReportError>, e: ReportError) -> bool {
    r is Err && r->Err_0 == e
}

/// One reading: when it was taken, and how many tasks were open and how many
/// closed at that time.
#[derive(Clone, Copy, Debug, PartialEq, Eq, Structural)]
pub struct ReportLine {
    pub date: Timestamp,
    pub open: u8,
    pub closed: u8,
}

/// The reading that a resolved date and two count fields make. A date that
/// did not resolve is reported before a bad count, and the open count is
/// looked at before the closed one.
pub open spec fn parts_outcome(
    date: Option<Timestamp>,
    open: Seq<char>,
    closed: Seq<char>,
) -> Result<ReportLine, ReportError> {
    if date is None {
        Err(ReportError::InvalidTimestamp)
    } else if count_value(open) is None || count_value(closed) is None {
        Err(ReportError::InvalidCount)
    } else {
        Ok(
            ReportLine {
                date: date->0,
                open: count_value(open)->0,
                closed: count_value(closed)->0,
            },
        )
    }
}

/// What a line reads as, where `local` is what resolving its date and time
/// in the local zone gives. The first three fields are the date and time,
/// the open count and the closed count; further fields are passed over.
pub open spec fn line_outcome(line: Seq<char>, local: Option<Timestamp>) -> Result<
    ReportLine,
    ReportError,
> {
    let f = fields(line);
    if f.len() < 3 {
        Err(ReportError::MalformedLine)
    } else if !naive_datetime_parses(f[0]) {
        Err(ReportError::InvalidTimestamp)
    } else {
        parts_outcome(local, f[1], f[2])
    }
}

/// The line is sound as text: it has its three fields, the first is a date
/// and time, the other two are counts. Whether such a line gives a reading
/// is then up to the local zone alone.
pub open spec fn well_formed_line(line: Seq<char>) -> bool {
    let f = fields(line);
    &&& f.len() >= 3
    &&& naive_datetime_parses(f[0])
    &&& count_value(f[1]) is Some
    &&& count_value(f[2]) is Some
}

/// `date` is a place of the line's first field: chrono reads the field as
/// a date and time, and `date` is the point in time at which some zone's
/// calendar and clock show it.
pub open spec fn dated_by_first_field(line: Seq<char>, date: Timestamp) -> bool {
    naive_datetime(fields(line)[0]) matches Some(civil) && civil.placed_at(date)
}

/// `rec` is a reading of `line`: its date is a place of the first field,
/// and with the date and time resolved to that place the line gives `rec`,
/// so its counts are those of the second and third field.
pub open spec fn reads_as(line: Seq<char>, rec: ReportLine) -> bool {
    &&& dated_by_first_field(line, rec.date)
    &&& line_outcome(line, Some(rec.date)) == Ok::<ReportLine, ReportError>(rec)
}

/// `line` is rejected with `e` for some answer of the local zone.
pub open spec fn may_fail_with(line: Seq<char>, e: ReportError) -> bool {
    exists|local: Option<Timestamp>| line_outcome(line, local) == Err::<ReportLine, ReportError>(e)
}

/// Only a line that is sound as text has a reading, and its counts are the
/// ones written in it.
pub proof fn lemma_reading_needs_sound_line(line: Seq<char>, rec: ReportLine)
    requires
        reads_as(line, rec),
    ensures
        well_formed_line(line),
        count_value(fields(line)[1]) == Some(rec.open),
        count_value(fields(line)[2]) == Some(rec.closed),
{
}

/// The errors a line can be rejected with: too few fields are a
/// `MalformedLine` and nothing else; with three fields, a first field that
/// is no date and time is an `InvalidTimestamp` and nothing else; with a
/// date and time, the local zone may refuse it, and a bad count is an
/// `InvalidCount` where it does not.
pub proof fn lemma_line_errors(line: Seq<char>, e: ReportError)
    ensures
        may_fail_with(line, e) <==> {
            let f = fields(line);
            ||| e == ReportError::MalformedLine && f.len() < 3
            ||| e == ReportError::InvalidTimestamp && f.len() >= 3
            ||| e == ReportError::InvalidCount && f.len() >= 3 && naive_datetime_parses(f[0]) && (
            count_value(f[1]) is None || count_value(f[2]) is None)
        },
{
    let f = fields(line);
    let none: Option<Timestamp> = None;
    let some: Option<Timestamp> = Some(Timestamp { secs: 0, nanos: 0 });
    if e == ReportError::MalformedLine && f.len() < 3 {
        assert(line_outcome(line, none) == Err::<ReportLine, ReportError>(e));
    }
    if e == ReportError::InvalidTimestamp && f.len() >= 3 {
        assert(line_outcome(line, none) == Err::<ReportLine, ReportError>(e));
    }
    if e == ReportError::InvalidCount && f.len() >= 3 && naive_datetime_parses(f[0]) && (
    count_value(f[1]) is None || count_value(f[2]) is None) {
        assert(line_outcome(line, some) == Err::<ReportLine, ReportError>(e));
    }
}

/// Makes a reading from a date that is already resolved, or failed to
/// resolve, and the text of the two counts.
pub fn record_from_parts(date: Option<Timestamp>, open: &[char], closed: &[char]) -> (r: Result<
    ReportLine,
    ReportError,
>)
    ensures
        r == parts_outcome(date, open@, closed@),
{
    let date = match date {
        Some(d) => d,
        None => {
            return Err(ReportError::InvalidTimestamp);
        },
    };
    let open = match parse_count(open) {
        Some(n) => n,
        None => {
            return Err(ReportError::InvalidCount);
        },
    };
    let closed = match parse_count(closed) {
        Some(n) => n,
        None => {
            return Err(ReportError::InvalidCount);
        },
    };
    Ok(ReportLine { date, open, closed })
}

/// Reads one line of a report. Which reading or error comes out is fixed by
/// the line but for one thing, the local zone's answer for the date and
/// time: see [`line_outcome`]. The date of a reading is a place of the
/// first field in the local zone: see [`dated_by_first_field`].
pub fn parse_line(line: &[char]) -> (r: Result<ReportLine, ReportError>)
    ensures
        match r {
            Ok(rec) => reads_as(line@, rec),
            Err(e) => may_fail_with(line@, e),
        },
        fields(line@).len() < 3 <==> rejected_with(r, ReportError::MalformedLine),
        fields(line@).len() >= 3 && !naive_datetime_parses(fields(line@)[0]) ==> rejected_with(
            r,
            ReportError::InvalidTimestamp,
        ),
        r is Ok ==> well_formed_line(line@),
        r matches Ok(rec) ==> naive_datetime(fields(line@)[0]) matches Some(civil)
            && civil.placed_at(rec.date),
{
    let ghost f = fields(line@);
    let ghost nothing: Option<Timestamp> = None;
    assert(line@.skip(0) == line@);
    let (a0, b0) = match next_field(line, 0) {
        Some(span) => span,
        None => {
            assert(line_outcome(line@, nothing) == Err::<ReportLine, ReportError>(
                ReportError::MalformedLine,
            ));
            return Err(ReportError::MalformedLine);
        },
    };
    let (a1, b1) = match next_field(line, b0) {
        Some(span) => span,
        None => {
            assert(f.len() == 1);
            assert(line_outcome(line@, nothing) == Err::<ReportLine, ReportError>(
                ReportError::MalformedLine,
            ));
            return Err(ReportError::MalformedLine);
        },
    };
    let (a2, b2) = match next_field(line, b1) {
        Some(span) => span,
        None => {
            assert(f.len() == 2);
            assert(line_outcome(line@, nothing) == Err::<ReportLine, ReportError>(
                ReportError::MalformedLine,
            ));
            return Err(ReportError::MalformedLine);
        },
    };
    assert(f.len() >= 3);
    assert(f[0] == line@.subrange(a0 as int, b0 as int));
    assert(f[1] == line@.subrange(a1 as int, b1 as int));
    assert(f[2] == line@.subrange(a2 as int, b2 as int));
    let date = local_timestamp(slice_subrange(line, a0, b0));
    let r = record_from_parts(date, slice_subrange(line, a1, b1), slice_subrange(line, a2, b2));
    assert(r == line_outcome(line@, date));
    r
}

impl ReportLine {
    /// Reads one line of a report, as [`parse_line`] does.
    pub fn from_str(s: &str) -> (r: Result<ReportLine, ReportError>)
        ensures
            match r {
                Ok(rec) => reads_as(s@, rec),
                Err(e) => may_fail_with(s@, e),
            },
            fields(s@).len() < 3 <==> rejected_with(r, ReportError::MalformedLine),
            fields(s@).len() >= 3 && !naive_datetime_parses(fields(s@)[0]) ==> rejected_with(
                r,
                ReportError::InvalidTimestamp,
            ),
            r is Ok ==> well_formed_line(s@),
            r matches Ok(rec) ==> naive_datetime(fields(s@)[0]) matches Some(civil)
                && civil.placed_at(rec.date),
    {
        let chars = chars_of(s);
        parse_line(chars.as_slice())
    }
}

/// A line as it is written: the date and time, a space, the open count, a
/// space, the closed count.
pub open spec fn line_text(date: Seq<char>, open: u8, closed: u8) -> Seq<char> {
    date + seq![' '] + decimal(open as nat) + seq![' '] + decimal(closed as nat)
}

/// Writes a line: `date` as it stands, then the two counts in decimal
/// digits, a space before each.
pub fn render_line(date: &[char], open: u8, closed: u8) -> (r: Vec<char>)
    ensures
        r@ == line_text(date@, open, closed),
{
    let mut out: Vec<char> = Vec::new();
    let n = date.len();
    let mut i: usize = 0;
    while i < n
        invariant
            i <= n,
            n == date@.len(),
            out@ == date@.take(i as int),
        decreases n - i,
    {
        out.push(date[i]);
        i = i + 1;
    }
    assert(date@.take(n as int) == date@);
    out.push(' ');
    let mut digits = count_text(open);
    out.append(&mut digits);
    out.push(' ');
    let mut digits = count_text(closed);
    out.append(&mut digits);
    out
}

/// Counts survive being written and read: a line written from a date and
/// time without blanks and two counts has exactly those three fields, and
/// whenever it reads as a reading, the reading holds the two counts that
/// were written. It reads as one exactly where the date and time is one
/// and resolves in the local zone.
pub proof fn lemma_written_counts_read_back(
    date: Seq<char>,
    open: u8,
    closed: u8,
    local: Option<Timestamp>,
)
    requires
        date.len() > 0,
        no_blank(date),
    ensures
        fields(line_text(date, open, closed)) == seq![
            date,
            decimal(open as nat),
            decimal(closed as nat),
        ],
        count_value(decimal(open as nat)) == Some(open),
        count_value(decimal(closed as nat)) == Some(closed),
        line_outcome(line_text(date, open, closed), local) == if naive_datetime_parses(date)
            && local is Some {
            Ok::<ReportLine, ReportError>(ReportLine { date: local->0, open, closed })
        } else {
            Err::<ReportLine, ReportError>(ReportError::InvalidTimestamp)
        },
{
    let o = decimal(open as nat);
    let c = decimal(closed as nat);
    let blank = seq![' '];
    lemma_decimal_no_blank(open as nat);
    lemma_decimal_no_blank(closed as nat);
    lemma_count_round_trip(open);
    lemma_count_round_trip(closed);
    let after_open = blank + c;
    let after_date = blank + (o + after_open);
    assert(line_text(date, open, closed) == date + after_date);
    lemma_fields_after_word(date, after_date);
    lemma_fields_after_blank(' ', o + after_open);
    lemma_fields_after_word(o, after_open);
    lemma_fields_after_blank(' ', c);
    assert(c + Seq::<char>::empty() == c);
    lemma_fields_after_word(c, Seq::<char>::empty());
    assert(fields(Seq::<char>::empty()) == Seq::<Seq<char>>::empty());
    assert(fields(c) == seq![c]);
    assert(fields(after_open) == seq![c]);
    assert(fields(o + after_open) == seq![o, c]);
    assert(fields(date + after_date) == seq![date, o, c]);
}

/// Counts survive being read and written: the counts of a reading, written
/// in decimal digits, stand for the same numbers as the fields they were
/// read from.
pub proof fn lemma_read_counts_write_back(line: Seq<char>, rec: ReportLine)
    requires
        reads_as(line, rec),
    ensures
        count_value(decimal(rec.open as nat)) == count_value(fields(line)[1]),
        count_value(decimal(rec.closed as nat)) == count_value(fields(line)[2]),
{
    lemma_reading_needs_sound_line(line, rec);
    lemma_count_round_trip(rec.open);
    lemma_count_round_trip(rec.closed);
}

} // verus!
