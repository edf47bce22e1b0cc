//! Reading a whole report: every line, or none.

use crate::record::{
    lemma_line_errors, lemma_reading_needs_sound_line, may_fail_with, parse_line, reads_as,
    rejected_with, well_formed_line, ReportError, ReportLine,
};
use crate::text::{chars_of, line_end, lines};
use vstd::prelude::*;
use vstd::slice::slice_subrange;

verus! {

/// `records` is a reading of the whole of `text`: one reading for each of
/// its lines, in their order, and at least one.
pub open spec fn is_report_of(text: Seq<char>, records: Seq<ReportLine>) -> bool {
    &&& records.len() == lines(text).len()
    &&& records.len() > 0
    &&& forall|i: int| 0 <= i < records.len() ==> reads_as(lines(text)[i], #[trigger] records[i])
}

/// `text` is rejected with `e`: it has no line and `e` is `EmptyReport`, or
/// `e` is what one of its lines is rejected with, every line before that one
/// being sound as text.
pub open spec fn report_fails_with(text: Seq<char>, e: ReportError) -> bool {
    ||| lines(text).len() == 0 && e == ReportError::EmptyReport
    ||| exists|k: int|
        {
            &&& 0 <= k < lines(text).len()
            &&& may_fail_with(#[trigger] lines(text)[k], e)
            &&& forall|i: int| 0 <= i < k ==> well_formed_line(#[trigger] lines(text)[i])
        }
}

/// Some line of `text` is not sound as text.
pub open spec fn has_flawed_line(text: Seq<char>) -> bool {
    exists|i: int| 0 <= i < lines(text).len() && !well_formed_line(#[trigger] lines(text)[i])
}

/// A text in which some line is not sound has no reading at all.
pub proof fn lemma_flawed_line_fails_report(text: Seq<char>, records: Seq<ReportLine>)
    requires
        has_flawed_line(text),
    ensures
        !is_report_of(text, records),
{
    if is_report_of(text, records) {
        let i = choose|i: int|
            0 <= i < lines(text).len() && !well_formed_line(#[trigger] lines(text)[i]);
        lemma_reading_needs_sound_line(lines(text)[i], records[i]);
    }
}

/// A text without characters has no line, so no reading, and is rejected
/// with `EmptyReport` alone.
pub proof fn lemma_empty_text_is_empty_report(records: Seq<ReportLine>, e: ReportError)
    ensures
        lines(Seq::<char>::empty()).len() == 0,
        !is_report_of(Seq::<char>::empty(), records),
        report_fails_with(Seq::<char>::empty(), e) <==> e == ReportError::EmptyReport,
{
}

/// Reads a report: one reading for each line of `text`, in the order of the
/// lines. A line that cannot be read fails the whole report with that
/// line's error, and no reading is returned; so does a text without lines,
/// with `EmptyReport`.
pub fn parse_report(text: &str) -> (r: Result<Vec<ReportLine>, ReportError>)
    ensures
        match r {
            Ok(records) => is_report_of(text@, records@),
            Err(e) => report_fails_with(text@, e),
        },
        lines(text@).len() == 0 <==> rejected_with(r, ReportError::EmptyReport),
        !rejected_with(r, ReportError::IoError),
        has_flawed_line(text@) ==> r is Err,
{
    let chars = chars_of(text);
    let s = chars.as_slice();
    let n = s.len();
    let ghost all = lines(text@);
    let mut records: Vec<ReportLine> = Vec::new();
    let mut pos: usize = 0;
    assert(s@.skip(0) == s@);
    while pos < n
        invariant
            pos <= n,
            n == s@.len(),
            s@ == text@,
            all == lines(text@),
            records@.len() <= all.len(),
            all == all.take(records@.len() as int) + lines(s@.skip(pos as int)),
            forall|i: int| 0 <= i < records@.len() ==> reads_as(all[i], #[trigger] records@[i]),
        decreases n - pos,
    {
        let end = line_end(s, pos);
        let line = slice_subrange(s, pos, end);
        let next: usize = if end == n { n } else { end + 1 };
        let ghost k = records@.len() as int;
        proof {
            let tail = s@.skip(pos as int);
            assert(tail.take(end - pos) == s@.subrange(pos as int, end as int));
            if end == n {
                assert(tail == s@.subrange(pos as int, end as int));
                assert(lines(s@.skip(next as int)) == Seq::<Seq<char>>::empty());
            } else {
                assert(tail.skip(end - pos + 1) == s@.skip(next as int));
            }
            assert(lines(tail) == seq![line@] + lines(s@.skip(next as int)));
            assert(all[k] == line@);
            assert(all.take(k + 1) == all.take(k).push(line@));
            assert(all == all.take(k + 1) + lines(s@.skip(next as int)));
        }
        match parse_line(line) {
            Ok(rec) => {
                records.push(rec);
            },
            Err(e) => {
                proof {
                    lemma_line_errors(all[k], e);
                    assert(may_fail_with(all[k], e));
                    assert forall|i: int| 0 <= i < k implies well_formed_line(
                        #[trigger] all[i],
                    ) by {
                        lemma_reading_needs_sound_line(all[i], records@[i]);
                    }
                }
                return Err(e);
            },
        }
        pos = next;
    }
    proof {
        assert(lines(s@.skip(pos as int)) == Seq::<Seq<char>>::empty());
        assert(all == all.take(records@.len() as int));
        assert forall|i: int| 0 <= i < all.len() implies well_formed_line(#[trigger] all[i]) by {
            lemma_reading_needs_sound_line(all[i], records@[i]);
        }
    }
    if records.len() == 0 {
        Err(ReportError::EmptyReport)
    } else {
        Ok(records)
    }
}

/// Turns what reading the report file gave into a report: `None`, the file
/// could not be read, is an `IoError`; a text is read by [`parse_report`].
pub fn load_report(contents: Option<&str>) -> (r: Result<Vec<ReportLine>, ReportError>)
    ensures
        contents is None <==> rejected_with(r, ReportError::IoError),
        contents matches Some(text) ==> match r {
            Ok(records) => is_report_of(text@, records@),
            Err(e) => report_fails_with(text@, e),
        },
        contents matches Some(text) && lines(text@).len() == 0 <==> rejected_with(
            r,
            ReportError::EmptyReport,
        ),
        contents matches Some(text) && has_flawed_line(text@) ==> r is Err,
{
    match contents {
        Some(text) => parse_report(text),
        None => Err(ReportError::IoError),
    }
}

} // verus!
