//! From the report file's text to everything the renderer needs.

use crate::load::{has_flawed_line, is_report_of, load_report, report_fails_with};
use crate::project::{get_points_from_report_lines, is_chart_of, ChartSeries, X_PADDING};
use crate::record::{rejected_with, ReportError, ReportLine};
use crate::text::lines;
use vstd::prelude::*;

verus! {

/// What is drawn: the two curves and the ends of the x axis.
#[derive(Debug, PartialEq, Eq)]
pub struct ChartPlan {
    pub series: ChartSeries,
    pub x_min: i128,
    pub x_max: i128,
}

impl ChartPlan {
    /// The plan draws `records`: its curves are theirs, and its x axis
    /// runs from [`X_PADDING`] seconds before the origin to as many seconds
    /// behind the largest x of the closed curve.
    pub open spec fn draws(&self, records: Seq<ReportLine>) -> bool {
        &&& is_chart_of(records, self.series)
        &&& self.series.wf()
        &&& self.x_min == -X_PADDING
        &&& exists|i: int|
            0 <= i < self.series.closed@.len() && self.x_max == (
            #[trigger] self.series.closed@[i]).x + X_PADDING
        &&& forall|i: int|
            0 <= i < self.series.closed@.len() ==> (#[trigger] self.series.closed@[i]).x
                + X_PADDING <= self.x_max
    }
}

/// `plan` is a chart of `text`: it draws some reading of the whole text.
pub open spec fn is_plan_of(text: Seq<char>, plan: ChartPlan) -> bool {
    exists|records: Seq<ReportLine>| is_report_of(text, records) && #[trigger] plan.draws(records)
}

/// Plans the chart of a report from what reading its file gave: loads the
/// readings, projects them and sets the ends of the x axis. Whatever fails
/// on the way fails the plan with the same error.
pub fn plan_chart(contents: Option<&str>) -> (r: Result<ChartPlan, ReportError>)
    ensures
        contents is None <==> rejected_with(r, ReportError::IoError),
        r matches Ok(plan) ==> contents is Some && is_plan_of(contents->0@, plan),
        r matches Err(e) ==> contents is None || report_fails_with(contents->0@, e),
        contents matches Some(text) && lines(text@).len() == 0 <==> rejected_with(
            r,
            ReportError::EmptyReport,
        ),
        contents matches Some(text) && has_flawed_line(text@) ==> r is Err,
{
    let records = match load_report(contents) {
        Ok(records) => records,
        Err(e) => {
            return Err(e);
        },
    };
    let ghost read = records@;
    let series = match get_points_from_report_lines(records) {
        Ok(series) => series,
        Err(e) => {
            return Err(e);
        },
    };
    let (x_min, x_max) = series.x_axis_bounds();
    let ghost at = choose|i: int|
        0 <= i < series.closed@.len() && x_max == (#[trigger] series.closed@[i]).x + X_PADDING;
    let plan = ChartPlan { series, x_min, x_max };
    assert(plan.x_max == plan.series.closed@[at].x + X_PADDING);
    assert(is_report_of(contents->0@, read) && plan.draws(read));
    assert(is_plan_of(contents->0@, plan));
    Ok(plan)
}

} // verus!
