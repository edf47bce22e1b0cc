//! From readings to the two curves of the chart.

use crate::clock::{elapsed_seconds, seconds_between, Timestamp};
use crate::record::{rejected_with, ReportError, ReportLine};
use vstd::prelude::*;

verus! {

/// How far the x axis reaches beyond the curve at either end, in seconds.
pub const X_PADDING: i128 = 10;

/// Width of the chart, in character cells.
pub const CHART_WIDTH: u32 = 180;

/// Height of the chart, in character cells.
pub const CHART_HEIGHT: u32 = 60;

/// No two points in time lie more whole seconds apart than this.
pub const MAX_ELAPSED: i128 = 0x2_0000_0000_0000_0000;

/// A point of a curve: seconds since the first reading, and a count of tasks.
#[derive(Clone, Copy, Debug, PartialEq, Eq, Structural)]
pub struct PlotPoint {
    pub x: i128,
    pub y: u16,
}

/// The two curves of a chart, point `i` of each made from reading `i`.
#[derive(Debug, PartialEq, Eq)]
pub struct ChartSeries {
    /// The closed tasks over time.
    pub closed: Vec<PlotPoint>,
    /// The open and the closed tasks together, over time.
    pub total: Vec<PlotPoint>,
}

/// The point that stands for `count` tasks at `date`, on an axis that
/// starts at `origin`.
pub open spec fn point_at(origin: Timestamp, date: Timestamp, count: u16) -> PlotPoint {
    PlotPoint { x: elapsed_seconds(origin, date) as i128, y: count }
}

/// Point `i` of the closed curve: the closed tasks of reading `i`, at the
/// seconds that passed since the first reading.
pub open spec fn closed_point(lines: Seq<ReportLine>, i: int) -> PlotPoint {
    point_at(lines[0].date, lines[i].date, lines[i].closed as u16)
}

/// Point `i` of the total curve: the open and closed tasks of reading `i`
/// together, at the seconds that passed since the first reading.
pub open spec fn total_point(lines: Seq<ReportLine>, i: int) -> PlotPoint {
    point_at(lines[0].date, lines[i].date, (lines[i].open + lines[i].closed) as u16)
}

/// `series` holds the two curves of `lines`: point `i` of each is made from
/// reading `i`.
pub open spec fn is_chart_of(lines: Seq<ReportLine>, series: ChartSeries) -> bool {
    &&& series.closed@.len() == lines.len()
    &&& series.total@.len() == lines.len()
    &&& forall|i: int|
        0 <= i < lines.len() ==> #[trigger] series.closed@[i] == closed_point(lines, i)
    &&& forall|i: int| 0 <= i < lines.len() ==> #[trigger] series.total@[i] == total_point(lines, i)
}

/// The whole seconds between two points in time fit the x axis.
pub proof fn lemma_elapsed_bounded(origin: Timestamp, t: Timestamp)
    ensures
        -MAX_ELAPSED < elapsed_seconds(origin, t) < MAX_ELAPSED,
{
}

/// No time passes from a point in time to itself.
pub proof fn lemma_elapsed_self(t: Timestamp)
    ensures
        elapsed_seconds(t, t) == 0,
{
}

/// Makes the point for `count` tasks at `date`, measured from `min_date`.
pub fn to_point(min_date: &Timestamp, date: &Timestamp, count: u16) -> (p: PlotPoint)
    ensures
        p == point_at(*min_date, *date, count),
        p.x == elapsed_seconds(*min_date, *date),
        p.y == count,
{
    proof {
        lemma_elapsed_bounded(*min_date, *date);
    }
    PlotPoint { x: seconds_between(min_date, date), y: count }
}

impl ChartSeries {
    /// The curves belong together: they are equally long and not empty,
    /// point `i` of each stands at the same x, the total curve never runs
    /// below the closed one, and every x is a distance between two points
    /// in time.
    pub open spec fn wf(&self) -> bool {
        &&& self.closed@.len() == self.total@.len()
        &&& self.closed@.len() > 0
        &&& forall|i: int|
            0 <= i < self.closed@.len() ==> {
                &&& (#[trigger] self.closed@[i]).x == self.total@[i].x
                &&& self.closed@[i].y <= self.total@[i].y
                &&& -MAX_ELAPSED < self.closed@[i].x < MAX_ELAPSED
            }
    }

    /// The ends of the x axis: it starts [`X_PADDING`] seconds before the
    /// origin and ends as many seconds behind the largest x of the closed
    /// curve.
    pub fn x_axis_bounds(&self) -> (r: (i128, i128))
        requires
            self.wf(),
        ensures
            r.0 == -X_PADDING,
            exists|i: int|
                0 <= i < self.closed@.len() && r.1 == (#[trigger] self.closed@[i]).x + X_PADDING,
            forall|i: int|
                0 <= i < self.closed@.len() ==> (#[trigger] self.closed@[i]).x + X_PADDING <= r.1,
    {
        let n = self.closed.len();
        let mut max: i128 = self.closed[0].x;
        let ghost mut at: int = 0;
        let mut i: usize = 1;
        while i < n
            invariant
                1 <= i <= n,
                n == self.closed@.len(),
                self.wf(),
                0 <= at < i,
                max == self.closed@[at].x,
                forall|k: int| 0 <= k < i ==> (#[trigger] self.closed@[k]).x <= max,
            decreases n - i,
        {
            if self.closed[i].x > max {
                max = self.closed[i].x;
                proof {
                    at = i as int;
                }
            }
            i = i + 1;
        }
        (-X_PADDING, max + X_PADDING)
    }
}

/// Projects the readings onto the two curves. The first reading is the
/// origin of the x axis, wherever its time lies among the others: a reading
/// from before it gets a negative x. No readings, no chart.
pub fn get_points_from_report_lines(lines: Vec<ReportLine>) -> (r: Result<ChartSeries, ReportError>)
    ensures
        lines@.len() == 0 <==> r is Err,
        r is Err ==> rejected_with(r, ReportError::EmptyReport),
        r matches Ok(series) ==> {
            &&& is_chart_of(lines@, series)
            &&& series.wf()
            &&& series.closed@[0].x == 0
            &&& series.total@[0].x == 0
            &&& forall|i: int|
                0 <= i < lines@.len() ==> (#[trigger] series.closed@[i]).x == elapsed_seconds(
                    lines@[0].date,
                    lines@[i].date,
                )
            &&& forall|i: int|
                0 <= i < lines@.len() ==> (#[trigger] series.total@[i]).x == elapsed_seconds(
                    lines@[0].date,
                    lines@[i].date,
                )
            &&& forall|i: int|
                0 <= i < lines@.len() ==> (#[trigger] series.total@[i]).y == series.closed@[i].y
                    + lines@[i].open
        },
{
    let n = lines.len();
    if n == 0 {
        return Err(ReportError::EmptyReport);
    }
    let min = lines[0].date;
    let mut closed: Vec<PlotPoint> = Vec::new();
    let mut total: Vec<PlotPoint> = Vec::new();
    let mut i: usize = 0;
    while i < n
        invariant
            0 <= i <= n,
            n == lines@.len(),
            n > 0,
            min == lines@[0].date,
            closed@.len() == i,
            total@.len() == i,
            forall|k: int| 0 <= k < i ==> #[trigger] closed@[k] == closed_point(lines@, k),
            forall|k: int| 0 <= k < i ==> #[trigger] total@[k] == total_point(lines@, k),
        decreases n - i,
    {
        let line = lines[i];
        let sum: u16 = line.open as u16 + line.closed as u16;
        closed.push(to_point(&min, &line.date, line.closed as u16));
        total.push(to_point(&min, &line.date, sum));
        i = i + 1;
    }
    let series = ChartSeries { closed, total };
    proof {
        lemma_elapsed_self(min);
        assert(series.closed@[0] == closed_point(lines@, 0));
        assert(series.total@[0] == total_point(lines@, 0));
        assert forall|k: int| 0 <= k < n implies {
            &&& (#[trigger] series.closed@[k]).x == series.total@[k].x
            &&& series.closed@[k].y <= series.total@[k].y
            &&& -MAX_ELAPSED < series.closed@[k].x < MAX_ELAPSED
            &&& series.total@[k].y == series.closed@[k].y + lines@[k].open
        } by {
            assert(series.closed@[k] == closed_point(lines@, k));
            assert(series.total@[k] == total_point(lines@, k));
            lemma_elapsed_bounded(lines@[0].date, lines@[k].date);
        }
    }
    Ok(series)
}

} // verus!
