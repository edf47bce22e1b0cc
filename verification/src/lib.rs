//! Burn-down reporting: reads timestamped counts of open and closed tasks and
//! projects them onto the two curves of a burn-down chart.

pub mod chart;
pub mod clock;
pub mod count;
pub mod load;
pub mod project;
pub mod record;
pub mod text;
