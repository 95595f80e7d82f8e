use vstd::prelude::*;

verus! {

/// The time windows that statistics are offered for.
#[derive(Debug, Clone, Copy, PartialEq, Eq, Structural)]
pub enum TimeSelection {
    TwoDays,
    Week,
    Month,
    ThreeMonths,
    Year,
}

/// The length of a window in days.
pub open spec fn selection_days(selection: TimeSelection) -> int {
    match selection {
        TimeSelection::TwoDays => 2,
        TimeSelection::Week => 7,
        TimeSelection::Month => 30,
        TimeSelection::ThreeMonths => 90,
        TimeSelection::Year => 365,
    }
}

pub const NANOS_PER_SECOND: i128 = 1_000_000_000;

pub const SECONDS_PER_DAY: i64 = 86_400;

/// How many points a statistics query samples, whatever the window.
pub const SAMPLE_POINTS: i128 = 255;

impl TimeSelection {
    /// Every window, in order.
    pub fn all() -> (r: Vec<TimeSelection>)
        ensures
            r@ == seq![
                TimeSelection::TwoDays,
                TimeSelection::Week,
                TimeSelection::Month,
                TimeSelection::ThreeMonths,
                TimeSelection::Year,
            ],
    {
        let r = vec![
            TimeSelection::TwoDays,
            TimeSelection::Week,
            TimeSelection::Month,
            TimeSelection::ThreeMonths,
            TimeSelection::Year,
        ];
        assert(r@ =~= seq![
            TimeSelection::TwoDays,
            TimeSelection::Week,
            TimeSelection::Month,
            TimeSelection::ThreeMonths,
            TimeSelection::Year,
        ]);
        r
    }

    /// The length of the window in seconds.
    pub fn duration_seconds(&self) -> (r: i64)
        ensures
            r == selection_days(*self) * SECONDS_PER_DAY,
    {
        let days: i64 = match self {
            TimeSelection::TwoDays => 2,
            TimeSelection::Week => 7,
            TimeSelection::Month => 30,
            TimeSelection::ThreeMonths => 90,
            TimeSelection::Year => 365,
        };
        days * SECONDS_PER_DAY
    }
}

/// One value per time window.
pub struct TimeSelectionStore<T> {
    pub two_days: T,
    pub week: T,
    pub month: T,
    pub three_months: T,
    pub year: T,
}

impl<T> TimeSelectionStore<T> {
    pub open spec fn slot(&self, selection: TimeSelection) -> T {
        match selection {
            TimeSelection::TwoDays => self.two_days,
            TimeSelection::Week => self.week,
            TimeSelection::Month => self.month,
            TimeSelection::ThreeMonths => self.three_months,
            TimeSelection::Year => self.year,
        }
    }

    /// The value kept for `selection`.
    pub fn get(&self, selection: TimeSelection) -> (r: &T)
        ensures
            *r == self.slot(selection),
    {
        match selection {
            TimeSelection::TwoDays => &self.two_days,
            TimeSelection::Week => &self.week,
            TimeSelection::Month => &self.month,
            TimeSelection::ThreeMonths => &self.three_months,
            TimeSelection::Year => &self.year,
        }
    }
}

/// A range query against the metrics backend, in nanoseconds since the Unix epoch: the
/// window ending now, sampled at `SAMPLE_POINTS` points.
#[derive(Debug, Clone, Copy, PartialEq, Eq, Structural)]
pub struct QueryWindow {
    pub start_nanos: i128,
    pub end_nanos: i128,
    pub step_nanos: i128,
}

/// The earliest time that a query window is computed for: far enough after the earliest
/// representable time that subtracting a window cannot overflow.
pub const EARLIEST_QUERY_NANOS: i128 = -170_000_000_000_000_000_000_000_000_000_000_000_000;

/// The query for `selection` at `now`: from `now` less the window, to `now`, with a
/// step of the window divided by the number of points.
pub fn query_window(selection: TimeSelection, now_nanos: i128) -> (r: QueryWindow)
    requires
        now_nanos >= EARLIEST_QUERY_NANOS,
    ensures
        r.end_nanos == now_nanos,
        r.start_nanos == now_nanos - selection_days(selection) * SECONDS_PER_DAY * NANOS_PER_SECOND,
        r.step_nanos == (r.end_nanos - r.start_nanos) / (SAMPLE_POINTS as int),
{
    let window: i128 = selection.duration_seconds() as i128 * NANOS_PER_SECOND;
    let start = now_nanos - window;
    QueryWindow { start_nanos: start, end_nanos: now_nanos, step_nanos: window / SAMPLE_POINTS }
}

} // verus!
