//! Recurring time windows with dated exceptions.
use vstd::prelude::*;

verus! {

/// A day of the week.
#[derive(Debug, Clone, Copy, PartialEq, Eq, Structural)]
pub enum Weekday {
    Mon,
    Tue,
    Wed,
    Thu,
    Fri,
    Sat,
    Sun,
}

impl Weekday {
    /// 0 for Monday up to 6 for Sunday.
    pub open spec fn index(self) -> int {
        match self {
            Weekday::Mon => 0,
            Weekday::Tue => 1,
            Weekday::Wed => 2,
            Weekday::Thu => 3,
            Weekday::Fri => 4,
            Weekday::Sat => 5,
            Weekday::Sun => 6,
        }
    }

    /// 1 for Monday up to 7 for Sunday.
    pub fn number_from_monday(self) -> (r: u32)
        ensures
            r == self.index() + 1,
    {
        match self {
            Weekday::Mon => 1,
            Weekday::Tue => 2,
            Weekday::Wed => 3,
            Weekday::Thu => 4,
            Weekday::Fri => 5,
            Weekday::Sat => 6,
            Weekday::Sun => 7,
        }
    }

    /// The weekday with the given index (0 is Monday).
    pub fn from_index(i: i128) -> (r: Weekday)
        requires
            0 <= i < 7,
        ensures
            r.index() == i,
    {
        if i == 0 {
            Weekday::Mon
        } else if i == 1 {
            Weekday::Tue
        } else if i == 2 {
            Weekday::Wed
        } else if i == 3 {
            Weekday::Thu
        } else if i == 4 {
            Weekday::Fri
        } else if i == 5 {
            Weekday::Sat
        } else {
            Weekday::Sun
        }
    }
}

/// How a dated exception changes a time window on its day.
#[derive(Debug, Clone, Copy, PartialEq, Eq, Structural)]
pub enum ExceptionType {
    /// Access is denied.
    Holiday,
    /// Access is always allowed.
    Emergency,
    /// Limited access: the window's hours do not apply that day.
    Maintenance,
}

/// An exception for one calendar day.
#[derive(Debug, Clone, Copy, PartialEq, Eq, Structural)]
pub struct DateException {
    /// The day, counted from 1970-01-01 (day 0).
    pub date: i64,
    pub exception_type: ExceptionType,
}

/// Hours on given weekdays, in UTC, with dated exceptions.
#[derive(Debug, Clone)]
pub struct TimeWindow {
    pub days_of_week: Vec<Weekday>,
    /// Start of the window, in nanoseconds since midnight.
    pub start_time: u64,
    /// End of the window (included), in nanoseconds since midnight.
    pub end_time: u64,
    pub timezone: String,
    pub exceptions: Vec<DateException>,
}

/// Two windows admit the same instants: same days, hours and exceptions.
pub open spec fn same_window(a: TimeWindow, b: TimeWindow) -> bool {
    &&& a.days_of_week@ == b.days_of_week@
    &&& a.start_time == b.start_time
    &&& a.end_time == b.end_time
    &&& a.exceptions@ == b.exceptions@
    &&& a.timezone@ == b.timezone@
}

/// Two sequences of windows agree window by window.
pub open spec fn same_windows(a: Seq<TimeWindow>, b: Seq<TimeWindow>) -> bool {
    a.len() == b.len() && forall|i: int| 0 <= i < a.len() ==> same_window(#[trigger] a[i], b[i])
}

impl TimeWindow {
    /// A copy of this window.
    pub fn copy(&self) -> (r: TimeWindow)
        ensures
            same_window(r, *self),
    {
        let mut days: Vec<Weekday> = Vec::new();
        let mut i: usize = 0;
        while i < self.days_of_week.len()
            invariant
                i <= self.days_of_week@.len(),
                days@ == self.days_of_week@.take(i as int),
            decreases self.days_of_week.len() - i,
        {
            days.push(self.days_of_week[i]);
            i = i + 1;
            assert(days@ =~= self.days_of_week@.take(i as int));
        }
        let mut exceptions: Vec<DateException> = Vec::new();
        let mut j: usize = 0;
        while j < self.exceptions.len()
            invariant
                j <= self.exceptions@.len(),
                exceptions@ == self.exceptions@.take(j as int),
            decreases self.exceptions.len() - j,
        {
            exceptions.push(self.exceptions[j]);
            j = j + 1;
            assert(exceptions@ =~= self.exceptions@.take(j as int));
        }
        assert(days@ =~= self.days_of_week@);
        assert(exceptions@ =~= self.exceptions@);
        TimeWindow {
            days_of_week: days,
            start_time: self.start_time,
            end_time: self.end_time,
            timezone: self.timezone.clone(),
            exceptions,
        }
    }
}

/// A copy of each window.
pub fn copy_windows(v: &Vec<TimeWindow>) -> (r: Vec<TimeWindow>)
    ensures
        same_windows(r@, v@),
{
    let mut r: Vec<TimeWindow> = Vec::new();
    let mut i: usize = 0;
    while i < v.len()
        invariant
            i <= v@.len(),
            r@.len() == i,
            forall|k: int| 0 <= k < i ==> same_window(#[trigger] r@[k], v@[k]),
        decreases v.len() - i,
    {
        r.push(v[i].copy());
        i = i + 1;
    }
    r
}

} // verus!
