use vstd::prelude::*;

verus! {

/// A wall-clock instant as read from a log line or a log file name, in the
/// log producer's local time.  Ordering is lexicographic over the fields.
#[derive(Clone, Copy, PartialEq, Eq, Structural, Debug)]
pub struct Timestamp {
    pub year: u32,
    pub month: u32,
    pub day: u32,
    pub hour: u32,
    pub minute: u32,
    pub second: u32,
}

pub open spec fn leap_year(y: int) -> bool {
    y % 4 == 0 && (y % 100 != 0 || y % 400 == 0)
}

pub open spec fn days_in_month(y: int, m: int) -> int {
    if m == 2 {
        if leap_year(y) {
            29
        } else {
            28
        }
    } else if m == 4 || m == 6 || m == 9 || m == 11 {
        30
    } else {
        31
    }
}

/// A timestamp the calendar accepts; the line grammar rejects any other.
pub open spec fn ts_valid(t: Timestamp) -> bool {
    &&& 1 <= t.month <= 12
    &&& 1 <= t.day <= days_in_month(t.year as int, t.month as int)
    &&& t.hour < 24
    &&& t.minute < 60
    &&& t.second < 60
}

/// Strict order on timestamps: lexicographic over the six fields.
pub open spec fn ts_lt(a: Timestamp, b: Timestamp) -> bool {
    if a.year != b.year {
        a.year < b.year
    } else if a.month != b.month {
        a.month < b.month
    } else if a.day != b.day {
        a.day < b.day
    } else if a.hour != b.hour {
        a.hour < b.hour
    } else if a.minute != b.minute {
        a.minute < b.minute
    } else {
        a.second < b.second
    }
}

pub open spec fn ts_le(a: Timestamp, b: Timestamp) -> bool {
    ts_lt(a, b) || a == b
}

/// `ts_lt` is a strict total order: any two timestamps are related one way,
/// the other way, or equal, and never both ways.
pub proof fn lemma_ts_order(a: Timestamp, b: Timestamp)
    ensures
        ts_lt(a, b) || ts_lt(b, a) || a == b,
        !(ts_lt(a, b) && ts_lt(b, a)),
        !(ts_lt(a, b) && a == b),
{
}

/// `ts_lt` is transitive, also across a leading equality.
pub proof fn lemma_ts_trans(a: Timestamp, b: Timestamp, c: Timestamp)
    requires
        ts_le(a, b),
        ts_lt(b, c),
    ensures
        ts_lt(a, c),
{
}

impl Timestamp {
    /// True when `self` is strictly earlier than `other`.
    pub fn before(&self, other: &Timestamp) -> (r: bool)
        ensures
            r == ts_lt(*self, *other),
    {
        if self.year != other.year {
            self.year < other.year
        } else if self.month != other.month {
            self.month < other.month
        } else if self.day != other.day {
            self.day < other.day
        } else if self.hour != other.hour {
            self.hour < other.hour
        } else if self.minute != other.minute {
            self.minute < other.minute
        } else {
            self.second < other.second
        }
    }

    /// True when the fields form a real calendar date and time of day.
    pub fn valid(&self) -> (r: bool)
        ensures
            r == ts_valid(*self),
    {
        let dim: u32 = if self.month == 2 {
            let leap = self.year % 4 == 0 && (self.year % 100 != 0 || self.year % 400 == 0);
            if leap {
                29
            } else {
                28
            }
        } else if self.month == 4 || self.month == 6 || self.month == 9 || self.month == 11 {
            30
        } else {
            31
        };
        1 <= self.month && self.month <= 12 && 1 <= self.day && self.day <= dim && self.hour < 24
            && self.minute < 60 && self.second < 60
    }
}

} // verus!
