//! The typed data model: a calendar date, the target scheme, sets and
//! attempts, and the full exercise record produced for each input line.

use vstd::prelude::*;

verus! {

/// True for leap years of the proleptic Gregorian calendar.
pub open spec fn is_leap_year(y: int) -> bool {
    y % 4 == 0 && (y % 100 != 0 || y % 400 == 0)
}

/// Number of days of month `m` (1-based) in year `y`.
pub open spec fn days_in_month(y: int, m: int) -> int {
    if m == 2 {
        if is_leap_year(y) {
            29
        } else {
            28
        }
    } else if m == 4 || m == 6 || m == 9 || m == 11 {
        30
    } else {
        31
    }
}

/// A valid calendar date: month in range and day within the month's length.
pub open spec fn valid_ymd(y: int, m: int, d: int) -> bool {
    1 <= m <= 12 && 1 <= d <= days_in_month(y, m)
}

/// A calendar date held as plain year / month / day numbers.
///
/// Input lines write it as `DD.MM.YYYY`; a `Date` built by the parser always
/// satisfies [`valid_ymd`].
#[derive(Clone, Copy, Debug, PartialEq, Eq, Structural)]
pub struct Date {
    /// The calendar year (four digits in the input, so at most 9999).
    pub year: u32,
    /// The month, 1 through 12.
    pub month: u32,
    /// The day of the month, 1-based.
    pub day: u32,
}

impl Date {
    /// A well-formed date denotes a real day of the calendar.
    pub open spec fn wf(self) -> bool {
        valid_ymd(self.year as int, self.month as int, self.day as int)
    }

    /// Builds a date after checking calendar validity, or `None` for a
    /// day/month pair that no calendar year contains.
    pub fn from_ymd_opt(year: u32, month: u32, day: u32) -> (r: Option<Date>)
        ensures
            r is Some <==> valid_ymd(year as int, month as int, day as int),
            r is Some ==> r->0 == (Date { year, month, day }),
    {
        if 1 <= month && month <= 12 && 1 <= day && day <= days_in_month_of(year, month) {
            Some(Date { year, month, day })
        } else {
            None
        }
    }
}

/// Number of days of month `month` in year `year`, as executable code.
fn days_in_month_of(year: u32, month: u32) -> (r: u32)
    requires
        1 <= month <= 12,
    ensures
        r == days_in_month(year as int, month as int),
{
    if month == 2 {
        if year % 4 == 0 && (year % 100 != 0 || year % 400 == 0) {
            29
        } else {
            28
        }
    } else if month == 4 || month == 6 || month == 9 || month == 11 {
        30
    } else {
        31
    }
}

/// The prescribed repetition scheme of an exercise: how many sets, and the
/// minimum and maximum repetitions aimed for in each.
///
/// Written in a record as `(3 x 10-15)`, optionally with a trailing `reps`
/// word. Whether `min_reps <= max_reps` holds is deliberately not checked;
/// a target such as `(3 x 15-10)` is accepted as written.
#[derive(Clone, Copy, Debug, PartialEq, Eq, Structural)]
pub struct TargetReps {
    /// The number of sets targeted for the exercise.
    pub sets_count: u32,
    /// The minimum number of repetitions targeted for each set.
    pub min_reps: u32,
    /// The maximum number of repetitions targeted for each set.
    pub max_reps: u32,
}

/// One effort within a set: the weight used and the repetitions completed.
#[derive(Clone, Copy, Debug, PartialEq, Eq, Structural)]
pub struct Attempt {
    /// The weight lifted in this attempt, in kilograms.
    pub weight: u32,
    /// The number of repetitions completed in this attempt.
    pub reps: u32,
}

/// One set performed within a session. A set holds one or more attempts;
/// several attempts appear when weight or repetitions were adjusted mid-set.
#[derive(Debug)]
pub struct ExerciseSet {
    /// The attempts of this set, in the order they were written.
    pub attempts: Vec<Attempt>,
}

impl ExerciseSet {
    /// The attempts as a mathematical sequence.
    pub open spec fn model(&self) -> Seq<Attempt> {
        self.attempts@
    }
}

/// One fully parsed input line: a dated session of one exercise.
#[derive(Debug)]
pub struct ExerciseRecord {
    /// The day the exercise was performed.
    pub date: Date,
    /// The exercise's name, trimmed of surrounding whitespace.
    pub exercise_name: String,
    /// The prescribed sets-and-repetitions scheme.
    pub target: TargetReps,
    /// The completed sets, in input order.
    pub sets: Vec<ExerciseSet>,
}

/// The mathematical content of an [`ExerciseRecord`].
pub struct RecordModel {
    /// The date of the session.
    pub date: Date,
    /// The exercise name as a character sequence.
    pub exercise_name: Seq<char>,
    /// The target scheme.
    pub target: TargetReps,
    /// Each set as the sequence of its attempts.
    pub sets: Seq<Seq<Attempt>>,
}

/// The attempts of a sequence of sets, as mathematical sequences.
pub open spec fn sets_model(v: Seq<ExerciseSet>) -> Seq<Seq<Attempt>> {
    v.map_values(|s: ExerciseSet| s.attempts@)
}

impl ExerciseRecord {
    /// The record's content as plain mathematical values.
    pub open spec fn model(&self) -> RecordModel {
        RecordModel {
            date: self.date,
            exercise_name: self.exercise_name@,
            target: self.target,
            sets: sets_model(self.sets@),
        }
    }
}

} // verus!
