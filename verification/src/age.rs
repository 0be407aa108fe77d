//! The age of a user, counted in whole years on a fixed day.

use vstd::prelude::*;

verus! {

/// The year of the day on which ages are counted.
pub const NOW_YEAR: i32 = 2019;

/// The month of the day on which ages are counted.
pub const NOW_MONTH: u8 = 6;

/// The day of the month of the day on which ages are counted.
pub const NOW_DAY: u8 = 26;

/// The age from which a user counts as an adult.
pub const ADULT_AGE: u16 = 18;

/// Whether the calendar has a day `day` in month `month` of year `year`, as
/// the `time` crate sees it.
pub uninterp spec fn calendar_date_exists(year: int, month: int, day: int) -> bool;

/// `time::Month::try_from` on `month`, then `time::Date::from_calendar_date`:
/// whether both succeed.
///
/// Not proved: that the answer depends on the three numbers alone, so that
/// it can go by the name `calendar_date_exists`. Neither call panics.
#[verifier::external_body]
fn date_exists(year: i32, month: u8, day: u8) -> (exists: bool)
    ensures
        exists == calendar_date_exists(year as int, month as int, day as int),
{
    match time::Month::try_from(month) {
        Ok(month) => time::Date::from_calendar_date(year, month, day).is_ok(),
        Err(_) => false,
    }
}

/// The age in whole years of someone born on `month`/`day` of `year`, on
/// the day `now_month`/`now_day` of `now_year`.
///
/// A year is taken off when the month and the day of birth are both no later
/// than those of the day of counting, each compared by itself. An age below
/// zero, or one too large for 16 bits, counts as zero.
pub open spec fn age_on(
    year: int,
    month: int,
    day: int,
    now_year: int,
    now_month: int,
    now_day: int,
) -> int {
    let years = now_year - year;
    let years = if month <= now_month && day <= now_day {
        years - 1
    } else {
        years
    };
    if 0 <= years <= u16::MAX {
        years
    } else {
        0
    }
}

/// A user, of whom the day of birth is known.
#[derive(Debug, Clone, Copy, PartialEq, Eq, Structural)]
pub struct User {
    year: i32,
    month: u8,
    day: u8,
}

impl User {
    /// The year of birth.
    pub closed spec fn year(&self) -> i32 {
        self.year
    }

    /// The month of birth.
    pub closed spec fn month(&self) -> u8 {
        self.month
    }

    /// The day of birth in its month.
    pub closed spec fn day(&self) -> u8 {
        self.day
    }

    /// A user born on `month`/`day` of `year`. Of the month and the day only
    /// the lowest eight bits count, and what they say has to be a day of the
    /// calendar.
    pub fn with_birthdate(year: i32, month: u32, day: u32) -> (user: Self)
        requires
            calendar_date_exists(year as int, (month % 256) as int, (day % 256) as int),
        ensures
            user.year() == year,
            user.month() == month % 256,
            user.day() == day % 256,
    {
        let month = (month % 256) as u8;
        let day = (day % 256) as u8;
        Self { year, month, day }
    }

    /// A user born on `month`/`day` of `year`, if the calendar has that day.
    pub fn try_with_birthdate(year: i32, month: u32, day: u32) -> (user: Option<Self>)
        ensures
            user is Some <==> calendar_date_exists(
                year as int,
                (month % 256) as int,
                (day % 256) as int,
            ),
            user matches Some(u) ==> u.year() == year && u.month() == month % 256 && u.day() == day
                % 256,
    {
        if date_exists(year, (month % 256) as u8, (day % 256) as u8) {
            Some(User::with_birthdate(year, month, day))
        } else {
            None
        }
    }

    /// The age of the user in whole years on the day of counting.
    pub fn age(&self) -> (age: u16)
        ensures
            age as int == age_on(
                self.year() as int,
                self.month() as int,
                self.day() as int,
                NOW_YEAR as int,
                NOW_MONTH as int,
                NOW_DAY as int,
            ),
    {
        let mut age: i64 = NOW_YEAR as i64 - self.year as i64;

        if self.month <= NOW_MONTH && self.day <= NOW_DAY {
            age -= 1;
        }
        if 0 <= age && age <= u16::MAX as i64 {
            age as u16
        } else {
            0
        }
    }

    /// Whether the user is 18 years old or older on the day of counting.
    pub fn is_adult(&self) -> (adult: bool)
        ensures
            adult == (age_on(
                self.year() as int,
                self.month() as int,
                self.day() as int,
                NOW_YEAR as int,
                NOW_MONTH as int,
                NOW_DAY as int,
            ) >= ADULT_AGE),
    {
        self.age() >= ADULT_AGE
    }
}

} // verus!
