//! Names for in-game days, which count the days of March 2020 from 1.
use vstd::prelude::*;

verus! {

/// The weekday names, starting from the weekday of day 0 (the last day of
/// February 2020, a Saturday).
pub open spec fn weekday_names() -> Seq<&'static str> {
    seq!["Saturday", "Sunday", "Monday", "Tuesday", "Wednesday", "Thursday", "Friday"]
}

/// The weekday of day `day` of March 2020 (1 March 2020 was a Sunday).
pub open spec fn weekday_spec(day: u64) -> &'static str {
    weekday_names()[(day % 7) as int]
}

pub fn march_2020_dow(day: u64) -> (r: &'static str)
    ensures
        r == weekday_spec(day),
{
    let k = day % 7;
    if k == 0 {
        "Saturday"
    } else if k == 1 {
        "Sunday"
    } else if k == 2 {
        "Monday"
    } else if k == 3 {
        "Tuesday"
    } else if k == 4 {
        "Wednesday"
    } else if k == 5 {
        "Thursday"
    } else {
        "Friday"
    }
}

/// The English ordinal suffix of `day`: "th" for 11, 12, 13 (modulo 100),
/// otherwise "st", "nd", "rd" for a last digit 1, 2, 3, and "th" else.
pub open spec fn ordinal_spec(day: u64) -> &'static str {
    if day % 100 == 11 || day % 100 == 12 || day % 100 == 13 {
        "th"
    } else if day % 10 == 1 {
        "st"
    } else if day % 10 == 2 {
        "nd"
    } else if day % 10 == 3 {
        "rd"
    } else {
        "th"
    }
}

pub fn english_ordinal(day: u64) -> (r: &'static str)
    ensures
        r == ordinal_spec(day),
{
    if day % 100 == 11 || day % 100 == 12 || day % 100 == 13 {
        "th"
    } else if day % 10 == 1 {
        "st"
    } else if day % 10 == 2 {
        "nd"
    } else if day % 10 == 3 {
        "rd"
    } else {
        "th"
    }
}

} // verus!
