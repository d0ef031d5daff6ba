//! The names under which plans know the days of the week.

use crate::calendar::Weekday;
use std::borrow::Cow;
use vstd::prelude::*;

verus! {

/// The full lower-case English name of a day of the week.
pub open spec fn weekday_name(weekday: Weekday) -> Seq<char> {
    match weekday {
        Weekday::Mon => "monday"@,
        Weekday::Tue => "tuesday"@,
        Weekday::Wed => "wednesday"@,
        Weekday::Thu => "thursday"@,
        Weekday::Fri => "friday"@,
        Weekday::Sat => "saturday"@,
        Weekday::Sun => "sunday"@,
    }
}

/// The full lower-case English name of `weekday`.
pub fn chrono_to_string(weekday: &Weekday) -> (name: Cow<'static, str>)
    ensures
        name@ == weekday_name(*weekday),
{
    match weekday {
        Weekday::Mon => Cow::Borrowed("monday"),
        Weekday::Tue => Cow::Borrowed("tuesday"),
        Weekday::Wed => Cow::Borrowed("wednesday"),
        Weekday::Thu => Cow::Borrowed("thursday"),
        Weekday::Fri => Cow::Borrowed("friday"),
        Weekday::Sat => Cow::Borrowed("saturday"),
        Weekday::Sun => Cow::Borrowed("sunday"),
    }
}

/// The characters of a name, whether it is borrowed or owned.
pub fn name_str<'a>(name: &'a Cow<'static, str>) -> (text: &'a str)
    ensures
        text@ == name@,
{
    match name {
        Cow::Borrowed(text) => *text,
        Cow::Owned(text) => text.as_str(),
    }
}

} // verus!
