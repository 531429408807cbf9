use vstd::prelude::*;

verus! {

/// The two renderings of the background art.
#[derive(Debug, Clone, Copy, PartialEq, Eq, Structural)]
pub enum Background {
    Day,
    Night,
}

/// Night before sunrise and after sunset; instants are nanoseconds since the
/// Unix epoch.
pub open spec fn by_sun_spec(now: i128, sunrise: i128, sunset: i128) -> Background {
    if now < sunrise || now > sunset {
        Background::Night
    } else {
        Background::Day
    }
}

/// Day from 7 o'clock up to, but not including, 18 o'clock.
pub open spec fn by_hour_spec(hour: u8) -> Background {
    if 7 <= hour < 18 {
        Background::Day
    } else {
        Background::Night
    }
}

pub open spec fn is_digit(b: u8) -> bool {
    48 <= b <= 57
}

/// The art for the instant `now`, given the day's sunrise and sunset.
pub fn by_sun(now: i128, sunrise: i128, sunset: i128) -> (r: Background)
    ensures
        r == by_sun_spec(now, sunrise, sunset),
{
    if now < sunrise || now > sunset {
        Background::Night
    } else {
        Background::Day
    }
}

/// The art for the clock's hour.
pub fn by_hour(hour: u8) -> (r: Background)
    ensures
        r == by_hour_spec(hour),
{
    if 7 <= hour && hour < 18 {
        Background::Day
    } else {
        Background::Night
    }
}

/// Reads the hour from the clock's output: the number that its first two
/// bytes spell in decimal, or `None` when one of them is not a digit.
pub fn clock_hour(out: &[u8]) -> (r: Option<u8>)
    ensures
        out@.len() == 0 ==> r == Some(0u8),
        out@.len() == 1 ==> r == if is_digit(out@[0]) {
            Some((out@[0] - 48) as u8)
        } else {
            None::<u8>
        },
        out@.len() >= 2 ==> r == if is_digit(out@[0]) && is_digit(out@[1]) {
            Some(((out@[0] - 48) * 10 + (out@[1] - 48)) as u8)
        } else {
            None::<u8>
        },
{
    let mut hour: u8 = 0;
    let mut i: usize = 0;
    while i < out.len() && i < 2
        invariant
            i <= 2,
            i <= out@.len(),
            i == 0 ==> hour == 0,
            i >= 1 ==> is_digit(out@[0]),
            i == 1 ==> hour == out@[0] - 48,
            i == 2 ==> is_digit(out@[1]) && hour == (out@[0] - 48) * 10 + (out@[1] - 48),
        decreases 2 - i,
    {
        let b = out[i];
        if b < 48 || b > 57 {
            return None;
        }
        hour = hour * 10 + (b - 48);
        i = i + 1;
    }
    Some(hour)
}

} // verus!
