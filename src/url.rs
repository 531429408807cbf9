use vstd::prelude::*;
use vstd::string::StringExecFns;

use crate::config::Satellite;

verus! {

/// The imagery service.
pub const SLIDER_BASE_URL: &'static str = "https://rammb-slider.cira.colostate.edu";

/// The decimal digit of `d`.
pub open spec fn digit_char(d: nat) -> char {
    if d == 0 {
        '0'
    } else if d == 1 {
        '1'
    } else if d == 2 {
        '2'
    } else if d == 3 {
        '3'
    } else if d == 4 {
        '4'
    } else if d == 5 {
        '5'
    } else if d == 6 {
        '6'
    } else if d == 7 {
        '7'
    } else if d == 8 {
        '8'
    } else {
        '9'
    }
}

/// `n` in decimal, without leading zeros.
pub open spec fn decimal(n: nat) -> Seq<char>
    decreases n,
{
    if n < 10 {
        seq![digit_char(n)]
    } else {
        decimal(n / 10).push(digit_char(n % 10))
    }
}

/// The last `width` decimal digits of `n`, with leading zeros.
pub open spec fn fixed(n: nat, width: nat) -> Seq<char>
    decreases width,
{
    if width == 0 {
        seq![]
    } else {
        fixed(n / 10, (width - 1) as nat).push(digit_char(n % 10))
    }
}

/// The address of the service's list of latest timestamps for `sat`.
pub open spec fn times_url_spec(sat: Satellite) -> Seq<char> {
    "https://rammb-slider.cira.colostate.edu"@ + "/data/json/"@ + sat.id_spec()
        + "/full_disk/geocolor/latest_times.json"@
}

/// The address of the service's list of available dates for `sat`.
pub open spec fn dates_url_spec(sat: Satellite) -> Seq<char> {
    "https://rammb-slider.cira.colostate.edu"@ + "/data/json/"@ + sat.id_spec()
        + "/full_disk/geocolor/available_dates.json"@
}

/// The address of the tile at `(row, col)` (row first) of the capture `timestamp` taken on
/// `year`-`month`-`day`.
pub open spec fn tile_url_spec(
    sat: Satellite,
    year: u16,
    month: u8,
    day: u8,
    timestamp: u64,
    row: u32,
    col: u32,
) -> Seq<char> {
    "https://rammb-slider.cira.colostate.edu"@ + "/data/imagery/"@ + fixed(year as nat, 4) + "/"@
        + fixed(month as nat, 2) + "/"@ + fixed(day as nat, 2) + "/"@ + sat.id_spec()
        + "---full_disk/geocolor/"@ + decimal(timestamp as nat) + "/"@ + fixed(
        sat.max_zoom_spec() as nat,
        2,
    ) + "/"@ + fixed(row as nat, 3) + "_"@ + fixed(col as nat, 3) + ".png"@
}

fn digit_str(d: u64) -> (r: &'static str)
    requires
        d < 10,
    ensures
        r@ == seq![digit_char(d as nat)],
{
    proof {
        reveal_strlit("0");
        reveal_strlit("1");
        reveal_strlit("2");
        reveal_strlit("3");
        reveal_strlit("4");
        reveal_strlit("5");
        reveal_strlit("6");
        reveal_strlit("7");
        reveal_strlit("8");
        reveal_strlit("9");
    }
    if d == 0 {
        "0"
    } else if d == 1 {
        "1"
    } else if d == 2 {
        "2"
    } else if d == 3 {
        "3"
    } else if d == 4 {
        "4"
    } else if d == 5 {
        "5"
    } else if d == 6 {
        "6"
    } else if d == 7 {
        "7"
    } else if d == 8 {
        "8"
    } else {
        "9"
    }
}

/// Appends `n` in decimal.
pub fn push_decimal(s: &mut String, n: u64)
    ensures
        final(s)@ == old(s)@ + decimal(n as nat),
    decreases n,
{
    if n >= 10 {
        push_decimal(s, n / 10);
    }
    s.append(digit_str(n % 10));
}

/// Appends the last `width` decimal digits of `n`, with leading zeros.
pub fn push_fixed(s: &mut String, n: u64, width: u32)
    ensures
        final(s)@ == old(s)@ + fixed(n as nat, width as nat),
    decreases width,
{
    if width > 0 {
        push_fixed(s, n / 10, width - 1);
        s.append(digit_str(n % 10));
    }
}

/// The address of the service's list of latest timestamps.
pub fn times_url(sat: Satellite) -> (r: String)
    ensures
        r@ == times_url_spec(sat),
{
    let mut s = String::new();
    s.append(SLIDER_BASE_URL);
    s.append("/data/json/");
    s.append(sat.id());
    s.append("/full_disk/geocolor/latest_times.json");
    proof {
        reveal_strlit("https://rammb-slider.cira.colostate.edu");
        reveal_strlit("/data/json/");
        reveal_strlit("/full_disk/geocolor/latest_times.json");
        assert(s@ =~= times_url_spec(sat));
    }
    s
}

/// The address of the service's list of available dates.
pub fn dates_url(sat: Satellite) -> (r: String)
    ensures
        r@ == dates_url_spec(sat),
{
    let mut s = String::new();
    s.append(SLIDER_BASE_URL);
    s.append("/data/json/");
    s.append(sat.id());
    s.append("/full_disk/geocolor/available_dates.json");
    proof {
        reveal_strlit("https://rammb-slider.cira.colostate.edu");
        reveal_strlit("/data/json/");
        reveal_strlit("/full_disk/geocolor/available_dates.json");
        assert(s@ =~= dates_url_spec(sat));
    }
    s
}

/// The address of one tile of a capture. The service names a tile
/// `{row}_{col}`: the first index counts rows from the top, the second columns
/// from the left, the order in which `Stitcher::place` takes them.
pub fn tile_url(
    sat: Satellite,
    year: u16,
    month: u8,
    day: u8,
    timestamp: u64,
    row: u32,
    col: u32,
) -> (r: String)
    ensures
        r@ == tile_url_spec(sat, year, month, day, timestamp, row, col),
{
    let mut s = String::new();
    s.append(SLIDER_BASE_URL);
    s.append("/data/imagery/");
    push_fixed(&mut s, year as u64, 4);
    s.append("/");
    push_fixed(&mut s, month as u64, 2);
    s.append("/");
    push_fixed(&mut s, day as u64, 2);
    s.append("/");
    s.append(sat.id());
    s.append("---full_disk/geocolor/");
    push_decimal(&mut s, timestamp);
    s.append("/");
    push_fixed(&mut s, sat.max_zoom() as u64, 2);
    s.append("/");
    push_fixed(&mut s, row as u64, 3);
    s.append("_");
    push_fixed(&mut s, col as u64, 3);
    s.append(".png");
    proof {
        reveal_strlit("https://rammb-slider.cira.colostate.edu");
        reveal_strlit("/data/imagery/");
        reveal_strlit("/");
        reveal_strlit("---full_disk/geocolor/");
        reveal_strlit("_");
        reveal_strlit(".png");
        assert(s@ =~= tile_url_spec(sat, year, month, day, timestamp, row, col));
    }
    s
}

} // verus!
