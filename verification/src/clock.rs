//! Civil time: validity of clock readings, Unix timestamps, RFC 3339
//! parsing, the +9 h wall-clock shift used for recording names (the
//! schedule timezone is Japan Standard Time, which has had a fixed offset
//! for the whole era this system can store), and the time-sync verdict.

use vstd::prelude::*;
use crate::errors::VmsError;
use crate::models::{CameraTimeInfo, OnvifDateTime, TimeSyncResult};
use crate::strutil::{
    dec_str, dec_str_signed, pad_zeros, u64_to_string, i64_to_string, u64_to_padded_string,
};

verus! {

use vstd::string::StringExecFns;

/// Gregorian leap year.
pub open spec fn is_leap(y: int) -> bool {
    y % 4 == 0 && (y % 100 != 0 || y % 400 == 0)
}

/// Days in one month.
pub open spec fn days_in_month(y: int, m: int) -> int {
    if m == 2 {
        if is_leap(y) {
            29
        } else {
            28
        }
    } else if m == 4 || m == 6 || m == 9 || m == 11 {
        30
    } else {
        31
    }
}

/// A well-formed civil clock reading.
pub open spec fn valid_civil(dt: OnvifDateTime) -> bool {
    &&& 1 <= dt.month <= 12
    &&& 1 <= dt.day <= days_in_month(dt.year as int, dt.month as int)
    &&& 0 <= dt.hour < 24
    &&& 0 <= dt.minute < 60
    &&& 0 <= dt.second < 60
}

/// Days since 1970-01-01 of a civil date (years 1 through 10000).
pub open spec fn days_from_civil_spec(y: int, m: int, d: int) -> int {
    let yy = if m <= 2 {
        y - 1
    } else {
        y
    };
    let era = (yy + 4000) / 400 - 10;
    let yoe = yy - era * 400;
    let mp = if m > 2 {
        m - 3
    } else {
        m + 9
    };
    let doy = (153 * mp + 2) / 5 + d - 1;
    let doe = yoe * 365 + yoe / 4 - yoe / 100 + doy;
    era * 146097 + doe - 719468
}

/// The Unix timestamp of a valid civil reading with year 1..=10000.
pub open spec fn unix_seconds_spec(dt: OnvifDateTime) -> int {
    days_from_civil_spec(dt.year as int, dt.month as int, dt.day as int) * 86400 + dt.hour * 3600
        + dt.minute * 60 + dt.second
}

/// Compute the Unix timestamp of a clock reading; `None` exactly when the
/// reading is not a valid civil time in years 1 through 10000.
pub fn to_unix_seconds(dt: &OnvifDateTime) -> (r: Option<i64>)
    ensures
        match r {
            Some(ts) => valid_civil(*dt) && 1 <= dt.year <= 10000 && ts as int == unix_seconds_spec(
                *dt,
            ),
            None => !(valid_civil(*dt) && 1 <= dt.year <= 10000),
        },
{
    if !(1 <= dt.month && dt.month <= 12) || !(0 <= dt.hour && dt.hour < 24) || !(0 <= dt.minute
        && dt.minute < 60) || !(0 <= dt.second && dt.second < 60) || dt.year < 1 || dt.year
        > 10000 {
        return None;
    }
    let dim = days_in_month_exec(dt.year, dt.month);
    if !(1 <= dt.day && dt.day <= dim) {
        return None;
    }
    let y = dt.year as i64;
    let m = dt.month as i64;
    let d = dt.day as i64;
    let yy: i64 = if m <= 2 {
        y - 1
    } else {
        y
    };
    let era: i64 = (yy + 4000) / 400 - 10;
    let yoe: i64 = yy - era * 400;
    let mp: i64 = if m > 2 {
        m - 3
    } else {
        m + 9
    };
    let doy: i64 = (153 * mp + 2) / 5 + d - 1;
    let doe: i64 = yoe * 365 + yoe / 4 - yoe / 100 + doy;
    let days: i64 = era * 146097 + doe - 719468;
    Some(days * 86400 + (dt.hour as i64) * 3600 + (dt.minute as i64) * 60 + (dt.second as i64))
}

/// Days in one month, executable.
pub fn days_in_month_exec(y: i32, m: i32) -> (r: i32)
    ensures
        r as int == days_in_month(y as int, m as int),
{
    if m == 2 {
        if (y % 4 == 0 && (y % 100 != 0 || y % 400 == 0)) {
            29
        } else {
            28
        }
    } else if m == 4 || m == 6 || m == 9 || m == 11 {
        30
    } else {
        31
    }
}

/// The day after a civil date.
pub open spec fn next_day_spec(dt: OnvifDateTime) -> OnvifDateTime {
    if dt.day < days_in_month(dt.year as int, dt.month as int) {
        OnvifDateTime { day: (dt.day + 1) as i32, ..dt }
    } else if dt.month < 12 {
        OnvifDateTime { month: (dt.month + 1) as i32, day: 1, ..dt }
    } else {
        OnvifDateTime { year: (dt.year + 1) as i32, month: 1, day: 1, ..dt }
    }
}

/// The day before a civil date.
pub open spec fn prev_day_spec(dt: OnvifDateTime) -> OnvifDateTime {
    if dt.day > 1 {
        OnvifDateTime { day: (dt.day - 1) as i32, ..dt }
    } else if dt.month > 1 {
        OnvifDateTime {
            month: (dt.month - 1) as i32,
            day: days_in_month(dt.year as int, dt.month - 1) as i32,
            ..dt
        }
    } else {
        OnvifDateTime { year: (dt.year - 1) as i32, month: 12, day: 31, ..dt }
    }
}

/// A valid civil reading shifted by a bounded number of seconds: the
/// seconds of the day absorb the shift and the date moves by the day
/// carry. `shift` spans at most from minus one day to plus two.
pub open spec fn civil_shift_spec(dt: OnvifDateTime, shift: int) -> OnvifDateTime {
    let total = dt.hour * 3600 + dt.minute * 60 + dt.second + shift;
    let delta: int = if total < 0 {
        -1
    } else if total < 86400 {
        0
    } else if total < 172800 {
        1
    } else {
        2
    };
    let rem = total - delta * 86400;
    let date0 = OnvifDateTime { hour: 0, minute: 0, second: 0, ..dt };
    let moved = if delta == -1 {
        prev_day_spec(date0)
    } else if delta == 0 {
        date0
    } else if delta == 1 {
        next_day_spec(date0)
    } else {
        next_day_spec(next_day_spec(date0))
    };
    OnvifDateTime {
        hour: (rem / 3600) as i32,
        minute: ((rem % 3600) / 60) as i32,
        second: (rem % 60) as i32,
        ..moved
    }
}

/// Shift a valid civil reading by a bounded number of seconds.
pub fn civil_shift(dt: &OnvifDateTime, shift: i32) -> (r: OnvifDateTime)
    requires
        valid_civil(*dt),
        -86400 <= shift <= 172799,
        -2000000 < dt.year < 2000000,
    ensures
        r == civil_shift_spec(*dt, shift as int),
{
    let total: i32 = dt.hour * 3600 + dt.minute * 60 + dt.second + shift;
    let delta: i32 = if total < 0 {
        -1
    } else if total < 86400 {
        0
    } else if total < 172800 {
        1
    } else {
        2
    };
    let rem: i32 = total - delta * 86400;
    let mut moved = OnvifDateTime {
        year: dt.year,
        month: dt.month,
        day: dt.day,
        hour: 0,
        minute: 0,
        second: 0,
    };
    if delta == -1 {
        moved = prev_day(&moved);
    } else if delta == 1 {
        moved = next_day(&moved);
    } else if delta == 2 {
        moved = next_day(&moved);
        moved = next_day(&moved);
    }
    OnvifDateTime {
        year: moved.year,
        month: moved.month,
        day: moved.day,
        hour: rem / 3600,
        minute: (rem % 3600) / 60,
        second: rem % 60,
    }
}

fn next_day(dt: &OnvifDateTime) -> (r: OnvifDateTime)
    requires
        1 <= dt.month <= 12,
        1 <= dt.day <= days_in_month(dt.year as int, dt.month as int),
        dt.year < 2000001,
    ensures
        r == next_day_spec(*dt),
{
    let dim = days_in_month_exec(dt.year, dt.month);
    if dt.day < dim {
        OnvifDateTime { day: dt.day + 1, ..*dt }
    } else if dt.month < 12 {
        OnvifDateTime { month: dt.month + 1, day: 1, ..*dt }
    } else {
        OnvifDateTime { year: dt.year + 1, month: 1, day: 1, ..*dt }
    }
}

fn prev_day(dt: &OnvifDateTime) -> (r: OnvifDateTime)
    requires
        1 <= dt.month <= 12,
        dt.year > -2000001,
    ensures
        r == prev_day_spec(*dt),
{
    if dt.day > 1 {
        OnvifDateTime { day: dt.day - 1, ..*dt }
    } else if dt.month > 1 {
        OnvifDateTime { month: dt.month - 1, day: days_in_month_exec(dt.year, dt.month - 1), ..*dt }
    } else {
        OnvifDateTime { year: dt.year - 1, month: 12, day: 31, ..*dt }
    }
}

/// Value of two digit bytes at `i`, when both are digits.
pub open spec fn d2_spec(s: Seq<u8>, i: int) -> Option<int> {
    if 0 <= i && i + 2 <= s.len() && 48 <= s[i] <= 57 && 48 <= s[i + 1] <= 57 {
        Some((s[i] - 48) * 10 + (s[i + 1] - 48))
    } else {
        None
    }
}

/// Value of four digit bytes at `i`, when all four are digits.
pub open spec fn d4_spec(s: Seq<u8>, i: int) -> Option<int> {
    if 0 <= i && i + 4 <= s.len() && 48 <= s[i] <= 57 && 48 <= s[i + 1] <= 57 && 48 <= s[i + 2]
        <= 57 && 48 <= s[i + 3] <= 57 {
        Some((s[i] - 48) * 1000 + (s[i + 1] - 48) * 100 + (s[i + 2] - 48) * 10 + (s[i + 3] - 48))
    } else {
        None
    }
}

/// Where the timezone designator of an RFC 3339 string starts: right after
/// the seconds, or after a nonempty fraction.
pub open spec fn tz_pos_spec(s: Seq<u8>) -> Option<int> {
    if s.len() < 20 {
        None
    } else if s[19] == 46 {
        let fe = crate::strutil::digit_run_end(s, 20);
        if fe == 20 {
            None
        } else {
            Some(fe)
        }
    } else {
        Some(19)
    }
}

/// An RFC 3339 timestamp parsed into its civil fields and its offset in
/// seconds: `YYYY-MM-DDTHH:MM:SS`, an optional fraction (ignored), then
/// `Z` or `±HH:MM`. The fields must form a valid civil time in years
/// 1 through 9999.
pub open spec fn rfc3339_spec(s: Seq<u8>) -> Option<(OnvifDateTime, int)> {
    if s.len() < 20 {
        None
    } else if !(s[4] == 45 && s[7] == 45 && (s[10] == 84 || s[10] == 116) && s[13] == 58 && s[16]
        == 58) {
        None
    } else {
        match (d4_spec(s, 0), d2_spec(s, 5), d2_spec(s, 8), d2_spec(s, 11), d2_spec(s, 14), d2_spec(
            s,
            17,
        )) {
            (Some(y), Some(mo), Some(d), Some(h), Some(mi), Some(sec)) => {
                let dt = OnvifDateTime {
                    year: y as i32,
                    month: mo as i32,
                    day: d as i32,
                    hour: h as i32,
                    minute: mi as i32,
                    second: sec as i32,
                };
                if !(valid_civil(dt) && 1 <= y <= 9999) {
                    None
                } else {
                    match tz_pos_spec(s) {
                        Some(p) => {
                            if p < s.len() && (s[p] == 90 || s[p] == 122) && p + 1 == s.len() {
                                Some((dt, 0))
                            } else if p < s.len() && (s[p] == 43 || s[p] == 45) && p + 6 == s.len()
                                && s[p + 3] == 58 {
                                match (d2_spec(s, p + 1), d2_spec(s, p + 4)) {
                                    (Some(oh), Some(om)) => if oh <= 23 && om <= 59 {
                                        let off = oh * 3600 + om * 60;
                                        Some((dt, if s[p] == 45 { -off } else { off }))
                                    } else {
                                        None
                                    },
                                    _ => None,
                                }
                            } else {
                                None
                            }
                        },
                        None => None,
                    }
                }
            },
            _ => None,
        }
    }
}

fn d2(s: &Vec<u8>, i: usize) -> (r: Option<i32>)
    requires
        i + 2 <= s@.len(),
    ensures
        match r {
            Some(v) => d2_spec(s@, i as int) == Some(v as int) && 0 <= v <= 99,
            None => d2_spec(s@, i as int) is None,
        },
{
    let slen = s.len();
    let a = s[i];
    let b = s[i + 1];
    if 48 <= a && a <= 57 && 48 <= b && b <= 57 {
        Some(((a - 48) as i32) * 10 + ((b - 48) as i32))
    } else {
        None
    }
}

fn d4(s: &Vec<u8>, i: usize) -> (r: Option<i32>)
    requires
        i + 4 <= s@.len(),
    ensures
        match r {
            Some(v) => d4_spec(s@, i as int) == Some(v as int) && 0 <= v <= 9999,
            None => d4_spec(s@, i as int) is None,
        },
{
    let slen = s.len();
    let a = s[i];
    let b = s[i + 1];
    let c = s[i + 2];
    let d = s[i + 3];
    if 48 <= a && a <= 57 && 48 <= b && b <= 57 && 48 <= c && c <= 57 && 48 <= d && d <= 57 {
        Some(
            ((a - 48) as i32) * 1000 + ((b - 48) as i32) * 100 + ((c - 48) as i32) * 10 + ((d
                - 48) as i32),
        )
    } else {
        None
    }
}

/// Parse an RFC 3339 timestamp.
pub fn parse_rfc3339(s: &Vec<u8>) -> (r: Option<(OnvifDateTime, i32)>)
    ensures
        match r {
            Some((dt, off)) => rfc3339_spec(s@) == Some((dt, off as int)) && valid_civil(dt) && 1
                <= dt.year <= 9999 && -86400 < off < 86400,
            None => rfc3339_spec(s@) is None,
        },
{
    if s.len() < 20 {
        return None;
    }
    if !(s[4] == 45 && s[7] == 45 && (s[10] == 84 || s[10] == 116) && s[13] == 58 && s[16] == 58) {
        return None;
    }
    let y = d4(s, 0);
    let mo = d2(s, 5);
    let d = d2(s, 8);
    let h = d2(s, 11);
    let mi = d2(s, 14);
    let sec = d2(s, 17);
    match (y, mo, d, h, mi, sec) {
        (Some(y), Some(mo), Some(d), Some(h), Some(mi), Some(sec)) => {
            let dt = OnvifDateTime { year: y, month: mo, day: d, hour: h, minute: mi, second: sec };
            if !(1 <= mo && mo <= 12) || !(0 <= h && h < 24) || !(0 <= mi && mi < 60) || !(0 <= sec
                && sec < 60) || y < 1 {
                return None;
            }
            let dim = days_in_month_exec(y, mo);
            if !(1 <= d && d <= dim) {
                return None;
            }
            let slen = s.len();
            let mut p: usize = 19;
            if s[19] == 46 {
                let mut fe: usize = 20;
                while fe < slen && 48 <= s[fe] && s[fe] <= 57
                    invariant
                        20 <= fe <= slen,
                        slen == s@.len(),
                        crate::strutil::digit_run_end(s@, 20) == crate::strutil::digit_run_end(
                            s@,
                            fe as int,
                        ),
                    decreases slen - fe,
                {
                    proof {
                        assert(crate::strutil::digit_run_end(s@, fe as int)
                            == crate::strutil::digit_run_end(s@, fe + 1));
                    }
                    fe = fe + 1;
                }
                proof {
                    assert(crate::strutil::digit_run_end(s@, fe as int) == fe as int);
                }
                if fe == 20 {
                    return None;
                }
                p = fe;
            }
            if p < s.len() && (s[p] == 90 || s[p] == 122) {
                if p + 1 == s.len() {
                    return Some((dt, 0));
                }
                return None;
            }
            if p < s.len() && (s[p] == 43 || s[p] == 45) && s.len() - p == 6 && s[p + 3] == 58 {
                let oh = d2(s, p + 1);
                let om = d2(s, p + 4);
                match (oh, om) {
                    (Some(oh), Some(om)) => {
                        if oh <= 23 && om <= 59 {
                            let off: i32 = oh * 3600 + om * 60;
                            if s[p] == 45 {
                                return Some((dt, -off));
                            }
                            return Some((dt, off));
                        }
                        return None;
                    },
                    _ => {
                        return None;
                    },
                }
            }
            None
        },
        _ => None,
    }
}

/// The stamp of a recording name: `YYYYMMDD_HHMMSS`, zero-padded.
pub open spec fn stamp_spec(dt: OnvifDateTime) -> Seq<char> {
    pad_zeros(dec_str(dt.year as nat), 4) + pad_zeros(dec_str(dt.month as nat), 2) + pad_zeros(
        dec_str(dt.day as nat),
        2,
    ) + "_"@ + pad_zeros(dec_str(dt.hour as nat), 2) + pad_zeros(dec_str(dt.minute as nat), 2)
        + pad_zeros(dec_str(dt.second as nat), 2)
}

/// The final name of one finished recording: camera id and local (JST)
/// start stamp.
pub open spec fn final_name_spec(camera_id: int, dt: OnvifDateTime) -> Seq<char> {
    "rec_"@ + dec_str_signed(camera_id) + "_"@ + stamp_spec(dt) + ".mp4"@
}

/// The thumbnail name of one recording: the same stem with `.jpg`.
pub open spec fn thumbnail_name_spec(camera_id: int, dt: OnvifDateTime) -> Seq<char> {
    "rec_"@ + dec_str_signed(camera_id) + "_"@ + stamp_spec(dt) + ".jpg"@
}

/// Compose the final `.mp4` filename for a recording of `camera_id` whose
/// row carries `start_rfc3339`: the start instant shifted to Japan
/// Standard Time (+9 h), stamped `rec_{id}_{YYYYMMDD_HHMMSS}.mp4`.
/// Fails with a validation error exactly when the stored start time does
/// not parse.
pub fn final_recording_name(camera_id: i32, start_rfc3339: &Vec<u8>) -> (r: Result<
    String,
    VmsError,
>)
    ensures
        match r {
            Ok(name) => {
                &&& rfc3339_spec(start_rfc3339@) is Some
                &&& ({
                    let (dt, off) = rfc3339_spec(start_rfc3339@).unwrap();
                    name@ == final_name_spec(
                        camera_id as int,
                        civil_shift_spec(dt, 32400 - off),
                    )
                })
            },
            Err(e) => e == VmsError::Validation && rfc3339_spec(start_rfc3339@) is None,
        },
{
    let (dt, off) = match parse_rfc3339(start_rfc3339) {
        Some(p) => p,
        None => {
            return Err(VmsError::Validation);
        },
    };
    let local = civil_shift(&dt, 32400 - off);
    let mut s = String::from_str("rec_");
    s.append(i64_to_string(camera_id as i64).as_str());
    s.append("_");
    s.append(stamp_string(&local).as_str());
    s.append(".mp4");
    proof {
        assert(s@ =~= final_name_spec(
            camera_id as int,
            civil_shift_spec(dt, 32400 - off as int),
        ));
    }
    Ok(s)
}

/// Render the `YYYYMMDD_HHMMSS` stamp of a shifted reading.
pub fn stamp_string(dt: &OnvifDateTime) -> (r: String)
    requires
        0 <= dt.year,
        0 <= dt.month,
        0 <= dt.day,
        0 <= dt.hour,
        0 <= dt.minute,
        0 <= dt.second,
    ensures
        r@ == stamp_spec(*dt),
{
    let mut s = u64_to_padded_string(dt.year as u64, 4);
    s.append(u64_to_padded_string(dt.month as u64, 2).as_str());
    s.append(u64_to_padded_string(dt.day as u64, 2).as_str());
    s.append("_");
    s.append(u64_to_padded_string(dt.hour as u64, 2).as_str());
    s.append(u64_to_padded_string(dt.minute as u64, 2).as_str());
    s.append(u64_to_padded_string(dt.second as u64, 2).as_str());
    proof {
        assert(s@ =~= stamp_spec(*dt));
    }
    s
}

/// The user-facing message of a time synchronization run, from the signed
/// delta before the set and the re-read delta when verification succeeded.
pub open spec fn sync_message_spec(diff: int, after: Option<int>) -> Seq<char> {
    match after {
        Some(f) => if -5 < f < 5 {
            "Camera time synchronized successfully (adjusted by "@ + dec_str_signed(diff)
                + "s, verified)"@
        } else {
            "Camera time may not have been set correctly (before diff: "@ + dec_str_signed(diff)
                + "s, after diff: "@ + dec_str_signed(f) + "s)"@
        },
        None => if -2 < diff < 2 {
            "Camera time is already synchronized (difference: "@ + dec_str_signed(diff) + "s)"@
        } else {
            "Camera time command sent (adjusted by "@ + dec_str_signed(diff)
                + "s, verification unavailable)"@
        },
    }
}

/// Compose the time-sync outcome message.
pub fn sync_message(diff: i64, after: Option<i64>) -> (r: String)
    ensures
        r@ == sync_message_spec(
            diff as int,
            match after {
                Some(f) => Some(f as int),
                None => None,
            },
        ),
{
    match after {
        Some(f) => {
            if -5 < f && f < 5 {
                let mut s = String::from_str("Camera time synchronized successfully (adjusted by ");
                s.append(i64_to_string(diff).as_str());
                s.append("s, verified)");
                proof {
                    assert(s@ =~= sync_message_spec(diff as int, Some(f as int)));
                }
                s
            } else {
                let mut s = String::from_str(
                    "Camera time may not have been set correctly (before diff: ",
                );
                s.append(i64_to_string(diff).as_str());
                s.append("s, after diff: ");
                s.append(i64_to_string(f).as_str());
                s.append("s)");
                proof {
                    assert(s@ =~= sync_message_spec(diff as int, Some(f as int)));
                }
                s
            }
        },
        None => {
            if -2 < diff && diff < 2 {
                let mut s = String::from_str("Camera time is already synchronized (difference: ");
                s.append(i64_to_string(diff).as_str());
                s.append("s)");
                proof {
                    assert(s@ =~= sync_message_spec(diff as int, None::<int>));
                }
                s
            } else {
                let mut s = String::from_str("Camera time command sent (adjusted by ");
                s.append(i64_to_string(diff).as_str());
                s.append("s, verification unavailable)");
                proof {
                    assert(s@ =~= sync_message_spec(diff as int, None::<int>));
                }
                s
            }
        },
    }
}

/// The signed difference in seconds between the server clock and a camera
/// reading; a validation error exactly when either reading is no valid
/// civil time.
pub fn clock_delta_seconds(server: &OnvifDateTime, camera: &OnvifDateTime) -> (r: Result<
    i64,
    VmsError,
>)
    ensures
        match r {
            Ok(d) => {
                &&& valid_civil(*server) && 1 <= server.year <= 10000
                &&& valid_civil(*camera) && 1 <= camera.year <= 10000
                &&& d as int == unix_seconds_spec(*server) - unix_seconds_spec(*camera)
            },
            Err(e) => e == VmsError::Validation && !(valid_civil(*server) && 1 <= server.year
                <= 10000 && valid_civil(*camera) && 1 <= camera.year <= 10000),
        },
{
    let st = match to_unix_seconds(server) {
        Some(t) => t,
        None => {
            return Err(VmsError::Validation);
        },
    };
    let ct = match to_unix_seconds(camera) {
        Some(t) => t,
        None => {
            return Err(VmsError::Validation);
        },
    };
    Ok(st - ct)
}

/// Pair a camera's clock reading with the server clock for the time query.
pub fn camera_time_info(camera_time: OnvifDateTime, server_time: String) -> (r: CameraTimeInfo)
    ensures
        r.camera_time == camera_time,
        r.server_time@ == server_time@,
{
    CameraTimeInfo { camera_time, server_time }
}

/// Assemble the structured payload of a successful time synchronization.
pub fn time_sync_result(
    before_time: OnvifDateTime,
    server_time: String,
    message: String,
) -> (r: TimeSyncResult)
    ensures
        r.success,
        r.before_time == before_time,
        r.server_time@ == server_time@,
        r.message@ == message@,
        r.error is None,
{
    TimeSyncResult { success: true, before_time, server_time, message, error: None }
}

} // verus!
