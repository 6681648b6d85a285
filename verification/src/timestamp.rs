//! Calendar timestamps and the two date formats WebDAV properties use:
//! RFC 3339 (`creationdate`) and the RFC 1123 HTTP-date
//! (`getlastmodified`).

use vstd::prelude::*;

use crate::status::sp_is_digit;

verus! {

/// A decoded calendar timestamp: date, time of day, and the zone offset
/// in minutes east of UTC.
#[derive(Clone, Copy, Debug, PartialEq, Eq, Structural)]
pub struct Timestamp {
    pub year: u16,
    pub month: u8,
    pub day: u8,
    pub hour: u8,
    pub minute: u8,
    pub second: u8,
    pub offset_minutes: i32,
}

/// Seconds since the Unix epoch of a timestamp, by the proleptic
/// Gregorian calendar, with the zone offset applied.
pub open spec fn sp_epoch_seconds(t: Timestamp) -> int {
    let y = t.year - (if t.month <= 2 {
        1int
    } else {
        0int
    }) + 400;
    let era = y / 400;
    let yoe = y - era * 400;
    let mp = if t.month > 2 {
        t.month - 3
    } else {
        t.month + 9
    };
    let doy = (153 * mp + 2) / 5 + t.day - 1;
    let doe = yoe * 365 + yoe / 4 - yoe / 100 + doy;
    let days = era * 146097 + doe - 719468 - 146097;
    days * 86400 + t.hour * 3600 + t.minute * 60 + t.second - t.offset_minutes * 60
}

impl Timestamp {
    /// Seconds since the Unix epoch, with the zone offset applied.
    pub fn epoch_seconds(&self) -> (r: i64)
        requires
            1 <= self.month <= 12,
        ensures
            r == sp_epoch_seconds(*self),
    {
        let y: i64 = self.year as i64 - (if self.month <= 2 {
            1
        } else {
            0
        }) + 400;
        let era: i64 = y / 400;
        let yoe: i64 = y - era * 400;
        let mp: i64 = if self.month > 2 {
            self.month as i64 - 3
        } else {
            self.month as i64 + 9
        };
        let doy: i64 = (153 * mp + 2) / 5 + self.day as i64 - 1;
        let doe: i64 = yoe * 365 + yoe / 4 - yoe / 100 + doy;
        let days: i64 = era * 146097 + doe - 719468 - 146097;
        days * 86400 + self.hour as i64 * 3600 + self.minute as i64 * 60 + self.second as i64
            - self.offset_minutes as i64 * 60
    }
}

/// Value of two ASCII digits at `i`.
pub open spec fn sp_val2(t: Seq<u8>, i: int) -> int {
    10 * (t[i] - 48) + (t[i + 1] - 48)
}

/// Value of four ASCII digits at `i`.
pub open spec fn sp_val4(t: Seq<u8>, i: int) -> int {
    1000 * (t[i] - 48) + 100 * (t[i + 1] - 48) + 10 * (t[i + 2] - 48) + (t[i + 3] - 48)
}

/// Plausible field ranges for a decoded timestamp.
pub open spec fn sp_fields_ok(month: int, day: int, hour: int, minute: int, second: int) -> bool {
    &&& 1 <= month <= 12
    &&& 1 <= day <= 31
    &&& hour <= 23
    &&& minute <= 59
    &&& second <= 60
}

/// A timezone designator filling `t` from `i` to the end: `Z` (or `z`),
/// or `+HH:MM` / `-HH:MM`.  Yields the offset in minutes.
pub open spec fn sp_zone_at(t: Seq<u8>, i: int) -> Option<i32> {
    if i < 0 || i >= t.len() {
        None
    } else if (t[i] == 90 || t[i] == 122) && i + 1 == t.len() {
        Some(0)
    } else if (t[i] == 43 || t[i] == 45) && i + 6 == t.len() && sp_is_digit(t[i + 1]) && sp_is_digit(
        t[i + 2],
    ) && t[i + 3] == 58 && sp_is_digit(t[i + 4]) && sp_is_digit(t[i + 5]) {
        let hh = sp_val2(t, i + 1);
        let mm = sp_val2(t, i + 4);
        if hh <= 23 && mm <= 59 {
            if t[i] == 43 {
                Some((hh * 60 + mm) as i32)
            } else {
                Some((-(hh * 60 + mm)) as i32)
            }
        } else {
            None
        }
    } else {
        None
    }
}

/// First index at or after `from` holding a non-digit, or `t.len()`.
pub open spec fn sp_digit_end(t: Seq<u8>, from: int) -> int
    decreases t.len() - from,
{
    if from < 0 || from >= t.len() {
        t.len() as int
    } else if !sp_is_digit(t[from]) {
        from
    } else {
        sp_digit_end(t, from + 1)
    }
}

/// Parsing an RFC 3339 timestamp `YYYY-MM-DDTHH:MM:SS[.frac](Z|±HH:MM)`,
/// with the fractional second discarded.
pub open spec fn sp_parse_rfc3339(t: Seq<u8>) -> Option<Timestamp> {
    if t.len() < 20 {
        None
    } else if !(sp_is_digit(t[0]) && sp_is_digit(t[1]) && sp_is_digit(t[2]) && sp_is_digit(t[3])
        && t[4] == 45 && sp_is_digit(t[5]) && sp_is_digit(t[6]) && t[7] == 45 && sp_is_digit(t[8])
        && sp_is_digit(t[9]) && (t[10] == 84 || t[10] == 116) && sp_is_digit(t[11]) && sp_is_digit(
        t[12],
    ) && t[13] == 58 && sp_is_digit(t[14]) && sp_is_digit(t[15]) && t[16] == 58 && sp_is_digit(
        t[17],
    ) && sp_is_digit(t[18])) {
        None
    } else {
        let zone_start = if t[19] == 46 {
            sp_digit_end(t, 20)
        } else {
            19int
        };
        if t[19] == 46 && zone_start == 20 {
            None
        } else {
            match sp_zone_at(t, zone_start) {
                None => None,
                Some(off) => {
                    let month = sp_val2(t, 5);
                    let day = sp_val2(t, 8);
                    let hour = sp_val2(t, 11);
                    let minute = sp_val2(t, 14);
                    let second = sp_val2(t, 17);
                    if sp_fields_ok(month, day, hour, minute, second) {
                        Some(
                            Timestamp {
                                year: sp_val4(t, 0) as u16,
                                month: month as u8,
                                day: day as u8,
                                hour: hour as u8,
                                minute: minute as u8,
                                second: second as u8,
                                offset_minutes: off,
                            },
                        )
                    } else {
                        None
                    }
                },
            }
        }
    }
}

/// Month number of a three-letter English month name, if any.
pub open spec fn sp_month_of(a: u8, b: u8, c: u8) -> Option<u8> {
    if a == 74 && b == 97 && c == 110 {
        Some(1u8)
    } else if a == 70 && b == 101 && c == 98 {
        Some(2u8)
    } else if a == 77 && b == 97 && c == 114 {
        Some(3u8)
    } else if a == 65 && b == 112 && c == 114 {
        Some(4u8)
    } else if a == 77 && b == 97 && c == 121 {
        Some(5u8)
    } else if a == 74 && b == 117 && c == 110 {
        Some(6u8)
    } else if a == 74 && b == 117 && c == 108 {
        Some(7u8)
    } else if a == 65 && b == 117 && c == 103 {
        Some(8u8)
    } else if a == 83 && b == 101 && c == 112 {
        Some(9u8)
    } else if a == 79 && b == 99 && c == 116 {
        Some(10u8)
    } else if a == 78 && b == 111 && c == 118 {
        Some(11u8)
    } else if a == 68 && b == 101 && c == 99 {
        Some(12u8)
    } else {
        None
    }
}

/// Parsing an RFC 1123 HTTP-date `Www, DD Mon YYYY HH:MM:SS GMT`.
pub open spec fn sp_parse_rfc1123(t: Seq<u8>) -> Option<Timestamp> {
    if t.len() != 29 {
        None
    } else if !(t[3] == 44 && t[4] == 32 && sp_is_digit(t[5]) && sp_is_digit(t[6]) && t[7] == 32
        && t[11] == 32 && sp_is_digit(t[12]) && sp_is_digit(t[13]) && sp_is_digit(t[14])
        && sp_is_digit(t[15]) && t[16] == 32 && sp_is_digit(t[17]) && sp_is_digit(t[18]) && t[19]
        == 58 && sp_is_digit(t[20]) && sp_is_digit(t[21]) && t[22] == 58 && sp_is_digit(t[23])
        && sp_is_digit(t[24]) && t[25] == 32 && t[26] == 71 && t[27] == 77 && t[28] == 84) {
        None
    } else {
        match sp_month_of(t[8], t[9], t[10]) {
            None => None,
            Some(month) => {
                let day = sp_val2(t, 5);
                let hour = sp_val2(t, 17);
                let minute = sp_val2(t, 20);
                let second = sp_val2(t, 23);
                if sp_fields_ok(month as int, day, hour, minute, second) {
                    Some(
                        Timestamp {
                            year: sp_val4(t, 12) as u16,
                            month,
                            day: day as u8,
                            hour: hour as u8,
                            minute: minute as u8,
                            second: second as u8,
                            offset_minutes: 0,
                        },
                    )
                } else {
                    None
                }
            },
        }
    }
}

fn is_digit(b: u8) -> (r: bool)
    ensures
        r == sp_is_digit(b),
{
    48 <= b && b <= 57
}

fn val2(a: u8, b: u8) -> (r: u8)
    requires
        sp_is_digit(a),
        sp_is_digit(b),
    ensures
        r == 10 * (a - 48) + (b - 48),
{
    10 * (a - 48) + (b - 48)
}

fn val4(a: u8, b: u8, c: u8, d: u8) -> (r: u16)
    requires
        sp_is_digit(a),
        sp_is_digit(b),
        sp_is_digit(c),
        sp_is_digit(d),
    ensures
        r == 1000 * (a - 48) + 100 * (b - 48) + 10 * (c - 48) + (d - 48),
{
    1000 * ((a - 48) as u16) + 100 * ((b - 48) as u16) + 10 * ((c - 48) as u16) + ((d - 48) as u16)
}

/// Parse an RFC 3339 timestamp.
pub fn parse_rfc3339(t: &Vec<u8>) -> (r: Option<Timestamp>)
    ensures
        r == sp_parse_rfc3339(t@),
{
    let n = t.len();
    if n < 20 {
        return None;
    }
    if !(is_digit(t[0]) && is_digit(t[1]) && is_digit(t[2]) && is_digit(t[3]) && t[4] == 45
        && is_digit(t[5]) && is_digit(t[6]) && t[7] == 45 && is_digit(t[8]) && is_digit(t[9]) && (
    t[10] == 84 || t[10] == 116) && is_digit(t[11]) && is_digit(t[12]) && t[13] == 58 && is_digit(
        t[14],
    ) && is_digit(t[15]) && t[16] == 58 && is_digit(t[17]) && is_digit(t[18])) {
        return None;
    }
    let zone_start: usize = if t[19] == 46 {
        let mut k: usize = 20;
        while k < n && 48 <= t[k] && t[k] <= 57
            invariant
                20 <= k <= n,
                n == t@.len(),
                forall|j: int| 20 <= j < k ==> sp_is_digit(t@[j]),
            decreases n - k,
        {
            k += 1;
        }
        proof {
            lemma_digit_end(t@, 20, k as int);
        }
        if k == 20 {
            return None;
        }
        k
    } else {
        19
    };
    let off: i32 = if zone_start < n && (t[zone_start] == 90 || t[zone_start] == 122) && zone_start
        + 1 == n {
        0
    } else if zone_start < n && (t[zone_start] == 43 || t[zone_start] == 45) && n - zone_start == 6
        && is_digit(t[zone_start + 1]) && is_digit(t[zone_start + 2]) && t[zone_start + 3] == 58
        && is_digit(t[zone_start + 4]) && is_digit(t[zone_start + 5]) {
        let hh = val2(t[zone_start + 1], t[zone_start + 2]);
        let mm = val2(t[zone_start + 4], t[zone_start + 5]);
        if hh <= 23 && mm <= 59 {
            if t[zone_start] == 43 {
                (hh as i32) * 60 + (mm as i32)
            } else {
                -((hh as i32) * 60 + (mm as i32))
            }
        } else {
            return None;
        }
    } else {
        return None;
    };
    let month = val2(t[5], t[6]);
    let day = val2(t[8], t[9]);
    let hour = val2(t[11], t[12]);
    let minute = val2(t[14], t[15]);
    let second = val2(t[17], t[18]);
    if !(1 <= month && month <= 12 && 1 <= day && day <= 31 && hour <= 23 && minute <= 59 && second
        <= 60) {
        return None;
    }
    Some(
        Timestamp {
            year: val4(t[0], t[1], t[2], t[3]),
            month,
            day,
            hour,
            minute,
            second,
            offset_minutes: off,
        },
    )
}

proof fn lemma_digit_end(t: Seq<u8>, from: int, k: int)
    requires
        0 <= from <= k <= t.len(),
        forall|j: int| from <= j < k ==> sp_is_digit(t[j]),
        k < t.len() ==> !sp_is_digit(t[k]),
    ensures
        sp_digit_end(t, from) == k,
    decreases k - from,
{
    if from < k {
        lemma_digit_end(t, from + 1, k);
    }
}

/// Parse an RFC 1123 HTTP-date.
pub fn parse_rfc1123(t: &Vec<u8>) -> (r: Option<Timestamp>)
    ensures
        r == sp_parse_rfc1123(t@),
{
    if t.len() != 29 {
        return None;
    }
    if !(t[3] == 44 && t[4] == 32 && is_digit(t[5]) && is_digit(t[6]) && t[7] == 32 && t[11] == 32
        && is_digit(t[12]) && is_digit(t[13]) && is_digit(t[14]) && is_digit(t[15]) && t[16] == 32
        && is_digit(t[17]) && is_digit(t[18]) && t[19] == 58 && is_digit(t[20]) && is_digit(t[21])
        && t[22] == 58 && is_digit(t[23]) && is_digit(t[24]) && t[25] == 32 && t[26] == 71 && t[27]
        == 77 && t[28] == 84) {
        return None;
    }
    let month: u8 = match month_of(t[8], t[9], t[10]) {
        Some(m) => m,
        None => {
            return None;
        },
    };
    let day = val2(t[5], t[6]);
    let hour = val2(t[17], t[18]);
    let minute = val2(t[20], t[21]);
    let second = val2(t[23], t[24]);
    if !(1 <= day && day <= 31 && hour <= 23 && minute <= 59 && second <= 60) {
        return None;
    }
    Some(
        Timestamp {
            year: val4(t[12], t[13], t[14], t[15]),
            month,
            day,
            hour,
            minute,
            second,
            offset_minutes: 0,
        },
    )
}

fn month_of(a: u8, b: u8, c: u8) -> (r: Option<u8>)
    ensures
        r == sp_month_of(a, b, c),
{
    if a == 74 && b == 97 && c == 110 {
        Some(1)
    } else if a == 70 && b == 101 && c == 98 {
        Some(2)
    } else if a == 77 && b == 97 && c == 114 {
        Some(3)
    } else if a == 65 && b == 112 && c == 114 {
        Some(4)
    } else if a == 77 && b == 97 && c == 121 {
        Some(5)
    } else if a == 74 && b == 117 && c == 110 {
        Some(6)
    } else if a == 74 && b == 117 && c == 108 {
        Some(7)
    } else if a == 65 && b == 117 && c == 103 {
        Some(8)
    } else if a == 83 && b == 101 && c == 112 {
        Some(9)
    } else if a == 79 && b == 99 && c == 116 {
        Some(10)
    } else if a == 78 && b == 111 && c == 118 {
        Some(11)
    } else if a == 68 && b == 101 && c == 99 {
        Some(12)
    } else {
        None
    }
}

} // verus!
