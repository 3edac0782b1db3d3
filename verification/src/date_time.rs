//! The packed 16+16-bit timestamp of the archive format: a date word and a
//! time word with two-second resolution, the year counted from 1980.

use vstd::prelude::*;

verus! {

pub const MS_DOS_YEAR_START_OFFSET: u16 = 1980;

/// Day of month read from a packed date word.
pub open spec fn dos_day(date_addr: u16) -> u8 {
    (date_addr & 0x1f) as u8
}

/// Month read from a packed date word.
pub open spec fn dos_month(date_addr: u16) -> u8 {
    ((date_addr >> 5) & 0xf) as u8
}

/// Year read from a packed date word.
pub open spec fn dos_year(date_addr: u16) -> u16 {
    (((date_addr >> 9) & 0x7f) + 1980) as u16
}

/// Hour read from a packed time word.
pub open spec fn dos_hour(time_addr: u16) -> u8 {
    ((time_addr >> 11) & 0x1f) as u8
}

/// Minute read from a packed time word.
pub open spec fn dos_minute(time_addr: u16) -> u8 {
    ((time_addr >> 5) & 0x3f) as u8
}

/// Second read from a packed time word; stored halved, so always even.
pub open spec fn dos_second(time_addr: u16) -> u8 {
    ((time_addr & 0x1f) * 2) as u8
}

/// The packed date word of a timestamp.
pub open spec fn dos_date_addr(dt: ZipDateTime) -> u16
    recommends
        dt.year >= 1980,
{
    (((dt.year - 1980) as u16) << 9) | ((dt.month as u16) << 5) | (dt.day as u16)
}

/// The packed time word of a timestamp.
pub open spec fn dos_time_addr(dt: ZipDateTime) -> u16 {
    ((dt.hour as u16) << 11) | ((dt.minute as u16) << 5) | ((dt.second / 2) as u16)
}

#[derive(Clone, Copy, Debug, PartialEq, Eq, Structural)]
pub struct ZipDateTime {
    pub day: u8,
    pub month: u8,
    pub year: u16,
    pub hour: u8,
    pub minute: u8,
    pub second: u8,
}

/// The timestamp a packed date word and time word name.
pub open spec fn dos_date_time_of(date_addr: u16, time_addr: u16) -> ZipDateTime {
    ZipDateTime {
        day: dos_day(date_addr),
        month: dos_month(date_addr),
        year: dos_year(date_addr),
        hour: dos_hour(time_addr),
        minute: dos_minute(time_addr),
        second: dos_second(time_addr),
    }
}

impl ZipDateTime {
    pub fn new(day: u8, month: u8, year: u16, hour: u8, minute: u8, second: u8) -> (r: Self)
        ensures
            r == (ZipDateTime { day, month, year, hour, minute, second }),
    {
        ZipDateTime { day, month, year, hour, minute, second }
    }

    /// Unpacks a date word and a time word into calendar fields.
    pub fn from_addr(date_addr: u16, time_addr: u16) -> (r: Self)
        ensures
            r == dos_date_time_of(date_addr, time_addr),
    {
        proof {
            assert(date_addr & 0x1f < 256 && (date_addr >> 5) & 0xf < 256 && (date_addr >> 9)
                & 0x7f <= 127) by (bit_vector);
            assert((time_addr >> 11) & 0x1f < 256 && (time_addr >> 5) & 0x3f < 256 && (time_addr
                & 0x1f) * 2 < 256) by (bit_vector);
        }
        let day = (date_addr & 0x1f) as u8;
        let month = ((date_addr >> 5) & 0xf) as u8;
        let year = ((date_addr >> 9) & 0x7f) + MS_DOS_YEAR_START_OFFSET;
        let hour = ((time_addr >> 11) & 0x1f) as u8;
        let minute = ((time_addr >> 5) & 0x3f) as u8;
        let second = ((time_addr & 0x1f) * 2) as u8;
        ZipDateTime { day, month, year, hour, minute, second }
    }

    /// Packs the timestamp into its date and time words.
    pub fn to_addr(self, date_addr: &mut u16, time_addr: &mut u16)
        requires
            self.year >= 1980,
        ensures
            *final(date_addr) == dos_date_addr(self),
            *final(time_addr) == dos_time_addr(self),
    {
        let month = (self.month as u16) << 5u16;
        let year = (self.year - MS_DOS_YEAR_START_OFFSET) << 9u16;
        let hour = (self.hour as u16) << 11u16;
        let minute = (self.minute as u16) << 5u16;
        let second = (self.second / 2) as u16;
        *date_addr = year | month | (self.day as u16);
        *time_addr = hour | minute | second;
    }
}

/// Unpacking a packed timestamp reproduces day, month, year, hour and
/// minute exactly, and the second rounded down to the nearest even value,
/// for every timestamp in the representable range of the format.
pub proof fn lemma_date_time_round_trip(dt: ZipDateTime)
    requires
        1 <= dt.day <= 31,
        1 <= dt.month <= 12,
        1980 <= dt.year <= 2107,
        dt.hour <= 23,
        dt.minute <= 59,
        dt.second <= 59,
    ensures
        dos_day(dos_date_addr(dt)) == dt.day,
        dos_month(dos_date_addr(dt)) == dt.month,
        dos_year(dos_date_addr(dt)) == dt.year,
        dos_hour(dos_time_addr(dt)) == dt.hour,
        dos_minute(dos_time_addr(dt)) == dt.minute,
        dos_second(dos_time_addr(dt)) == 2 * (dt.second / 2),
{
    let d = dt.day;
    let m = dt.month;
    let y = dt.year;
    let h = dt.hour;
    let mi = dt.minute;
    let s = dt.second;
    let ya = (y - 1980) as u16;
    assert(((ya << 9) | ((m as u16) << 5) | (d as u16)) & 0x1f == d) by (bit_vector)
        requires
            1 <= d <= 31 && 1 <= m <= 12 && ya <= 127,
    ;
    assert(((((ya << 9) | ((m as u16) << 5) | (d as u16)) >> 5) & 0xf) == m) by (bit_vector)
        requires
            1 <= d <= 31 && 1 <= m <= 12 && ya <= 127,
    ;
    assert(((((ya << 9) | ((m as u16) << 5) | (d as u16)) >> 9) & 0x7f) == ya) by (bit_vector)
        requires
            1 <= d <= 31 && 1 <= m <= 12 && ya <= 127,
    ;
    let sa = (s / 2) as u16;
    assert(((((h as u16) << 11) | ((mi as u16) << 5) | sa) >> 11) & 0x1f == h) by (bit_vector)
        requires
            h <= 23 && mi <= 59 && sa <= 29,
    ;
    assert(((((h as u16) << 11) | ((mi as u16) << 5) | sa) >> 5) & 0x3f == mi) by (bit_vector)
        requires
            h <= 23 && mi <= 59 && sa <= 29,
    ;
    assert((((h as u16) << 11) | ((mi as u16) << 5) | sa) & 0x1f == sa) by (bit_vector)
        requires
            h <= 23 && mi <= 59 && sa <= 29,
    ;
}

} // verus!
