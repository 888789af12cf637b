//! Calibration of the real-time clock against GNSS time.
use vstd::prelude::*;
use crate::ublox::PVT;

verus! {

/// The calibration factor that a pair of readings gives: how far the
/// low-speed clock runs from nominal, in parts per 2^20.
///
/// `lse` counts 150 MHz timer cycles over 16384 low-speed clock periods,
/// nominally 75e6; `gps` counts 3 MHz timer cycles over one GNSS second,
/// nominally 3e6.
pub open spec fn cal_factor(lse: u32, gps: u32) -> int {
    (lse as int * 1048576) / (gps as int * 25) - 1048576
}

/// The register settings `(calp, calm)` for a calibration factor, or `None`
/// when the factor is out of the range the clock can correct. The clock
/// adds `512 * calp - calm` pulses, which equals the factor.
pub open spec fn cal_registers(cal: int) -> Option<(u8, u16)> {
    if cal < -511 || cal > 512 {
        None
    } else if cal > 0 {
        Some((1u8, (512 - cal) as u16))
    } else {
        Some((0u8, (-cal) as u16))
    }
}

/// Date and time as the clock hardware keeps it, the year counted from 2000.
#[derive(Copy, Clone, Debug, PartialEq, Eq, Structural)]
pub struct DateTime {
    pub year: u8,
    pub month: u8,
    pub day: u8,
    pub hour: u8,
    pub minute: u8,
    pub second: u8,
}

/// The second lies within two seconds of a new minute.
pub open spec fn near_new_minute_spec(second: u8) -> bool {
    second > 57 || second < 2
}

/// Two datetimes differ by more than two seconds; near a new minute they
/// count as the same, which avoids comparisons across rollovers.
pub open spec fn different_spec(a: DateTime, b: DateTime) -> bool {
    if near_new_minute_spec(a.second) || near_new_minute_spec(b.second) {
        false
    } else {
        a.year != b.year || a.month != b.month || a.day != b.day || a.hour != b.hour
            || a.minute != b.minute || a.second - b.second > 2 || b.second - a.second > 2
    }
}

impl DateTime {
    /// The date and time of a GNSS solution; the year must be 2000 or later.
    pub fn from_pvt(pvt: &PVT) -> (r: Self)
        requires
            pvt.year >= 2000,
        ensures
            r.year == ((pvt.year - 2000) as u8),
            r.month == pvt.month,
            r.day == pvt.day,
            r.hour == pvt.hour,
            r.minute == pvt.minute,
            r.second == pvt.second,
    {
        DateTime {
            year: #[verifier::truncate] ((pvt.year - 2000) as u8),
            month: pvt.month,
            day: pvt.day,
            hour: pvt.hour,
            minute: pvt.minute,
            second: pvt.second,
        }
    }

    /// Compare two datetimes, returning true if they differ by more than two seconds.
    pub fn different(a: &DateTime, b: &DateTime) -> (r: bool)
        ensures
            r == different_spec(*a, *b),
    {
        // To avoid tricky comparisons around rollovers, always return false
        // when within 2 seconds of a new minute.
        if a.near_new_minute() || b.near_new_minute() {
            return false;
        }
        let secs: u8 = if a.second >= b.second { a.second - b.second } else { b.second - a.second };
        (a.year != b.year) || (a.month != b.month) || (a.day != b.day) || (a.hour != b.hour)
            || (a.minute != b.minute) || secs > 2
    }

    /// Check if this DateTime is within two seconds of changing minute.
    pub fn near_new_minute(&self) -> (r: bool)
        ensures
            r == near_new_minute_spec(self.second),
    {
        self.second > 57 || self.second < 2
    }
}

/// Every calibration `cal_registers` gives has `calp` at most 1, `calm`
/// below 512, and corrects by exactly the factor: `512 * calp - calm == cal`.
pub proof fn lemma_cal_registers_in_range(cal: int)
    ensures
        cal_registers(cal) matches Some((calp, calm)) ==> calp <= 1 && calm < 512
            && 512 * calp - calm == cal,
{
}

/// Collects the latest low-speed clock and GNSS readings.
pub struct Calibrator {
    lse: Option<u32>,
    gps: Option<u32>,
}

impl Calibrator {
    pub closed spec fn lse_spec(&self) -> Option<u32> {
        self.lse
    }

    pub closed spec fn gps_spec(&self) -> Option<u32> {
        self.gps
    }

    /// A calibrator with no readings.
    pub fn new() -> (r: Self)
        ensures
            r.lse_spec() is None,
            r.gps_spec() is None,
    {
        Calibrator { lse: None, gps: None }
    }

    /// Feed a new LSE reading.
    ///
    /// This is a measurement of how many 150MHz timer cycles elapsed over 16384 periods
    /// of the LSE clock (nominally 0.5s and therefore 75E6 cycles).
    pub fn lse_reading(&mut self, lse: u32)
        ensures
            final(self).lse_spec() == Some(lse),
            final(self).gps_spec() == old(self).gps_spec(),
    {
        self.lse = Some(lse);
    }

    /// Feed a new GPS reading.
    ///
    /// This is a measurement of how many 3MHz timer cycles elapsed over 1 GPS second
    /// (nominally 3E6 cycles).
    pub fn gps_reading(&mut self, gps: u32)
        ensures
            final(self).gps_spec() == Some(gps),
            final(self).lse_spec() == old(self).lse_spec(),
    {
        self.gps = Some(gps);
    }

    /// Clear any saved readings.
    pub fn clear(&mut self)
        ensures
            final(self).lse_spec() is None,
            final(self).gps_spec() is None,
    {
        self.lse = None;
        self.gps = None;
    }

    /// Work out new RTC calibration factors.
    ///
    /// With both readings present they are used up, and the result is
    /// `Some((calp, calm))` for an in-range factor. Without both readings,
    /// with a zero GPS reading, or for an out-of-range factor, the result is
    /// `None`.
    pub fn cal(&mut self) -> (r: Option<(u8, u16)>)
        ensures
            match (old(self).gps_spec(), old(self).lse_spec()) {
                (Some(gps), Some(lse)) => {
                    &&& final(self).gps_spec() is None
                    &&& final(self).lse_spec() is None
                    &&& r == if gps == 0 { None } else { cal_registers(cal_factor(lse, gps)) }
                },
                _ => r is None && *final(self) == *old(self),
            },
            r matches Some((calp, calm)) ==> calp <= 1 && calm < 512,
    {
        if let Some(gps) = self.gps {
            if let Some(lse) = self.lse {
                self.gps = None;
                self.lse = None;
                if gps == 0 {
                    return None;
                }
                let n: i64 = (lse as i64) * 1048576;
                let m: i64 = (gps as i64) * 25;
                assert(0 <= n / m <= n) by (nonlinear_arith)
                    requires
                        n >= 0,
                        m >= 1,
                ;
                let cal: i64 = n / m - 1048576;
                proof {
                    lemma_cal_registers_in_range(cal as int);
                }
                if cal < -511 || cal > 512 {
                    return None;
                } else if cal > 0 {
                    return Some((1, (512 - cal) as u16));
                } else {
                    return Some((0, (-cal) as u16));
                }
            }
        }
        None
    }
}

} // verus!
