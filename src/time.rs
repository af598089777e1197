use vstd::prelude::*;

use crate::time_convert::{tmcvt, tmcvt_intermediate, z_tmcvt};

verus! {

/// Rate of the kernel's tick counter.
pub const TICKS_PER_SEC: u32 = 10000;

/// An instant or a span measured in kernel ticks.
#[derive(Clone, Copy, Debug, PartialEq, Eq, Structural, PartialOrd, Ord, Hash)]
pub struct Ticks(pub i64);

/// A timeout handed to a blocking kernel call, in ticks. A negative count
/// waits forever.
#[derive(Clone, Copy, Debug, PartialEq, Eq, Structural)]
pub struct Timeout(pub i64);

/// Tick count of a timeout that waits for ever.
pub const K_FOREVER: i64 = -1;

/// Tick count of a timeout that does not wait at all.
pub const K_NO_WAIT: i64 = 0;

/// 32-bit time in milliseconds. Used for sleep return values and timeouts.
#[derive(Clone, Copy, Debug, PartialEq, Eq, Structural, PartialOrd, Ord, Hash)]
pub struct DurationMs(pub i32);

/// Milliseconds since boot.
#[derive(Clone, Copy, Debug, PartialEq, Eq, Structural, PartialOrd, Ord, Hash)]
pub struct InstantMs(pub i64);

/// The value `v` as an `i64`, when it fits.
pub open spec fn checked_i64(v: int) -> Option<i64> {
    if i64::MIN <= v <= i64::MAX {
        Some(v as i64)
    } else {
        None
    }
}

pub open spec fn ticks_opt(v: Option<i64>) -> Option<Ticks> {
    match v {
        Some(x) => Some(Ticks(x)),
        None => None,
    }
}

pub open spec fn instant_opt(v: Option<i64>) -> Option<InstantMs> {
    match v {
        Some(x) => Some(InstantMs(x)),
        None => None,
    }
}

/// Ticks in `secs` seconds and `nanos` nanoseconds, each part rounded up to a
/// whole tick.
pub open spec fn ticks_of_secs_nanos(secs: int, nanos: int) -> int {
    tmcvt(secs, 1, TICKS_PER_SEC as int, true, true, false) + tmcvt(
        nanos,
        1_000_000_000,
        TICKS_PER_SEC as int,
        true,
        true,
        false,
    )
}

/// Milliseconds in `secs` seconds and `millis` milliseconds.
pub open spec fn ms_of_secs_millis(secs: int, millis: int) -> int {
    secs * 1000 + millis
}

pub fn secs_to_ticks(val: u64) -> (r: Ticks)
    requires
        tmcvt_intermediate(val as int, 1, TICKS_PER_SEC as int, true, true, false) <= u64::MAX,
    ensures
        r.0 == tmcvt(val as int, 1, TICKS_PER_SEC as int, true, true, false) as u64 as i64,
{
    Ticks(z_tmcvt(val, 1, TICKS_PER_SEC, true, true, false) as i64)
}

pub fn ms_to_ticks(val: u64) -> (r: Ticks)
    requires
        tmcvt_intermediate(val as int, 1_000, TICKS_PER_SEC as int, true, true, false)
            <= u64::MAX,
    ensures
        r.0 == tmcvt(val as int, 1_000, TICKS_PER_SEC as int, true, true, false) as u64 as i64,
{
    Ticks(z_tmcvt(val, 1_000, TICKS_PER_SEC, true, true, false) as i64)
}

pub fn us_to_ticks(val: u64) -> (r: Ticks)
    requires
        tmcvt_intermediate(val as int, 1_000_000, TICKS_PER_SEC as int, true, true, false)
            <= u64::MAX,
    ensures
        r.0 == tmcvt(val as int, 1_000_000, TICKS_PER_SEC as int, true, true, false) as u64
            as i64,
{
    Ticks(z_tmcvt(val, 1_000_000, TICKS_PER_SEC, true, true, false) as i64)
}

pub fn ns_to_ticks(val: u64) -> (r: Ticks)
    requires
        tmcvt_intermediate(val as int, 1_000_000_000, TICKS_PER_SEC as int, true, true, false)
            <= u64::MAX,
    ensures
        r.0 == tmcvt(val as int, 1_000_000_000, TICKS_PER_SEC as int, true, true, false) as u64
            as i64,
{
    Ticks(z_tmcvt(val, 1_000_000_000, TICKS_PER_SEC, true, true, false) as i64)
}

pub fn ticks_to_secs_floor(val: u64) -> (r: u64)
    requires
        tmcvt_intermediate(val as int, TICKS_PER_SEC as int, 1, true, false, false) <= u64::MAX,
    ensures
        r == tmcvt(val as int, TICKS_PER_SEC as int, 1, true, false, false),
{
    z_tmcvt(val, TICKS_PER_SEC, 1, true, false, false)
}

pub fn ticks_to_secs_ceil(val: u64) -> (r: u64)
    requires
        tmcvt_intermediate(val as int, TICKS_PER_SEC as int, 1, true, true, false) <= u64::MAX,
    ensures
        r == tmcvt(val as int, TICKS_PER_SEC as int, 1, true, true, false),
{
    z_tmcvt(val, TICKS_PER_SEC, 1, true, true, false)
}

pub fn ticks_to_secs_near(val: u64) -> (r: u64)
    requires
        tmcvt_intermediate(val as int, TICKS_PER_SEC as int, 1, true, false, true) <= u64::MAX,
    ensures
        r == tmcvt(val as int, TICKS_PER_SEC as int, 1, true, false, true),
{
    z_tmcvt(val, TICKS_PER_SEC, 1, true, false, true)
}

pub fn ticks_to_ms_floor(val: u64) -> (r: u64)
    requires
        tmcvt_intermediate(val as int, TICKS_PER_SEC as int, 1_000, true, false, false)
            <= u64::MAX,
    ensures
        r == tmcvt(val as int, TICKS_PER_SEC as int, 1_000, true, false, false),
{
    z_tmcvt(val, TICKS_PER_SEC, 1_000, true, false, false)
}

pub fn ticks_to_ms_ceil(val: u64) -> (r: u64)
    requires
        tmcvt_intermediate(val as int, TICKS_PER_SEC as int, 1_000, true, true, false)
            <= u64::MAX,
    ensures
        r == tmcvt(val as int, TICKS_PER_SEC as int, 1_000, true, true, false),
{
    z_tmcvt(val, TICKS_PER_SEC, 1_000, true, true, false)
}

pub fn ticks_to_ms_near(val: u64) -> (r: u64)
    requires
        tmcvt_intermediate(val as int, TICKS_PER_SEC as int, 1_000, true, false, true)
            <= u64::MAX,
    ensures
        r == tmcvt(val as int, TICKS_PER_SEC as int, 1_000, true, false, true),
{
    z_tmcvt(val, TICKS_PER_SEC, 1_000, true, false, true)
}

pub fn ticks_to_us_floor(val: u64) -> (r: u64)
    requires
        tmcvt_intermediate(val as int, TICKS_PER_SEC as int, 1_000_000, true, false, false)
            <= u64::MAX,
    ensures
        r == tmcvt(val as int, TICKS_PER_SEC as int, 1_000_000, true, false, false),
{
    z_tmcvt(val, TICKS_PER_SEC, 1_000_000, true, false, false)
}

pub fn ticks_to_us_ceil(val: u64) -> (r: u64)
    requires
        tmcvt_intermediate(val as int, TICKS_PER_SEC as int, 1_000_000, true, true, false)
            <= u64::MAX,
    ensures
        r == tmcvt(val as int, TICKS_PER_SEC as int, 1_000_000, true, true, false),
{
    z_tmcvt(val, TICKS_PER_SEC, 1_000_000, true, true, false)
}

pub fn ticks_to_us_near(val: u64) -> (r: u64)
    requires
        tmcvt_intermediate(val as int, TICKS_PER_SEC as int, 1_000_000, true, false, true)
            <= u64::MAX,
    ensures
        r == tmcvt(val as int, TICKS_PER_SEC as int, 1_000_000, true, false, true),
{
    z_tmcvt(val, TICKS_PER_SEC, 1_000_000, true, false, true)
}

pub fn ticks_to_ns_floor(val: u64) -> (r: u64)
    requires
        tmcvt_intermediate(val as int, TICKS_PER_SEC as int, 1_000_000_000, true, false, false)
            <= u64::MAX,
    ensures
        r == tmcvt(val as int, TICKS_PER_SEC as int, 1_000_000_000, true, false, false),
{
    z_tmcvt(val, TICKS_PER_SEC, 1_000_000_000, true, false, false)
}

pub fn ticks_to_ns_ceil(val: u64) -> (r: u64)
    requires
        tmcvt_intermediate(val as int, TICKS_PER_SEC as int, 1_000_000_000, true, true, false)
            <= u64::MAX,
    ensures
        r == tmcvt(val as int, TICKS_PER_SEC as int, 1_000_000_000, true, true, false),
{
    z_tmcvt(val, TICKS_PER_SEC, 1_000_000_000, true, true, false)
}

pub fn ticks_to_ns_near(val: u64) -> (r: u64)
    requires
        tmcvt_intermediate(val as int, TICKS_PER_SEC as int, 1_000_000_000, true, false, true)
            <= u64::MAX,
    ensures
        r == tmcvt(val as int, TICKS_PER_SEC as int, 1_000_000_000, true, false, true),
{
    z_tmcvt(val, TICKS_PER_SEC, 1_000_000_000, true, false, true)
}

impl Ticks {
    pub fn checked_add(self, rhs: Self) -> (r: Option<Self>)
        ensures
            r == ticks_opt(checked_i64(self.0 + rhs.0)),
    {
        match self.0.checked_add(rhs.0) {
            Some(v) => Some(Ticks(v)),
            None => None,
        }
    }

    pub fn checked_sub(self, rhs: Self) -> (r: Option<Self>)
        ensures
            r == ticks_opt(checked_i64(self.0 - rhs.0)),
    {
        match self.0.checked_sub(rhs.0) {
            Some(v) => Some(Ticks(v)),
            None => None,
        }
    }

    /// Ticks in `secs` seconds plus `nanos` nanoseconds, each part rounded up
    /// to a whole tick; `None` where that count does not fit.
    pub fn from_secs_nanos(secs: u64, nanos: u32) -> (r: Option<Self>)
        requires
            nanos < 1_000_000_000,
        ensures
            r == ticks_opt(checked_i64(ticks_of_secs_nanos(secs as int, nanos as int))),
    {
        if secs > 922_337_203_685_477 {
            assert(secs as int * 10000 > i64::MAX);
            return None;
        }
        let s = secs_to_ticks(secs);
        let n = ns_to_ticks(nanos as u64);
        assert(s.0 == secs as int * 10000);
        assert(n.0 as int == (nanos as int + 99999) / 100000);
        s.checked_add(n)
    }

    /// Adds a duration of `secs` seconds and `nanos` nanoseconds,
    /// each part rounded up to whole ticks; `None` on overflow.
    pub fn checked_add_duration(self, secs: u64, nanos: u32) -> (r: Option<Self>)
        requires
            nanos < 1_000_000_000,
        ensures
            r == match ticks_opt(checked_i64(ticks_of_secs_nanos(secs as int, nanos as int))) {
                Some(d) => ticks_opt(checked_i64(self.0 + d.0)),
                None => None,
            },
    {
        match Ticks::from_secs_nanos(secs, nanos) {
            Some(d) => self.checked_add(d),
            None => None,
        }
    }

    /// Subtracts a duration of `secs` seconds and `nanos` nanoseconds,
    /// each part rounded up to whole ticks; `None` on overflow.
    pub fn checked_sub_duration(self, secs: u64, nanos: u32) -> (r: Option<Self>)
        requires
            nanos < 1_000_000_000,
        ensures
            r == match ticks_opt(checked_i64(ticks_of_secs_nanos(secs as int, nanos as int))) {
                Some(d) => ticks_opt(checked_i64(self.0 - d.0)),
                None => None,
            },
    {
        match Ticks::from_secs_nanos(secs, nanos) {
            Some(d) => self.checked_sub(d),
            None => None,
        }
    }

    /// The tick count in milliseconds, rounded to nearest.
    pub fn as_millis(&self) -> (r: u64)
        requires
            tmcvt_intermediate(self.0 as u64 as int, TICKS_PER_SEC as int, 1_000, true, false, true)
                <= u64::MAX,
        ensures
            r == tmcvt(self.0 as u64 as int, TICKS_PER_SEC as int, 1_000, true, false, true),
    {
        ticks_to_ms_near(self.0 as u64)
    }

    /// Time from `rhs` until `self` as a timeout for a kernel call: zero when
    /// `rhs` is already later.
    pub fn sub_timeout(self, rhs: Self) -> (r: Timeout)
        requires
            self.0 - rhs.0 <= i64::MAX,
        ensures
            r.0 == if rhs.0 > self.0 { 0 } else { self.0 - rhs.0 },
    {
        if rhs.0 > self.0 {
            Timeout(0)
        } else {
            Timeout(self.0 - rhs.0)
        }
    }
}

impl From<Ticks> for Timeout {
    fn from(ticks: Ticks) -> (r: Timeout) {
        Timeout(ticks.0)
    }
}

impl vstd::std_specs::convert::FromSpecImpl<Ticks> for Timeout {
    open spec fn obeys_from_spec() -> bool {
        true
    }

    open spec fn from_spec(ticks: Ticks) -> Timeout {
        Timeout(ticks.0)
    }
}

impl From<Timeout> for Ticks {
    fn from(timeout: Timeout) -> (r: Ticks) {
        Ticks(timeout.0)
    }
}

impl vstd::std_specs::convert::FromSpecImpl<Timeout> for Ticks {
    open spec fn obeys_from_spec() -> bool {
        true
    }

    open spec fn from_spec(timeout: Timeout) -> Ticks {
        Ticks(timeout.0)
    }
}

impl From<u64> for Ticks {
    /// The count as kernel ticks, wrapping above the largest tick count.
    fn from(val: u64) -> (r: Ticks) {
        Ticks(val as i64)
    }
}

impl vstd::std_specs::convert::FromSpecImpl<u64> for Ticks {
    open spec fn obeys_from_spec() -> bool {
        true
    }

    open spec fn from_spec(val: u64) -> Ticks {
        Ticks(val as i64)
    }
}

impl InstantMs {
    pub fn zero() -> (r: Self)
        ensures
            r.0 == 0,
    {
        InstantMs(0)
    }

    pub fn checked_add(self, rhs: Self) -> (r: Option<Self>)
        ensures
            r == instant_opt(checked_i64(self.0 + rhs.0)),
    {
        match self.0.checked_add(rhs.0) {
            Some(v) => Some(InstantMs(v)),
            None => None,
        }
    }

    pub fn checked_sub(self, rhs: Self) -> (r: Option<Self>)
        ensures
            r == instant_opt(checked_i64(self.0 - rhs.0)),
    {
        match self.0.checked_sub(rhs.0) {
            Some(v) => Some(InstantMs(v)),
            None => None,
        }
    }

    /// Milliseconds in `secs` seconds plus `millis` milliseconds; `None` where
    /// that count does not fit.
    pub fn from_secs_millis(secs: u64, millis: u32) -> (r: Option<Self>)
        requires
            millis < 1000,
        ensures
            r == instant_opt(checked_i64(ms_of_secs_millis(secs as int, millis as int))),
    {
        if secs > 9_223_372_036_854_775 {
            assert(secs as int * 1000 > i64::MAX);
            return None;
        }
        InstantMs(secs as i64 * 1000).checked_add(InstantMs(millis as i64))
    }

    /// Adds a duration of `secs` seconds and `millis` milliseconds;
    /// `None` on overflow.
    pub fn checked_add_duration(self, secs: u64, millis: u32) -> (r: Option<Self>)
        requires
            millis < 1000,
        ensures
            r == match instant_opt(checked_i64(ms_of_secs_millis(secs as int, millis as int))) {
                Some(d) => instant_opt(checked_i64(self.0 + d.0)),
                None => None,
            },
    {
        match InstantMs::from_secs_millis(secs, millis) {
            Some(d) => self.checked_add(d),
            None => None,
        }
    }

    /// Subtracts a duration of `secs` seconds and `millis` milliseconds;
    /// `None` on overflow.
    pub fn checked_sub_duration(self, secs: u64, millis: u32) -> (r: Option<Self>)
        requires
            millis < 1000,
        ensures
            r == match instant_opt(checked_i64(ms_of_secs_millis(secs as int, millis as int))) {
                Some(d) => instant_opt(checked_i64(self.0 - d.0)),
                None => None,
            },
    {
        match InstantMs::from_secs_millis(secs, millis) {
            Some(d) => self.checked_sub(d),
            None => None,
        }
    }
}

} // verus!
