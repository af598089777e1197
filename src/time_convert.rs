use vstd::prelude::*;

verus! {

/// True when `to_hz` is a whole multiple of `from_hz` (and known at build time).
pub open spec fn mul_ratio(from_hz: int, to_hz: int, const_hz: bool) -> bool {
    const_hz && to_hz > from_hz && to_hz % from_hz == 0
}

/// True when `from_hz` is a whole multiple of `to_hz` (and known at build time).
pub open spec fn div_ratio(from_hz: int, to_hz: int, const_hz: bool) -> bool {
    const_hz && from_hz > to_hz && from_hz % to_hz == 0
}

/// The rounding offset added before the final division.
pub open spec fn tmcvt_offset(
    from_hz: int,
    to_hz: int,
    const_hz: bool,
    round_up: bool,
    round_off: bool,
) -> int {
    let rdivisor = if div_ratio(from_hz, to_hz, const_hz) {
        from_hz / to_hz
    } else {
        from_hz
    };
    if mul_ratio(from_hz, to_hz, const_hz) {
        0
    } else if round_up {
        rdivisor - 1
    } else if round_off {
        rdivisor / 2
    } else {
        0
    }
}

/// The largest intermediate value the conversion computes.
pub open spec fn tmcvt_intermediate(
    t: int,
    from_hz: int,
    to_hz: int,
    const_hz: bool,
    round_up: bool,
    round_off: bool,
) -> int {
    let off = tmcvt_offset(from_hz, to_hz, const_hz, round_up, round_off);
    if from_hz == to_hz {
        t
    } else if div_ratio(from_hz, to_hz, const_hz) {
        t + off
    } else if mul_ratio(from_hz, to_hz, const_hz) {
        t * (to_hz / from_hz)
    } else {
        t * to_hz + off
    }
}

/// `t` units of a `from_hz` clock expressed in units of a `to_hz` clock,
/// rounded down, up (`round_up`) or to nearest (`round_off`).
pub open spec fn tmcvt(
    t: int,
    from_hz: int,
    to_hz: int,
    const_hz: bool,
    round_up: bool,
    round_off: bool,
) -> int {
    let v = tmcvt_intermediate(t, from_hz, to_hz, const_hz, round_up, round_off);
    if from_hz == to_hz {
        t
    } else if div_ratio(from_hz, to_hz, const_hz) {
        v / (from_hz / to_hz)
    } else if mul_ratio(from_hz, to_hz, const_hz) {
        v
    } else {
        v / from_hz
    }
}

/// Converts a time value between two clock rates.
pub fn z_tmcvt(t: u64, from_hz: u32, to_hz: u32, const_hz: bool, round_up: bool, round_off: bool) -> (r: u64)
    requires
        from_hz > 0,
        to_hz > 0,
        tmcvt_intermediate(t as int, from_hz as int, to_hz as int, const_hz, round_up, round_off)
            <= u64::MAX,
    ensures
        r == tmcvt(t as int, from_hz as int, to_hz as int, const_hz, round_up, round_off),
{
    let mul = const_hz && (to_hz > from_hz) && ((to_hz % from_hz) == 0);
    let div = const_hz && (from_hz > to_hz) && ((from_hz % to_hz) == 0);

    if from_hz == to_hz {
        return t;
    }
    let mut off: u64 = 0;
    if !mul {
        let rdivisor: u32 = if div {
            from_hz / to_hz
        } else {
            from_hz
        };
        let rdivisor: u64 = rdivisor as u64;
        if div {
            assert(from_hz / to_hz >= 1) by (nonlinear_arith)
                requires from_hz > to_hz, to_hz > 0;
        }
        if round_up {
            off = rdivisor - 1;
        } else if round_off {
            off = rdivisor / 2;
        }
    }
    if div {
        let q: u32 = from_hz / to_hz;
        assert(q >= 1) by (nonlinear_arith)
            requires from_hz > to_hz, to_hz > 0, q == from_hz / to_hz;
        (t + off) / (q as u64)
    } else if mul {
        let q: u32 = to_hz / from_hz;
        t * (q as u64)
    } else {
        (t * (to_hz as u64) + off) / (from_hz as u64)
    }
}

} // verus!
