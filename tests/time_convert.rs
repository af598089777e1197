use zephyr::time::{
    ms_to_ticks, ns_to_ticks, secs_to_ticks, ticks_to_ms_ceil, ticks_to_ms_floor, ticks_to_ms_near,
    ticks_to_ns_near, ticks_to_secs_floor, Ticks, TICKS_PER_SEC,
};
use zephyr::time_convert::z_tmcvt;

#[test]
fn test_z_tmcvt() {
    let hz_ms = 1000;
    let hz_ns = 1_000_000_000;

    // 500ms to 100HZ ticks
    let hz_ticks = 100;
    assert_eq!(z_tmcvt(500, hz_ms, hz_ticks, true, true, false), 50);

    // 500ms to 1000HZ ticks
    let hz_ticks = 1000;
    assert_eq!(z_tmcvt(500, hz_ms, hz_ticks, true, true, false), 500);

    // 2.5s in ns to 1000HZ ticks
    assert_eq!(z_tmcvt(2_500_000_000, hz_ns, hz_ticks, true, true, false), 2500);

    // 2500 1000HZ ticks to ns
    assert_eq!(z_tmcvt(2500, hz_ticks, hz_ns, true, true, false), 2_500_000_000);
}

#[test]
fn tmcvt_same_rate_is_identity() {
    assert_eq!(z_tmcvt(12345, 32768, 32768, true, true, true), 12345);
}

#[test]
fn tmcvt_rounding_modes() {
    // 7 ticks of a 10 Hz clock in whole seconds: floor, ceil, nearest.
    assert_eq!(z_tmcvt(7, 10, 1, true, false, false), 0);
    assert_eq!(z_tmcvt(7, 10, 1, true, true, false), 1);
    assert_eq!(z_tmcvt(7, 10, 1, true, false, true), 1);
    assert_eq!(z_tmcvt(4, 10, 1, true, false, true), 0);
}

#[test]
fn tmcvt_general_ratio() {
    // 32768 Hz to 1000 Hz is neither a multiple nor a divisor.
    assert_eq!(z_tmcvt(32768, 32768, 1000, true, false, false), 1000);
    assert_eq!(z_tmcvt(1, 32768, 1000, true, true, false), 1);
    assert_eq!(z_tmcvt(1, 32768, 1000, false, false, false), 0);
}

#[test]
fn tick_conversions_at_kernel_rate() {
    assert_eq!(TICKS_PER_SEC, 10000);
    assert_eq!(secs_to_ticks(3), Ticks(30000));
    assert_eq!(ms_to_ticks(5), Ticks(50));
    assert_eq!(ns_to_ticks(1), Ticks(1));
    assert_eq!(ns_to_ticks(100_000), Ticks(1));
    assert_eq!(ns_to_ticks(100_001), Ticks(2));
    assert_eq!(ticks_to_secs_floor(19999), 1);
    assert_eq!(ticks_to_ms_floor(15), 1);
    assert_eq!(ticks_to_ms_ceil(15), 2);
    assert_eq!(ticks_to_ms_near(14), 1);
    assert_eq!(ticks_to_ms_near(15), 2);
    assert_eq!(ticks_to_ns_near(3), 300_000);
}
