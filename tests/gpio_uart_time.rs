use std::time::Duration;

use zephyr::gpio::{DeviceRef, IOConfig, InputPinGroup, OutputConfig, InterruptPinGroup, OutputPinGroup, Pin, PinGroup, Pins};
use zephyr::time::{DurationMs, InstantMs, Ticks, Timeout};
use zephyr::uart::{UartConfig, UART_CFG_FLOW_CTRL_DTR_DSR, UART_CFG_FLOW_CTRL_NONE, UART_CFG_FLOW_CTRL_RTS_CTS};

#[test]
fn pin_from_number() {
    assert_eq!(Pin::from_u32(0), Some(Pin::P0));
    assert_eq!(Pin::from_u32(17), Some(Pin::P17));
    assert_eq!(Pin::from_u32(31), Some(Pin::P31));
    assert_eq!(Pin::from_u32(32), None);
    assert_eq!(Pin::P12.number(), 12);
    assert_eq!(Pins::from_pin(Pin::P3), Pins(8));
}

#[test]
fn pins_iterate_in_order() {
    let mut it = Pins(0b1000_0000_0000_0000_0000_0000_0010_0101).iter();
    let mut got = Vec::new();
    while let Some(p) = it.next() {
        got.push(p);
    }
    assert_eq!(got, vec![Pin::P0, Pin::P2, Pin::P5, Pin::P31]);
    assert_eq!(it.next(), None);
    let mut none = Pins(0).iter();
    assert_eq!(none.next(), None);
}

#[test]
fn pin_groups_split() {
    let g = InputPinGroup(DeviceRef(1), Pins(0b1111));
    let (a, b) = g.split(Pins(0b0101)).unwrap();
    assert_eq!(a.get_mask(), Pins(0b0101));
    assert_eq!(b.get_mask(), Pins(0b1010));
    assert!(b.split(Pins(0b0001)).is_none());
    let o = OutputPinGroup(DeviceRef(1), Pins(0xFF00));
    let (x, y) = o.split(Pins(0x0F00)).unwrap();
    assert_eq!(x.get_mask(), Pins(0x0F00));
    assert_eq!(y.get_mask(), Pins(0xF000));
    let i = InterruptPinGroup(InputPinGroup(DeviceRef(2), Pins(6)));
    assert_eq!(i.get_mask(), Pins(6));
    assert_eq!(i.as_input().get_mask(), Pins(6));
    assert_eq!(i.into_input().get_mask(), Pins(6));
}

#[test]
fn uart_config_setters() {
    let mut c = UartConfig::default();
    assert_eq!(c.get_baud_rate(), 0);
    c.set_baud_rate(115200);
    c.set_stop_bits(1);
    c.set_data_bits(8);
    assert_eq!(c.get_baud_rate(), 115200);
    assert_eq!(c.get_stop_bits(), 1);
    assert_eq!(c.get_data_bits(), 8);
    c.set_flow_control_rts_cts();
    assert_eq!(c.flow_ctrl, UART_CFG_FLOW_CTRL_RTS_CTS);
    c.set_flow_control_dtr_dsr();
    assert_eq!(c.flow_ctrl, UART_CFG_FLOW_CTRL_DTR_DSR);
    c.disable_flow_control();
    assert_eq!(c.flow_ctrl, UART_CFG_FLOW_CTRL_NONE);
}

#[test]
fn ticks_arithmetic() {
    assert_eq!(Ticks(5).checked_add(Ticks(7)), Some(Ticks(12)));
    assert_eq!(Ticks(i64::MAX).checked_add(Ticks(1)), None);
    assert_eq!(Ticks(5).checked_sub(Ticks(7)), Some(Ticks(-2)));
    assert_eq!(Ticks(i64::MIN).checked_sub(Ticks(1)), None);
    assert_eq!(Ticks(10).sub_timeout(Ticks(4)), Timeout(6));
    assert_eq!(Ticks(4).sub_timeout(Ticks(10)), Timeout(0));
    assert_eq!(Ticks(15).as_millis(), 2);
    assert_eq!(Ticks(14).as_millis(), 1);
}

#[test]
fn ticks_with_durations() {
    // 1.5 s is 15000 ticks; 1 ns rounds up to one tick.
    assert_eq!(Ticks(0).checked_add_duration(Duration::from_millis(1500).as_secs(), Duration::from_millis(1500).subsec_nanos()), Some(Ticks(15000)));
    assert_eq!(Ticks(0).checked_add_duration(Duration::from_nanos(1).as_secs(), Duration::from_nanos(1).subsec_nanos()), Some(Ticks(1)));
    assert_eq!(Ticks(20000).checked_sub_duration(Duration::from_secs(1).as_secs(), Duration::from_secs(1).subsec_nanos()), Some(Ticks(10000)));
    assert_eq!(Ticks(0).checked_add_duration(Duration::from_secs(u64::MAX).as_secs(), Duration::from_secs(u64::MAX).subsec_nanos()), None);
    assert_eq!(Ticks::from_secs_nanos(2, 100_001), Some(Ticks(20002)));
}

#[test]
fn instant_ms_arithmetic() {
    assert_eq!(InstantMs::zero(), InstantMs(0));
    assert_eq!(InstantMs(5).checked_add(InstantMs(7)), Some(InstantMs(12)));
    assert_eq!(InstantMs(i64::MAX).checked_add(InstantMs(1)), None);
    assert_eq!(InstantMs(5).checked_sub(InstantMs(7)), Some(InstantMs(-2)));
    assert_eq!(InstantMs(1000).checked_add_duration(Duration::from_millis(2500).as_secs(), Duration::from_millis(2500).subsec_millis()), Some(InstantMs(3500)));
    assert_eq!(InstantMs(1000).checked_sub_duration(Duration::from_micros(1999).as_secs(), Duration::from_micros(1999).subsec_millis()), Some(InstantMs(999)));
    assert_eq!(InstantMs(0).checked_add_duration(Duration::from_secs(u64::MAX).as_secs(), Duration::from_secs(u64::MAX).subsec_millis()), None);
    assert_eq!(InstantMs::from_secs_millis(3, 4), Some(InstantMs(3004)));
    assert_eq!(DurationMs(3), DurationMs(3));
}

#[test]
fn ticks_timeout_conversions() {
    assert_eq!(Timeout::from(Ticks(42)), Timeout(42));
    assert_eq!(Ticks::from(Timeout(-1)), Ticks(-1));
    assert_eq!(Ticks::from(7u64), Ticks(7));
}

#[test]
fn output_config_as_io_config() {
    assert_eq!(IOConfig::from(OutputConfig::OutputLow), IOConfig::OutputLow);
    assert_eq!(IOConfig::from(OutputConfig::OutputHigh), IOConfig::OutputHigh);
    assert_eq!(IOConfig::from(OutputConfig::OutputInactive), IOConfig::OutputInactive);
    assert_eq!(IOConfig::from(OutputConfig::OutputActive), IOConfig::OutputActive);
}
