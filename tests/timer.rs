use zephyr::executor::Delay;
use zephyr::reactor::Reactor;
use zephyr::poll::SignalRef;
use zephyr::time::{Ticks, Timeout};
use zephyr::timer::{TimerPoll, TimerReactor};

#[test]
fn empty_registry_is_idle() {
    let mut t = TimerReactor::new();
    let (p, woken) = t.poll(Ticks(100));
    assert_eq!(p, TimerPoll::Idle);
    assert!(woken.is_empty());
}

#[test]
fn second_registration_keeps_sooner_deadline() {
    for (d1, d2) in [(300, 200), (200, 300)] {
        let mut t = TimerReactor::new();
        t.register(Ticks(d1), 9);
        t.register(Ticks(d2), 9);
        assert_eq!(t.tasks, vec![(9, Ticks(200))]);
        // Not before the sooner deadline...
        let (p, woken) = t.poll(Ticks(199));
        assert_eq!(p, TimerPoll::Delay(Timeout(1)));
        assert!(woken.is_empty());
        // ...but at it.
        let (p, woken) = t.poll(Ticks(200));
        assert_eq!(p, TimerPoll::Woken);
        assert_eq!(woken, vec![9]);
        assert!(t.tasks.is_empty());
    }
}

#[test]
fn poll_wakes_expired_and_reports_soonest() {
    let mut t = TimerReactor::new();
    t.register(Ticks(50), 1);
    t.register(Ticks(500), 2);
    t.register(Ticks(120), 3);
    t.register(Ticks(40), 4);
    let (p, woken) = t.poll(Ticks(10));
    assert_eq!(p, TimerPoll::Delay(Timeout(30)));
    assert!(woken.is_empty());
    let (p, woken) = t.poll(Ticks(60));
    assert_eq!(p, TimerPoll::Woken);
    assert_eq!(woken, vec![1, 4]);
    assert_eq!(t.tasks, vec![(2, Ticks(500)), (3, Ticks(120))]);
    let (p, _) = t.poll(Ticks(60));
    assert_eq!(p, TimerPoll::Delay(Timeout(60)));
}

#[test]
fn timer_poll_map() {
    let d: TimerPoll<u32> = TimerPoll::Delay(4);
    assert_eq!(d.map(|x| x * 2), TimerPoll::Delay(8));
    let w: TimerPoll<u32> = TimerPoll::Woken;
    assert_eq!(w.map(|x| x * 2), TimerPoll::Woken);
    let i: TimerPoll<u32> = TimerPoll::Idle;
    assert_eq!(i.map(|x| x + 1), TimerPoll::Idle);
}

#[test]
fn delay_registers_until_due() {
    let mut r = Reactor::new(SignalRef(0));
    let d = Delay::new(Ticks(100), Ticks(50));
    assert_eq!(d, Delay::new_at(Ticks(150)));
    assert!(!d.poll(Ticks(120), &mut r, 5));
    assert_eq!(r.timers.tasks, vec![(5, Ticks(150))]);
    assert!(!d.poll(Ticks(130), &mut r, 5));
    assert_eq!(r.timers.tasks.len(), 1);
    assert!(d.poll(Ticks(150), &mut r, 5));
}
