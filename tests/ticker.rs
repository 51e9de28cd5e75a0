use mempool_view::event::{Event, Key};
use mempool_view::ticker::Ticker;

fn count_ticks(evs: &[Event]) -> usize {
    evs.iter().filter(|e| matches!(e, Event::Tick)).count()
}

#[test]
fn timeout_is_remaining_budget() {
    let t = Ticker::new(200, 1000);
    assert_eq!(t.timeout(1000), 200);
    assert_eq!(t.timeout(1150), 50);
    assert_eq!(t.timeout(1200), 0);
    assert_eq!(t.timeout(1500), 0);
    assert_eq!(t.timeout(900), 200);
}

#[test]
fn idle_punctual_wakes_tick_five_times_in_five_intervals() {
    let mut t = Ticker::new(200, 0);
    let mut now: u64 = 0;
    let mut ticks = 0;
    while now < 1000 {
        now += t.timeout(now);
        ticks += count_ticks(&t.wake(now, None));
    }
    assert_eq!(now, 1000);
    assert_eq!(ticks, 5);
    assert!(ticks >= 4 && ticks <= 6);
}

#[test]
fn idle_frequent_wakes_stay_within_cadence() {
    let mut t = Ticker::new(200, 0);
    let mut ticks = 0;
    let mut now: u64 = 0;
    while now + 70 <= 1000 {
        now += 70;
        ticks += count_ticks(&t.wake(now, None));
    }
    assert_eq!(ticks, 4);
    assert_eq!(t.last_tick, 840);
}

#[test]
fn input_mid_wait_is_sent_at_once_without_tick() {
    let mut t = Ticker::new(200, 0);
    let evs = t.wake(90, Some(Key::Down));
    assert_eq!(evs.len(), 1);
    assert!(matches!(evs[0], Event::Input(Key::Down)));
    assert_eq!(t.last_tick, 0);
    assert_eq!(t.timeout(90), 110);
}

#[test]
fn input_precedes_tick_in_same_wake() {
    let mut t = Ticker::new(200, 0);
    let evs = t.wake(200, Some(Key::Char('x')));
    assert_eq!(evs.len(), 2);
    assert!(matches!(evs[0], Event::Input(Key::Char('x'))));
    assert!(matches!(evs[1], Event::Tick));
    assert_eq!(t.last_tick, 200);
}
