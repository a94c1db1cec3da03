use fileaway::{ChangeWatcher, Patience, Verdict, DEFAULT_WINDOW_MS};

#[test]
fn the_reference_window_is_200_ms() {
    assert_eq!(DEFAULT_WINDOW_MS, 200);
    assert_eq!(ChangeWatcher::new(DEFAULT_WINDOW_MS).window_ms(), 200);
}

#[test]
fn an_idle_watcher_waits_without_limit() {
    let mut watcher = ChangeWatcher::new(200);
    assert!(!watcher.is_collecting());
    assert_eq!(watcher.lapsed(5), Verdict::Wait(Patience::Indefinitely));
    assert_eq!(watcher.lapsed(5_000), Verdict::Wait(Patience::Indefinitely));
    assert!(!watcher.is_collecting());
}

#[test]
fn the_first_notification_opens_a_window() {
    let mut watcher = ChangeWatcher::new(200);
    assert_eq!(watcher.notified(1_000), Verdict::Wait(Patience::AtMost(200)));
    assert!(watcher.is_collecting());
}

#[test]
fn notifications_inside_the_window_are_absorbed() {
    let mut watcher = ChangeWatcher::new(200);
    assert_eq!(watcher.notified(1_000), Verdict::Wait(Patience::AtMost(200)));
    assert_eq!(watcher.notified(1_050), Verdict::Wait(Patience::AtMost(150)));
    assert_eq!(watcher.notified(1_199), Verdict::Wait(Patience::AtMost(1)));
    assert!(watcher.is_collecting());
}

#[test]
fn the_window_closes_with_one_signal() {
    let mut watcher = ChangeWatcher::new(200);
    watcher.notified(1_000);
    watcher.notified(1_100);
    assert_eq!(watcher.lapsed(1_200), Verdict::Signal);
    assert!(!watcher.is_collecting());
    assert_eq!(watcher.lapsed(1_201), Verdict::Wait(Patience::Indefinitely));
}

#[test]
fn a_burst_of_any_size_gives_one_signal() {
    for size in [1u64, 2, 10, 199] {
        let mut watcher = ChangeWatcher::new(200);
        let mut signals = 0;
        for i in 0..size {
            if watcher.notified(3_000 + i) == Verdict::Signal {
                signals += 1;
            }
        }
        assert_eq!(signals, 0);
        if watcher.lapsed(3_200) == Verdict::Signal {
            signals += 1;
        }
        assert_eq!(signals, 1);
        assert!(!watcher.is_collecting());
    }
}

#[test]
fn an_early_wake_up_waits_for_the_rest_of_the_window() {
    let mut watcher = ChangeWatcher::new(200);
    watcher.notified(1_000);
    assert_eq!(watcher.lapsed(1_120), Verdict::Wait(Patience::AtMost(80)));
    assert_eq!(watcher.lapsed(1_199), Verdict::Wait(Patience::AtMost(1)));
    assert_eq!(watcher.lapsed(1_200), Verdict::Signal);
}

#[test]
fn a_late_notification_closes_the_window() {
    let mut watcher = ChangeWatcher::new(200);
    watcher.notified(1_000);
    assert_eq!(watcher.notified(1_450), Verdict::Signal);
    assert!(!watcher.is_collecting());
    assert_eq!(watcher.notified(1_460), Verdict::Wait(Patience::AtMost(200)));
}

#[test]
fn changes_further_apart_than_the_window_give_a_signal_each() {
    let mut watcher = ChangeWatcher::new(200);
    let mut signals = 0;
    for change in [1_000u64, 1_300, 1_900] {
        assert_eq!(watcher.notified(change), Verdict::Wait(Patience::AtMost(200)));
        if watcher.lapsed(change + 200) == Verdict::Signal {
            signals += 1;
        }
    }
    assert_eq!(signals, 3);
}

#[test]
fn a_window_of_zero_signals_at_once() {
    let mut watcher = ChangeWatcher::new(0);
    assert_eq!(watcher.notified(77), Verdict::Signal);
    assert!(!watcher.is_collecting());
    assert_eq!(watcher.lapsed(78), Verdict::Wait(Patience::Indefinitely));
}

#[test]
fn a_clock_that_steps_back_counts_as_standing_still() {
    let mut watcher = ChangeWatcher::new(200);
    assert_eq!(watcher.notified(1_000), Verdict::Wait(Patience::AtMost(200)));
    assert_eq!(watcher.lapsed(900), Verdict::Wait(Patience::AtMost(200)));
    assert_eq!(watcher.notified(0), Verdict::Wait(Patience::AtMost(200)));
    assert_eq!(watcher.lapsed(1_200), Verdict::Signal);
}

#[test]
fn times_near_the_end_of_the_clock_do_not_overflow() {
    let mut watcher = ChangeWatcher::new(u64::MAX);
    assert_eq!(watcher.notified(u64::MAX - 1), Verdict::Wait(Patience::AtMost(u64::MAX)));
    assert_eq!(watcher.lapsed(u64::MAX), Verdict::Wait(Patience::AtMost(u64::MAX - 1)));
    let mut short = ChangeWatcher::new(10);
    assert_eq!(short.notified(u64::MAX - 5), Verdict::Wait(Patience::AtMost(10)));
    assert_eq!(short.lapsed(u64::MAX), Verdict::Wait(Patience::AtMost(5)));
}

#[test]
fn woke_is_notified_or_lapsed() {
    let mut a = ChangeWatcher::new(50);
    let mut b = ChangeWatcher::new(50);
    assert_eq!(a.woke(true, 10), b.notified(10));
    assert_eq!(a.woke(false, 30), b.lapsed(30));
    assert_eq!(a.woke(false, 60), b.lapsed(60));
    assert_eq!(a.is_collecting(), b.is_collecting());
}

#[test]
fn signals_lie_at_least_a_window_apart() {
    // Notifications every 7 ms for three seconds, the driver waking as told.
    let mut watcher = ChangeWatcher::new(200);
    let mut signals: Vec<u64> = Vec::new();
    let mut deadline: Option<u64> = None;
    for now in 0..3_000u64 {
        let notified = now % 7 == 0;
        let due = deadline.map_or(false, |at| now >= at);
        if !notified && !due {
            continue;
        }
        match watcher.woke(notified, now) {
            Verdict::Signal => {
                signals.push(now);
                deadline = None;
            }
            Verdict::Wait(Patience::AtMost(ms)) => deadline = Some(now + ms),
            Verdict::Wait(Patience::Indefinitely) => deadline = None,
        }
    }
    assert_eq!(signals.len(), 14);
    assert_eq!(signals[0], 200);
    for pair in signals.windows(2) {
        assert!(pair[1] - pair[0] >= 200);
    }
}
