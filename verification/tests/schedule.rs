use codex_router::refresh::{auto_refresh_tick, RefreshSchedule};

#[test]
fn schedules_next_when_missing() {
    let mut schedule = RefreshSchedule::new();
    let now: u64 = 1000;
    let interval: u64 = 60;

    let triggered = schedule.tick(now, interval);

    assert!(!triggered);
    assert_eq!(schedule.next_due(), Some(now + interval));
}

#[test]
fn triggers_when_due_and_reschedules() {
    let mut schedule = RefreshSchedule::new();
    let interval: u64 = 60;
    let now: u64 = 1000;
    schedule.next_due = Some(now - 1);

    let triggered = schedule.tick(now, interval);

    assert!(triggered);
    assert_eq!(schedule.next_due(), Some(now + interval));
}

#[test]
fn does_not_trigger_before_due() {
    let mut schedule = RefreshSchedule::new();
    let interval: u64 = 60;
    let now: u64 = 1000;
    schedule.next_due = Some(now + 10);

    let triggered = schedule.tick(now, interval);

    assert!(!triggered);
    assert_eq!(schedule.next_due(), Some(now + 10));
}

#[test]
fn clear_resets_schedule() {
    let mut schedule = RefreshSchedule::new();
    schedule.next_due = Some(42);

    schedule.clear();

    assert!(schedule.next_due().is_none());
}

#[test]
fn auto_refresh_disabled_never_triggers() {
    let mut schedule = RefreshSchedule::new();
    let now: u64 = 1000;
    let interval: u64 = 60;

    let triggered = auto_refresh_tick(false, &mut schedule, now, interval);

    assert!(!triggered);
    assert!(schedule.next_due().is_none());
}
