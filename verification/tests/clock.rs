use blockfall::timer::TimeKeeper;
use blockfall::trigger::{next_tick, speed_to_duration, TickStep};

#[test]
fn a_fresh_keeper_is_paused() {
    let k: TimeKeeper<2> = TimeKeeper::new(100);
    assert!(k.is_paused());
    assert_eq!(k.scheduled_time(0, 50), None);
}

#[test]
fn resume_shifts_every_slot_by_the_paused_duration() {
    // Pause at 1_000, resume at 1_750: every schedule moves 750 later.
    let mut k: TimeKeeper<2> = TimeKeeper::new(0);
    let _ = k.resume(0);
    k.set_now(0, 100);
    k.set_now(1, 200);
    let before_0 = k.scheduled_time(0, 500).unwrap();
    let before_1 = k.scheduled_time(1, 500).unwrap();
    k.pause(1_000);
    assert!(k.is_paused());
    let paused_for = k.resume(1_750);
    assert_eq!(paused_for, 750);
    assert_eq!(k.scheduled_time(0, 500).unwrap(), before_0 + 750);
    assert_eq!(k.scheduled_time(1, 500).unwrap(), before_1 + 750);
}

#[test]
fn pause_twice_and_resume_twice_are_no_ops() {
    let mut k: TimeKeeper<2> = TimeKeeper::new(0);
    let first = k.resume(40);
    assert_eq!(first, 40);
    let second = k.resume(90);
    assert_eq!(second, 0);
    k.pause(100);
    k.pause(150);
    let third = k.resume(200);
    assert_eq!(third, 100);
}

#[test]
fn scheduled_time_adds_the_period() {
    let mut k: TimeKeeper<2> = TimeKeeper::new(0);
    let _ = k.resume(10);
    k.set_now(1, 300);
    assert_eq!(k.scheduled_time(1, 25).unwrap(), 325);
}

#[test]
fn speed_divides_the_base_drop_interval() {
    assert_eq!(speed_to_duration(1), 2_000_000_000);
    assert_eq!(speed_to_duration(2), 1_000_000_000);
    assert_eq!(speed_to_duration(3), 666_666_666);
    assert_eq!(speed_to_duration(8), 250_000_000);
}

#[test]
fn a_due_schedule_fires_and_an_early_one_sleeps() {
    let mut k: TimeKeeper<2> = TimeKeeper::new(0);
    let _ = k.resume(0);
    k.set_now(0, 1_000);
    assert!(matches!(next_tick(&k, 0, 500, 1_500), TickStep::Fire));
    assert!(matches!(next_tick(&k, 0, 500, 2_000), TickStep::Fire));
    assert!(matches!(
        next_tick(&k, 0, 500, 1_200),
        TickStep::Sleep(300)
    ));
}
