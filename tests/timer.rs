use focus_gif::app_data::{Reward, TodoItem};
use focus_gif::timer::{StudyTimer, TickOutcome, TimerMode, TimerState};

fn outcome(study_seconds: u64, session_ended: bool, streak_completed: bool) -> TickOutcome {
    TickOutcome { study_seconds, session_ended, streak_completed }
}

#[test]
fn paused_timer_does_nothing() {
    let mut t = StudyTimer::new(60_000, 10_000, 2);
    assert_eq!(t.tick(5_000), outcome(0, false, false));
    assert_eq!(t.time_remaining, 60_000);
    assert_eq!(t.timer_state, TimerState::Paused);
}

#[test]
fn work_time_is_banked_in_whole_seconds() {
    let mut t = StudyTimer::new(60_000, 10_000, 2);
    t.toggle_state(1_000);
    assert_eq!(t.tick(2_500), outcome(1, false, false));
    assert_eq!(t.pending_study_time, 500);
    assert_eq!(t.tick(3_100), outcome(1, false, false));
    assert_eq!(t.pending_study_time, 100);
    assert_eq!(t.time_remaining, 60_000 - 2_100);
}

#[test]
fn sessions_alternate_and_finish_after_the_last_loop() {
    let mut t = StudyTimer::new(3_000, 2_000, 2);
    t.toggle_state(0);
    // the three seconds elapsed are banked, and the rest of the session is counted on ending
    assert_eq!(t.tick(3_000), outcome(6, true, false));
    assert_eq!(t.timer_mode, TimerMode::Break);
    assert_eq!(t.time_remaining, 2_000);
    assert_eq!(t.get_session_switch_messages(), ("Break Over!", "Time to get back to work."));
    assert_eq!(t.tick(5_000), outcome(0, true, true));
    assert_eq!(t.timer_mode, TimerMode::Work);
    assert_eq!(t.current_loop, 2);
    assert_eq!(t.get_session_switch_messages(), ("Work Complete!", "Time for a short break."));
    assert_eq!(t.tick(8_000).session_ended, true);
    assert_eq!(t.tick(10_000), outcome(0, true, true));
    assert_eq!(t.timer_state, TimerState::Paused);
    assert_eq!(t.current_loop, 1);
    assert_eq!(t.time_remaining, 3_000);
}

#[test]
fn toggling_pauses_and_resumes() {
    let mut t = StudyTimer::new(10_000, 5_000, 1);
    t.toggle_state(100);
    assert_eq!(t.timer_state, TimerState::Running);
    assert_eq!(t.last_tick, Some(100));
    t.toggle_state(200);
    assert_eq!(t.timer_state, TimerState::Paused);
    assert_eq!(t.last_tick, None);
}

#[test]
fn set_durations_resets() {
    let mut t = StudyTimer::new(10_000, 5_000, 1);
    t.toggle_state(0);
    t.tick(10_000);
    t.set_durations(20_000, 4_000, 3);
    assert_eq!(t.timer_mode, TimerMode::Work);
    assert_eq!(t.timer_state, TimerState::Paused);
    assert_eq!(t.time_remaining, 20_000);
    assert_eq!(t.total_loops, 3);
    t.reset();
    assert_eq!(t.current_loop, 1);
}

#[test]
fn records_hold_their_values() {
    let todo = TodoItem { text: "read".to_string(), completed: false };
    let reward = Reward { name: "walk".to_string(), completed: true };
    assert_eq!(todo.clone().text, "read");
    assert!(reward.clone().completed);
}
