//! The study timer: alternating work and break sessions over a number of loops,
//! driven by a millisecond clock that the caller reads.

use vstd::prelude::*;

verus! {

/// Which kind of session is running.
#[derive(Clone, Copy, Debug, PartialEq, Eq, Structural)]
pub enum TimerMode {
    Work,
    Break,
}

/// Whether the clock of the current session is running.
#[derive(Clone, Copy, Debug, PartialEq, Eq, Structural)]
pub enum TimerState {
    Paused,
    Running,
}

/// What one tick asks the caller to record.
#[derive(Clone, Copy, Debug, PartialEq, Eq, Structural)]
pub struct TickOutcome {
    /// Whole seconds of work to add to today's study time.
    pub study_seconds: u64,
    /// The session ran out on this tick.
    pub session_ended: bool,
    /// A break ended, closing a work-and-break loop: one streak for today and this month.
    pub streak_completed: bool,
}

/// Milliseconds in a second.
pub const MS_PER_SECOND: u64 = 1000;

/// Milliseconds since the last tick, on a clock that reads `now`; zero before the first tick.
pub open spec fn elapsed_since(last: Option<u64>, now: u64) -> int {
    match last {
        Some(t) => if now >= t { now - t } else { 0 },
        None => 0,
    }
}

pub struct StudyTimer {
    /// Length of a work session, in milliseconds.
    pub work_duration: u64,
    /// Length of a break, in milliseconds.
    pub break_duration: u64,
    pub total_loops: u32,
    pub timer_mode: TimerMode,
    pub timer_state: TimerState,
    /// Time left in the current session, in milliseconds.
    pub time_remaining: u64,
    pub current_loop: u32,
    /// Clock time of the last tick while running.
    pub last_tick: Option<u64>,
    /// Work time not yet recorded, in milliseconds: always under one second.
    pub pending_study_time: u64,
}

impl StudyTimer {
    /// Work time still to be recorded stays under one second.
    pub open spec fn wf(&self) -> bool {
        self.pending_study_time < MS_PER_SECOND
    }

    /// The state of a timer that has been reset: paused at the start of the first work session.
    pub open spec fn is_reset(&self) -> bool {
        &&& self.timer_state == TimerState::Paused
        &&& self.timer_mode == TimerMode::Work
        &&& self.time_remaining == self.work_duration
        &&& self.current_loop == 1
        &&& self.last_tick is None
    }

    pub fn new(work_duration: u64, break_duration: u64, total_loops: u32) -> (r: Self)
        ensures
            r.wf(),
            r.is_reset(),
            r.work_duration == work_duration,
            r.break_duration == break_duration,
            r.total_loops == total_loops,
            r.pending_study_time == 0,
    {
        StudyTimer {
            work_duration,
            break_duration,
            total_loops,
            timer_mode: TimerMode::Work,
            timer_state: TimerState::Paused,
            time_remaining: work_duration,
            current_loop: 1,
            last_tick: None,
            pending_study_time: 0,
        }
    }

    /// Sets new session lengths and loop count, then resets.
    pub fn set_durations(&mut self, work_duration: u64, break_duration: u64, total_loops: u32)
        requires
            old(self).wf(),
        ensures
            final(self).wf(),
            final(self).is_reset(),
            final(self).work_duration == work_duration,
            final(self).break_duration == break_duration,
            final(self).total_loops == total_loops,
            final(self).pending_study_time == old(self).pending_study_time,
    {
        self.work_duration = work_duration;
        self.break_duration = break_duration;
        self.total_loops = total_loops;
        self.reset();
    }

    /// Pauses at the start of the first work session; lengths and loop count stay.
    pub fn reset(&mut self)
        requires
            old(self).wf(),
        ensures
            final(self).wf(),
            final(self).is_reset(),
            final(self).work_duration == old(self).work_duration,
            final(self).break_duration == old(self).break_duration,
            final(self).total_loops == old(self).total_loops,
            final(self).pending_study_time == old(self).pending_study_time,
    {
        self.timer_state = TimerState::Paused;
        self.timer_mode = TimerMode::Work;
        self.time_remaining = self.work_duration;
        self.current_loop = 1;
        self.last_tick = None;
    }

    /// Starts a paused timer, with its clock taken from `now_ms`, or pauses a running one.
    pub fn toggle_state(&mut self, now_ms: u64)
        ensures
            old(self).timer_state == TimerState::Paused ==> final(self).timer_state
                == TimerState::Running && final(self).last_tick == Some(now_ms),
            old(self).timer_state == TimerState::Running ==> final(self).timer_state
                == TimerState::Paused && final(self).last_tick is None,
            final(self).timer_mode == old(self).timer_mode,
            final(self).time_remaining == old(self).time_remaining,
            final(self).current_loop == old(self).current_loop,
            final(self).work_duration == old(self).work_duration,
            final(self).break_duration == old(self).break_duration,
            final(self).total_loops == old(self).total_loops,
            final(self).pending_study_time == old(self).pending_study_time,
    {
        match self.timer_state {
            TimerState::Paused => {
                self.last_tick = Some(now_ms);
                self.timer_state = TimerState::Running;
            },
            TimerState::Running => {
                self.last_tick = None;
                self.timer_state = TimerState::Paused;
            },
        }
    }

    /// The next moment of a running timer, at clock time `now_ms`. The time
    /// elapsed since the last tick counts towards study time during work, in
    /// whole seconds, with the rest carried over. If the session still has more
    /// time left than elapsed, that time shrinks; otherwise the session ends:
    /// the rest of a work session is counted as study time, and the timer moves
    /// to the next session (a break, the next loop's work, or a reset after the
    /// last loop). A paused timer does nothing.
    pub fn tick(&mut self, now_ms: u64) -> (r: TickOutcome)
        requires
            old(self).wf(),
        ensures
            final(self).wf(),
            final(self).work_duration == old(self).work_duration,
            final(self).break_duration == old(self).break_duration,
            final(self).total_loops == old(self).total_loops,
            old(self).timer_state != TimerState::Running ==> *final(self) == *old(self) && r == (
            TickOutcome { study_seconds: 0, session_ended: false, streak_completed: false }),
            old(self).timer_state == TimerState::Running ==> {
                let elapsed = elapsed_since(old(self).last_tick, now_ms);
                let work = old(self).timer_mode == TimerMode::Work;
                let banked = if work {
                    (old(self).pending_study_time + elapsed) / MS_PER_SECOND as int
                } else {
                    0
                };
                &&& final(self).pending_study_time == if work {
                    (old(self).pending_study_time + elapsed) % MS_PER_SECOND as int
                } else {
                    old(self).pending_study_time as int
                }
                &&& r.session_ended == (old(self).time_remaining <= elapsed)
                &&& !r.session_ended ==> {
                    &&& r.study_seconds == banked
                    &&& !r.streak_completed
                    &&& final(self).time_remaining == old(self).time_remaining - elapsed
                    &&& final(self).timer_mode == old(self).timer_mode
                    &&& final(self).timer_state == TimerState::Running
                    &&& final(self).current_loop == old(self).current_loop
                    &&& final(self).last_tick == Some(now_ms)
                }
                &&& r.session_ended ==> {
                    &&& r.study_seconds == banked + if work {
                        old(self).time_remaining / MS_PER_SECOND
                    } else {
                        0
                    }
                    &&& r.streak_completed == !work
                    &&& work ==> {
                        &&& final(self).timer_mode == TimerMode::Break
                        &&& final(self).timer_state == TimerState::Running
                        &&& final(self).time_remaining == old(self).break_duration
                        &&& final(self).current_loop == old(self).current_loop
                        &&& final(self).last_tick == Some(now_ms)
                    }
                    &&& !work && old(self).current_loop >= old(self).total_loops ==> final(self).is_reset()
                    &&& !work && old(self).current_loop < old(self).total_loops ==> {
                        &&& final(self).timer_mode == TimerMode::Work
                        &&& final(self).timer_state == TimerState::Running
                        &&& final(self).time_remaining == old(self).work_duration
                        &&& final(self).current_loop == old(self).current_loop + 1
                        &&& final(self).last_tick == Some(now_ms)
                    }
                }
            },
    {
        if self.timer_state != TimerState::Running {
            return TickOutcome { study_seconds: 0, session_ended: false, streak_completed: false };
        }
        let elapsed: u64 = match self.last_tick {
            Some(t) => if now_ms >= t {
                now_ms - t
            } else {
                0
            },
            None => 0,
        };
        self.last_tick = Some(now_ms);
        let mut study_seconds: u64 = 0;
        if self.timer_mode == TimerMode::Work {
            let carried: u64 = self.pending_study_time + elapsed % MS_PER_SECOND;
            study_seconds = elapsed / MS_PER_SECOND + carried / MS_PER_SECOND;
            self.pending_study_time = carried % MS_PER_SECOND;
        }
        if self.time_remaining > elapsed {
            self.time_remaining = self.time_remaining - elapsed;
            TickOutcome { study_seconds, session_ended: false, streak_completed: false }
        } else {
            if self.timer_mode == TimerMode::Work {
                study_seconds = study_seconds + self.time_remaining / MS_PER_SECOND;
            }
            self.time_remaining = 0;
            let streak = self.switch_session(now_ms);
            TickOutcome { study_seconds, session_ended: true, streak_completed: streak }
        }
    }

    /// The title and text of the notice shown after a session switch, chosen by
    /// the mode the timer is now in.
    pub fn get_session_switch_messages(&self) -> (r: (&'static str, &'static str))
        ensures
            self.timer_mode == TimerMode::Work ==> r.0@ == "Work Complete!"@ && r.1@
                == "Time for a short break."@,
            self.timer_mode == TimerMode::Break ==> r.0@ == "Break Over!"@ && r.1@
                == "Time to get back to work."@,
    {
        match self.timer_mode {
            TimerMode::Work => ("Work Complete!", "Time for a short break."),
            TimerMode::Break => ("Break Over!", "Time to get back to work."),
        }
    }

    /// Moves to the next session once the current one has run out: a work
    /// session is followed by a break; a break closes a loop, and either starts
    /// the next work session or, after the last loop, resets. Returns whether a
    /// loop was closed.
    fn switch_session(&mut self, now_ms: u64) -> (streak: bool)
        requires
            old(self).wf(),
        ensures
            final(self).wf(),
            streak == (old(self).timer_mode == TimerMode::Break),
            final(self).work_duration == old(self).work_duration,
            final(self).break_duration == old(self).break_duration,
            final(self).total_loops == old(self).total_loops,
            final(self).pending_study_time == old(self).pending_study_time,
            old(self).timer_mode == TimerMode::Work ==> {
                &&& final(self).timer_mode == TimerMode::Break
                &&& final(self).timer_state == old(self).timer_state
                &&& final(self).time_remaining == old(self).break_duration
                &&& final(self).current_loop == old(self).current_loop
                &&& final(self).last_tick == Some(now_ms)
            },
            old(self).timer_mode == TimerMode::Break && old(self).current_loop >= old(self).total_loops ==> final(self).is_reset(),
            old(self).timer_mode == TimerMode::Break && old(self).current_loop < old(self).total_loops ==> {
                &&& final(self).timer_mode == TimerMode::Work
                &&& final(self).timer_state == old(self).timer_state
                &&& final(self).time_remaining == old(self).work_duration
                &&& final(self).current_loop == old(self).current_loop + 1
                &&& final(self).last_tick == Some(now_ms)
            },
    {
        match self.timer_mode {
            TimerMode::Work => {
                self.timer_mode = TimerMode::Break;
                self.time_remaining = self.break_duration;
                self.last_tick = Some(now_ms);
                false
            },
            TimerMode::Break => {
                if self.current_loop >= self.total_loops {
                    self.reset();
                    return true;
                }
                self.current_loop = self.current_loop + 1;
                self.timer_mode = TimerMode::Work;
                self.time_remaining = self.work_duration;
                self.last_tick = Some(now_ms);
                true
            },
        }
    }
}

} // verus!
