use vstd::prelude::*;

use crate::chip8::{chip8_tick_rel, Chip8, Chip8View};
use crate::cpu::{spec_tick60, CpuView};
use crate::error::Chip8Error;
use crate::key_matrix::key_index;
use crate::Message;

verus! {

/// Milliseconds between 60Hz timer updates (approximately one sixtieth of a
/// second).
pub const TIMER_INTERVAL_MS: u64 = 17;

/// Minimum milliseconds between two instruction ticks.
pub const TICK_INTERVAL_MS: u64 = 2;

/// Wall-clock bookkeeping for the 60Hz timer cadence, in milliseconds of the
/// host's monotonic clock. `pause_delta` holds, across a pause, how far into
/// the current timer interval the machine was when it was paused.
pub struct TimerClock {
    pub last_timer_update: u64,
    pub pause_delta: u64,
}

/// The clock right after recording a pause at time `now`.
pub open spec fn paused_clock(c: TimerClock, now: u64) -> TimerClock {
    TimerClock {
        pause_delta: if now >= c.last_timer_update {
            (now - c.last_timer_update) as u64
        } else {
            0
        },
        ..c
    }
}

/// The clock right after resuming at time `now`: the last update is moved so
/// that exactly `pause_delta` of the interval reads as already elapsed.
pub open spec fn unpaused_clock(c: TimerClock, now: u64) -> TimerClock {
    TimerClock {
        last_timer_update: if now >= c.pause_delta {
            (now - c.pause_delta) as u64
        } else {
            0
        },
        ..c
    }
}

impl TimerClock {
    /// A clock that saw its last timer update at `now`.
    pub fn new(now: u64) -> (r: TimerClock)
        ensures
            r.last_timer_update == now,
            r.pause_delta == 0,
    {
        TimerClock { last_timer_update: now, pause_delta: 0 }
    }

    /// Records how far into the timer interval the pause happened.
    pub fn on_pause(&mut self, now: u64)
        ensures
            *final(self) == paused_clock(*old(self), now),
    {
        self.pause_delta = now.saturating_sub(self.last_timer_update);
    }

    /// Resumes the elapsed-time accounting where the pause left it, so the
    /// paused span never counts toward the next timer update.
    pub fn on_unpause(&mut self, now: u64)
        ensures
            *final(self) == unpaused_clock(*old(self), now),
    {
        self.last_timer_update = now.saturating_sub(self.pause_delta);
    }

    /// Whether a full timer interval has elapsed by `now`.
    pub fn timer_due(&self, now: u64) -> (r: bool)
        ensures
            r == (now >= self.last_timer_update + TIMER_INTERVAL_MS),
    {
        now.saturating_sub(self.last_timer_update) >= TIMER_INTERVAL_MS
    }

    /// Records that the 60Hz timers were updated at `now`.
    pub fn mark_timer(&mut self, now: u64)
        ensures
            *final(self) == (TimerClock { last_timer_update: now, ..*old(self) }),
    {
        self.last_timer_update = now;
    }
}

/// Law: a pause at `t1` followed by an unpause at a later `t2` resumes the
/// elapsed-time accounting exactly where the pause left it: the interval
/// elapsed at `t2` after resuming equals the interval elapsed at `t1` when
/// pausing, however long the pause lasted. The timer never "catches up" on
/// the paused span.
pub proof fn lemma_pause_no_jump(c: TimerClock, t1: u64, t2: u64)
    requires
        c.last_timer_update <= t1,
        t1 <= t2,
    ensures
        t2 - unpaused_clock(paused_clock(c, t1), t2).last_timer_update == t1
            - c.last_timer_update,
{
}

/// What the scheduler decides to do after one inbound message.
#[derive(Debug)]
pub enum SchedulerAction {
    /// Keep looping.
    Proceed,
    /// Leave the loop; the session is over.
    Stop,
    /// Write a snapshot of the machine to the given path.
    SaveTo { path: String },
}

/// How one inbound message changes the machine and the clock, and what the
/// host loop must do next. Pause and unpause act only when they change the
/// state, so the pause bookkeeping runs at most once per pause. A key release
/// always updates the key matrix, and is additionally recorded as the
/// pending released key only while running. A save never changes the state.
pub open spec fn handle_message_rel(
    pre_c8: Chip8View,
    pre_clock: TimerClock,
    msg: Message,
    now: u64,
    post_c8: Chip8View,
    post_clock: TimerClock,
    action: SchedulerAction,
) -> bool {
    match msg {
        Message::Shutdown => post_c8 == pre_c8 && post_clock == pre_clock && action
            == SchedulerAction::Stop,
        Message::Pause => post_c8 == (Chip8View { paused: true, ..pre_c8 }) && post_clock == (
        if pre_c8.paused {
            pre_clock
        } else {
            paused_clock(pre_clock, now)
        }) && action == SchedulerAction::Proceed,
        Message::Unpause => post_c8 == (Chip8View { paused: false, ..pre_c8 }) && post_clock == (
        if pre_c8.paused {
            unpaused_clock(pre_clock, now)
        } else {
            pre_clock
        }) && action == SchedulerAction::Proceed,
        Message::KeyPressed(key) => post_c8 == (Chip8View {
            keys: pre_c8.keys.update(key_index(key) as int, true),
            ..pre_c8
        }) && post_clock == pre_clock && action == SchedulerAction::Proceed,
        Message::KeyReleased(key) => post_c8 == (Chip8View {
            keys: pre_c8.keys.update(key_index(key) as int, false),
            last_released_key: if pre_c8.paused {
                pre_c8.last_released_key
            } else {
                Some(key)
            },
            ..pre_c8
        }) && post_clock == pre_clock && action == SchedulerAction::Proceed,
        Message::Save(path) => post_c8 == pre_c8 && post_clock == pre_clock && action == (
        SchedulerAction::SaveTo { path }),
        Message::Draw(_) => post_c8 == pre_c8 && post_clock == pre_clock && action
            == SchedulerAction::Proceed,
    }
}

/// One scheduler cycle while running: a 60Hz timer update if one is due,
/// then one engine tick. While paused, nothing happens.
pub open spec fn run_cycle_rel(
    pre_c8: Chip8View,
    pre_clock: TimerClock,
    now: u64,
    post_c8: Chip8View,
    post_clock: TimerClock,
    r: Result<bool, Chip8Error>,
) -> bool {
    if pre_c8.paused {
        post_c8 == pre_c8 && post_clock == pre_clock && r == Ok::<bool, Chip8Error>(false)
    } else {
        let due = now >= pre_clock.last_timer_update + TIMER_INTERVAL_MS;
        let mid_c8 = if due {
            Chip8View {
                cpu: CpuView {
                    dt: spec_tick60(pre_c8.cpu.dt),
                    st: spec_tick60(pre_c8.cpu.st),
                    ..pre_c8.cpu
                },
                ..pre_c8
            }
        } else {
            pre_c8
        };
        post_clock == (if due {
            TimerClock { last_timer_update: now, ..pre_clock }
        } else {
            pre_clock
        }) && chip8_tick_rel(mid_c8, post_c8, r)
    }
}

/// The session scheduler's verified core: the machine it owns exclusively
/// and the timer bookkeeping. The host loop owns the thread and the clock
/// readings; every decision is made here.
pub struct Scheduler {
    pub chip8: Chip8,
    pub clock: TimerClock,
}

impl Scheduler {
    pub open spec fn wf(&self) -> bool {
        self.chip8.wf()
    }

    /// A scheduler for the given machine, with the timer cadence anchored at
    /// `now`.
    pub fn new(chip8: Chip8, now: u64) -> (r: Scheduler)
        requires
            chip8.wf(),
        ensures
            r.wf(),
            r.chip8@ == chip8@,
            r.clock.last_timer_update == now,
            r.clock.pause_delta == 0,
    {
        Scheduler { chip8, clock: TimerClock::new(now) }
    }

    /// Applies one inbound message, per `handle_message_rel`.
    pub fn handle_message(&mut self, msg: Message, now: u64) -> (action: SchedulerAction)
        requires
            old(self).wf(),
        ensures
            final(self).wf(),
            handle_message_rel(
                old(self).chip8@,
                old(self).clock,
                msg,
                now,
                final(self).chip8@,
                final(self).clock,
                action,
            ),
    {
        match msg {
            Message::Shutdown => SchedulerAction::Stop,
            Message::Pause => {
                if !self.chip8.is_paused() {
                    self.clock.on_pause(now);
                }
                self.chip8.pause();
                SchedulerAction::Proceed
            },
            Message::Unpause => {
                if self.chip8.is_paused() {
                    self.clock.on_unpause(now);
                }
                self.chip8.unpause();
                SchedulerAction::Proceed
            },
            Message::KeyPressed(key) => {
                self.chip8.press_key(key);
                SchedulerAction::Proceed
            },
            Message::KeyReleased(key) => {
                self.chip8.release_key(key);
                if !self.chip8.is_paused() {
                    self.chip8.set_last_released_key(key);
                }
                SchedulerAction::Proceed
            },
            Message::Save(path) => SchedulerAction::SaveTo { path },
            Message::Draw(_) => SchedulerAction::Proceed,
        }
    }

    /// Runs one cycle of the two cadences, per `run_cycle_rel`: the 60Hz
    /// timer decay when due, then one instruction tick. The result is
    /// `Ok(drew)` where `drew` says a redraw notification is owed.
    pub fn run_cycle(&mut self, now: u64) -> (r: Result<bool, Chip8Error>)
        requires
            old(self).wf(),
        ensures
            final(self).wf(),
            run_cycle_rel(
                old(self).chip8@,
                old(self).clock,
                now,
                final(self).chip8@,
                final(self).clock,
                r,
            ),
    {
        if self.chip8.is_paused() {
            return Ok(false);
        }
        if self.clock.timer_due(now) {
            self.chip8.tick_60hz();
            self.clock.mark_timer(now);
        }
        self.chip8.tick()
    }
}

} // verus!
