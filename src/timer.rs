use vstd::prelude::*;

verus! {

/// The phase of the solve in progress.
#[derive(Clone, Copy, Debug, PartialEq, Eq, Hash, Structural)]
pub enum TimerState {
    /// Idle, waiting for the key to be held.
    Ready,
    /// The key is held; releasing it after the hold threshold starts a solve.
    Preparing,
    /// A solve is being timed.
    Running,
    /// A solve just ended; the key is still held.
    Stopped,
}

/// How long the key must be held before a release starts a solve, in
/// milliseconds.
pub const DEFAULT_HOLD_THRESHOLD: u64 = 300;

/// The press/release state machine that times solves. Instants are
/// milliseconds on a monotonic clock chosen by the caller; durations are
/// milliseconds.
#[derive(Clone, Copy, Debug, PartialEq, Eq, Structural)]
pub struct TimerMachine {
    pub state: TimerState,
    /// When the running solve started; present exactly while `Running`.
    pub start_time: Option<u64>,
    /// Elapsed time of the running solve, or of the last one.
    pub current_time: u64,
    /// Duration of the last completed solve.
    pub last_time: Option<u64>,
    /// Whether the key is held down.
    pub space_pressed: bool,
    /// When the key was pressed to prepare; present exactly while `Preparing`.
    pub space_hold_start: Option<u64>,
    /// The hold threshold, boundary included.
    pub key_preparation_time: u64,
}

/// `now - since`, or zero when the clock reads earlier than `since`.
pub open spec fn elapsed(now: u64, since: u64) -> u64 {
    if now >= since {
        (now - since) as u64
    } else {
        0
    }
}

impl TimerMachine {
    /// At most one of the two instants is present, each with its phase.
    pub open spec fn wf(&self) -> bool {
        &&& (self.state == TimerState::Running) == self.start_time.is_some()
        &&& (self.state == TimerState::Preparing) == self.space_hold_start.is_some()
    }
}

/// The machine after the key goes down at `now`.
pub open spec fn press_step(m: TimerMachine, now: u64) -> TimerMachine {
    let m = TimerMachine { space_pressed: true, ..m };
    match m.state {
        TimerState::Ready | TimerState::Stopped => TimerMachine {
            state: TimerState::Preparing,
            space_hold_start: Some(now),
            ..m
        },
        TimerState::Running => {
            let t = elapsed(now, m.start_time->0);
            TimerMachine {
                state: TimerState::Stopped,
                start_time: None,
                current_time: t,
                last_time: Some(t),
                ..m
            }
        },
        TimerState::Preparing => m,
    }
}

/// The machine after the key comes up at `now`.
pub open spec fn release_step(m: TimerMachine, now: u64) -> TimerMachine {
    let m = TimerMachine { space_pressed: false, ..m };
    match m.state {
        TimerState::Preparing => if elapsed(now, m.space_hold_start->0) >= m.key_preparation_time {
            TimerMachine {
                state: TimerState::Running,
                start_time: Some(now),
                current_time: 0,
                space_hold_start: None,
                ..m
            }
        } else {
            TimerMachine { state: TimerState::Ready, space_hold_start: None, ..m }
        },
        TimerState::Stopped => TimerMachine { state: TimerState::Ready, ..m },
        _ => m,
    }
}

/// The machine after the key is read as `pressed` at `now`: only a change of
/// the key's position counts, a repeated reading is ignored.
pub open spec fn key_step(m: TimerMachine, pressed: bool, now: u64) -> TimerMachine {
    if pressed && !m.space_pressed {
        press_step(m, now)
    } else if !pressed && m.space_pressed {
        release_step(m, now)
    } else {
        m
    }
}

/// Whether reading the key as `pressed` ends the running solve.
pub open spec fn ends_solve(m: TimerMachine, pressed: bool) -> bool {
    pressed && !m.space_pressed && m.state == TimerState::Running
}

impl TimerMachine {
    /// A machine in `Ready` with the key up.
    pub open spec fn new_spec(key_preparation_time: u64) -> TimerMachine {
        TimerMachine {
            state: TimerState::Ready,
            start_time: None,
            current_time: 0,
            last_time: None,
            space_pressed: false,
            space_hold_start: None,
            key_preparation_time,
        }
    }

    /// A machine in `Ready` with the key up.
    pub fn new(key_preparation_time: u64) -> (r: TimerMachine)
        ensures
            r.wf(),
            r == TimerMachine::new_spec(key_preparation_time),
    {
        TimerMachine {
            state: TimerState::Ready,
            start_time: None,
            current_time: 0,
            last_time: None,
            space_pressed: false,
            space_hold_start: None,
            key_preparation_time,
        }
    }

    /// Starts timing a solve at `now`.
    fn start_timer(&mut self, now: u64)
        ensures
            *final(self) == (TimerMachine {
                state: TimerState::Running,
                start_time: Some(now),
                current_time: 0,
                ..*old(self)
            }),
    {
        self.state = TimerState::Running;
        self.start_time = Some(now);
        self.current_time = 0;
    }

    /// On release while preparing: starts the solve if the key was held for
    /// at least the threshold, else goes back to `Ready`.
    fn try_start_timer(&mut self, now: u64)
        requires
            old(self).state == TimerState::Preparing,
            old(self).space_hold_start.is_some(),
        ensures
            *final(self) == (if elapsed(now, old(self).space_hold_start->0)
                >= old(self).key_preparation_time {
                TimerMachine {
                    state: TimerState::Running,
                    start_time: Some(now),
                    current_time: 0,
                    ..*old(self)
                }
            } else {
                TimerMachine { state: TimerState::Ready, ..*old(self) }
            }),
    {
        if let Some(hold_start) = self.space_hold_start {
            let hold_duration = now.saturating_sub(hold_start);
            if hold_duration >= self.key_preparation_time {
                self.start_timer(now);
            } else {
                self.state = TimerState::Ready;
            }
        }
    }

    /// Ends the running solve at `now` and returns its duration.
    fn stop_timer(&mut self, now: u64) -> (r: u64)
        requires
            old(self).start_time.is_some(),
        ensures
            r == elapsed(now, old(self).start_time->0),
            *final(self) == (TimerMachine {
                state: TimerState::Stopped,
                start_time: None,
                current_time: r,
                last_time: Some(r),
                ..*old(self)
            }),
    {
        let start = self.start_time.unwrap();
        let t = now.saturating_sub(start);
        self.current_time = t;
        self.last_time = Some(t);
        self.state = TimerState::Stopped;
        self.start_time = None;
        t
    }

    /// The key goes down at `now`. Returns the duration of the solve that
    /// this ends, if one was running.
    pub fn handle_space_press(&mut self, now: u64) -> (r: Option<u64>)
        requires
            old(self).wf(),
        ensures
            final(self).wf(),
            *final(self) == press_step(*old(self), now),
            old(self).state == TimerState::Running ==> {
                &&& final(self).state == TimerState::Stopped
                &&& final(self).start_time.is_none()
                &&& final(self).current_time == elapsed(now, old(self).start_time->0)
                &&& final(self).last_time == Some(elapsed(now, old(self).start_time->0))
            },
            r == (if old(self).state == TimerState::Running {
                Some(final(self).current_time)
            } else {
                None
            }),
    {
        self.space_pressed = true;
        match self.state {
            TimerState::Ready | TimerState::Stopped => {
                self.state = TimerState::Preparing;
                self.space_hold_start = Some(now);
                None
            },
            TimerState::Running => Some(self.stop_timer(now)),
            TimerState::Preparing => None,
        }
    }

    /// The key comes up at `now`.
    pub fn handle_space_release(&mut self, now: u64)
        requires
            old(self).wf(),
        ensures
            final(self).wf(),
            *final(self) == release_step(*old(self), now),
            old(self).state == TimerState::Preparing && elapsed(now, old(self).space_hold_start->0)
                < old(self).key_preparation_time ==> {
                &&& final(self).state == TimerState::Ready
                &&& final(self).start_time.is_none()
                &&& final(self).current_time == old(self).current_time
                &&& final(self).last_time == old(self).last_time
            },
            old(self).state == TimerState::Preparing && elapsed(now, old(self).space_hold_start->0)
                >= old(self).key_preparation_time ==> {
                &&& final(self).state == TimerState::Running
                &&& final(self).start_time == Some(now)
                &&& final(self).current_time == 0
            },
    {
        self.space_pressed = false;
        match self.state {
            TimerState::Preparing => {
                self.try_start_timer(now);
            },
            TimerState::Stopped => {
                self.state = TimerState::Ready;
            },
            _ => {},
        }
        self.space_hold_start = None;
    }

    /// Reads the key as `pressed` at `now`; a reading that repeats the key's
    /// position changes nothing. Returns the duration of the solve that this
    /// ends, if any.
    pub fn handle_space_key(&mut self, pressed: bool, now: u64) -> (r: Option<u64>)
        requires
            old(self).wf(),
        ensures
            final(self).wf(),
            *final(self) == key_step(*old(self), pressed, now),
            r == (if ends_solve(*old(self), pressed) {
                Some(final(self).current_time)
            } else {
                None
            }),
    {
        if pressed && !self.space_pressed {
            self.handle_space_press(now)
        } else if !pressed && self.space_pressed {
            self.handle_space_release(now);
            None
        } else {
            None
        }
    }

    /// Refreshes the elapsed time of a running solve from `now` and returns
    /// the phase and the elapsed time to show.
    pub fn tick(&mut self, now: u64) -> (r: (TimerState, u64))
        requires
            old(self).wf(),
        ensures
            final(self).wf(),
            *final(self) == (if old(self).state == TimerState::Running {
                TimerMachine { current_time: elapsed(now, old(self).start_time->0), ..*old(self) }
            } else {
                *old(self)
            }),
            r == (final(self).state, final(self).current_time),
    {
        if let Some(start) = self.start_time {
            self.current_time = now.saturating_sub(start);
        }
        (self.state, self.current_time)
    }

    /// Whether the key has been held long enough that releasing it at `now`
    /// would start a solve.
    pub fn hold_is_long_enough(&self, now: u64) -> (r: bool)
        ensures
            r == (self.state == TimerState::Preparing && self.space_hold_start is Some && elapsed(
                now,
                self.space_hold_start->0,
            ) >= self.key_preparation_time),
    {
        match (self.state, self.space_hold_start) {
            (TimerState::Preparing, Some(hold_start)) => now.saturating_sub(hold_start)
                >= self.key_preparation_time,
            _ => false,
        }
    }
}

} // verus!
