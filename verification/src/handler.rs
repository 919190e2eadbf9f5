//! Key handling: maps key events to timer state machine transitions.

use crate::app::{restart_fits, restart_step, tick_step, App, AppV, State};
use vstd::prelude::*;

verus! {

/// A key code, as the state machine sees it. Every key the machine does
/// not react to arrives as `Other`.
#[derive(Clone, Copy, PartialEq, Eq, Structural, Debug)]
pub enum KeyCode {
    Esc,
    Char(char),
    Other,
}

/// A key event: the code, and whether the modifiers were exactly Control.
#[derive(Clone, Copy, PartialEq, Eq, Structural, Debug)]
pub struct KeyEvent {
    pub code: KeyCode,
    pub ctrl: bool,
}

/// What Esc (or `q`) does: cancels a restart confirmation, and otherwise
/// requests exit.
pub open spec fn esc_step(a: AppV) -> AppV {
    if a.state == State::Restart {
        AppV { state: State::Running, ..a }
    } else {
        AppV { running: false, ..a }
    }
}

/// What Space does: pause from Running (saving the phase), resume to the
/// saved phase from Paused, restart from Triggered, nothing while
/// confirming a restart.
pub open spec fn space_step(a: AppV, now: int) -> AppV {
    match a.state {
        State::Running => AppV {
            pre_pause_state: Some(State::Running),
            state: State::Paused,
            ..a
        },
        State::Paused => AppV {
            state: match a.pre_pause_state {
                Some(s) => s,
                None => State::Running,
            },
            pre_pause_state: None,
            ..a
        },
        State::Triggered => restart_step(a, now),
        State::Restart => a,
    }
}

/// What `r` does: asks for confirmation from Running, restarts from the
/// confirmation phase or from Triggered, nothing while Paused.
pub open spec fn r_step(a: AppV, now: int) -> AppV {
    match a.state {
        State::Running => AppV { state: State::Restart, ..a },
        State::Restart | State::Triggered => restart_step(a, now),
        State::Paused => a,
    }
}

/// What one key event does to the timer.
pub open spec fn key_step(a: AppV, k: KeyEvent, now: int) -> AppV {
    match k.code {
        KeyCode::Esc => esc_step(a),
        KeyCode::Char(c) => if c == 'q' {
            esc_step(a)
        } else if c == 'c' || c == 'C' {
            if k.ctrl {
                AppV { running: false, ..a }
            } else {
                a
            }
        } else if c == ' ' {
            space_step(a, now)
        } else if c == 'r' || c == 'R' {
            r_step(a, now)
        } else {
            a
        },
        KeyCode::Other => a,
    }
}

/// Whether this key event performs a restart in the current phase, and so
/// recomputes the deadline.
pub open spec fn key_restarts(a: AppV, k: KeyEvent) -> bool {
    match k.code {
        KeyCode::Char(c) => (c == ' ' && a.state == State::Triggered) || ((c == 'r' || c == 'R')
            && (a.state == State::Restart || a.state == State::Triggered)),
        _ => false,
    }
}

/// Dispatches one key event to the timer, at wall-clock time `now`.
pub fn handle_key_events(key_event: KeyEvent, app: &mut App, now: i64)
    requires
        key_restarts(old(app)@, key_event) ==> restart_fits(old(app)@, now as int),
    ensures
        final(app)@ == key_step(old(app)@, key_event, now as int),
{
    match key_event.code {
        // Exit application on `Esc` or `q`; cancel a pending restart
        KeyCode::Esc => {
            if app.state == State::Restart {
                app.state = State::Running;
            } else {
                app.running = false;
            }
        },
        KeyCode::Char(c) => {
            if c == 'q' {
                if app.state == State::Restart {
                    app.state = State::Running;
                } else {
                    app.running = false;
                }
            } else if c == 'c' || c == 'C' {
                // Exit application on `Ctrl-C`
                if key_event.ctrl {
                    app.running = false;
                }
            } else if c == ' ' {
                match app.state {
                    State::Running => {
                        app.pre_pause_state = Some(app.state);
                        app.state = State::Paused;
                    },
                    State::Paused => {
                        app.state = match app.pre_pause_state {
                            Some(s) => s,
                            None => State::Running,
                        };
                        app.pre_pause_state = None;
                    },
                    State::Triggered => {
                        app.restart(now);
                    },
                    State::Restart => {},
                }
            } else if c == 'r' || c == 'R' {
                match app.state {
                    State::Running => {
                        app.state = State::Restart;
                    },
                    State::Restart | State::Triggered => {
                        app.restart(now);
                    },
                    State::Paused => {},
                }
            }
        },
        KeyCode::Other => {},
    }
    proof {
        assert(app@ =~= key_step(old(app)@, key_event, now as int));
    }
}

/// The Space key event.
pub open spec fn space_key() -> KeyEvent {
    KeyEvent { code: KeyCode::Char(' '), ctrl: false }
}

/// The Esc key event.
pub open spec fn esc_key() -> KeyEvent {
    KeyEvent { code: KeyCode::Esc, ctrl: false }
}

/// The `r` key event.
pub open spec fn r_key() -> KeyEvent {
    KeyEvent { code: KeyCode::Char('r'), ctrl: false }
}

/// Law: every key event preserves the timer invariant.
pub proof fn lemma_key_preserves_inv(a: AppV, k: KeyEvent, now: int)
    requires
        a.wf(),
    ensures
        key_step(a, k, now).wf(),
{
}

/// Law (pause round trip): from Running, Space pauses; any tick while
/// Paused, and the resuming Space, leave the remaining time exactly as it
/// was at the moment of pausing, and resume restores the Running phase.
pub proof fn lemma_pause_resume_round_trip(a: AppV, now1: int, now2: int, now3: int)
    requires
        a.wf(),
        a.state == State::Running,
    ensures
        ({
            let b = key_step(a, space_key(), now1);
            let bt = tick_step(b, now2).0;
            let c = key_step(bt, space_key(), now3);
            &&& b.state == State::Paused
            &&& bt.state == State::Paused
            &&& bt.time_left == a.time_left
            &&& c.state == a.state
            &&& c.time_left == a.time_left
            &&& c.wf()
        }),
{
}

/// Law (confirm-cancel, then exit): while confirming a restart, Esc
/// cancels back to Running without requesting exit; a second Esc, now in
/// Running, requests exit. The two presses differ in effect.
pub proof fn lemma_confirm_cancel_then_exit(a: AppV, now1: int, now2: int)
    requires
        a.state == State::Restart,
        a.running,
    ensures
        ({
            let b = key_step(a, esc_key(), now1);
            let c = key_step(b, esc_key(), now2);
            &&& b.state == State::Running
            &&& b.running
            &&& c.state == State::Running
            &&& !c.running
        }),
{
}

/// Law (restart resets): from Triggered, Space restarts: the phase is
/// Running again, the remaining time is the full configured duration, and
/// the alarm playback stop handle is cleared.
pub proof fn lemma_restart_resets(a: AppV, now: int)
    requires
        a.wf(),
        a.state == State::Triggered,
    ensures
        ({
            let b = key_step(a, space_key(), now);
            &&& b.state == State::Running
            &&& b.time_left == a.duration
            &&& !b.sender_active
            &&& b.wf()
        }),
{
}

/// Law (double restart confirmation): from Running, one `r` only asks for
/// confirmation and leaves the remaining time untouched; a second `r`
/// performs the restart and resets the remaining time to the duration.
pub proof fn lemma_double_restart_confirm(a: AppV, now1: int, now2: int)
    requires
        a.wf(),
        a.state == State::Running,
    ensures
        ({
            let b = key_step(a, r_key(), now1);
            let c = key_step(b, r_key(), now2);
            &&& b.state == State::Restart
            &&& b.time_left == a.time_left
            &&& c.state == State::Running
            &&& c.time_left == c.duration
            &&& c.duration == a.duration
            &&& c.wf()
        }),
{
}

} // verus!
