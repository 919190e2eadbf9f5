use cli_timer::app::{colour_from_index, parse_duration, App, Args, Colour, State};
use cli_timer::handler::{handle_key_events, KeyCode, KeyEvent};

fn mk_app(secs: i64, now: i64) -> App {
    App::new(
        Args {
            time: secs,
            sound: String::from("alarm.wav"),
            label: None,
        },
        now,
    )
}

fn chr(c: char) -> KeyEvent {
    KeyEvent {
        code: KeyCode::Char(c),
        ctrl: false,
    }
}

fn esc() -> KeyEvent {
    KeyEvent {
        code: KeyCode::Esc,
        ctrl: false,
    }
}

#[test]
fn parse_sums_colon_separated_fields() {
    // literal summation, not positional h:m:s
    assert_eq!(parse_duration("1:2:3"), Some(6));
}

#[test]
fn parse_single_field() {
    assert_eq!(parse_duration("90"), Some(90));
    assert_eq!(parse_duration("0"), Some(0));
}

#[test]
fn parse_signed_fields() {
    assert_eq!(parse_duration("-5"), Some(-5));
    assert_eq!(parse_duration("+7"), Some(7));
    assert_eq!(parse_duration("10:-4"), Some(6));
}

#[test]
fn parse_rejects_non_integer_fields() {
    assert_eq!(parse_duration("1:a"), None);
    assert_eq!(parse_duration(""), None);
    assert_eq!(parse_duration("1:"), None);
    assert_eq!(parse_duration(":1"), None);
    assert_eq!(parse_duration("1.5"), None);
    assert_eq!(parse_duration("-"), None);
}

#[test]
fn parse_extreme_values() {
    assert_eq!(
        parse_duration("9223372036854775807"),
        Some(i64::MAX)
    );
    assert_eq!(
        parse_duration("-9223372036854775808"),
        Some(i64::MIN)
    );
    assert_eq!(parse_duration("9223372036854775808"), None);
    assert_eq!(parse_duration("9223372036854775807:1"), None);
}

#[test]
fn new_sets_up_running_timer() {
    let app = mk_app(2, 1_000);
    assert!(app.running);
    assert_eq!(app.state, State::Running);
    assert!(app.pre_pause_state.is_none());
    assert_eq!(app.duration, 2_000);
    assert_eq!(app.time_left, 2_000);
    assert_eq!(app.end_time, 3_000);
    assert!(app.sender.is_none());
}

#[test]
fn expiry_after_two_seconds_of_ticks() {
    // duration 2s, ticks every 250ms: Triggered exactly at the 2s tick,
    // and the alarm start is requested exactly once
    let mut app = mk_app(2, 0);
    let mut starts: u32 = 0;
    for i in 1i64..=10 {
        let now = 250 * i;
        if app.tick(now) {
            starts += 1;
        }
        if now < 2_000 {
            assert_eq!(app.state, State::Running);
        } else {
            assert_eq!(app.state, State::Triggered);
        }
    }
    assert_eq!(starts, 1);
    // overtime keeps counting into the negative
    assert_eq!(app.time_left, 2_000 - 2_500);
}

#[test]
fn pause_resume_round_trip() {
    let mut app = mk_app(10, 0);
    app.tick(250);
    let frozen = app.time_left;
    handle_key_events(chr(' '), &mut app, 300);
    assert_eq!(app.state, State::Paused);
    assert_eq!(app.pre_pause_state, Some(State::Running));
    // ticks while paused keep the frozen time and move the deadline
    app.tick(500);
    app.tick(750);
    assert_eq!(app.time_left, frozen);
    assert_eq!(app.end_time, 750 + frozen);
    handle_key_events(chr(' '), &mut app, 800);
    assert_eq!(app.state, State::Running);
    assert!(app.pre_pause_state.is_none());
    assert_eq!(app.time_left, frozen);
    // the next running tick resumes from where it was frozen
    app.tick(1_000);
    assert_eq!(app.time_left, frozen - 250);
}

#[test]
fn confirm_cancel_then_exit() {
    let mut app = mk_app(10, 0);
    handle_key_events(chr('r'), &mut app, 100);
    assert_eq!(app.state, State::Restart);
    // first Esc cancels the confirmation
    handle_key_events(esc(), &mut app, 200);
    assert_eq!(app.state, State::Running);
    assert!(app.running);
    // second Esc requests exit
    handle_key_events(esc(), &mut app, 300);
    assert!(!app.running);
}

#[test]
fn q_requests_exit() {
    let mut app = mk_app(10, 0);
    handle_key_events(chr('q'), &mut app, 100);
    assert!(!app.running);
}

#[test]
fn ctrl_c_requests_exit() {
    let mut app = mk_app(10, 0);
    handle_key_events(
        KeyEvent {
            code: KeyCode::Char('c'),
            ctrl: false,
        },
        &mut app,
        100,
    );
    assert!(app.running);
    handle_key_events(
        KeyEvent {
            code: KeyCode::Char('c'),
            ctrl: true,
        },
        &mut app,
        200,
    );
    assert!(!app.running);
}

#[test]
fn restart_resets_state_and_stops_playback() {
    let mut app = mk_app(2, 0);
    let started = app.tick(2_000);
    assert!(started);
    assert_eq!(app.state, State::Triggered);
    let (tx, rx) = std::sync::mpsc::channel();
    app.set_sender(tx);
    assert!(app.sender.is_some());
    // Space from Triggered performs the restart
    handle_key_events(chr(' '), &mut app, 3_000);
    assert_eq!(app.state, State::Running);
    assert!(app.pre_pause_state.is_none());
    assert_eq!(app.time_left, 2_000);
    assert_eq!(app.end_time, 3_000 + 2_000 + 1_000);
    assert!(app.sender.is_none());
    // the playback task was signalled to stop
    assert_eq!(rx.try_recv(), Ok(()));
}

#[test]
fn double_restart_confirmation() {
    let mut app = mk_app(5, 0);
    app.tick(250);
    let before = app.time_left;
    handle_key_events(chr('r'), &mut app, 300);
    assert_eq!(app.state, State::Restart);
    assert_eq!(app.time_left, before);
    // a tick while confirming freezes time
    app.tick(500);
    assert_eq!(app.time_left, before);
    handle_key_events(chr('r'), &mut app, 600);
    assert_eq!(app.state, State::Running);
    assert_eq!(app.time_left, 5_000);
    assert_eq!(app.end_time, 600 + 5_000 + 1_000);
}

#[test]
fn capital_r_confirms_too() {
    let mut app = mk_app(5, 0);
    handle_key_events(chr('R'), &mut app, 100);
    assert_eq!(app.state, State::Restart);
    handle_key_events(chr('R'), &mut app, 200);
    assert_eq!(app.state, State::Running);
    assert_eq!(app.time_left, 5_000);
}

#[test]
fn r_is_ignored_while_paused() {
    let mut app = mk_app(5, 0);
    handle_key_events(chr(' '), &mut app, 100);
    assert_eq!(app.state, State::Paused);
    handle_key_events(chr('r'), &mut app, 200);
    assert_eq!(app.state, State::Paused);
}

#[test]
fn other_keys_change_nothing() {
    let mut app = mk_app(5, 0);
    handle_key_events(chr('x'), &mut app, 100);
    handle_key_events(
        KeyEvent {
            code: KeyCode::Other,
            ctrl: false,
        },
        &mut app,
        200,
    );
    assert!(app.running);
    assert_eq!(app.state, State::Running);
    assert_eq!(app.time_left, 5_000);
}

#[test]
fn display_sign_in_overtime() {
    // five seconds of overtime: leading '-' and a positive clock
    let mut app = mk_app(0, 0);
    app.tick(5_000);
    assert_eq!(app.state, State::Triggered);
    assert_eq!(app.time_left, -5_000);
    let frame = app.render();
    assert_eq!(frame.time_text, "-00:00:05");
}

#[test]
fn display_no_sign_while_running() {
    let app = mk_app(5, 0);
    let frame = app.render();
    assert_eq!(frame.time_text, " 00:00:05");
}

#[test]
fn display_splits_hours_minutes_seconds() {
    // 1h 2m 3s = 3723 seconds
    let app = mk_app(3_723, 0);
    let frame = app.render();
    assert_eq!(frame.time_text, " 01:02:03");
}

#[test]
fn display_wide_hours() {
    // 100 hours do not fit two digits and are shown unpadded
    let app = mk_app(360_000, 0);
    let frame = app.render();
    assert_eq!(frame.time_text, " 100:00:00");
}

#[test]
fn status_line_by_phase() {
    let mut app = App::new(
        Args {
            time: 1,
            sound: String::from("alarm.wav"),
            label: Some(String::from("Tea is ready")),
        },
        0,
    );
    assert_eq!(app.render().status_text, "");
    handle_key_events(chr(' '), &mut app, 100);
    assert_eq!(app.render().status_text, "Paused");
    handle_key_events(chr(' '), &mut app, 200);
    handle_key_events(chr('r'), &mut app, 300);
    assert_eq!(
        app.render().status_text,
        "Are you sure you want to restart the timer? (Press again to confirm, Esc/q to cancel)"
    );
    handle_key_events(esc(), &mut app, 400);
    app.tick(2_000);
    assert_eq!(app.state, State::Triggered);
    assert_eq!(app.render().status_text, "Tea is ready");
}

#[test]
fn status_line_empty_when_triggered_without_label() {
    let mut app = mk_app(1, 0);
    app.tick(1_000);
    assert_eq!(app.state, State::Triggered);
    assert_eq!(app.render().status_text, "");
}

#[test]
fn pre_pause_present_iff_paused() {
    let mut app = mk_app(3, 0);
    assert_eq!(app.pre_pause_state.is_some(), app.state == State::Paused);
    handle_key_events(chr(' '), &mut app, 100);
    assert_eq!(app.pre_pause_state.is_some(), app.state == State::Paused);
    handle_key_events(chr(' '), &mut app, 200);
    assert_eq!(app.pre_pause_state.is_some(), app.state == State::Paused);
    handle_key_events(chr('r'), &mut app, 300);
    assert_eq!(app.pre_pause_state.is_some(), app.state == State::Paused);
    handle_key_events(chr('r'), &mut app, 400);
    assert_eq!(app.pre_pause_state.is_some(), app.state == State::Paused);
}

#[test]
fn colour_palette_table() {
    assert_eq!(colour_from_index(0), Colour::Red);
    assert_eq!(colour_from_index(3), Colour::Blue);
    assert_eq!(colour_from_index(14), Colour::White);
    // out-of-palette indexes fall back to red
    assert_eq!(colour_from_index(200), Colour::Red);
}

#[test]
fn fit_checks_near_the_limits() {
    let app = mk_app(5, 0);
    assert!(app.restart_fits_at(1_000));
    assert!(!app.restart_fits_at(i64::MAX - 1_000));
    assert!(app.tick_fits_at(1_000));
}

#[test]
fn default_is_five_seconds() {
    let app = App::default();
    assert!(app.running);
    assert_eq!(app.state, State::Running);
    assert_eq!(app.duration, 5_000);
    assert_eq!(app.time_left, 5_000);
    assert_eq!(app.sound_file, "");
    assert!(app.message.is_none());
    assert!(app.sender.is_none());
}
