//! The countdown timer: its state, the tick transition, restart, duration
//! parsing and the textual rendering, all against a mathematical model of
//! milliseconds of wall-clock time.

use crate::ext;
use crate::text;
use vstd::arithmetic::div_mod::lemma_div_denominator;
use vstd::prelude::*;
use vstd::string::StringExecFns;

verus! {

/// The phase of the timer state machine. `Restart` is the
/// confirmation phase entered by a first press of `r`.
#[derive(Clone, Copy, PartialEq, Eq, Structural, Debug)]
pub enum State {
    Running,
    Paused,
    Triggered,
    Restart,
}

/// A display accent colour, chosen once at startup from a fixed palette.
#[derive(Clone, Copy, PartialEq, Eq, Structural, Debug)]
pub enum Colour {
    Red,
    Green,
    Yellow,
    Blue,
    Magenta,
    Cyan,
    Gray,
    DarkGray,
    LightRed,
    LightGreen,
    LightYellow,
    LightBlue,
    LightMagenta,
    LightCyan,
    White,
}

/// The palette entry for an index drawn from the random source; every
/// index outside 1..=14 falls back to red.
pub open spec fn colour_of_index(i: int) -> Colour {
    if i == 1 { Colour::Green }
    else if i == 2 { Colour::Yellow }
    else if i == 3 { Colour::Blue }
    else if i == 4 { Colour::Magenta }
    else if i == 5 { Colour::Cyan }
    else if i == 6 { Colour::Gray }
    else if i == 7 { Colour::DarkGray }
    else if i == 8 { Colour::LightRed }
    else if i == 9 { Colour::LightGreen }
    else if i == 10 { Colour::LightYellow }
    else if i == 11 { Colour::LightBlue }
    else if i == 12 { Colour::LightMagenta }
    else if i == 13 { Colour::LightCyan }
    else if i == 14 { Colour::White }
    else { Colour::Red }
}

/// Maps a palette index to its colour.
pub fn colour_from_index(i: u8) -> (c: Colour)
    ensures
        c == colour_of_index(i as int),
{
    match i {
        1 => Colour::Green,
        2 => Colour::Yellow,
        3 => Colour::Blue,
        4 => Colour::Magenta,
        5 => Colour::Cyan,
        6 => Colour::Gray,
        7 => Colour::DarkGray,
        8 => Colour::LightRed,
        9 => Colour::LightGreen,
        10 => Colour::LightYellow,
        11 => Colour::LightBlue,
        12 => Colour::LightMagenta,
        13 => Colour::LightCyan,
        14 => Colour::White,
        _ => Colour::Red,
    }
}

fn random_color() -> Colour {
    colour_from_index(ext::random_index())
}

/// The parsed command-line arguments: a duration in whole seconds, the
/// path of the alarm sound file, and an optional label.
pub struct Args {
    pub time: i64,
    pub sound: String,
    pub label: Option<String>,
}

/// The mathematical model of the timer: times are unbounded integers of
/// milliseconds, strings are character sequences, and the stop handle is
/// only its presence.
#[verifier::ext_equal]
pub struct AppV {
    pub running: bool,
    pub state: State,
    pub pre_pause_state: Option<State>,
    pub duration: int,
    pub time_left: int,
    pub end_time: int,
    pub colour: Colour,
    pub message: Option<Seq<char>>,
    pub sound_file: Seq<char>,
    pub sender_active: bool,
}

impl AppV {
    /// The timer's invariant: the saved phase is present exactly while
    /// Paused, and the only phase ever saved is Running.
    pub open spec fn wf(self) -> bool {
        &&& (self.pre_pause_state is Some <==> self.state == State::Paused)
        &&& (self.pre_pause_state is Some ==> self.pre_pause_state == Some(State::Running))
    }
}

/// The timer. `duration`, `time_left` and `end_time` are milliseconds;
/// `end_time` is absolute wall-clock time, the other two are spans.
pub struct App {
    pub running: bool,
    pub state: State,
    pub pre_pause_state: Option<State>,
    pub duration: i64,
    pub time_left: i64,
    pub end_time: i64,
    pub colour: Colour,
    pub message: Option<String>,
    pub sound_file: String,
    pub sender: Option<std::sync::mpsc::Sender<()>>,
}

impl View for App {
    type V = AppV;

    open spec fn view(&self) -> AppV {
        AppV {
            running: self.running,
            state: self.state,
            pre_pause_state: self.pre_pause_state,
            duration: self.duration as int,
            time_left: self.time_left as int,
            end_time: self.end_time as int,
            colour: self.colour,
            message: match self.message {
                Some(m) => Some(m@),
                None => None,
            },
            sound_file: self.sound_file@,
            sender_active: self.sender is Some,
        }
    }
}

/// What a tick does: while Paused the deadline chases the clock so the
/// frozen `time_left` is preserved; while Running or Triggered the
/// remaining time is recomputed from the deadline; while confirming a
/// restart, time is frozen. The second component is true exactly when the
/// countdown just expired and alarm playback should be started.
pub open spec fn tick_step(a: AppV, now: int) -> (AppV, bool) {
    match a.state {
        State::Paused => (AppV { end_time: now + a.time_left, ..a }, false),
        State::Running => {
            let tl = a.end_time - now;
            if tl <= 0 {
                (AppV { time_left: tl, state: State::Triggered, ..a }, true)
            } else {
                (AppV { time_left: tl, ..a }, false)
            }
        },
        State::Triggered => (AppV { time_left: a.end_time - now, ..a }, false),
        State::Restart => (a, false),
    }
}

/// What a restart does: back to Running with a fresh full countdown, the
/// deadline pushed one lead period past `now + duration`, and any active
/// alarm playback stopped.
pub open spec fn restart_step(a: AppV, now: int) -> AppV {
    AppV {
        state: State::Running,
        pre_pause_state: None,
        time_left: a.duration,
        end_time: now + a.duration + crate::RESTART_LEAD_MS as int,
        sender_active: false,
        ..a
    }
}

/// The machine-limit side conditions of a tick: the recomputed deadline or
/// remaining time must fit in `i64`.
pub open spec fn tick_fits(a: AppV, now: int) -> bool {
    match a.state {
        State::Paused => i64::MIN <= now + a.time_left <= i64::MAX,
        State::Running | State::Triggered => i64::MIN <= a.end_time - now <= i64::MAX,
        State::Restart => true,
    }
}

/// The machine-limit side condition of a restart: the new deadline must
/// fit in `i64`.
pub open spec fn restart_fits(a: AppV, now: int) -> bool {
    &&& i64::MIN <= now + a.duration <= i64::MAX
    &&& i64::MIN <= now + a.duration + crate::RESTART_LEAD_MS as int <= i64::MAX
}

/// The milliseconds shown on the clock face: the magnitude of `time_left`.
pub open spec fn abs_ms(tl: int) -> nat {
    if tl < 0 { (-tl) as nat } else { tl as nat }
}

/// Whole hours on the clock face.
pub open spec fn hours_of(tl: int) -> nat {
    abs_ms(tl) / 3600000
}

/// Minutes on the clock face.
pub open spec fn minutes_of(tl: int) -> nat {
    (abs_ms(tl) / 60000) % 60
}

/// Seconds on the clock face.
pub open spec fn seconds_of(tl: int) -> nat {
    (abs_ms(tl) / 1000) % 60
}

/// The time line of the frame: a sign column (`'-'` exactly while
/// Triggered, to mark overtime), then zero-padded `hh:mm:ss`.
pub open spec fn spec_time_text(a: AppV) -> Seq<char> {
    seq![if a.state == State::Triggered { '-' } else { ' ' }]
        + text::pad2(text::dec_digits(hours_of(a.time_left)))
        + seq![':']
        + text::pad2(text::dec_digits(minutes_of(a.time_left)))
        + seq![':']
        + text::pad2(text::dec_digits(seconds_of(a.time_left)))
}

/// The status line of the frame, by phase: empty while Running, a fixed
/// text while Paused or confirming a restart, and the label (or nothing)
/// while Triggered.
pub open spec fn spec_status_text(a: AppV) -> Seq<char> {
    match a.state {
        State::Running => Seq::<char>::empty(),
        State::Paused => "Paused"@,
        State::Restart => "Are you sure you want to restart the timer? (Press again to confirm, Esc/q to cancel)"@,
        State::Triggered => match a.message {
            Some(m) => m,
            None => Seq::<char>::empty(),
        },
    }
}

/// The textual content of one rendered frame.
pub struct FrameText {
    pub time_text: String,
    pub status_text: String,
}

/// Parses a duration as the sum of its colon-separated integer fields
/// ("1:2:3" is 6 seconds, not positional h:m:s), `None` on any
/// non-integer field or on a sum outside `i64`.
#[verifier::loop_isolation(false)]
pub fn parse_duration(arg: &str) -> (r: Option<i64>)
    ensures
        match r {
            Some(v) => text::parse_sum(arg@, 0) == Some(v as int),
            None => text::parse_sum(arg@, 0) is None,
        },
{
    let cs = text::str_chars(arg);
    let n = cs.len();
    let mut start: usize = 0;
    let mut acc: i64 = 0;
    proof {
        assert(arg@.skip(0) =~= arg@);
    }
    loop
        invariant
            start <= n,
            text::parse_sum(arg@, 0) == text::parse_sum(arg@.skip(start as int), acc as int),
        decreases n - start,
    {
        let mut j: usize = start;
        while j < n && !(cs[j] == ':')
            invariant
                start <= j <= n,
                forall|m: int| start <= m < j ==> cs@[m] != ':',
            decreases n - j,
        {
            j = j + 1;
        }
        let ghost t = arg@.skip(start as int);
        proof {
            assert forall|m: int| 0 <= m < j - start implies t[m] != ':' by {
                assert(t[m] == cs@[m + start as int]);
            }
            if j < n {
                assert(t[j - start as int] == cs@[j as int]);
            }
            text::lemma_find_colon_at(t, j - start as int);
            if j == n {
                assert(t =~= cs@.subrange(start as int, j as int));
            } else {
                assert(t.take(j - start as int) =~= cs@.subrange(start as int, j as int));
            }
        }
        match text::parse_field(&cs, start, j) {
            None => {
                return None;
            },
            Some(v) => {
                if v >= 0 {
                    if acc > i64::MAX - v {
                        return None;
                    }
                } else {
                    if acc < i64::MIN - v {
                        return None;
                    }
                }
                acc = acc + v;
                if j == n {
                    return Some(acc);
                }
                proof {
                    assert(t.skip(j - start as int + 1) =~= arg@.skip(j as int + 1));
                }
                start = j + 1;
            },
        }
    }
}

impl Default for App {
    /// A five-second timer with no sound file, no label, and a random
    /// accent colour.
    fn default() -> (r: Self)
        ensures
            r@.running == true,
            r@.state == State::Running,
            r@.pre_pause_state is None,
            r@.duration == 5000,
            r@.time_left == 5000,
            r@.message is None,
            r@.sound_file == Seq::<char>::empty(),
            r@.sender_active == false,
            r@.wf(),
    {
        let now = ext::now_millis();
        let end_time = if now <= i64::MAX - 5000 { now + 5000 } else { i64::MAX };
        App {
            running: true,
            state: State::Running,
            pre_pause_state: None,
            duration: 5000,
            time_left: 5000,
            end_time,
            colour: random_color(),
            message: None,
            sound_file: String::new(),
            sender: None,
        }
    }
}

impl App {
    /// A timer built from the parsed arguments, due `args.time` seconds
    /// after `now`, with a random accent colour.
    pub fn new(args: Args, now: i64) -> (r: Self)
        requires
            -9223372036854775 <= args.time <= 9223372036854775,
            i64::MIN <= now + args.time * 1000 <= i64::MAX,
        ensures
            r@.running == true,
            r@.state == State::Running,
            r@.pre_pause_state is None,
            r@.duration == args.time * 1000,
            r@.time_left == args.time * 1000,
            r@.end_time == now + args.time * 1000,
            r@.message == (match args.label {
                Some(l) => Some(l@),
                None => None::<Seq<char>>,
            }),
            r@.sound_file == args.sound@,
            r@.sender_active == false,
            r@.wf(),
    {
        let duration = args.time * 1000;
        let mut app = Self::default();
        app.duration = duration;
        app.time_left = duration;
        app.end_time = now + duration;
        app.message = args.label;
        app.sound_file = args.sound;
        app
    }

    /// Whether a tick at wall-clock time `now` stays within `i64`.
    pub fn tick_fits_at(&self, now: i64) -> (b: bool)
        ensures
            b == tick_fits(self@, now as int),
    {
        match self.state {
            State::Paused => {
                if self.time_left >= 0 {
                    now <= i64::MAX - self.time_left
                } else {
                    now >= i64::MIN - self.time_left
                }
            },
            State::Running | State::Triggered => {
                if now >= 0 {
                    self.end_time >= i64::MIN + now
                } else {
                    self.end_time <= i64::MAX + now
                }
            },
            State::Restart => true,
        }
    }

    /// Whether a restart at wall-clock time `now` stays within `i64`.
    pub fn restart_fits_at(&self, now: i64) -> (b: bool)
        ensures
            b == restart_fits(self@, now as int),
    {
        let d = self.duration;
        if d >= 0 {
            if now > i64::MAX - d {
                return false;
            }
        } else {
            if now < i64::MIN - d {
                return false;
            }
        }
        let s = now + d;
        s <= i64::MAX - crate::RESTART_LEAD_MS
    }

    /// One tick at wall-clock time `now`; returns true exactly when the
    /// countdown just expired, so that alarm playback should be started.
    pub fn tick(&mut self, now: i64) -> (start_alarm: bool)
        requires
            tick_fits(old(self)@, now as int),
        ensures
            final(self)@ == tick_step(old(self)@, now as int).0,
            start_alarm == tick_step(old(self)@, now as int).1,
    {
        match self.state {
            State::Paused => {
                self.end_time = now + self.time_left;
                proof {
                    assert(self@ =~= tick_step(old(self)@, now as int).0);
                }
                false
            },
            State::Running => {
                self.time_left = self.end_time - now;
                if self.time_left <= 0 {
                    self.state = State::Triggered;
                    proof {
                        assert(self@ =~= tick_step(old(self)@, now as int).0);
                    }
                    true
                } else {
                    proof {
                        assert(self@ =~= tick_step(old(self)@, now as int).0);
                    }
                    false
                }
            },
            State::Triggered => {
                self.time_left = self.end_time - now;
                proof {
                    assert(self@ =~= tick_step(old(self)@, now as int).0);
                }
                false
            },
            State::Restart => {
                proof {
                    assert(self@ =~= tick_step(old(self)@, now as int).0);
                }
                false
            },
        }
    }

    /// Restarts the countdown: stops any active alarm playback, returns to
    /// Running and resets the deadline one lead period past `now` plus the
    /// configured duration.
    pub fn restart(&mut self, now: i64)
        requires
            restart_fits(old(self)@, now as int),
        ensures
            final(self)@ == restart_step(old(self)@, now as int),
    {
        let end_time = now + self.duration + crate::RESTART_LEAD_MS;

        self.state = State::Running;
        self.pre_pause_state = None;
        self.time_left = self.duration;
        self.end_time = end_time;

        if let Some(tx) = &self.sender {
            ext::send_stop(tx);
        }

        self.sender = None;
        proof {
            assert(self@ =~= restart_step(old(self)@, now as int));
        }
    }

    /// Stores the stop handle of an alarm playback task that was just
    /// started.
    pub fn set_sender(&mut self, tx: std::sync::mpsc::Sender<()>)
        ensures
            final(self)@ == (AppV { sender_active: true, ..old(self)@ }),
    {
        self.sender = Some(tx);
        proof {
            assert(self@ =~= (AppV { sender_active: true, ..old(self)@ }));
        }
    }

    /// The textual content of a frame: the signed clock face and the
    /// phase-dependent status line.
    pub fn render(&self) -> (r: FrameText)
        ensures
            r.time_text@ == spec_time_text(self@),
            r.status_text@ == spec_status_text(self@),
    {
        let abs: u64 = if self.time_left < 0 {
            (-(self.time_left as i128)) as u64
        } else {
            self.time_left as u64
        };
        let total_sec: u64 = abs / 1000;
        let hours: u64 = total_sec / 3600;
        let minutes: u64 = (total_sec / 60) % 60;
        let seconds: u64 = total_sec % 60;
        proof {
            lemma_div_denominator(abs as int, 1000, 3600);
            lemma_div_denominator(abs as int, 1000, 60);
            assert(hours as nat == hours_of(self@.time_left));
            assert(minutes as nat == minutes_of(self@.time_left));
            assert(seconds as nat == seconds_of(self@.time_left));
        }

        let mut time_text = String::new();
        if self.state == State::Triggered {
            time_text.append("-");
            proof {
                reveal_strlit("-");
                assert(time_text@ =~= seq!['-']);
            }
        } else {
            time_text.append(" ");
            proof {
                reveal_strlit(" ");
                assert(time_text@ =~= seq![' ']);
            }
        }
        text::append_padded_dec(hours, &mut time_text);
        time_text.append(":");
        proof {
            reveal_strlit(":");
        }
        text::append_two_digits(minutes, &mut time_text);
        time_text.append(":");
        text::append_two_digits(seconds, &mut time_text);
        proof {
            assert(":"@ =~= seq![':']);
            assert(time_text@ =~= spec_time_text(self@));
        }

        let status_text: String = match self.state {
            State::Running => String::new(),
            State::Paused => "Paused".to_owned(),
            State::Restart => "Are you sure you want to restart the timer? (Press again to confirm, Esc/q to cancel)".to_owned(),
            State::Triggered => match &self.message {
                Some(m) => m.clone(),
                None => String::new(),
            },
        };

        FrameText { time_text, status_text }
    }
}

/// Law: a tick preserves the timer invariant.
pub proof fn lemma_tick_preserves_inv(a: AppV, now: int)
    requires
        a.wf(),
    ensures
        tick_step(a, now).0.wf(),
{
}

/// Law: a restart preserves the timer invariant.
pub proof fn lemma_restart_preserves_inv(a: AppV, now: int)
    requires
        a.wf(),
    ensures
        restart_step(a, now).wf(),
{
}

/// Law (expiry): a running timer whose deadline has passed triggers on the
/// next tick and requests alarm playback exactly then; once Triggered,
/// every further tick stays Triggered and requests nothing.
pub proof fn lemma_expiry(a: AppV, now: int, later: int)
    requires
        a.state == State::Running,
        now >= a.end_time,
    ensures
        tick_step(a, now).0.state == State::Triggered,
        tick_step(a, now).1 == true,
        tick_step(tick_step(a, now).0, later).0.state == State::Triggered,
        tick_step(tick_step(a, now).0, later).1 == false,
{
}

/// Law (no premature trigger): a running timer whose deadline is still
/// ahead stays Running and requests no alarm.
pub proof fn lemma_no_premature_trigger(a: AppV, now: int)
    requires
        a.state == State::Running,
        now < a.end_time,
    ensures
        tick_step(a, now).0.state == State::Running,
        tick_step(a, now).1 == false,
{
}

/// Law (display sign): the rendered clock begins with `'-'` exactly while
/// Triggered, and with a blank column otherwise.
pub proof fn lemma_time_text_sign(a: AppV)
    ensures
        spec_time_text(a).len() > 0,
        spec_time_text(a)[0] == (if a.state == State::Triggered { '-' } else { ' ' }),
{
}

} // verus!
