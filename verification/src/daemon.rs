use vstd::prelude::*;

use crate::command::Command;
use crate::animation::HOLD_FOREVER_MS;
use crate::types::{Color, Frame};

verus! {

/// How many seconds start-up waits between two attempts to load the active profile.
pub const STARTUP_RETRY_SECONDS: u8 = 5;

/// How many times a failed frame write is retried before the active profile is reloaded.
pub const WRITE_ATTEMPTS: u8 = 5;

/// The pause between two retries, in milliseconds.
pub const RETRY_PAUSE_MS: u64 = 1000;

/// How often, in milliseconds, the command file is read while a frame is held for good.
pub const HOLD_POLL_MS: u64 = 1000;

/// Where the daemon stands in its cycle.
#[derive(Debug, Clone)]
pub enum Phase {
    /// Loading the active profile at start-up.
    Boot,
    /// Start-up found no usable profile: checking for `stop`, `seconds_left` seconds before the next attempt.
    Waiting { seconds_left: u8 },
    /// Start-up found no usable profile: pausing one second.
    WaitingPause { seconds_left: u8 },
    /// About to read the command file.
    Idle,
    /// Reloading the active profile on a `reload` command.
    Reloading,
    /// Loading the named profile on a `profile` command.
    Switching(String),
    /// Writing the current frame to the LED.
    Showing,
    /// Holding the frame just written for its duration.
    Holding(u64),
    /// A frame write failed: checking for commands before attempt `attempt + 1` of the retries.
    Recovering { attempt: u8 },
    /// Writing the current frame again.
    Retrying { attempt: u8 },
    /// Pausing one second after a failed retry.
    Pausing { attempt: u8 },
    /// Loading the named profile after a failed write.
    RecoverSwitching(String),
    /// Reloading the active profile after all retries failed.
    RecoverReloading,
    /// Finished.
    Stopped,
}

/// What the world reports to the daemon.
#[derive(Debug)]
pub enum Event {
    /// The command file was read: the command found there, if any.
    Command(Option<Command>),
    /// A profile was loaded: its frames, or none when loading failed.
    Loaded(Option<Vec<Frame>>),
    /// A color was written to the LED: whether the write succeeded.
    Written(bool),
    /// The requested pause is over.
    Slept,
    /// An action without a result was carried out.
    Done,
}

/// What the daemon asks the world to do next.
#[derive(Debug, Clone)]
pub enum Action {
    /// Load the profile that the active-profile link points to, and report `Loaded`.
    LoadActive,
    /// Load the named profile selector, and report `Loaded`.
    LoadProfile(String),
    /// Point the active-profile link to the named profile selector, and report `Done`.
    LinkActive(String),
    /// Read (and empty) the command file, and report `Command`.
    ReadCommand,
    /// Write the color to the LED, and report `Written`.
    WriteFrame(Color),
    /// Pause for the given milliseconds, and report `Slept`.
    Sleep(u64),
    /// Raise (`true`) or lower the LED brightness by one step, and report `Done`.
    AdjustBrightness(bool),
    /// Switch the LED off (write black), and report `Done`.
    Blank,
    /// Stop.
    Exit,
}

/// The abstract state of the daemon.
#[verifier::ext_equal]
pub struct DaemonView {
    pub frames: Seq<Frame>,
    pub idx: int,
    pub phase: Phase,
}

/// The daemon's decision state: the frames of the active profile, the frame shown
/// next, and the phase of its cycle.
pub struct Daemon {
    frames: Vec<Frame>,
    idx: usize,
    phase: Phase,
}

/// Whether the phase is one of the start-up phases, before any profile is loaded.
pub open spec fn starting(p: Phase) -> bool {
    p is Boot || p is Waiting || p is WaitingPause
}

/// The state invariant: once a profile is loaded there are frames and the current
/// frame is one of them; counters stay in their ranges.
pub open spec fn valid(v: DaemonView) -> bool {
    &&& (!starting(v.phase) && !(v.phase is Stopped)) ==> (v.frames.len() > 0 && 0 <= v.idx
        < v.frames.len())
    &&& match v.phase {
        Phase::Waiting { seconds_left } => 1 <= seconds_left <= STARTUP_RETRY_SECONDS,
        Phase::WaitingPause { seconds_left } => 1 <= seconds_left <= STARTUP_RETRY_SECONDS,
        Phase::Recovering { attempt } => attempt < WRITE_ATTEMPTS,
        Phase::Retrying { attempt } => attempt < WRITE_ATTEMPTS,
        Phase::Pausing { attempt } => attempt < WRITE_ATTEMPTS,
        _ => true,
    }
}

/// The color of the current frame.
pub open spec fn current_color(v: DaemonView) -> Color {
    v.frames[v.idx].color
}

/// The action that a phase waits on.
pub open spec fn pending(v: DaemonView) -> Action {
    match v.phase {
        Phase::Boot => Action::LoadActive,
        Phase::Waiting { .. } => Action::ReadCommand,
        Phase::WaitingPause { .. } => Action::Sleep(RETRY_PAUSE_MS),
        Phase::Idle => Action::ReadCommand,
        Phase::Reloading => Action::LoadActive,
        Phase::Switching(name) => Action::LoadProfile(name),
        Phase::Showing => Action::WriteFrame(current_color(v)),
        Phase::Holding(ms) => Action::Sleep(ms),
        Phase::Recovering { .. } => Action::ReadCommand,
        Phase::Retrying { .. } => Action::WriteFrame(current_color(v)),
        Phase::Pausing { .. } => Action::Sleep(RETRY_PAUSE_MS),
        Phase::RecoverSwitching(name) => Action::LoadProfile(name),
        Phase::RecoverReloading => Action::LoadActive,
        Phase::Stopped => Action::Exit,
    }
}

/// The state with phase `p`.
pub open spec fn with_phase(v: DaemonView, p: Phase) -> DaemonView {
    DaemonView { frames: v.frames, idx: v.idx, phase: p }
}

/// Whether a load gave frames.
pub open spec fn loads(loaded: Option<Vec<Frame>>) -> bool {
    loaded matches Some(f) && f@.len() > 0
}

/// The state after a load: the loaded frames from their first one when the load
/// gave frames, the old state otherwise; then phase `p`.
pub open spec fn after_load(v: DaemonView, loaded: Option<Vec<Frame>>, p: Phase) -> DaemonView {
    match loaded {
        Some(f) => if f@.len() > 0 {
            DaemonView { frames: f@, idx: 0, phase: p }
        } else {
            with_phase(v, p)
        },
        None => with_phase(v, p),
    }
}

/// The decision the daemon takes in state `v` on event `e`: the next state and
/// the next action. An event that the phase does not wait for changes nothing and
/// repeats the pending action.
pub open spec fn transition(v: DaemonView, e: Event) -> (DaemonView, Action) {
    match v.phase {
        Phase::Boot => match e {
            Event::Loaded(loaded) => match loaded {
                Some(f) => if f@.len() > 0 {
                    (DaemonView { frames: f@, idx: 0, phase: Phase::Idle }, Action::ReadCommand)
                } else {
                    (
                        with_phase(v, Phase::Waiting { seconds_left: STARTUP_RETRY_SECONDS }),
                        Action::ReadCommand,
                    )
                },
                None => (
                    with_phase(v, Phase::Waiting { seconds_left: STARTUP_RETRY_SECONDS }),
                    Action::ReadCommand,
                ),
            },
            _ => (v, pending(v)),
        },
        Phase::Waiting { seconds_left } => match e {
            Event::Command(Some(Command::Stop)) => (with_phase(v, Phase::Stopped), Action::Blank),
            Event::Command(_) => (
                with_phase(v, Phase::WaitingPause { seconds_left }),
                Action::Sleep(RETRY_PAUSE_MS),
            ),
            _ => (v, pending(v)),
        },
        Phase::WaitingPause { seconds_left } => match e {
            Event::Slept => if seconds_left <= 1 {
                (with_phase(v, Phase::Boot), Action::LoadActive)
            } else {
                (
                    with_phase(v, Phase::Waiting { seconds_left: (seconds_left - 1) as u8 }),
                    Action::ReadCommand,
                )
            },
            _ => (v, pending(v)),
        },
        Phase::Idle => match e {
            Event::Command(c) => match c {
                Some(Command::Stop) => (with_phase(v, Phase::Stopped), Action::Blank),
                Some(Command::Reload) => (with_phase(v, Phase::Reloading), Action::LoadActive),
                Some(Command::SwitchProfile(name)) => (
                    with_phase(v, Phase::Switching(name)),
                    Action::LoadProfile(name),
                ),
                Some(Command::BrightnessUp) => (
                    with_phase(v, Phase::Showing),
                    Action::AdjustBrightness(true),
                ),
                Some(Command::BrightnessDown) => (
                    with_phase(v, Phase::Showing),
                    Action::AdjustBrightness(false),
                ),
                _ => (with_phase(v, Phase::Showing), Action::WriteFrame(current_color(v))),
            },
            _ => (v, pending(v)),
        },
        Phase::Reloading => match e {
            Event::Loaded(loaded) => {
                let w = after_load(v, loaded, Phase::Showing);
                (w, Action::WriteFrame(current_color(w)))
            },
            _ => (v, pending(v)),
        },
        Phase::Switching(name) => match e {
            Event::Loaded(loaded) => if loads(loaded) {
                (after_load(v, loaded, Phase::Showing), Action::LinkActive(name))
            } else {
                (with_phase(v, Phase::Showing), Action::WriteFrame(current_color(v)))
            },
            _ => (v, pending(v)),
        },
        Phase::Showing => match e {
            Event::Written(ok) => if ok {
                let ms = v.frames[v.idx].duration_ms;
                if ms == HOLD_FOREVER_MS {
                    (with_phase(v, Phase::Holding(HOLD_POLL_MS)), Action::Sleep(HOLD_POLL_MS))
                } else {
                    (
                        DaemonView {
                            frames: v.frames,
                            idx: (v.idx + 1) % (v.frames.len() as int),
                            phase: Phase::Holding(ms),
                        },
                        Action::Sleep(ms),
                    )
                }
            } else {
                (with_phase(v, Phase::Recovering { attempt: 0 }), Action::ReadCommand)
            },
            _ => (v, pending(v)),
        },
        Phase::Holding(_) => match e {
            Event::Slept => (with_phase(v, Phase::Idle), Action::ReadCommand),
            _ => (v, pending(v)),
        },
        Phase::Recovering { attempt } => match e {
            Event::Command(c) => match c {
                Some(Command::Stop) => (with_phase(v, Phase::Stopped), Action::Blank),
                Some(Command::SwitchProfile(name)) => (
                    with_phase(v, Phase::RecoverSwitching(name)),
                    Action::LoadProfile(name),
                ),
                _ => (
                    with_phase(v, Phase::Retrying { attempt }),
                    Action::WriteFrame(current_color(v)),
                ),
            },
            _ => (v, pending(v)),
        },
        Phase::Retrying { attempt } => match e {
            Event::Written(ok) => if ok {
                (with_phase(v, Phase::Idle), Action::ReadCommand)
            } else {
                (with_phase(v, Phase::Pausing { attempt }), Action::Sleep(RETRY_PAUSE_MS))
            },
            _ => (v, pending(v)),
        },
        Phase::Pausing { attempt } => match e {
            Event::Slept => if attempt + 1 >= WRITE_ATTEMPTS {
                (with_phase(v, Phase::RecoverReloading), Action::LoadActive)
            } else {
                (
                    with_phase(v, Phase::Recovering { attempt: (attempt + 1) as u8 }),
                    Action::ReadCommand,
                )
            },
            _ => (v, pending(v)),
        },
        Phase::RecoverSwitching(name) => match e {
            Event::Loaded(loaded) => if loads(loaded) {
                (after_load(v, loaded, Phase::Idle), Action::LinkActive(name))
            } else {
                (with_phase(v, Phase::Idle), Action::ReadCommand)
            },
            _ => (v, pending(v)),
        },
        Phase::RecoverReloading => match e {
            Event::Loaded(loaded) => (after_load(v, loaded, Phase::Idle), Action::ReadCommand),
            _ => (v, pending(v)),
        },
        Phase::Stopped => (v, Action::Exit),
    }
}

impl View for Daemon {
    type V = DaemonView;

    closed spec fn view(&self) -> DaemonView {
        DaemonView { frames: self.frames@, idx: self.idx as int, phase: self.phase }
    }
}

impl Daemon {
    #[verifier::type_invariant]
    spec fn well_formed(&self) -> bool {
        valid(self@)
    }

    /// A daemon at start-up, with the action it begins with.
    pub fn new() -> (res: (Daemon, Action))
        ensures
            valid(res.0@),
            res.0@ == (DaemonView { frames: Seq::empty(), idx: 0, phase: Phase::Boot }),
            res.1 == Action::LoadActive,
    {
        let d = Daemon { frames: Vec::new(), idx: 0, phase: Phase::Boot };
        assert(d@ =~= (DaemonView { frames: Seq::empty(), idx: 0, phase: Phase::Boot }));
        (d, Action::LoadActive)
    }

    /// Decides the next state and action on an event. Every state a daemon is in
    /// satisfies [`valid`].
    pub fn step(self, event: Event) -> (res: (Daemon, Action))
        ensures
            valid(self@),
            valid(res.0@),
            res.0@ == transition(self@, event).0,
            res.1 == transition(self@, event).1,
    {
        proof {
            use_type_invariant(&self);
        }
        let res = self.decide(event);
        proof {
            use_type_invariant(&res.0);
        }
        res
    }

    /// The decision of [`Daemon::step`], as [`transition`] states it.
    fn decide(self, event: Event) -> (res: (Daemon, Action))
        ensures
            res.0@ == transition(self@, event).0,
            res.1 == transition(self@, event).1,
    {
        proof {
            use_type_invariant(&self);
        }
        let Daemon { frames, idx, phase } = self;
        match phase {
            Phase::Boot => match event {
                Event::Loaded(Some(f)) => {
                    if f.len() > 0 {
                        let d = Daemon { frames: f, idx: 0, phase: Phase::Idle };
                        (d, Action::ReadCommand)
                    } else {
                        let d = Daemon { frames, idx, phase: Phase::Waiting { seconds_left: STARTUP_RETRY_SECONDS } };
                        (d, Action::ReadCommand)
                    }
                },
                Event::Loaded(None) => {
                    let d = Daemon { frames, idx, phase: Phase::Waiting { seconds_left: STARTUP_RETRY_SECONDS } };
                    (d, Action::ReadCommand)
                },
                _ => (Daemon { frames, idx, phase: Phase::Boot }, Action::LoadActive),
            },
            Phase::Waiting { seconds_left } => match event {
                Event::Command(Some(Command::Stop)) => (Daemon { frames, idx, phase: Phase::Stopped }, Action::Blank),
                Event::Command(_) => (
                    Daemon { frames, idx, phase: Phase::WaitingPause { seconds_left } },
                    Action::Sleep(RETRY_PAUSE_MS),
                ),
                _ => (Daemon { frames, idx, phase: Phase::Waiting { seconds_left } }, Action::ReadCommand),
            },
            Phase::WaitingPause { seconds_left } => match event {
                Event::Slept => if seconds_left <= 1 {
                    (Daemon { frames, idx, phase: Phase::Boot }, Action::LoadActive)
                } else {
                    (
                        Daemon { frames, idx, phase: Phase::Waiting { seconds_left: seconds_left - 1 } },
                        Action::ReadCommand,
                    )
                },
                _ => (
                    Daemon { frames, idx, phase: Phase::WaitingPause { seconds_left } },
                    Action::Sleep(RETRY_PAUSE_MS),
                ),
            },
            Phase::Idle => match event {
                Event::Command(c) => match c {
                    Some(Command::Stop) => (Daemon { frames, idx, phase: Phase::Stopped }, Action::Blank),
                    Some(Command::Reload) => (Daemon { frames, idx, phase: Phase::Reloading }, Action::LoadActive),
                    Some(Command::SwitchProfile(name)) => {
                        let copy = name.clone();
                        (Daemon { frames, idx, phase: Phase::Switching(name) }, Action::LoadProfile(copy))
                    },
                    Some(Command::BrightnessUp) => (
                        Daemon { frames, idx, phase: Phase::Showing },
                        Action::AdjustBrightness(true),
                    ),
                    Some(Command::BrightnessDown) => (
                        Daemon { frames, idx, phase: Phase::Showing },
                        Action::AdjustBrightness(false),
                    ),
                    _ => {
                        let color = frames[idx].color;
                        (Daemon { frames, idx, phase: Phase::Showing }, Action::WriteFrame(color))
                    },
                },
                _ => (Daemon { frames, idx, phase: Phase::Idle }, Action::ReadCommand),
            },
            Phase::Reloading => match event {
                Event::Loaded(loaded) => Self::shown_after_load(frames, idx, loaded),
                _ => (Daemon { frames, idx, phase: Phase::Reloading }, Action::LoadActive),
            },
            Phase::Switching(name) => match event {
                Event::Loaded(loaded) => if Self::gave_frames(&loaded) {
                    let (f, i) = Self::pick_frames(frames, idx, loaded);
                    (Daemon { frames: f, idx: i, phase: Phase::Showing }, Action::LinkActive(name))
                } else {
                    let color = frames[idx].color;
                    (Daemon { frames, idx, phase: Phase::Showing }, Action::WriteFrame(color))
                },
                _ => {
                    let copy = name.clone();
                    (Daemon { frames, idx, phase: Phase::Switching(name) }, Action::LoadProfile(copy))
                },
            },
            Phase::Showing => match event {
                Event::Written(ok) => if ok {
                    let ms = frames[idx].duration_ms;
                    if ms == HOLD_FOREVER_MS {
                        return (
                            Daemon { frames, idx, phase: Phase::Holding(HOLD_POLL_MS) },
                            Action::Sleep(HOLD_POLL_MS),
                        );
                    }
                    let next = if idx < frames.len() - 1 { idx + 1 } else { 0 };
                    proof {
                        let n = frames@.len();
                        if idx + 1 < n {
                            vstd::arithmetic::div_mod::lemma_small_mod((idx + 1) as nat, n);
                        } else {
                            vstd::arithmetic::div_mod::lemma_mod_self_0(n as int);
                        }
                    }
                    (Daemon { frames, idx: next, phase: Phase::Holding(ms) }, Action::Sleep(ms))
                } else {
                    (Daemon { frames, idx, phase: Phase::Recovering { attempt: 0 } }, Action::ReadCommand)
                },
                _ => {
                    let color = frames[idx].color;
                    (Daemon { frames, idx, phase: Phase::Showing }, Action::WriteFrame(color))
                },
            },
            Phase::Holding(ms) => match event {
                Event::Slept => (Daemon { frames, idx, phase: Phase::Idle }, Action::ReadCommand),
                _ => (Daemon { frames, idx, phase: Phase::Holding(ms) }, Action::Sleep(ms)),
            },
            Phase::Recovering { attempt } => match event {
                Event::Command(c) => match c {
                    Some(Command::Stop) => (Daemon { frames, idx, phase: Phase::Stopped }, Action::Blank),
                    Some(Command::SwitchProfile(name)) => {
                        let copy = name.clone();
                        (
                            Daemon { frames, idx, phase: Phase::RecoverSwitching(name) },
                            Action::LoadProfile(copy),
                        )
                    },
                    _ => {
                        let color = frames[idx].color;
                        (Daemon { frames, idx, phase: Phase::Retrying { attempt } }, Action::WriteFrame(color))
                    },
                },
                _ => (Daemon { frames, idx, phase: Phase::Recovering { attempt } }, Action::ReadCommand),
            },
            Phase::Retrying { attempt } => match event {
                Event::Written(ok) => if ok {
                    (Daemon { frames, idx, phase: Phase::Idle }, Action::ReadCommand)
                } else {
                    (Daemon { frames, idx, phase: Phase::Pausing { attempt } }, Action::Sleep(RETRY_PAUSE_MS))
                },
                _ => {
                    let color = frames[idx].color;
                    (Daemon { frames, idx, phase: Phase::Retrying { attempt } }, Action::WriteFrame(color))
                },
            },
            Phase::Pausing { attempt } => match event {
                Event::Slept => if attempt + 1 >= WRITE_ATTEMPTS {
                    (Daemon { frames, idx, phase: Phase::RecoverReloading }, Action::LoadActive)
                } else {
                    (
                        Daemon { frames, idx, phase: Phase::Recovering { attempt: attempt + 1 } },
                        Action::ReadCommand,
                    )
                },
                _ => (Daemon { frames, idx, phase: Phase::Pausing { attempt } }, Action::Sleep(RETRY_PAUSE_MS)),
            },
            Phase::RecoverSwitching(name) => match event {
                Event::Loaded(loaded) => if Self::gave_frames(&loaded) {
                    let (f, i) = Self::pick_frames(frames, idx, loaded);
                    (Daemon { frames: f, idx: i, phase: Phase::Idle }, Action::LinkActive(name))
                } else {
                    (Daemon { frames, idx, phase: Phase::Idle }, Action::ReadCommand)
                },
                _ => {
                    let copy = name.clone();
                    (Daemon { frames, idx, phase: Phase::RecoverSwitching(name) }, Action::LoadProfile(copy))
                },
            },
            Phase::RecoverReloading => match event {
                Event::Loaded(loaded) => Self::idle_after_load(frames, idx, loaded),
                _ => (Daemon { frames, idx, phase: Phase::RecoverReloading }, Action::LoadActive),
            },
            Phase::Stopped => (Daemon { frames, idx, phase: Phase::Stopped }, Action::Exit),
        }
    }

    /// After a load while playing: the loaded frames (or the old ones), showing.
    fn shown_after_load(frames: Vec<Frame>, idx: usize, loaded: Option<Vec<Frame>>) -> (res: (
        Daemon,
        Action,
    ))
        requires
            frames@.len() > 0,
            idx < frames@.len(),
        ensures
            res.0@ == after_load(
                DaemonView { frames: frames@, idx: idx as int, phase: Phase::Showing },
                loaded,
                Phase::Showing,
            ),
            res.1 == Action::WriteFrame(current_color(res.0@)),
    {
        let (f, i) = Self::pick_frames(frames, idx, loaded);
        let color = f[i].color;
        (Daemon { frames: f, idx: i, phase: Phase::Showing }, Action::WriteFrame(color))
    }

    /// After a load while recovering: the loaded frames (or the old ones), idle.
    fn idle_after_load(frames: Vec<Frame>, idx: usize, loaded: Option<Vec<Frame>>) -> (res: (
        Daemon,
        Action,
    ))
        requires
            frames@.len() > 0,
            idx < frames@.len(),
        ensures
            res.0@ == after_load(
                DaemonView { frames: frames@, idx: idx as int, phase: Phase::Idle },
                loaded,
                Phase::Idle,
            ),
            res.1 == Action::ReadCommand,
    {
        let (f, i) = Self::pick_frames(frames, idx, loaded);
        (Daemon { frames: f, idx: i, phase: Phase::Idle }, Action::ReadCommand)
    }

    /// Decides [`loads`].
    fn gave_frames(loaded: &Option<Vec<Frame>>) -> (res: bool)
        ensures
            res == loads(*loaded),
    {
        match loaded {
            Some(f) => f.len() > 0,
            None => false,
        }
    }

    /// The loaded frames from the first one when there are any, else the old frames.
    fn pick_frames(frames: Vec<Frame>, idx: usize, loaded: Option<Vec<Frame>>) -> (res: (
        Vec<Frame>,
        usize,
    ))
        requires
            frames@.len() > 0,
            idx < frames@.len(),
        ensures
            res.0@.len() > 0,
            res.1 < res.0@.len(),
            match loaded {
                Some(f) => if f@.len() > 0 {
                    res.0@ == f@ && res.1 == 0
                } else {
                    res.0@ == frames@ && res.1 == idx
                },
                None => res.0@ == frames@ && res.1 == idx,
            },
    {
        match loaded {
            Some(f) => if f.len() > 0 {
                (f, 0)
            } else {
                (frames, idx)
            },
            None => (frames, idx),
        }
    }
}

/// Every decision keeps the state invariant: once a profile is loaded, the current
/// frame always exists.
pub proof fn lemma_transition_keeps_valid(v: DaemonView, e: Event)
    requires
        valid(v),
    ensures
        valid(transition(v, e).0),
{
    if v.phase is Showing {
        if let Event::Written(ok) = e {
            if ok {
                let n = v.frames.len() as int;
                assert(0 <= (v.idx + 1) % n < n) by {
                    vstd::arithmetic::div_mod::lemma_mod_bound(v.idx + 1, n);
                }
            }
        }
    }
}

/// A `stop` command is obeyed wherever the daemon reads commands: it switches the
/// LED off (writes black) and stops; once stopped it only exits.
pub proof fn lemma_stop_is_obeyed(v: DaemonView, e: Event)
    requires
        valid(v),
    ensures
        (v.phase is Waiting || v.phase is Idle || v.phase is Recovering) ==> transition(
            v,
            Event::Command(Some(Command::Stop)),
        ) == (with_phase(v, Phase::Stopped), Action::Blank),
        v.phase is Stopped ==> transition(v, e) == (v, Action::Exit),
{
}

/// Each frame written while playing moves on to the next frame, wrapping from the
/// last to the first, and is held for its own duration; a frame held for good
/// (duration 0) stays the current frame, and the command file is read again after
/// [`HOLD_POLL_MS`].
pub proof fn lemma_frames_play_in_a_loop(v: DaemonView)
    requires
        valid(v),
        v.phase is Showing,
    ensures
        transition(v, Event::Written(true)).0.frames == v.frames,
        v.frames[v.idx].duration_ms != HOLD_FOREVER_MS ==> {
            &&& transition(v, Event::Written(true)).0.idx == (if v.idx + 1 < v.frames.len() {
                v.idx + 1
            } else {
                0
            })
            &&& transition(v, Event::Written(true)).1 == Action::Sleep(v.frames[v.idx].duration_ms)
        },
        v.frames[v.idx].duration_ms == HOLD_FOREVER_MS ==> {
            &&& transition(v, Event::Written(true)).0.idx == v.idx
            &&& transition(v, Event::Written(true)).1 == Action::Sleep(HOLD_POLL_MS)
        },
{
    let n = v.frames.len() as int;
    if v.idx + 1 < n {
        vstd::arithmetic::div_mod::lemma_small_mod((v.idx + 1) as nat, n as nat);
    } else {
        vstd::arithmetic::div_mod::lemma_mod_self_0(n);
    }
}

/// A load that gives frames replaces the animation and restarts it from its first
/// frame; a load that fails leaves the animation as it was.
pub proof fn lemma_load_outcome(v: DaemonView, loaded: Option<Vec<Frame>>)
    requires
        valid(v),
        v.phase is Reloading || v.phase is Switching || v.phase is RecoverSwitching
            || v.phase is RecoverReloading || v.phase is Boot,
    ensures
        (loaded matches Some(f) && f@.len() > 0) ==> transition(v, Event::Loaded(loaded)).0.frames
            == loaded->0@ && transition(v, Event::Loaded(loaded)).0.idx == 0,
        !(loaded matches Some(f) && f@.len() > 0) ==> transition(
            v,
            Event::Loaded(loaded),
        ).0.frames == v.frames && transition(v, Event::Loaded(loaded)).0.idx == v.idx,
{
}

/// A `profile` command loads the profile it names, whatever the name, wherever
/// the daemon reads commands while playing.
pub proof fn lemma_switch_loads_named_profile(v: DaemonView, name: String)
    requires
        valid(v),
        v.phase is Idle || v.phase is Recovering,
    ensures
        transition(v, Event::Command(Some(Command::SwitchProfile(name)))).1 == Action::LoadProfile(
            name,
        ),
        transition(v, Event::Command(Some(Command::SwitchProfile(name)))).0.frames == v.frames,
{
}

/// After a failed write the frame is retried at most [`WRITE_ATTEMPTS`] times, one
/// pause apart; after the last failed attempt the active profile is reloaded.
pub proof fn lemma_recovery_is_bounded(v: DaemonView, attempt: u8)
    requires
        valid(v),
        v.phase == (Phase::Pausing { attempt }),
    ensures
        (attempt + 1 == WRITE_ATTEMPTS) ==> transition(v, Event::Slept) == (
            with_phase(v, Phase::RecoverReloading),
            Action::LoadActive,
        ),
        (attempt + 1 < WRITE_ATTEMPTS) ==> transition(v, Event::Slept) == (
            with_phase(v, Phase::Recovering { attempt: (attempt + 1) as u8 }),
            Action::ReadCommand,
        ),
{
}

/// Brightness commands leave the animation alone: the frames and the current frame
/// stay as they are, and the current frame is shown next.
pub proof fn lemma_brightness_leaves_animation(v: DaemonView, up: bool)
    requires
        valid(v),
        v.phase is Idle,
    ensures
        ({
            let cmd = if up { Command::BrightnessUp } else { Command::BrightnessDown };
            let (w, a) = transition(v, Event::Command(Some(cmd)));
            &&& w.frames == v.frames
            &&& w.idx == v.idx
            &&& a == Action::AdjustBrightness(up)
            &&& transition(w, Event::Done) == (w, Action::WriteFrame(current_color(v)))
        }),
{
}

/// The active-profile link is repointed only to a profile that has just loaded, and
/// only once its frames are the ones playing.
pub proof fn lemma_link_follows_successful_load(v: DaemonView, e: Event)
    requires
        valid(v),
    ensures
        transition(v, e).1 matches Action::LinkActive(name) ==> {
            &&& (v.phase == Phase::Switching(name) || v.phase == Phase::RecoverSwitching(name))
            &&& e matches Event::Loaded(loaded)
            &&& loads(loaded)
            &&& transition(v, e).0.frames == loaded->0@
            &&& transition(v, e).0.idx == 0
        },
{
}

/// A load that gives no frames never stops the daemon and never switches the LED off:
/// it keeps the frames and the current frame it had. In particular a failed `reload`
/// or `profile` command goes on showing the current frame, and a failed load after a
/// write error goes back to reading commands.
pub proof fn lemma_failed_load_keeps_playing(v: DaemonView, loaded: Option<Vec<Frame>>)
    requires
        valid(v),
        !loads(loaded),
        !(v.phase is Stopped),
    ensures
        !(transition(v, Event::Loaded(loaded)).0.phase is Stopped),
        transition(v, Event::Loaded(loaded)).1 != Action::Blank,
        transition(v, Event::Loaded(loaded)).1 != Action::Exit,
        transition(v, Event::Loaded(loaded)).0.frames == v.frames,
        transition(v, Event::Loaded(loaded)).0.idx == v.idx,
        (v.phase is Reloading || v.phase is Switching) ==> {
            &&& transition(v, Event::Loaded(loaded)).0.phase == Phase::Showing
            &&& transition(v, Event::Loaded(loaded)).1 == Action::WriteFrame(v.frames[v.idx].color)
        },
        (v.phase is RecoverReloading || v.phase is RecoverSwitching) ==> {
            &&& transition(v, Event::Loaded(loaded)).0.phase == Phase::Idle
            &&& transition(v, Event::Loaded(loaded)).1 == Action::ReadCommand
        },
{
}

} // verus!
