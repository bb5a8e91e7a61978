use kbd_rgbd::command::Command;
use kbd_rgbd::daemon::{Action, Daemon, Event};
use kbd_rgbd::{Color, Frame};

fn frame(r: u8, ms: u64) -> Frame {
    Frame { color: Color { r, g: 0, b: 0 }, duration_ms: ms }
}

fn step(d: Daemon, e: Event) -> (Daemon, Action) {
    d.step(e)
}

fn playing(frames: Vec<Frame>) -> Daemon {
    let (d, a) = Daemon::new();
    assert!(matches!(a, Action::LoadActive));
    let (d, a) = step(d, Event::Loaded(Some(frames)));
    assert!(matches!(a, Action::ReadCommand));
    d
}

#[test]
fn frames_loop_with_their_durations() {
    let d = playing(vec![frame(1, 10), frame(2, 20)]);
    let (d, a) = step(d, Event::Command(None));
    assert!(matches!(a, Action::WriteFrame(Color { r: 1, .. })));
    let (d, a) = step(d, Event::Written(true));
    assert!(matches!(a, Action::Sleep(10)));
    let (d, a) = step(d, Event::Slept);
    assert!(matches!(a, Action::ReadCommand));
    let (d, a) = step(d, Event::Command(Some(Command::Unknown)));
    assert!(matches!(a, Action::WriteFrame(Color { r: 2, .. })));
    let (d, a) = step(d, Event::Written(true));
    assert!(matches!(a, Action::Sleep(20)));
    let (d, _) = step(d, Event::Slept);
    let (_, a) = step(d, Event::Command(None));
    assert!(matches!(a, Action::WriteFrame(Color { r: 1, .. })));
}

#[test]
fn startup_waits_and_retries() {
    let (d, _) = Daemon::new();
    let (mut d, a) = step(d, Event::Loaded(None));
    assert!(matches!(a, Action::ReadCommand));
    for _ in 0..4 {
        let (d2, a) = step(d, Event::Command(None));
        assert!(matches!(a, Action::Sleep(1000)));
        let (d3, a) = step(d2, Event::Slept);
        assert!(matches!(a, Action::ReadCommand));
        d = d3;
    }
    let (d, a) = step(d, Event::Command(Some(Command::Reload)));
    assert!(matches!(a, Action::Sleep(1000)));
    let (d, a) = step(d, Event::Slept);
    assert!(matches!(a, Action::LoadActive));
    let (_, a) = step(d, Event::Loaded(Some(vec![])));
    assert!(matches!(a, Action::ReadCommand));
}

#[test]
fn stop_while_waiting_exits() {
    let (d, _) = Daemon::new();
    let (d, _) = step(d, Event::Loaded(None));
    let (d, a) = step(d, Event::Command(Some(Command::Stop)));
    assert!(matches!(a, Action::Blank));
    let (_, a) = step(d, Event::Done);
    assert!(matches!(a, Action::Exit));
}

#[test]
fn stop_while_playing_blanks_then_exits() {
    let d = playing(vec![frame(1, 10)]);
    let (d, a) = step(d, Event::Command(Some(Command::Stop)));
    assert!(matches!(a, Action::Blank));
    let (_, a) = step(d, Event::Done);
    assert!(matches!(a, Action::Exit));
}

#[test]
fn profile_switch_replaces_frames() {
    let d = playing(vec![frame(1, 10), frame(2, 20)]);
    let (d, _) = step(d, Event::Command(None));
    let (d, _) = step(d, Event::Written(true));
    let (d, _) = step(d, Event::Slept);
    let (d, a) = step(d, Event::Command(Some(Command::SwitchProfile("ocean".to_string()))));
    match &a {
        Action::LoadProfile(name) => assert_eq!(name, "ocean"),
        other => panic!("unexpected {:?}", other),
    }
    let (d, a) = step(d, Event::Loaded(Some(vec![frame(9, 90)])));
    match &a {
        Action::LinkActive(name) => assert_eq!(name, "ocean"),
        other => panic!("unexpected {:?}", other),
    }
    let (d, a) = step(d, Event::Done);
    assert!(matches!(a, Action::WriteFrame(Color { r: 9, .. })));
    let (_, a) = step(d, Event::Written(true));
    assert!(matches!(a, Action::Sleep(90)));
}

#[test]
fn failed_switch_keeps_frames() {
    let d = playing(vec![frame(1, 10), frame(2, 20)]);
    let (d, _) = step(d, Event::Command(None));
    let (d, _) = step(d, Event::Written(true));
    let (d, _) = step(d, Event::Slept);
    let (d, _) = step(d, Event::Command(Some(Command::SwitchProfile("gone".to_string()))));
    let (_, a) = step(d, Event::Loaded(None));
    assert!(matches!(a, Action::WriteFrame(Color { r: 2, .. })));
}

#[test]
fn any_profile_name_is_loaded() {
    let d = playing(vec![frame(1, 10)]);
    let (d, a) = step(d, Event::Command(Some(Command::SwitchProfile("../foo".to_string()))));
    match &a {
        Action::LoadProfile(name) => assert_eq!(name, "../foo"),
        other => panic!("unexpected {:?}", other),
    }
    let (_, a) = step(d, Event::Loaded(None));
    assert!(matches!(a, Action::WriteFrame(Color { r: 1, .. })));
}

#[test]
fn brightness_command_then_frame() {
    let d = playing(vec![frame(3, 10)]);
    let (d, a) = step(d, Event::Command(Some(Command::BrightnessDown)));
    assert!(matches!(a, Action::AdjustBrightness(false)));
    let (_, a) = step(d, Event::Done);
    assert!(matches!(a, Action::WriteFrame(Color { r: 3, .. })));
}

#[test]
fn reload_restarts_from_first_frame() {
    let d = playing(vec![frame(1, 10), frame(2, 20)]);
    let (d, _) = step(d, Event::Command(None));
    let (d, _) = step(d, Event::Written(true));
    let (d, _) = step(d, Event::Slept);
    let (d, a) = step(d, Event::Command(Some(Command::Reload)));
    assert!(matches!(a, Action::LoadActive));
    let (_, a) = step(d, Event::Loaded(Some(vec![frame(5, 50), frame(6, 60)])));
    assert!(matches!(a, Action::WriteFrame(Color { r: 5, .. })));
}

#[test]
fn failed_writes_are_retried_then_profile_reloaded() {
    let d = playing(vec![frame(1, 10), frame(2, 20)]);
    let (d, _) = step(d, Event::Command(None));
    let (mut d, a) = step(d, Event::Written(false));
    assert!(matches!(a, Action::ReadCommand));
    for attempt in 0..5 {
        let (d2, a) = step(d, Event::Command(Some(Command::Reload)));
        assert!(matches!(a, Action::WriteFrame(Color { r: 1, .. })));
        let (d3, a) = step(d2, Event::Written(false));
        assert!(matches!(a, Action::Sleep(1000)));
        let (d4, a) = step(d3, Event::Slept);
        if attempt < 4 {
            assert!(matches!(a, Action::ReadCommand));
        } else {
            assert!(matches!(a, Action::LoadActive));
        }
        d = d4;
    }
    let (_, a) = step(d, Event::Loaded(None));
    assert!(matches!(a, Action::ReadCommand));
}

#[test]
fn retry_success_resumes_without_advancing() {
    let d = playing(vec![frame(1, 10), frame(2, 20)]);
    let (d, _) = step(d, Event::Command(None));
    let (d, _) = step(d, Event::Written(false));
    let (d, _) = step(d, Event::Command(None));
    let (d, a) = step(d, Event::Written(true));
    assert!(matches!(a, Action::ReadCommand));
    let (_, a) = step(d, Event::Command(None));
    assert!(matches!(a, Action::WriteFrame(Color { r: 1, .. })));
}

#[test]
fn switch_after_failed_write_links_when_loaded() {
    let d = playing(vec![frame(1, 10)]);
    let (d, _) = step(d, Event::Command(None));
    let (d, _) = step(d, Event::Written(false));
    let (d, _) = step(d, Event::Command(Some(Command::SwitchProfile("amber".to_string()))));
    let (d, a) = step(d, Event::Loaded(Some(vec![frame(7, 70)])));
    assert!(matches!(a, Action::LinkActive(_)));
    let (d, a) = step(d, Event::Done);
    assert!(matches!(a, Action::ReadCommand));
    let (_, a) = step(d, Event::Command(None));
    assert!(matches!(a, Action::WriteFrame(Color { r: 7, .. })));
}

#[test]
fn stop_while_recovering_blanks_then_exits() {
    let d = playing(vec![frame(1, 10)]);
    let (d, _) = step(d, Event::Command(None));
    let (d, _) = step(d, Event::Written(false));
    let (d, a) = step(d, Event::Command(Some(Command::Stop)));
    assert!(matches!(a, Action::Blank));
    let (_, a) = step(d, Event::Done);
    assert!(matches!(a, Action::Exit));
}

#[test]
fn frame_held_for_good_stays_current() {
    let d = playing(vec![frame(1, 10), frame(2, 0), frame(3, 30)]);
    let (d, _) = step(d, Event::Command(None));
    let (d, _) = step(d, Event::Written(true));
    let (d, _) = step(d, Event::Slept);
    let (mut d, a) = step(d, Event::Command(None));
    assert!(matches!(a, Action::WriteFrame(Color { r: 2, .. })));
    for _ in 0..3 {
        let (d2, a) = step(d, Event::Written(true));
        assert!(matches!(a, Action::Sleep(1000)));
        let (d3, _) = step(d2, Event::Slept);
        let (d4, a) = step(d3, Event::Command(None));
        assert!(matches!(a, Action::WriteFrame(Color { r: 2, .. })));
        d = d4;
    }
    let (d, _) = step(d, Event::Written(true));
    let (d, _) = step(d, Event::Slept);
    let (_, a) = step(d, Event::Command(Some(Command::Stop)));
    assert!(matches!(a, Action::Blank));
}

#[test]
fn switch_while_recovering_counts_as_recovered() {
    let d = playing(vec![frame(1, 10)]);
    let (d, _) = step(d, Event::Command(None));
    let (d, _) = step(d, Event::Written(false));
    let (d, a) = step(d, Event::Command(Some(Command::SwitchProfile("amber".to_string()))));
    assert!(matches!(a, Action::LoadProfile(_)));
    let (d, a) = step(d, Event::Loaded(None));
    assert!(matches!(a, Action::ReadCommand));
    let (_, a) = step(d, Event::Command(None));
    assert!(matches!(a, Action::WriteFrame(Color { r: 1, .. })));
}

#[test]
fn unexpected_events_repeat_the_pending_action() {
    let d = playing(vec![frame(4, 10)]);
    let (d, a) = step(d, Event::Slept);
    assert!(matches!(a, Action::ReadCommand));
    let (d, _) = step(d, Event::Command(None));
    let (_, a) = step(d, Event::Done);
    assert!(matches!(a, Action::WriteFrame(Color { r: 4, .. })));
}
