use keypress_player::controller::{start_playback, stop_playback, PlaybackError, PlaybackState};
use keypress_player::keys::{KeyInjection, ModifierKey, Platform};
use keypress_player::keystroke::{hold_millis, keystroke_plan, KeyAction, KeystrokeError, MIN_HOLD_MS};
use keypress_player::parser::KeyParseError;
use keypress_player::scheduler::{KeyEvent, Scheduler, Step};

fn ev(time_us: u64, key: &str, duration_ms: i64) -> KeyEvent {
    KeyEvent { time_us, key: key.to_string(), duration_ms }
}

#[test]
fn hold_has_a_floor_of_fifty_ms() {
    assert_eq!(MIN_HOLD_MS, 50);
    assert_eq!(hold_millis(0), 50);
    assert_eq!(hold_millis(-300), 50);
    assert_eq!(hold_millis(49), 50);
    assert_eq!(hold_millis(50), 50);
    assert_eq!(hold_millis(100), 100);
}

#[test]
fn plan_presses_in_order_and_releases_in_reverse() {
    let plan = keystroke_plan("ctrl+alt+x", 0, Platform::Other).unwrap();
    assert_eq!(
        plan,
        vec![
            KeyAction::PressModifier(ModifierKey::Control),
            KeyAction::PressModifier(ModifierKey::Alt),
            KeyAction::PressMain(KeyInjection::Unicode('x')),
            KeyAction::Hold(50),
            KeyAction::ReleaseMain(KeyInjection::Unicode('x')),
            KeyAction::ReleaseModifier(ModifierKey::Alt),
            KeyAction::ReleaseModifier(ModifierKey::Control),
        ]
    );
}

#[test]
fn plan_uses_key_codes_on_macos() {
    let plan = keystroke_plan("cmd+V", 120, Platform::MacOs).unwrap();
    assert_eq!(
        plan,
        vec![
            KeyAction::PressModifier(ModifierKey::Meta),
            KeyAction::PressMain(KeyInjection::RawCode(0x09)),
            KeyAction::Hold(120),
            KeyAction::ReleaseMain(KeyInjection::RawCode(0x09)),
            KeyAction::ReleaseModifier(ModifierKey::Meta),
        ]
    );
}

#[test]
fn unknown_modifier_plans_nothing() {
    match keystroke_plan("foo+a", 100, Platform::MacOs) {
        Err(KeystrokeError::Parse(KeyParseError::UnknownModifier(t))) => assert_eq!(t, "foo"),
        other => panic!("unexpected {other:?}"),
    }
}

#[test]
fn invalid_main_key_plans_nothing() {
    match keystroke_plan("shift+tab", 100, Platform::Other) {
        Err(KeystrokeError::Parse(KeyParseError::InvalidMainKey(t))) => assert_eq!(t, "tab"),
        other => panic!("unexpected {other:?}"),
    }
}

#[test]
fn unsupported_character_on_macos() {
    match keystroke_plan("shift+!", 100, Platform::MacOs) {
        Err(KeystrokeError::UnsupportedCharacter(c)) => assert_eq!(c, '!'),
        other => panic!("unexpected {other:?}"),
    }
    assert!(keystroke_plan("shift+!", 100, Platform::Other).is_ok());
}

#[test]
fn scheduler_waits_until_each_offset() {
    let mut s = Scheduler::new(vec![ev(0, "a", 10), ev(500_000, "b", 10), ev(1_000_000, "c", 10)]);
    assert_eq!(s.step(false, 3), Step::Fire(0));
    assert_eq!(s.step(false, 60_000), Step::Wait(440_000));
    assert_eq!(s.step(false, 499_999), Step::Wait(1));
    assert_eq!(s.step(false, 500_002), Step::Fire(1));
    assert_eq!(s.step(false, 560_000), Step::Wait(440_000));
    assert_eq!(s.step(false, 1_000_100), Step::Fire(2));
    assert_eq!(s.event(2).key, "c");
    assert_eq!(s.step(false, 1_060_000), Step::Finish);
    assert!(s.is_done());
}

#[test]
fn scheduler_stops_on_cancellation() {
    let mut s = Scheduler::new(vec![ev(0, "a", 10), ev(2_000_000, "b", 10), ev(3_000_000, "c", 10)]);
    assert_eq!(s.step(false, 0), Step::Fire(0));
    assert_eq!(s.step(false, 100_000), Step::Wait(1_900_000));
    assert_eq!(s.step(true, 2_000_000), Step::Finish);
    assert_eq!(s.step(false, 2_000_000), Step::Finish);
    assert_eq!(s.step(false, 3_000_000), Step::Finish);
    assert_eq!(s.next_index(), 1);
}

#[test]
fn scheduler_keeps_out_of_order_events_in_sequence() {
    let mut s = Scheduler::new(vec![ev(500, "a", 10), ev(100, "b", 10)]);
    assert_eq!(s.len(), 2);
    assert_eq!(s.step(false, 600), Step::Fire(0));
    assert_eq!(s.step(false, 600), Step::Fire(1));
    assert_eq!(s.step(false, 600), Step::Finish);
}

#[test]
fn empty_run_finishes_at_once() {
    let mut s = Scheduler::new(vec![]);
    assert_eq!(s.step(false, 0), Step::Finish);
}

#[test]
fn second_start_is_refused() {
    let mut st: PlaybackState<u64> = PlaybackState::new();
    assert_eq!(start_playback(&mut st, |run| run * 10), Ok(1));
    assert!(st.is_active());
    let mut spawned_again = false;
    let r = start_playback(&mut st, |run| {
        spawned_again = true;
        run
    });
    assert_eq!(r, Err(PlaybackError::AlreadyInProgress));
    assert!(!spawned_again);
    assert!(st.is_active());
    assert!(!st.is_cancelled(1));
    assert_eq!(stop_playback(&mut st), Some(10));
}

#[test]
fn stop_twice_is_harmless() {
    let mut st: PlaybackState<u64> = PlaybackState::new();
    assert_eq!(stop_playback(&mut st), None);
    assert_eq!(stop_playback(&mut st), None);
    assert!(!st.is_active());
    assert_eq!(start_playback(&mut st, |run| run), Ok(1));
    assert_eq!(stop_playback(&mut st), Some(1));
    assert!(st.is_cancelled(1));
    assert_eq!(stop_playback(&mut st), None);
    assert!(!st.is_active());
}

#[test]
fn finished_run_frees_the_state() {
    let mut st: PlaybackState<u64> = PlaybackState::new();
    let run = start_playback(&mut st, |run| run).unwrap();
    st.finish_run(run);
    assert!(!st.is_active());
    assert_eq!(start_playback(&mut st, |run| run), Ok(2));
}

#[test]
fn stale_run_leaves_newer_run_alone() {
    let mut st: PlaybackState<u64> = PlaybackState::new();
    let first = start_playback(&mut st, |run| run).unwrap();
    assert_eq!(stop_playback(&mut st), Some(first));
    let second = start_playback(&mut st, |run| run).unwrap();
    assert!(st.is_cancelled(first));
    assert!(!st.is_cancelled(second));
    st.finish_run(first);
    assert!(st.is_active());
    st.finish_run(second);
    assert!(!st.is_active());
}

#[test]
fn two_events_end_to_end() {
    let mut st: PlaybackState<u64> = PlaybackState::new();
    let run = start_playback(&mut st, |run| run).unwrap();
    let mut s = Scheduler::new(vec![ev(0, "a", 100), ev(200_000, "shift+b", 100)]);
    let mut performed: Vec<KeyAction> = Vec::new();
    let mut clock: u64 = 0;
    loop {
        match s.step(st.is_cancelled(run), clock) {
            Step::Wait(us) => clock += us,
            Step::Fire(i) => {
                let e = s.event(i);
                let plan = keystroke_plan(&e.key, e.duration_ms, Platform::MacOs).unwrap();
                for a in &plan {
                    if let KeyAction::Hold(ms) = a {
                        clock += ms * 1000;
                    }
                }
                performed.extend(plan);
            }
            Step::Finish => break,
        }
    }
    st.finish_run(run);
    assert_eq!(
        performed,
        vec![
            KeyAction::PressMain(KeyInjection::RawCode(0x00)),
            KeyAction::Hold(100),
            KeyAction::ReleaseMain(KeyInjection::RawCode(0x00)),
            KeyAction::PressModifier(ModifierKey::Shift),
            KeyAction::PressMain(KeyInjection::RawCode(0x0B)),
            KeyAction::Hold(100),
            KeyAction::ReleaseMain(KeyInjection::RawCode(0x0B)),
            KeyAction::ReleaseModifier(ModifierKey::Shift),
        ]
    );
    assert_eq!(clock, 300_000);
    assert!(!st.is_active());
}
