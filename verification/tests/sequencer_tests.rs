use splash_sequencer::delay::{pick_delay_secs, DelayBounds};
use splash_sequencer::registry::{AttemptKind, Registry};
use splash_sequencer::sequencer::{
    complete_startup_transition, main_window_name, splash_window_name, StartupError,
};

fn registry_with(windows: &[(&str, bool)]) -> Registry {
    let mut reg = Registry::new();
    for (name, visible) in windows {
        let added = reg.add_window(name.to_string(), *visible);
        assert!(added);
    }
    reg
}

#[test]
fn transition_with_splash_and_main() {
    // Registry {"splashscreen": visible, "main": hidden}: the transition
    // succeeds, the splash window is gone, the main window is visible.
    let mut reg = registry_with(&[("splashscreen", true), ("main", false)]);
    let r = complete_startup_transition(&mut reg);
    assert_eq!(r, Ok(()));
    assert!(!reg.contains_window(&splash_window_name()));
    assert_eq!(reg.window_visible(&main_window_name()), Some(true));
}

#[test]
fn transition_without_splash() {
    // Registry {"main": hidden} only: the missing splash window raises no
    // error, and the main window still becomes visible.
    let mut reg = registry_with(&[("main", false)]);
    let r = complete_startup_transition(&mut reg);
    assert_eq!(r, Ok(()));
    assert_eq!(reg.window_visible(&main_window_name()), Some(true));
}

#[test]
fn transition_without_main_is_fatal() {
    // Registry {"splashscreen": visible} only: the transition reports the
    // fatal error, and the splash window has been closed first.
    let mut reg = registry_with(&[("splashscreen", true)]);
    let r = complete_startup_transition(&mut reg);
    assert_eq!(r, Err(StartupError::MainWindowMissing));
    assert!(!reg.contains_window(&splash_window_name()));
}

#[test]
fn exactly_one_close_then_one_show() {
    // Whatever the registry holds, one run makes exactly two attempts:
    // first a close of "splashscreen", then a show of "main".
    let mut reg = registry_with(&[("splashscreen", true), ("main", false)]);
    let _ = complete_startup_transition(&mut reg);
    assert_eq!(reg.attempt_count(), 2);
    assert_eq!(reg.attempt_at(0).kind, AttemptKind::Close);
    assert_eq!(reg.attempt_at(0).target, "splashscreen");
    assert_eq!(reg.attempt_at(1).kind, AttemptKind::Show);
    assert_eq!(reg.attempt_at(1).target, "main");
}

#[test]
fn attempts_are_made_even_against_an_empty_registry() {
    let mut reg = Registry::new();
    let r = complete_startup_transition(&mut reg);
    assert_eq!(r, Err(StartupError::MainWindowMissing));
    assert_eq!(reg.attempt_count(), 2);
    assert_eq!(reg.attempt_at(0).kind, AttemptKind::Close);
    assert_eq!(reg.attempt_at(1).kind, AttemptKind::Show);
}

#[test]
fn second_invocation_is_a_safe_no_op() {
    // After a successful transition, running the sequencer again does not
    // fail and leaves the windows as they were: no splash, main visible.
    let mut reg = registry_with(&[("splashscreen", true), ("main", false)]);
    assert_eq!(complete_startup_transition(&mut reg), Ok(()));
    assert_eq!(complete_startup_transition(&mut reg), Ok(()));
    assert!(!reg.contains_window(&splash_window_name()));
    assert_eq!(reg.window_visible(&main_window_name()), Some(true));
    // Each run still makes its two attempts.
    assert_eq!(reg.attempt_count(), 4);
}

#[test]
fn other_windows_are_untouched() {
    let mut reg = registry_with(&[
        ("splashscreen", true),
        ("main", false),
        ("settings", false),
        ("about", true),
    ]);
    let r = complete_startup_transition(&mut reg);
    assert_eq!(r, Ok(()));
    assert_eq!(reg.window_visible(&"settings".to_string()), Some(false));
    assert_eq!(reg.window_visible(&"about".to_string()), Some(true));
}

#[test]
fn shipped_delay_is_constant_one_second() {
    // The shipped bounds are [1, 2): the only producible delay is one
    // second, every time.
    let bounds = DelayBounds::shipped();
    assert_eq!(bounds.min_secs, 1);
    assert_eq!(bounds.max_secs, 2);
    for _ in 0..50 {
        assert_eq!(pick_delay_secs(&bounds), 1);
    }
}

#[test]
fn delay_bounds_are_reconfigurable() {
    // A wider range stays within its bounds.
    let bounds = DelayBounds::new(2, 5).unwrap();
    for _ in 0..100 {
        let d = pick_delay_secs(&bounds);
        assert!((2..5).contains(&d));
    }
}

#[test]
fn empty_delay_range_is_rejected() {
    assert!(DelayBounds::new(3, 3).is_none());
    assert!(DelayBounds::new(4, 2).is_none());
    assert!(DelayBounds::new(0, 1).is_some());
}

#[test]
fn duplicate_window_names_are_rejected() {
    let mut reg = Registry::new();
    assert!(reg.add_window("main".to_string(), false));
    assert!(!reg.add_window("main".to_string(), true));
    // The rejected registration changed nothing.
    assert_eq!(reg.window_visible(&"main".to_string()), Some(false));
}

#[test]
fn lookup_of_an_absent_window() {
    let reg = registry_with(&[("main", false)]);
    assert!(!reg.contains_window(&"splashscreen".to_string()));
    assert_eq!(reg.window_visible(&"splashscreen".to_string()), None);
}

#[test]
fn close_of_an_absent_window_is_silent() {
    let mut reg = registry_with(&[("main", false)]);
    let was_present = reg.close_window(&"splashscreen".to_string());
    assert!(!was_present);
    // The attempt is still recorded, and the registry is unchanged.
    assert_eq!(reg.attempt_count(), 1);
    assert_eq!(reg.attempt_at(0).kind, AttemptKind::Close);
    assert_eq!(reg.window_visible(&"main".to_string()), Some(false));
}

#[test]
fn show_of_an_absent_window_fails() {
    let mut reg = Registry::new();
    let was_present = reg.show_window(&"main".to_string());
    assert!(!was_present);
    assert_eq!(reg.attempt_count(), 1);
    assert_eq!(reg.attempt_at(0).kind, AttemptKind::Show);
}

#[test]
fn show_makes_a_hidden_window_visible() {
    let mut reg = registry_with(&[("main", false)]);
    assert!(reg.show_window(&"main".to_string()));
    assert_eq!(reg.window_visible(&"main".to_string()), Some(true));
    // Showing an already-visible window keeps it visible.
    assert!(reg.show_window(&"main".to_string()));
    assert_eq!(reg.window_visible(&"main".to_string()), Some(true));
}

#[test]
fn close_removes_exactly_the_named_window() {
    let mut reg = registry_with(&[("splashscreen", true), ("main", false)]);
    let was_present = reg.close_window(&"splashscreen".to_string());
    assert!(was_present);
    assert!(!reg.contains_window(&"splashscreen".to_string()));
    assert!(reg.contains_window(&"main".to_string()));
}
