use encrypttui::input::{PasswordEcho, PasswordKey, PasswordState};

fn collected(state: &PasswordState) -> String {
    state.entered.iter().collect()
}

#[test]
fn characters_accumulate_and_echo_masks_within_the_budget() {
    let mut s = PasswordState::new();
    let (echo, done) = s.on_key(PasswordKey::Glyph('a'), 2);
    assert!(matches!(echo, PasswordEcho::Mask));
    assert!(!done);
    let (echo, _) = s.on_key(PasswordKey::Glyph('b'), 2);
    assert!(matches!(echo, PasswordEcho::Mask));
    let (echo, _) = s.on_key(PasswordKey::Glyph('c'), 2);
    assert!(matches!(echo, PasswordEcho::Silent));
    assert_eq!(collected(&s), "abc");
}

#[test]
fn zero_budget_accepts_but_never_echoes() {
    let mut s = PasswordState::new();
    let (echo, _) = s.on_key(PasswordKey::Glyph('x'), 0);
    assert!(matches!(echo, PasswordEcho::Silent));
    let (echo, _) = s.on_key(PasswordKey::Backspace, 0);
    assert!(matches!(echo, PasswordEcho::Silent));
    assert_eq!(collected(&s), "");
}

#[test]
fn backspace_erases_the_mask_only_if_one_was_shown() {
    let mut s = PasswordState::new();
    s.on_key(PasswordKey::Glyph('a'), 2);
    s.on_key(PasswordKey::Glyph('b'), 2);
    s.on_key(PasswordKey::Glyph('c'), 2);
    let (echo, _) = s.on_key(PasswordKey::Backspace, 2);
    assert!(matches!(echo, PasswordEcho::Silent));
    let (echo, _) = s.on_key(PasswordKey::Backspace, 2);
    assert!(matches!(echo, PasswordEcho::Erase));
    assert_eq!(collected(&s), "a");
}

#[test]
fn backspace_on_an_empty_session_changes_nothing() {
    let mut s = PasswordState::new();
    let (echo, done) = s.on_key(PasswordKey::Backspace, 5);
    assert!(matches!(echo, PasswordEcho::Silent));
    assert!(!done);
    assert_eq!(collected(&s), "");
}

#[test]
fn enter_finishes_only_a_non_empty_capture() {
    let mut s = PasswordState::new();
    let (_, done) = s.on_key(PasswordKey::Enter, 5);
    assert!(!done);
    s.on_key(PasswordKey::Glyph('p'), 5);
    let (_, done) = s.on_key(PasswordKey::Enter, 5);
    assert!(done);
    assert_eq!(collected(&s), "p");
}

#[test]
fn other_keys_are_ignored() {
    let mut s = PasswordState::new();
    let (echo, done) = s.on_key(PasswordKey::Other, 5);
    assert!(matches!(echo, PasswordEcho::Silent));
    assert!(!done);
    assert_eq!(collected(&s), "");
}
