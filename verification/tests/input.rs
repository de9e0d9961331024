use git_redate::input::{map_in, Action, Context, KeyCode, KeyEvent, KeyModifiers};

fn key(code: KeyCode) -> KeyEvent {
    KeyEvent::new(code, KeyModifiers::none())
}
fn key_mod(code: KeyCode, m: KeyModifiers) -> KeyEvent {
    KeyEvent::new(code, m)
}

#[test]
fn navigation_keys() {
    assert_eq!(git_redate::input::map(key(KeyCode::Up), false), Action::PrevRow);
    assert_eq!(git_redate::input::map(key(KeyCode::Char('j')), false), Action::NextRow);
    assert_eq!(git_redate::input::map(key(KeyCode::Left), false), Action::PrevComponent);
    assert_eq!(git_redate::input::map(key(KeyCode::Char('l')), false), Action::NextComponent);
}

#[test]
fn increment_variants() {
    assert_eq!(git_redate::input::map(key(KeyCode::Char('+')), false), Action::Increment);
    assert_eq!(git_redate::input::map(key(KeyCode::Char('-')), false), Action::Decrement);
    assert_eq!(
        git_redate::input::map(key_mod(KeyCode::Up, KeyModifiers::shift()), false),
        Action::Increment
    );
    assert_eq!(
        git_redate::input::map(key_mod(KeyCode::Down, KeyModifiers::shift()), false),
        Action::Decrement
    );
}

#[test]
fn toggles_and_globals() {
    assert_eq!(git_redate::input::map(key(KeyCode::Tab), false), Action::ToggleExpand);
    assert_eq!(git_redate::input::map(key(KeyCode::Char('t')), false), Action::ToggleSubField);
    assert_eq!(git_redate::input::map(key(KeyCode::Char('s')), false), Action::ToggleMode);
    assert_eq!(git_redate::input::map(key(KeyCode::Char('=')), false), Action::Distribute);
    assert_eq!(git_redate::input::map(key(KeyCode::Char('w')), false), Action::Write);
    assert_eq!(git_redate::input::map(key(KeyCode::Char('q')), false), Action::Quit);
    assert_eq!(git_redate::input::map(key(KeyCode::Esc), false), Action::Quit);
}

#[test]
fn ctrl_c_quits() {
    assert_eq!(
        git_redate::input::map(key_mod(KeyCode::Char('c'), KeyModifiers::control()), false),
        Action::Quit
    );
}

#[test]
fn text_mode_feeds_the_buffer() {
    assert_eq!(git_redate::input::map(key(KeyCode::Char('2')), true), Action::Char('2'));
    assert_eq!(git_redate::input::map(key(KeyCode::Backspace), true), Action::Backspace);
    assert_eq!(git_redate::input::map(key(KeyCode::Enter), true), Action::CommitEdit);
    assert_eq!(git_redate::input::map(key(KeyCode::Esc), true), Action::CancelEdit);
}

#[test]
fn c_is_copy_only_outside_text_mode() {
    // Plain 'c' copies; Ctrl-C quits; in text mode 'c' is a char.
    assert_eq!(git_redate::input::map(key(KeyCode::Char('c')), false), Action::CopyPrevious);
    assert_eq!(git_redate::input::map(key(KeyCode::Char('c')), true), Action::Char('c'));
}

#[test]
fn unbound_keys_do_nothing() {
    assert_eq!(git_redate::input::map(key(KeyCode::Char('z')), false), Action::Unbound);
    assert_eq!(git_redate::input::map(key(KeyCode::Home), false), Action::Unbound);
    assert_eq!(git_redate::input::map(key(KeyCode::Tab), true), Action::Unbound);
    assert_eq!(git_redate::input::map(key(KeyCode::Char('d')), false), Action::ResetRow);
    assert_eq!(git_redate::input::map(key(KeyCode::Enter), false), Action::BeginEdit);
    assert_eq!(git_redate::input::map(key(KeyCode::Char('?')), false), Action::ToggleHelp);
}

#[test]
fn confirm_prompt_keys() {
    assert_eq!(map_in(key(KeyCode::Char('y')), Context::Confirm), Action::ConfirmYes);
    assert_eq!(map_in(key(KeyCode::Char('Y')), Context::Confirm), Action::ConfirmYes);
    assert_eq!(map_in(key(KeyCode::Char('n')), Context::Confirm), Action::ConfirmNo);
    assert_eq!(map_in(key(KeyCode::Esc), Context::Confirm), Action::ConfirmNo);
    assert_eq!(map_in(key(KeyCode::Char('q')), Context::Confirm), Action::Unbound);
    assert_eq!(map_in(key(KeyCode::Char('q')), Context::Navigate), Action::Quit);
    assert_eq!(map_in(key(KeyCode::Char('q')), Context::Editing), Action::Char('q'));
}

#[test]
fn ctrl_c_aborts_in_every_context() {
    let k = key_mod(KeyCode::Char('c'), KeyModifiers::control());
    assert_eq!(map_in(k, Context::Navigate), Action::QuitForce);
    assert_eq!(map_in(k, Context::Editing), Action::QuitForce);
    assert_eq!(map_in(k, Context::Confirm), Action::QuitForce);
}

#[test]
fn uppercase_w_and_q_force() {
    assert_eq!(map_in(key(KeyCode::Char('W')), Context::Navigate), Action::WriteForce);
    assert_eq!(map_in(key(KeyCode::Char('Q')), Context::Navigate), Action::QuitForce);
    assert_eq!(map_in(key(KeyCode::Char('W')), Context::Editing), Action::Char('W'));
    assert_eq!(map_in(key(KeyCode::Char('w')), Context::Navigate), Action::Write);
}
