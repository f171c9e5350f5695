use gsftp::draw::{TextStyle, UiWindow};
use gsftp::events::{decode_key, Command, KeyInput, LoopState, TICKS_PER_REFRESH};

#[test]
fn plain_keys_decode_to_their_commands() {
    assert_eq!(decode_key(KeyInput::Char('q'), false), Command::Quit);
    assert_eq!(decode_key(KeyInput::Esc, false), Command::Quit);
    assert_eq!(decode_key(KeyInput::Char('?'), false), Command::ToggleHelp);
    assert_eq!(decode_key(KeyInput::Char('a'), false), Command::ToggleHidden);
    assert_eq!(decode_key(KeyInput::Char('j'), false), Command::MoveDown);
    assert_eq!(decode_key(KeyInput::Down, false), Command::MoveDown);
    assert_eq!(decode_key(KeyInput::Char('k'), false), Command::MoveUp);
    assert_eq!(decode_key(KeyInput::Up, false), Command::MoveUp);
    assert_eq!(decode_key(KeyInput::Char('g'), false), Command::JumpTop);
    assert_eq!(decode_key(KeyInput::Char('t'), false), Command::JumpTop);
    assert_eq!(decode_key(KeyInput::Char('b'), false), Command::JumpBottom);
    assert_eq!(decode_key(KeyInput::Tab, false), Command::SwitchPane);
    assert_eq!(decode_key(KeyInput::Char('w'), false), Command::SwitchPane);
    assert_eq!(decode_key(KeyInput::Char('l'), false), Command::EnterDir);
    assert_eq!(decode_key(KeyInput::Right, false), Command::EnterDir);
    assert_eq!(decode_key(KeyInput::Char('h'), false), Command::ExitDir);
    assert_eq!(decode_key(KeyInput::Left, false), Command::ExitDir);
    assert_eq!(decode_key(KeyInput::Enter, false), Command::Transfer);
    assert_eq!(decode_key(KeyInput::Char('y'), false), Command::Transfer);
    assert_eq!(decode_key(KeyInput::Char('z'), false), Command::Ignore);
    assert_eq!(decode_key(KeyInput::Other, false), Command::Ignore);
}

#[test]
fn control_keys_decode_to_their_commands() {
    assert_eq!(decode_key(KeyInput::Char('c'), true), Command::Quit);
    assert_eq!(decode_key(KeyInput::Char('w'), true), Command::SwitchPane);
    assert_eq!(decode_key(KeyInput::Up, true), Command::JumpTop);
    assert_eq!(decode_key(KeyInput::Down, true), Command::JumpBottom);
    assert_eq!(decode_key(KeyInput::Char('q'), true), Command::Ignore);
    assert_eq!(decode_key(KeyInput::Enter, true), Command::Ignore);
}

#[test]
fn a_refresh_is_due_once_per_full_round_of_ticks() {
    let mut state = LoopState::new();
    for _ in 0..(TICKS_PER_REFRESH - 1) {
        assert!(!state.on_tick());
    }
    assert!(state.on_tick());
    assert_eq!(state.ticks_elapsed, 0);
    assert!(!state.on_tick());
}

#[test]
fn completions_surface_only_error_text() {
    let mut state = LoopState::new();
    state.on_transfer_started();
    state.on_transfer_started();
    assert_eq!(state.on_completion(String::new()), None);
    let err = state.on_completion("Transfer error: no route".to_string());
    assert_eq!(err, Some("Transfer error: no route".to_string()));
    assert_eq!(state.completed_transfers, 2);
}

#[test]
fn idle_means_keys_pressed_and_no_outstanding_transfer() {
    let mut state = LoopState::new();
    assert!(!state.idle());
    state.on_key();
    assert!(state.idle());
    state.on_transfer_started();
    assert!(!state.idle());
    state.on_completion(String::new());
    assert!(state.idle());
}

#[test]
fn the_notice_window_tracks_text_and_style() {
    let mut window = UiWindow::default();
    assert_eq!(window.text.as_deref(), Some("Press '?' to toggle help"));
    assert_eq!(window.style, Some(TextStyle::Standard));

    window.flashing_text("Uploading...");
    assert_eq!(window.text.as_deref(), Some("Uploading..."));
    assert_eq!(window.style, Some(TextStyle::Flash));

    window.error_message("Transfer error: refused");
    assert_eq!(window.text.as_deref(), Some("Transfer error: refused"));
    assert_eq!(window.style, Some(TextStyle::Error));

    window.reset();
    assert!(window.text.is_none());
    assert!(window.style.is_none());
}
