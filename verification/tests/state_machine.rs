use podium_audio::AudioError;
use podium_audio::PlayerState;
use podium_audio::PlayerStateContainer;

#[test]
fn legal_cycle_is_accepted() {
    let mut c = PlayerStateContainer::new();
    assert_eq!(c.get_state(), PlayerState::Idle);
    assert!(c.try_transition(PlayerState::Loading).is_ok());
    assert!(c.try_transition(PlayerState::Ready).is_ok());
    assert!(c.try_transition(PlayerState::Playing).is_ok());
    assert!(c.try_transition(PlayerState::Paused).is_ok());
    assert!(c.try_transition(PlayerState::Playing).is_ok());
    assert!(c.try_transition(PlayerState::Stopped).is_ok());
    assert!(c.try_transition(PlayerState::Idle).is_ok());
    assert_eq!(c.get_state(), PlayerState::Idle);
}

#[test]
fn illegal_transition_fails_and_leaves_state_unchanged() {
    let mut c = PlayerStateContainer::new();
    let r = c.try_transition(PlayerState::Playing);
    assert!(matches!(r, Err(AudioError::InvalidState(_))));
    assert_eq!(c.get_state(), PlayerState::Idle);

    let r = c.try_transition(PlayerState::Paused);
    assert!(matches!(r, Err(AudioError::InvalidState(_))));
    assert_eq!(c.get_state(), PlayerState::Idle);
}

#[test]
fn error_state_is_sticky_until_a_fresh_load() {
    let mut c = PlayerStateContainer::new();
    assert!(c.try_transition(PlayerState::Loading).is_ok());
    assert!(c.try_transition(PlayerState::Error).is_ok());
    // Out of the error state, only a fresh load is accepted.
    assert!(c.try_transition(PlayerState::Idle).is_err());
    assert!(c.try_transition(PlayerState::Playing).is_err());
    assert!(c.try_transition(PlayerState::Stopped).is_err());
    assert_eq!(c.get_state(), PlayerState::Error);
    assert!(c.try_transition(PlayerState::Loading).is_ok());
}

#[test]
fn validate_checks_the_expected_current_state() {
    let c = PlayerStateContainer::new();
    assert!(c.validate_state_transition(PlayerState::Idle, PlayerState::Loading).is_ok());
    // Current state differs from the expected one.
    let r = c.validate_state_transition(PlayerState::Ready, PlayerState::Playing);
    assert!(matches!(r, Err(AudioError::InvalidState(_))));
}

#[test]
fn error_messages_carry_their_category() {
    let e = AudioError::InvalidState(String::from("x"));
    assert_eq!(e.message(), "Invalid state: x");
    let e = AudioError::NetworkError(String::from("timeout"));
    assert_eq!(e.message(), "Network error: timeout");
    let e = AudioError::UnsupportedFormat(String::from("no moov"));
    assert_eq!(e.message(), "Unsupported format: no moov");
    let e = AudioError::LoadError(String::from("probe"));
    assert_eq!(e.message(), "Load error: probe");
    let e = AudioError::IoError(String::from("disk"));
    assert_eq!(e.message(), "IO error: disk");
    let e = AudioError::DecodingError(String::from("bad packet"));
    assert_eq!(e.message(), "Decoding error: bad packet");
    let e = AudioError::DeviceError(String::from("no device"));
    assert_eq!(e.message(), "Device error: no device");
}

#[test]
fn play_is_refused_from_stopped() {
    let mut c = PlayerStateContainer::new();
    assert!(c.try_transition(PlayerState::Loading).is_ok());
    assert!(c.try_transition(PlayerState::Ready).is_ok());
    assert!(c.try_transition(PlayerState::Playing).is_ok());
    assert!(c.try_transition(PlayerState::Stopped).is_ok());
    // A stopped player leaves only to idle or into a fresh load; playing
    // again without one is an illegal transition.
    let r = c.try_transition(PlayerState::Playing);
    assert!(matches!(r, Err(AudioError::InvalidState(_))));
    let r = c.try_transition(PlayerState::Ready);
    assert!(matches!(r, Err(AudioError::InvalidState(_))));
    assert_eq!(c.get_state(), PlayerState::Stopped);
    assert!(c.validate_state_transition(PlayerState::Stopped, PlayerState::Playing).is_err());
}
