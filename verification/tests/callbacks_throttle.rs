use podium_audio::CallbackEvent;
use podium_audio::CallbackManager;
use podium_audio::PlayerState;
use podium_audio::ThrottledCallback;

#[test]
fn test_throttled_callback() {
    let mut throttled = ThrottledCallback::new(100, 0);

    // Send multiple position updates rapidly, 10 ms apart.
    let mut delivered = 0;
    for i in 0..10u64 {
        let event = CallbackEvent::PositionChanged {
            position_ms: i * 100,
            duration_ms: 1000,
        };
        if throttled.dispatch(&event, i * 10) {
            delivered += 1;
        }
    }

    // Fewer than 10 deliveries because of the throttling.
    assert!(delivered < 10);
}

#[test]
fn test_non_throttled_events() {
    let mut throttled = ThrottledCallback::new(100, 0);

    // State changes are not throttled.
    let mut delivered = 0;
    let event = CallbackEvent::StateChanged {
        old_state: PlayerState::Idle,
        new_state: PlayerState::Playing,
    };
    if throttled.dispatch(&event, 1) {
        delivered += 1;
    }
    let event = CallbackEvent::StateChanged {
        old_state: PlayerState::Playing,
        new_state: PlayerState::Paused,
    };
    if throttled.dispatch(&event, 2) {
        delivered += 1;
    }

    assert_eq!(delivered, 2);
}

#[test]
fn ten_position_events_in_one_window_deliver_fewer_than_ten() {
    let mut manager = CallbackManager::new();
    let idx = manager.add_callback(100, 0);
    assert_eq!(idx, 0);

    let mut deliveries = 0;
    for i in 0..10u64 {
        let event = CallbackEvent::PositionChanged {
            position_ms: i,
            duration_ms: 5000,
        };
        // All ten events fall inside one 100 ms window.
        deliveries += manager.dispatch_event(&event, i * 10).len();
    }
    assert!(deliveries < 10);
    // The first interval runs from registration, so none goes through yet;
    // the next event at or past the 100 ms mark would.
    assert_eq!(deliveries, 0);
    let event = CallbackEvent::PositionChanged { position_ms: 10, duration_ms: 5000 };
    assert_eq!(manager.dispatch_event(&event, 100).len(), 1);
}

#[test]
fn ten_state_events_in_one_window_all_deliver() {
    let mut manager = CallbackManager::new();
    manager.add_callback(100, 0);

    let mut deliveries = 0;
    for i in 0..10u64 {
        let event = CallbackEvent::StateChanged {
            old_state: PlayerState::Playing,
            new_state: PlayerState::Paused,
        };
        deliveries += manager.dispatch_event(&event, i * 10).len();
    }
    assert_eq!(deliveries, 10);
}

#[test]
fn manager_fans_out_to_every_listener() {
    let mut manager = CallbackManager::new();
    manager.add_callback(100, 0);
    manager.add_callback(50, 0);
    manager.add_callback(0, 0);
    assert_eq!(manager.callback_count(), 3);

    let event = CallbackEvent::PositionChanged { position_ms: 1, duration_ms: 2 };
    // At 60 ms only the listeners with intervals of 50 and 0 fire.
    let to = manager.dispatch_event(&event, 60);
    assert_eq!(to, vec![1, 2]);

    let event = CallbackEvent::BufferingChanged { buffering: true };
    let to = manager.dispatch_event(&event, 61);
    assert_eq!(to, vec![0, 1, 2]);

    manager.clear_callbacks();
    assert_eq!(manager.callback_count(), 0);
}
