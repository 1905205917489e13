use podium_audio::Session;
use podium_audio::AudioError;
use podium_audio::AudioSpec;
use podium_audio::DecodeStep;
use podium_audio::LoadPlan;
use podium_audio::PlaybackEngine;
use podium_audio::PlayerState;
use podium_audio::PodiumPlayer;
use podium_audio::Resampler;
use podium_audio::SourceKind;
use podium_audio::effective_output_rate;
use podium_audio::mono_to_stereo;
use podium_audio::needs_resampling;

#[test]
fn end_to_end_position_tracks_simulated_decode() {
    // A 5000 ms track at 1000 Hz stereo, so one 100-frame packet is 100 ms.
    let mut engine = PlaybackEngine::new(1024);
    engine.configure_format(1000, 2);
    engine.set_duration(5000);
    assert_eq!(engine.duration_ms(), 5000);

    let mut player = PodiumPlayer::new();
    let plan = player.begin_load(SourceKind::File("track.m4a".to_string())).unwrap();
    assert_eq!(plan, LoadPlan::Rebuild);
    player.finish_load(true).unwrap();
    assert_eq!(player.get_state(), PlayerState::Ready);
    player.play().unwrap();
    assert_eq!(player.get_state(), PlayerState::Playing);
    engine.play();

    // Simulate 2500 ms of decode: 25 packets of 100 stereo frames.
    let packet: Vec<u32> = vec![7; 200];
    for _ in 0..25 {
        assert_eq!(engine.decode_tick(), DecodeStep::NextPacket);
        let written = engine.handle_packet(&packet, 2, 2, 1000);
        assert_eq!(written, 200);
    }
    assert_eq!(engine.position_ms(), 2500);

    // Seek to 1000 ms: buffered audio is discarded, the decode loop
    // consumes the pending target, and playback resumes near 1000 ms.
    assert!(engine.buffered_samples() > 0);
    player.seek(1000).unwrap();
    engine.request_seek(1000);
    assert_eq!(engine.buffered_samples(), 0);
    assert_eq!(engine.decode_tick(), DecodeStep::Seek(1000));
    assert_eq!(engine.position_ms(), 1000);
    let written = engine.handle_packet(&packet, 2, 2, 1000);
    assert_eq!(written, 200);
    assert_eq!(engine.position_ms(), 1100);
    assert_eq!(player.get_status().position_ms, 1000);
}

#[test]
fn decode_tick_obeys_its_priorities() {
    let mut engine = PlaybackEngine::new(100);
    assert_eq!(engine.decode_tick(), DecodeStep::NextPacket);

    // A nearly full ring while paused asks for a prebuffer wait.
    let fill: Vec<u32> = vec![1; 99];
    engine.handle_packet(&fill, 2, 2, 48000);
    assert_eq!(engine.decode_tick(), DecodeStep::PrebufferWait);

    // Playing overrides the prebuffer wait.
    engine.play();
    assert_eq!(engine.decode_tick(), DecodeStep::NextPacket);

    // A stop request wins over everything.
    engine.request_stop();
    assert_eq!(engine.decode_tick(), DecodeStep::Stop);
}

#[test]
fn render_callback_gets_silence_while_paused() {
    let mut engine = PlaybackEngine::new(64);
    engine.handle_packet(&vec![5; 10], 2, 2, 48000);
    let mut out = vec![9u32; 8];
    // Paused: the callback emits silence and reads nothing.
    let filled = engine.render_fill(&mut out);
    assert_eq!(filled, 0);
    assert_eq!(out, vec![0u32; 8]);

    engine.play();
    let mut out = vec![9u32; 8];
    let filled = engine.render_fill(&mut out);
    assert_eq!(filled, 8);
    assert_eq!(out, vec![5u32; 8]);

    // On underrun the tail is zero-filled; the consumer never blocks.
    let mut out = vec![9u32; 8];
    let filled = engine.render_fill(&mut out);
    assert_eq!(filled, 2);
    assert_eq!(out, vec![5, 5, 0, 0, 0, 0, 0, 0]);
}

#[test]
fn mono_packets_are_upmixed_for_stereo_renderers() {
    let stereo = mono_to_stereo(&vec![1, 2, 3]);
    assert_eq!(stereo, vec![1, 1, 2, 2, 3, 3]);

    let mut engine = PlaybackEngine::new(64);
    engine.play();
    let written = engine.handle_packet(&vec![4, 5], 1, 2, 48000);
    assert_eq!(written, 4);
    let mut out = vec![0u32; 4];
    engine.render_fill(&mut out);
    assert_eq!(out, vec![4, 4, 5, 5]);
}

#[test]
fn loading_the_same_source_reuses_the_engine() {
    let mut player = PodiumPlayer::new();
    let src = SourceKind::Http("https://example.com/a.m4a".to_string());
    assert_eq!(player.begin_load(src).unwrap(), LoadPlan::Rebuild);
    player.finish_load(true).unwrap();

    let same = SourceKind::Http("https://example.com/a.m4a".to_string());
    assert_eq!(player.begin_load(same).unwrap(), LoadPlan::Reuse { seek_ms: 0 });
    player.finish_load(true).unwrap();

    let other = SourceKind::Http("https://example.com/b.m4a".to_string());
    assert_eq!(player.begin_load(other).unwrap(), LoadPlan::Rebuild);
}

#[test]
fn player_operations_respect_the_state_machine() {
    let mut player = PodiumPlayer::new();
    // Nothing loaded: playing is refused.
    assert!(matches!(player.play(), Err(AudioError::InvalidState(_))));
    assert!(matches!(player.seek(10), Err(AudioError::InvalidState(_))));

    player.begin_load(SourceKind::File("a.mp3".to_string())).unwrap();
    player.finish_load(true).unwrap();
    player.play().unwrap();
    player.pause().unwrap();
    assert_eq!(player.get_state(), PlayerState::Paused);
    // Pausing twice is an illegal transition.
    assert!(matches!(player.pause(), Err(AudioError::InvalidState(_))));
    player.play().unwrap();
    player.stop().unwrap();
    assert_eq!(player.get_status().position_ms, 0);
    player.release();
    assert_eq!(player.get_state(), PlayerState::Idle);
}

#[test]
fn failed_load_lands_in_the_error_state() {
    let mut player = PodiumPlayer::new();
    player.begin_load(SourceKind::Http("https://example.com/x.m4a".to_string())).unwrap();
    player.finish_load(false).unwrap();
    assert_eq!(player.get_state(), PlayerState::Error);
    // The error state is sticky: only a fresh load leaves it.
    assert!(player.play().is_err());
    player.begin_load(SourceKind::Http("https://example.com/x.m4a".to_string())).unwrap();
    assert_eq!(player.get_state(), PlayerState::Loading);
}

#[test]
fn volume_is_clamped_and_rate_must_be_positive() {
    let mut player = PodiumPlayer::new();
    player.set_volume(500);
    assert_eq!(player.get_status().volume_permille, 500);
    player.set_volume(2000);
    assert_eq!(player.get_status().volume_permille, 1000);
    assert!(matches!(
        player.set_playback_rate(0),
        Err(AudioError::InvalidState(_))
    ));
    player.set_playback_rate(1500).unwrap();
    assert_eq!(player.get_status().rate_permille, 1500);
}

#[test]
fn resampling_is_needed_exactly_on_mismatch() {
    assert!(!needs_resampling(48000, 48000, 2, 2));
    assert!(needs_resampling(44100, 48000, 2, 2));
    assert!(needs_resampling(48000, 48000, 1, 2));
    let r = Resampler::new(44100, 48000, 1, 2);
    assert_eq!(r.input_rate, 44100);
    assert_eq!(r.output_rate, 48000);
    assert_eq!(r.input_channels, 1);
    assert_eq!(r.output_channels, 2);
}

#[test]
fn output_rate_prefers_device_then_decoder_then_default() {
    assert_eq!(effective_output_rate(48000, Some(44100), 22050), 48000);
    assert_eq!(effective_output_rate(0, Some(44100), 22050), 44100);
    assert_eq!(effective_output_rate(0, None, 22050), 22050);
    let spec = AudioSpec::default();
    assert_eq!(spec.sample_rate, 48000);
    assert_eq!(spec.channels, 2);
    assert_eq!(spec.buffer_size, 1024);
}

#[test]
fn mid_stream_failure_lands_in_the_sticky_error_state() {
    let mut player = PodiumPlayer::new();
    player.begin_load(SourceKind::File("a.mp3".to_string())).unwrap();
    player.finish_load(true).unwrap();
    player.play().unwrap();
    // A decode error mid-stream moves the player to the error state.
    player.fail().unwrap();
    assert_eq!(player.get_state(), PlayerState::Error);
    // Sticky: neither playing nor stopping leaves it, only a fresh load.
    assert!(player.play().is_err());
    assert!(player.stop().is_err());
    player.begin_load(SourceKind::File("a.mp3".to_string())).unwrap();
    assert_eq!(player.get_state(), PlayerState::Loading);

    // With nothing loaded there is no stream to fail.
    let mut idle = PodiumPlayer::new();
    assert!(matches!(idle.fail(), Err(AudioError::InvalidState(_))));
}

#[test]
fn session_bundles_a_fresh_player_and_engine() {
    let s = Session::new();
    assert_eq!(s.player.get_state(), PlayerState::Idle);
    assert!(!s.engine.is_playing());
    assert_eq!(s.engine.position_ms(), 0);
}
