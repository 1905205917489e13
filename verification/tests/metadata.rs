use podium_audio::json_option_string;
use podium_audio::AudioMetadata;
use podium_audio::AudioTags;

#[test]
fn test_metadata_creation() {
    let mut metadata = AudioMetadata::new();
    metadata.tags.title = Some("Test Song".to_string());
    metadata.tags.artist = Some("Test Artist".to_string());
    metadata.format_info.codec = "MP3".to_string();
    metadata.format_info.sample_rate = 44100;

    assert!(metadata.has_tags());
    assert!(metadata.summary().contains("Test Song"));
}

#[test]
fn test_tags_get() {
    let mut tags = AudioTags::new();
    tags.title = Some("My Song".to_string());
    tags.artist = Some("My Artist".to_string());

    assert_eq!(tags.get_tag("title"), Some("My Song"));
    assert_eq!(tags.get_tag("TITLE"), Some("My Song"));
    assert_eq!(tags.get_tag("artist"), Some("My Artist"));
    assert_eq!(tags.get_tag("unknown"), None);
}

#[test]
fn summary_lists_tags_format_and_quality() {
    let mut m = AudioMetadata::new();
    m.tags.title = Some("T".to_string());
    m.tags.artist = Some("A".to_string());
    m.tags.album = Some("L".to_string());
    m.format_info.codec = "AAC".to_string();
    m.format_info.sample_rate = 44100;
    m.format_info.channels = 2;
    m.format_info.duration_ms = 5000;
    m.format_info.bitrate_bps = Some(128000);
    m.quality.is_vbr = true;

    assert_eq!(
        m.summary(),
        "Title: T, Artist: A, Album: L, Format: AAC @ 44100Hz, 2 ch, 5000 ms, Bitrate: 128 kbps, VBR"
    );
}

#[test]
fn summary_without_tags_is_just_the_format_line() {
    let mut m = AudioMetadata::new();
    m.format_info.codec = "MP3".to_string();
    m.format_info.sample_rate = 48000;
    m.format_info.channels = 1;
    m.format_info.duration_ms = 100;
    assert_eq!(m.summary(), "Format: MP3 @ 48000Hz, 1 ch, 100 ms");
    assert!(!m.has_tags());
}

#[test]
fn tag_key_aliases_and_custom_tags_resolve() {
    let mut tags = AudioTags::new();
    tags.album_artist = Some("Band".to_string());
    tags.date = Some("2021".to_string());
    tags.custom_tags.push(("MOOD".to_string(), "calm".to_string()));

    assert_eq!(tags.get_tag("albumartist"), Some("Band"));
    assert_eq!(tags.get_tag("album_artist"), Some("Band"));
    assert_eq!(tags.get_tag("year"), Some("2021"));
    assert_eq!(tags.get_tag("date"), Some("2021"));
    // Custom tags are matched verbatim, case and all.
    assert_eq!(tags.get_tag("MOOD"), Some("calm"));
    assert_eq!(tags.get_tag("mood"), None);
    assert_eq!(tags.get_tag("album"), None);
}

#[test]
fn json_option_string_escapes_quotes_and_backslashes() {
    assert_eq!(json_option_string(&None), "null");
    assert_eq!(json_option_string(&Some("plain".to_string())), "\"plain\"");
    assert_eq!(
        json_option_string(&Some("a\"b\\c".to_string())),
        "\"a\\\"b\\\\c\""
    );
}
