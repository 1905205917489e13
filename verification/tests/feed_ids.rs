use podium_audio::HttpStreamState;
use podium_audio::generate_id;
use podium_audio::u64_to_hex_string;
use podium_audio::u64_to_string;

#[test]
fn test_generate_id() {
    let id1 = generate_id("test");
    let id2 = generate_id("test");
    let id3 = generate_id("different");

    assert_eq!(id1, id2);
    assert_ne!(id1, id3);
}

#[test]
fn test_streaming_source_creation() {
    let source = HttpStreamState::new();
    assert!(!source.is_complete());
    assert_eq!(source.total_size(), None);
}

#[test]
fn generated_id_is_the_fnv1a_hash_in_hex() {
    // 64-bit FNV-1a of the ASCII bytes of "test".
    assert_eq!(generate_id("test"), "f9e6e6ef197c2b25");
    assert_eq!(generate_id(""), "cbf29ce484222325");
}

#[test]
fn decimal_formatting_is_exact() {
    assert_eq!(u64_to_string(0), "0");
    assert_eq!(u64_to_string(7), "7");
    assert_eq!(u64_to_string(12345), "12345");
    assert_eq!(u64_to_string(u64::MAX), "18446744073709551615");
}

#[test]
fn hex_formatting_is_exact() {
    assert_eq!(u64_to_hex_string(0), "0");
    assert_eq!(u64_to_hex_string(255), "ff");
    assert_eq!(u64_to_hex_string(0xdeadbeef), "deadbeef");
    assert_eq!(u64_to_hex_string(u64::MAX), "ffffffffffffffff");
}
