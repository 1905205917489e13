use podium_audio::fetch_end;
use podium_audio::next_download_chunk;
use podium_audio::retry_backoff_ms;
use podium_audio::HttpStreamState;
use podium_audio::M4AStreamingState;
use podium_audio::MappedOffset;
use podium_audio::RangeCache;
use podium_audio::VirtualLayout;
use podium_audio::find_atom;
use podium_audio::has_moov_at_start;
use podium_audio::parse_atom_header;
use podium_audio::parse_total_from_content_range;
use podium_audio::parse_u64_ascii;

/// One top-level box: 4-byte big-endian size, 4-byte type, then payload.
fn atom(kind: &[u8; 4], payload_len: usize) -> Vec<u8> {
    let size = (payload_len + 8) as u32;
    let mut v = size.to_be_bytes().to_vec();
    v.extend_from_slice(kind);
    v.extend(std::iter::repeat(0xABu8).take(payload_len));
    v
}

#[test]
fn parse_atom_header_reads_size_and_type() {
    let data = atom(b"ftyp", 12);
    let a = parse_atom_header(&data, 0).unwrap();
    assert_eq!(a.size, 20);
    assert_eq!(a.offset, 0);
    assert_eq!(a.kind, u32::from_be_bytes(*b"ftyp"));
    // A size below the 8 header bytes is malformed.
    let bad = vec![0, 0, 0, 4, b'f', b't', b'y', b'p'];
    assert!(parse_atom_header(&bad, 0).is_none());
    // A header that does not fit is rejected.
    assert!(parse_atom_header(&data, 16).is_none());
}

#[test]
fn find_atom_walks_the_box_chain() {
    let mut file = atom(b"ftyp", 12);
    file.extend(atom(b"free", 4));
    file.extend(atom(b"moov", 100));
    let moov = find_atom(&file, u32::from_be_bytes(*b"moov")).unwrap();
    assert_eq!(moov.offset, 20 + 12);
    assert_eq!(moov.size, 108);
    assert!(find_atom(&file, u32::from_be_bytes(*b"mdat")).is_none());
}

#[test]
fn moov_at_start_is_detected_and_absence_reported() {
    let mut fast = atom(b"ftyp", 12);
    fast.extend(atom(b"moov", 50));
    fast.extend(atom(b"mdat", 100));
    assert!(has_moov_at_start(&fast));

    let mut slow = atom(b"ftyp", 12);
    slow.extend(atom(b"mdat", 100));
    slow.extend(atom(b"moov", 50));
    assert!(has_moov_at_start(&slow));

    // With the trailing moov cut off, the walk finds none.
    let head = &slow[..slow.len() - 58];
    assert!(!has_moov_at_start(head));
}

#[test]
fn virtual_mapping_reconstructs_faststart_order() {
    // ftyp of 20 bytes, moov of 500, mdat of 10000, laid out on disk as
    // ftyp || mdat || moov.
    let ftyp_size = 20u64;
    let moov_size = 500u64;
    let mdat_size = 10000u64;
    let total = ftyp_size + mdat_size + moov_size;

    let mut real = Vec::new();
    real.extend((0..ftyp_size).map(|i| (i % 251) as u8));
    real.extend((0..mdat_size).map(|i| ((i * 7 + 3) % 253) as u8));
    real.extend((0..moov_size).map(|i| ((i * 13 + 1) % 249) as u8));
    assert_eq!(real.len() as u64, total);

    let layout = VirtualLayout {
        ftyp_size,
        moov_size,
        mdat_offset: ftyp_size,
        total_size: total,
    };
    let moov_bytes = &real[(total - moov_size) as usize..];

    // Read the whole virtual range through the translation.
    let mut virtual_file = Vec::with_capacity(total as usize);
    for v in 0..total {
        let b = match layout.map_virtual_to_real(v) {
            MappedOffset::Real(off) => real[off as usize],
            MappedOffset::Moov(off) => moov_bytes[off as usize],
        };
        virtual_file.push(b);
    }

    // The result is exactly ftyp || moov || mdat.
    let mut expected = Vec::new();
    expected.extend_from_slice(&real[..ftyp_size as usize]);
    expected.extend_from_slice(moov_bytes);
    expected.extend_from_slice(&real[ftyp_size as usize..(total - moov_size) as usize]);
    assert_eq!(virtual_file, expected);
}

#[test]
fn cache_serves_covered_ranges_without_refetch() {
    let mut cache = RangeCache::new(1024);
    assert!(cache.lookup(0, 10).is_none());
    cache.insert(100, (0..50).collect());
    // A sub-range of the cached chunk is covered.
    let hit = cache.lookup(110, 20).unwrap();
    assert_eq!(hit, (10..30).collect::<Vec<u8>>());
    // Touching bytes outside the chunk is not covered.
    assert!(cache.lookup(90, 20).is_none());
    assert!(cache.lookup(140, 20).is_none());
}

#[test]
fn cache_evicts_oldest_when_over_the_cap() {
    let mut cache = RangeCache::new(100);
    cache.insert(0, vec![1u8; 60]);
    assert_eq!(cache.entry_count(), 1);
    cache.insert(1000, vec![2u8; 60]);
    // 120 bytes exceed the cap of 100: the oldest chunk leaves first.
    assert_eq!(cache.entry_count(), 1);
    assert!(cache.lookup(0, 60).is_none());
    assert_eq!(cache.lookup(1000, 60).unwrap(), vec![2u8; 60]);
}

#[test]
fn cache_never_exceeds_cap_by_more_than_one_chunk() {
    let mut cache = RangeCache::new(100);
    for i in 0..10u64 {
        cache.insert(i * 1000, vec![0u8; 40]);
        // At most cap (100) plus one chunk (40) may be held: three chunks.
        assert!(cache.entry_count() <= 3);
    }
}

#[test]
fn content_length_parsing_is_exact() {
    assert_eq!(parse_u64_ascii(b"12345"), Some(12345));
    assert_eq!(parse_u64_ascii(b"0"), Some(0));
    assert_eq!(parse_u64_ascii(b"18446744073709551615"), Some(u64::MAX));
    assert_eq!(parse_u64_ascii(b"18446744073709551616"), None);
    assert_eq!(parse_u64_ascii(b""), None);
    assert_eq!(parse_u64_ascii(b" 5"), None);
    assert_eq!(parse_u64_ascii(b"12a"), None);
}

#[test]
fn content_range_total_comes_after_the_last_slash() {
    assert_eq!(parse_total_from_content_range(b"bytes 0-0/12345"), Some(12345));
    assert_eq!(parse_total_from_content_range(b"bytes 0-0/*"), None);
    assert_eq!(parse_total_from_content_range(b"777"), Some(777));
    assert_eq!(parse_total_from_content_range(b"a/b/42"), Some(42));
}

#[test]
fn stream_window_tracks_availability() {
    let mut w = HttpStreamState::new();
    assert!(!w.is_complete());
    assert_eq!(w.total_size(), None);
    assert!(!w.is_available(0));

    w.push_data(&[1, 2, 3, 4, 5, 6, 7, 8]);
    assert!(w.is_available(0));
    assert!(w.is_available(7));
    assert!(!w.is_available(8));
    assert_eq!(w.read_at(2, 3), vec![3, 4, 5]);
    // Reads past the window yield nothing.
    assert_eq!(w.read_at(100, 3), Vec::<u8>::new());
}

#[test]
fn stream_window_releases_played_bytes() {
    let mut w = HttpStreamState::new();
    w.push_data(&[10, 11, 12, 13, 14, 15]);
    w.release_before(4);
    // The released front is gone; the tail keeps its stream offsets.
    assert!(!w.is_available(3));
    assert!(w.is_available(4));
    assert_eq!(w.read_at(4, 2), vec![14, 15]);
    assert_eq!(w.read_at(0, 2), Vec::<u8>::new());
}

#[test]
fn downloaded_ranges_merge_overlaps_and_touches() {
    let mut st = M4AStreamingState::new();
    st.add_range(0, 100);
    st.add_range(200, 300);
    assert!(st.is_downloaded(50));
    assert!(!st.is_downloaded(150));
    assert!(st.is_downloaded(250));
    assert_eq!(st.range_count(), 2);

    // Touching ranges merge into one.
    st.add_range(100, 200);
    assert_eq!(st.range_count(), 1);
    assert!(st.is_downloaded(150));
    assert!(st.is_downloaded(0));
    assert!(st.is_downloaded(299));
    assert!(!st.is_downloaded(300));

    // An overlap extending past the end widens the single range.
    st.add_range(250, 400);
    assert_eq!(st.range_count(), 1);
    assert!(st.is_downloaded(399));
    assert!(!st.is_downloaded(400));
}

#[test]
fn fetch_window_widens_and_clamps() {
    // Small requests are widened to one 256 KiB chunk.
    assert_eq!(fetch_end(0, 10, None), 262144);
    // Large requests keep their own size.
    assert_eq!(fetch_end(0, 500000, None), 500000);
    // The window never passes the known end of the file.
    assert_eq!(fetch_end(100, 10, Some(1000)), 1000);
    assert_eq!(fetch_end(0, 10, Some(1 << 30)), 262144);
    // At or past the known end the window collapses.
    assert_eq!(fetch_end(1000, 10, Some(1000)), 1000);
    assert_eq!(fetch_end(2000, 10, Some(1000)), 1000);
}

#[test]
fn download_schedule_walks_the_file_in_chunks() {
    assert_eq!(next_download_chunk(0, 1000000), Some((0, 262144)));
    assert_eq!(next_download_chunk(262144, 1000000), Some((262144, 524288)));
    // The last chunk is clamped to the file end.
    assert_eq!(next_download_chunk(786432, 1000000), Some((786432, 1000000)));
    assert_eq!(next_download_chunk(1000000, 1000000), None);
    assert_eq!(next_download_chunk(5, 3), None);
}

#[test]
fn retry_backoff_doubles_from_half_a_second() {
    assert_eq!(retry_backoff_ms(1), 500);
    assert_eq!(retry_backoff_ms(2), 1000);
    assert_eq!(retry_backoff_ms(3), 2000);
    assert_eq!(retry_backoff_ms(4), 4000);
}
