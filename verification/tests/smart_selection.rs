use podium_audio::build_virtual_layout;
use podium_audio::prebuffer_target;
use podium_audio::AudioError;
use podium_audio::ProbeDecision;
use podium_audio::SourceChoice;
use podium_audio::VirtualLayout;
use podium_audio::choose_m4a_source;
use podium_audio::find_atom;
use podium_audio::is_m4a_format;
use podium_audio::probe_step;

fn make_atom(kind: &[u8; 4], payload_len: usize) -> Vec<u8> {
    let size = (payload_len + 8) as u32;
    let mut v = size.to_be_bytes().to_vec();
    v.extend_from_slice(kind);
    v.extend(std::iter::repeat(0u8).take(payload_len));
    v
}

#[test]
fn m4a_urls_are_recognized_case_insensitively() {
    assert!(is_m4a_format("https://example.com/episode.m4a"));
    assert!(is_m4a_format("https://example.com/EPISODE.M4A?x=1"));
    assert!(is_m4a_format("https://example.com/video.mp4"));
    assert!(is_m4a_format("https://example.com/book.M4B"));
    assert!(!is_m4a_format("https://example.com/episode.mp3"));
    assert!(!is_m4a_format("https://example.com/episode.ogg"));
}

#[test]
fn moov_in_first_8kb_selects_fast_start_without_tail_fetch() {
    // A fixture whose moov bytes sit inside the first 8 KB.
    let mut fixture = make_atom(b"ftyp", 16);
    fixture.extend(make_atom(b"moov", 2000));
    fixture.extend(make_atom(b"mdat", 12000));
    assert!(fixture.len() >= 8192);

    // One probe round with enough bytes settles the decision; no tail
    // bytes are ever consulted on this path.
    let d = probe_step(0, &Ok(fixture));
    assert_eq!(d, ProbeDecision::Decided { fast_start: true });
    assert_eq!(choose_m4a_source(true, false), SourceChoice::KeepPlainStream);
}

#[test]
fn moov_only_at_the_tail_selects_virtual_fast_start_with_same_size() {
    // ftyp || mdat || moov: the moov is only near the end of the file.
    let mut file = make_atom(b"ftyp", 16);
    file.extend(make_atom(b"mdat", 12000));
    let mdat_end = file.len();
    file.extend(make_atom(b"moov", 2000));
    let total = file.len() as u64;

    let head = &file[..8192];
    let d = probe_step(0, &Ok(head.to_vec()));
    assert_eq!(d, ProbeDecision::Decided { fast_start: false });

    // Relocation parses the head for ftyp and mdat and the tail for moov.
    let ftyp = find_atom(head, u32::from_be_bytes(*b"ftyp")).unwrap();
    let mdat = find_atom(head, u32::from_be_bytes(*b"mdat")).unwrap();
    let tail_start = mdat_end as u64;
    let moov = find_atom(&file[mdat_end..], u32::from_be_bytes(*b"moov")).unwrap();
    assert_eq!(tail_start + moov.offset + moov.size, total);

    let layout = VirtualLayout {
        ftyp_size: ftyp.size,
        moov_size: moov.size,
        mdat_offset: mdat.offset,
        total_size: total,
    };
    assert_eq!(choose_m4a_source(false, true), SourceChoice::UseVirtual);
    // The virtual source reports the real file size: both layouts hold the
    // same bytes, only the box order differs.
    assert_eq!(layout.total_size, total);
}

#[test]
fn probe_waits_until_enough_bytes_then_gives_up_gracefully() {
    let short = vec![0u8; 100];
    assert_eq!(probe_step(0, &Ok(short.clone())), ProbeDecision::Wait);
    // On the last allowed attempt the probe assumes fast start.
    assert_eq!(
        probe_step(19, &Ok(short)),
        ProbeDecision::Decided { fast_start: true }
    );
    // A read failure assumes fast start as well.
    let failed: Result<Vec<u8>, AudioError> =
        Err(AudioError::NetworkError(String::from("boom")));
    assert_eq!(probe_step(0, &failed), ProbeDecision::Decided { fast_start: true });
}

#[test]
fn prebuffer_threshold_follows_the_thirty_percent_rule() {
    // MP4-family files download whole: no threshold at all.
    assert_eq!(prebuffer_target(1000, true), u64::MAX);
    // Unknown size: the 5 MiB floor.
    assert_eq!(prebuffer_target(0, false), 5 * 1024 * 1024);
    // 30% of 10 MiB is 3 MiB, below the floor.
    assert_eq!(prebuffer_target(10 * 1024 * 1024, false), 5 * 1024 * 1024);
    // 30% of 30 MiB is 9 MiB, inside the band.
    assert_eq!(prebuffer_target(30 * 1024 * 1024, false), 9 * 1024 * 1024);
    // 30% of 100 MiB would pass the 15 MiB cap.
    assert_eq!(prebuffer_target(100 * 1024 * 1024, false), 15 * 1024 * 1024);
}

#[test]
fn relocation_falls_back_to_the_plain_stream_on_failure() {
    assert_eq!(choose_m4a_source(false, false), SourceChoice::KeepPlainStream);
    assert_eq!(choose_m4a_source(true, true), SourceChoice::KeepPlainStream);
}

#[test]
fn layout_assembly_succeeds_exactly_on_consistent_boxes() {
    // Head window with ftyp and mdat; tail window with the trailing moov.
    let mut head = make_atom(b"ftyp", 12);
    head.extend(make_atom(b"mdat", 500));
    let tail = make_atom(b"moov", 92);
    let tail_start = (head.len()) as u64;
    let total = tail_start + tail.len() as u64;

    let (layout, moov_off) = build_virtual_layout(&head, &tail, tail_start, total).unwrap();
    assert_eq!(layout.ftyp_size, 20);
    assert_eq!(layout.moov_size, 100);
    assert_eq!(layout.mdat_offset, 20);
    assert_eq!(layout.total_size, total);
    assert_eq!(moov_off, tail_start);

    // A tail without a moov box is an unsupported layout.
    let no_moov = make_atom(b"free", 92);
    assert!(build_virtual_layout(&head, &no_moov, tail_start, total).is_err());
    // A head without an mdat box likewise.
    let short_head = make_atom(b"ftyp", 12);
    assert!(build_virtual_layout(&short_head, &tail, tail_start, total).is_err());
    // Boxes that cannot fit inside the file are rejected.
    assert!(build_virtual_layout(&head, &tail, tail_start, 50).is_err());
}
