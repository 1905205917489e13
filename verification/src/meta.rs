use vstd::prelude::*;
use vstd::string::StringExecFns;
use vstd::string::StrSliceExecFns;

verus! {

/// Decimal digit as a character.
pub open spec fn spec_digit_char(d: int) -> char {
    if d == 0 {
        '0'
    } else if d == 1 {
        '1'
    } else if d == 2 {
        '2'
    } else if d == 3 {
        '3'
    } else if d == 4 {
        '4'
    } else if d == 5 {
        '5'
    } else if d == 6 {
        '6'
    } else if d == 7 {
        '7'
    } else if d == 8 {
        '8'
    } else {
        '9'
    }
}

/// The decimal form of a nonnegative number, no sign, no leading zeros
/// except for zero itself.
pub open spec fn spec_dec(n: int) -> Seq<char>
    decreases n,
{
    if n < 10 {
        seq![spec_digit_char(n)]
    } else {
        spec_dec(n / 10).push(spec_digit_char(n % 10))
    }
}

fn digit_str(d: u64) -> (r: &'static str)
    requires
        d < 10,
    ensures
        r@ == seq![spec_digit_char(d as int)],
{
    proof {
        reveal_strlit("0");
        reveal_strlit("1");
        reveal_strlit("2");
        reveal_strlit("3");
        reveal_strlit("4");
        reveal_strlit("5");
        reveal_strlit("6");
        reveal_strlit("7");
        reveal_strlit("8");
        reveal_strlit("9");
    }
    let s: &'static str = if d == 0 {
        "0"
    } else if d == 1 {
        "1"
    } else if d == 2 {
        "2"
    } else if d == 3 {
        "3"
    } else if d == 4 {
        "4"
    } else if d == 5 {
        "5"
    } else if d == 6 {
        "6"
    } else if d == 7 {
        "7"
    } else if d == 8 {
        "8"
    } else {
        "9"
    };
    proof {
        assert(s@ =~= seq![spec_digit_char(d as int)]);
    }
    s
}

/// Formats a number in decimal.
pub fn u64_to_string(n: u64) -> (r: String)
    ensures
        r@ == spec_dec(n as int),
    decreases n,
{
    if n < 10 {
        String::from_str(digit_str(n))
    } else {
        let prefix = u64_to_string(n / 10);
        let r = prefix.concat(digit_str(n % 10));
        proof {
            assert(r@ =~= spec_dec(n as int / 10).push(spec_digit_char(n as int % 10)));
        }
        r
    }
}

/// ASCII-case-insensitive character equality: equal outright, or the same
/// letter in the two cases.
pub open spec fn char_eq_nocase(x: char, y: char) -> bool {
    ||| x == y
    ||| (65 <= x as int <= 90 && y as int == x as int + 32)
    ||| (65 <= y as int <= 90 && x as int == y as int + 32)
}

/// ASCII-case-insensitive string equality, character by character.
pub open spec fn chars_eq_nocase(a: Seq<char>, b: Seq<char>) -> bool {
    a.len() == b.len() && (forall|i: int| 0 <= i < a.len() ==> char_eq_nocase(a[i], #[trigger] b[i]))
}

pub fn char_eq_nocase_exec(x: char, y: char) -> (r: bool)
    ensures
        r == char_eq_nocase(x, y),
{
    let xc = x as u32;
    let yc = y as u32;
    xc == yc || (65 <= xc && xc <= 90 && yc == xc + 32) || (65 <= yc && yc <= 90 && xc == yc + 32)
}

/// Whether `key` equals `pat` up to ASCII case.
pub fn key_matches(key: &str, pat: &str) -> (r: bool)
    ensures
        r == chars_eq_nocase(key@, pat@),
{
    let klen = key.unicode_len();
    let plen = pat.unicode_len();
    if klen != plen {
        return false;
    }
    let mut i: usize = 0;
    while i < klen
        invariant
            klen == key@.len(),
            klen == pat@.len(),
            i <= klen,
            forall|j: int| 0 <= j < i ==> char_eq_nocase(key@[j], #[trigger] pat@[j]),
        decreases klen - i,
    {
        if !char_eq_nocase_exec(key.get_char(i), pat.get_char(i)) {
            return false;
        }
        i = i + 1;
    }
    true
}

/// Exact string equality, character by character.
fn str_eq(a: &str, b: &str) -> (r: bool)
    ensures
        r == (a@ == b@),
{
    let alen = a.unicode_len();
    let blen = b.unicode_len();
    if alen != blen {
        proof {
            assert(a@ != b@) by {
                assert(a@.len() != b@.len());
            }
        }
        return false;
    }
    let mut i: usize = 0;
    while i < alen
        invariant
            alen == a@.len(),
            alen == b@.len(),
            i <= alen,
            forall|j: int| 0 <= j < i ==> a@[j] == #[trigger] b@[j],
        decreases alen - i,
    {
        if a.get_char(i) != b.get_char(i) {
            return false;
        }
        i = i + 1;
    }
    proof {
        assert(a@ =~= b@);
    }
    true
}

/// One character as it appears inside a JSON string: backslash and double
/// quote escaped, everything else as itself.
pub open spec fn spec_json_escaped_char(c: char) -> Seq<char> {
    if c == '\\' {
        seq!['\\', '\\']
    } else if c == '"' {
        seq!['\\', '"']
    } else {
        seq![c]
    }
}

/// The body of a JSON string holding these characters.
pub open spec fn spec_json_escaped(s: Seq<char>) -> Seq<char>
    decreases s.len(),
{
    if s.len() == 0 {
        Seq::<char>::empty()
    } else {
        spec_json_escaped(s.drop_last()) + spec_json_escaped_char(s.last())
    }
}

/// An optional string as a JSON value: `null`, or the quoted, escaped text.
pub open spec fn spec_json_option_string(o: &Option<String>) -> Seq<char> {
    match o {
        None => "null"@,
        Some(s) => seq!['"'] + spec_json_escaped(s@) + seq!['"'],
    }
}

/// Renders an optional string as a JSON value: `null` when absent, and the
/// quoted text otherwise, with backslashes and quotes escaped.
pub fn json_option_string(o: &Option<String>) -> (r: String)
    ensures
        r@ == spec_json_option_string(o),
{
    let s = match o {
        None => {
            let r = String::from_str("null");
            return r;
        },
        Some(s) => s.as_str(),
    };
    proof {
        reveal_strlit("\"");
        reveal_strlit("\\\\");
        reveal_strlit("\\\"");
    }
    let n = s.unicode_len();
    let mut out = String::from_str("\"");
    proof {
        assert(out@ =~= seq!['"'] + spec_json_escaped(s@.take(0)));
    }
    let mut i: usize = 0;
    while i < n
        invariant
            n == s@.len(),
            i <= n,
            out@ == seq!['"'] + spec_json_escaped(s@.take(i as int)),
        decreases n - i,
    {
        proof {
            reveal_strlit("\"");
            reveal_strlit("\\\\");
            reveal_strlit("\\\"");
            assert(s@.take(i + 1).drop_last() =~= s@.take(i as int));
            assert(s@.take(i + 1).last() == s@[i as int]);
        }
        let c = s.get_char(i);
        if c == '\\' {
            out.append("\\\\");
        } else if c == '"' {
            out.append("\\\"");
        } else {
            let piece = s.substring_char(i, i + 1);
            proof {
                assert(piece@ =~= seq![s@[i as int]]);
            }
            out.append(piece);
        }
        proof {
            assert(out@ =~= seq!['"'] + spec_json_escaped(s@.take(i + 1)));
        }
        i = i + 1;
    }
    proof {
        reveal_strlit("\"");
        assert(s@.take(n as int) =~= s@);
    }
    let r = out.concat("\"");
    proof {
        assert(r@ =~= spec_json_option_string(o));
    }
    r
}

/// Basic audio format information.
#[derive(Debug, Clone)]
pub struct FormatInfo {
    /// Duration in milliseconds.
    pub duration_ms: u64,
    /// Sample rate in hertz.
    pub sample_rate: u32,
    /// Number of channels; one is mono, two stereo.
    pub channels: u16,
    /// Codec name, upper case.
    pub codec: String,
    /// Average bitrate in bits per second, when known.
    pub bitrate_bps: Option<u32>,
    /// Total number of frames, when known.
    pub total_frames: Option<u64>,
}

/// Audio quality parameters.
#[derive(Debug, Clone)]
pub struct QualityParams {
    /// Bits per sample, when known.
    pub bit_depth: Option<u16>,
    /// Whether the stream is variable bit rate.
    pub is_vbr: bool,
    /// Compression quality level, for formats that carry one.
    pub compression_quality: Option<u8>,
    /// Instantaneous bitrate for variable-rate files, when known.
    pub instantaneous_bitrate_bps: Option<u32>,
}

/// Track tags, from ID3, Vorbis comments and their kin.
#[derive(Debug, Clone)]
pub struct AudioTags {
    pub title: Option<String>,
    pub artist: Option<String>,
    pub album: Option<String>,
    pub album_artist: Option<String>,
    pub track_number: Option<u32>,
    pub track_total: Option<u32>,
    pub disc_number: Option<u32>,
    pub disc_total: Option<u32>,
    /// Release date, a year or a full date.
    pub date: Option<String>,
    pub genre: Option<String>,
    pub composer: Option<String>,
    pub comment: Option<String>,
    pub lyrics: Option<String>,
    pub copyright: Option<String>,
    pub encoder: Option<String>,
    pub publisher: Option<String>,
    /// International Standard Recording Code.
    pub isrc: Option<String>,
    pub language: Option<String>,
    /// Tags with no standard slot, keyed by their original names.
    pub custom_tags: Vec<(String, String)>,
}

/// Cover image.
#[derive(Debug, Clone)]
pub struct CoverArt {
    /// MIME type of the image data.
    pub mime_type: String,
    /// The image bytes.
    pub data: Vec<u8>,
    /// What the picture shows, when tagged.
    pub description: Option<String>,
    /// Picture type code from the tag.
    pub picture_type: u8,
}

/// Chapter marker.
#[derive(Debug, Clone)]
pub struct Chapter {
    /// Chapter start in milliseconds.
    pub start_time_ms: u64,
    /// Chapter end in milliseconds.
    pub end_time_ms: u64,
    pub title: Option<String>,
    pub description: Option<String>,
    pub url: Option<String>,
}

/// Everything known about a loaded track.
#[derive(Debug, Clone)]
pub struct AudioMetadata {
    pub format_info: FormatInfo,
    pub tags: AudioTags,
    pub quality: QualityParams,
    /// Chapter list, for audiobooks and podcasts.
    pub chapters: Vec<Chapter>,
}

/// The view of an optional string.
pub open spec fn opt_view(o: &Option<String>) -> Option<Seq<char>> {
    match o {
        Some(s) => Some(s@),
        None => None,
    }
}

/// First value in the list whose key equals `key` exactly.
pub open spec fn assoc_lookup(pairs: Seq<(String, String)>, key: Seq<char>) -> Option<Seq<char>>
    decreases pairs.len(),
{
    if pairs.len() == 0 {
        None
    } else if pairs[0].0@ == key {
        Some(pairs[0].1@)
    } else {
        assoc_lookup(pairs.skip(1), key)
    }
}

impl AudioTags {
    /// Empty tags.
    pub fn new() -> (t: Self)
        ensures
            t.title is None,
            t.artist is None,
            t.album is None,
            t.album_artist is None,
            t.track_number is None,
            t.track_total is None,
            t.disc_number is None,
            t.disc_total is None,
            t.date is None,
            t.genre is None,
            t.composer is None,
            t.comment is None,
            t.lyrics is None,
            t.copyright is None,
            t.encoder is None,
            t.publisher is None,
            t.isrc is None,
            t.language is None,
            t.custom_tags@ == Seq::<(String, String)>::empty(),
    {
        Self {
            title: None,
            artist: None,
            album: None,
            album_artist: None,
            track_number: None,
            track_total: None,
            disc_number: None,
            disc_total: None,
            date: None,
            genre: None,
            composer: None,
            comment: None,
            lyrics: None,
            copyright: None,
            encoder: None,
            publisher: None,
            isrc: None,
            language: None,
            custom_tags: Vec::new(),
        }
    }

    /// The value a standard key names, the key read without regard to ASCII
    /// case; a key with no standard slot is looked up verbatim among the
    /// custom tags.
    pub open spec fn spec_get_tag(&self, key: Seq<char>) -> Option<Seq<char>> {
        if chars_eq_nocase(key, "title"@) {
            opt_view(&self.title)
        } else if chars_eq_nocase(key, "artist"@) {
            opt_view(&self.artist)
        } else if chars_eq_nocase(key, "album"@) {
            opt_view(&self.album)
        } else if chars_eq_nocase(key, "albumartist"@) || chars_eq_nocase(key, "album_artist"@) {
            opt_view(&self.album_artist)
        } else if chars_eq_nocase(key, "genre"@) {
            opt_view(&self.genre)
        } else if chars_eq_nocase(key, "date"@) || chars_eq_nocase(key, "year"@) {
            opt_view(&self.date)
        } else if chars_eq_nocase(key, "composer"@) {
            opt_view(&self.composer)
        } else if chars_eq_nocase(key, "comment"@) {
            opt_view(&self.comment)
        } else if chars_eq_nocase(key, "lyrics"@) {
            opt_view(&self.lyrics)
        } else if chars_eq_nocase(key, "copyright"@) {
            opt_view(&self.copyright)
        } else if chars_eq_nocase(key, "encoder"@) {
            opt_view(&self.encoder)
        } else if chars_eq_nocase(key, "publisher"@) {
            opt_view(&self.publisher)
        } else if chars_eq_nocase(key, "isrc"@) {
            opt_view(&self.isrc)
        } else if chars_eq_nocase(key, "language"@) {
            opt_view(&self.language)
        } else {
            assoc_lookup(self.custom_tags@, key)
        }
    }

    /// Looks a tag up by its standard key name, ignoring the key's ASCII
    /// case; unknown keys fall through to the custom tags, verbatim.
    pub fn get_tag(&self, key: &str) -> (r: Option<&str>)
        ensures
            (match r {
                Some(s) => Some(s@),
                None => None,
            }) == self.spec_get_tag(key@),
    {
        if key_matches(key, "title") {
            opt_as_str(&self.title)
        } else if key_matches(key, "artist") {
            opt_as_str(&self.artist)
        } else if key_matches(key, "album") {
            opt_as_str(&self.album)
        } else if key_matches(key, "albumartist") || key_matches(key, "album_artist") {
            opt_as_str(&self.album_artist)
        } else if key_matches(key, "genre") {
            opt_as_str(&self.genre)
        } else if key_matches(key, "date") || key_matches(key, "year") {
            opt_as_str(&self.date)
        } else if key_matches(key, "composer") {
            opt_as_str(&self.composer)
        } else if key_matches(key, "comment") {
            opt_as_str(&self.comment)
        } else if key_matches(key, "lyrics") {
            opt_as_str(&self.lyrics)
        } else if key_matches(key, "copyright") {
            opt_as_str(&self.copyright)
        } else if key_matches(key, "encoder") {
            opt_as_str(&self.encoder)
        } else if key_matches(key, "publisher") {
            opt_as_str(&self.publisher)
        } else if key_matches(key, "isrc") {
            opt_as_str(&self.isrc)
        } else if key_matches(key, "language") {
            opt_as_str(&self.language)
        } else {
            let n = self.custom_tags.len();
            let mut i: usize = 0;
            proof {
                assert(self.custom_tags@.skip(0) =~= self.custom_tags@);
            }
            while i < n
                invariant
                    n == self.custom_tags@.len(),
                    i <= n,
                    self.spec_get_tag(key@) == assoc_lookup(self.custom_tags@, key@),
                    assoc_lookup(self.custom_tags@, key@) == assoc_lookup(
                        self.custom_tags@.skip(i as int),
                        key@,
                    ),
                decreases n - i,
            {
                proof {
                    assert(self.custom_tags@.skip(i as int)[0] == self.custom_tags@[i as int]);
                    assert(self.custom_tags@.skip(i as int).skip(1) =~= self.custom_tags@.skip(
                        i + 1,
                    ));
                }
                let pair = &self.custom_tags[i];
                if str_eq(pair.0.as_str(), key) {
                    proof {
                        assert(assoc_lookup(self.custom_tags@.skip(i as int), key@) == Some(
                            self.custom_tags@[i as int].1@,
                        ));
                    }
                    return Some(pair.1.as_str());
                }
                i = i + 1;
            }
            proof {
                assert(self.custom_tags@.skip(n as int) =~= Seq::<(String, String)>::empty());
            }
            None
        }
    }
}

fn opt_as_str(o: &Option<String>) -> (r: Option<&str>)
    ensures
        (match r {
            Some(s) => Some(s@),
            None => None,
        }) == opt_view(o),
{
    match o {
        Some(s) => Some(s.as_str()),
        None => None,
    }
}

impl AudioMetadata {
    /// Empty metadata.
    pub fn new() -> (m: Self)
        ensures
            m.format_info.duration_ms == 0,
            m.format_info.sample_rate == 0,
            m.format_info.channels == 0,
            m.format_info.codec@ == Seq::<char>::empty(),
            m.format_info.bitrate_bps is None,
            m.format_info.total_frames is None,
            m.tags.title is None,
            m.tags.artist is None,
            m.tags.album is None,
            !m.quality.is_vbr,
            m.chapters@ == Seq::<Chapter>::empty(),
    {
        Self {
            format_info: FormatInfo {
                duration_ms: 0,
                sample_rate: 0,
                channels: 0,
                codec: String::new(),
                bitrate_bps: None,
                total_frames: None,
            },
            tags: AudioTags::new(),
            quality: QualityParams {
                bit_depth: None,
                is_vbr: false,
                compression_quality: None,
                instantaneous_bitrate_bps: None,
            },
            chapters: Vec::new(),
        }
    }

    /// Whether any of the three headline tags is present.
    pub fn has_tags(&self) -> (r: bool)
        ensures
            r == (self.tags.title is Some || self.tags.artist is Some || self.tags.album is Some),
    {
        self.tags.title.is_some() || self.tags.artist.is_some() || self.tags.album.is_some()
    }

    /// The headline-tag parts of the summary, each with its label and a
    /// trailing separator, absent tags contributing nothing.
    pub open spec fn spec_title_part(&self) -> Seq<char> {
        match &self.tags.title {
            Some(t) => "Title: "@ + t@ + ", "@,
            None => Seq::<char>::empty(),
        }
    }

    pub open spec fn spec_artist_part(&self) -> Seq<char> {
        match &self.tags.artist {
            Some(a) => "Artist: "@ + a@ + ", "@,
            None => Seq::<char>::empty(),
        }
    }

    pub open spec fn spec_album_part(&self) -> Seq<char> {
        match &self.tags.album {
            Some(a) => "Album: "@ + a@ + ", "@,
            None => Seq::<char>::empty(),
        }
    }

    /// The always-present format line of the summary.
    pub open spec fn spec_format_part(&self) -> Seq<char> {
        "Format: "@ + self.format_info.codec@ + " @ "@ + spec_dec(
            self.format_info.sample_rate as int,
        ) + "Hz, "@ + spec_dec(self.format_info.channels as int) + " ch, "@ + spec_dec(
            self.format_info.duration_ms as int,
        ) + " ms"@
    }

    pub open spec fn spec_bitrate_part(&self) -> Seq<char> {
        match self.format_info.bitrate_bps {
            Some(b) => ", Bitrate: "@ + spec_dec(b as int / 1000) + " kbps"@,
            None => Seq::<char>::empty(),
        }
    }

    pub open spec fn spec_vbr_part(&self) -> Seq<char> {
        if self.quality.is_vbr {
            ", VBR"@
        } else {
            Seq::<char>::empty()
        }
    }

    /// The one-line summary: the headline tags that exist, the format line,
    /// and the bitrate and variable-rate marks when known.
    pub open spec fn spec_summary(&self) -> Seq<char> {
        self.spec_title_part() + self.spec_artist_part() + self.spec_album_part()
            + self.spec_format_part() + self.spec_bitrate_part() + self.spec_vbr_part()
    }

    /// One line with the headline tags, the format, and the quality marks.
    #[verifier::rlimit(100)]
    pub fn summary(&self) -> (r: String)
        ensures
            r@ == self.spec_summary(),
    {
        let mut out = String::new();
        match &self.tags.title {
            Some(t) => {
                out.append("Title: ");
                out.append(t.as_str());
                out.append(", ");
            },
            None => {},
        }
        proof {
            assert(out@ =~= self.spec_title_part());
        }
        match &self.tags.artist {
            Some(a) => {
                out.append("Artist: ");
                out.append(a.as_str());
                out.append(", ");
            },
            None => {},
        }
        proof {
            assert(out@ =~= self.spec_title_part() + self.spec_artist_part());
        }
        match &self.tags.album {
            Some(a) => {
                out.append("Album: ");
                out.append(a.as_str());
                out.append(", ");
            },
            None => {},
        }
        proof {
            assert(out@ =~= self.spec_title_part() + self.spec_artist_part()
                + self.spec_album_part());
        }
        out.append("Format: ");
        out.append(self.format_info.codec.as_str());
        out.append(" @ ");
        out.append(u64_to_string(self.format_info.sample_rate as u64).as_str());
        out.append("Hz, ");
        out.append(u64_to_string(self.format_info.channels as u64).as_str());
        out.append(" ch, ");
        out.append(u64_to_string(self.format_info.duration_ms).as_str());
        out.append(" ms");
        proof {
            assert(out@ =~= self.spec_title_part() + self.spec_artist_part()
                + self.spec_album_part() + self.spec_format_part());
        }
        match self.format_info.bitrate_bps {
            Some(b) => {
                out.append(", Bitrate: ");
                out.append(u64_to_string(b as u64 / 1000).as_str());
                out.append(" kbps");
            },
            None => {},
        }
        proof {
            assert(out@ =~= self.spec_title_part() + self.spec_artist_part()
                + self.spec_album_part() + self.spec_format_part() + self.spec_bitrate_part());
        }
        if self.quality.is_vbr {
            out.append(", VBR");
        }
        proof {
            assert(out@ =~= self.spec_summary());
        }
        out
    }
}

} // verus!
