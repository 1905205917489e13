use vstd::prelude::*;
use vstd::string::StringExecFns;
use vstd::string::StringSliceAdditionalSpecFns;

verus! {

/// Chapter marker of a podcast episode.
#[derive(Debug, Clone)]
pub struct Chapter {
    /// Chapter start in milliseconds.
    pub start_time_ms: i64,
    pub title: String,
    pub image_url: Option<String>,
    pub url: Option<String>,
}

/// One episode of a parsed feed.
#[derive(Debug, Clone)]
pub struct RssEpisode {
    /// Stable identifier derived from the feed URL and the episode title.
    pub id: String,
    pub title: String,
    pub description: String,
    /// Where the audio lives.
    pub audio_url: String,
    /// Publication time as a Unix timestamp in milliseconds.
    pub publish_date: i64,
    /// Episode length in milliseconds, when the feed reports one.
    pub duration: Option<i64>,
    pub image_url: Option<String>,
    pub chapters: Vec<Chapter>,
}

/// A parsed podcast feed.
#[derive(Debug, Clone)]
pub struct PodcastFeed {
    /// Stable identifier derived from the feed URL.
    pub id: String,
    pub title: String,
    pub description: String,
    pub artwork_url: Option<String>,
    /// The URL the feed was fetched from.
    pub feed_url: String,
    /// When the feed was parsed, as a Unix timestamp in milliseconds.
    pub last_updated: i64,
    pub episodes: Vec<RssEpisode>,
}

/// The 64-bit FNV-1a offset basis.
pub const FNV_OFFSET_BASIS: u64 = 0xcbf29ce484222325;

/// The 64-bit FNV-1a prime.
pub const FNV_PRIME: u64 = 0x100000001b3;

/// 64-bit FNV-1a over a byte sequence, folded from the front.
pub open spec fn spec_fnv1a(bytes: Seq<u8>, acc: u64) -> u64
    decreases bytes.len(),
{
    if bytes.len() == 0 {
        acc
    } else {
        spec_fnv1a(bytes.skip(1), (acc ^ (bytes[0] as u64)).wrapping_mul(FNV_PRIME))
    }
}

/// Lowercase hexadecimal digit as a character.
pub open spec fn spec_hex_digit_char(d: int) -> char {
    if d < 10 {
        crate::meta::spec_digit_char(d)
    } else if d == 10 {
        'a'
    } else if d == 11 {
        'b'
    } else if d == 12 {
        'c'
    } else if d == 13 {
        'd'
    } else if d == 14 {
        'e'
    } else {
        'f'
    }
}

/// The lowercase hexadecimal form of a nonnegative number, no leading
/// zeros except for zero itself.
pub open spec fn spec_hex(n: int) -> Seq<char>
    decreases n,
{
    if n < 16 {
        seq![spec_hex_digit_char(n)]
    } else {
        spec_hex(n / 16).push(spec_hex_digit_char(n % 16))
    }
}

fn hex_digit_str(d: u64) -> (r: &'static str)
    requires
        d < 16,
    ensures
        r@ == seq![spec_hex_digit_char(d as int)],
{
    proof {
        reveal_strlit("0");
        reveal_strlit("1");
        reveal_strlit("2");
        reveal_strlit("3");
        reveal_strlit("4");
        reveal_strlit("5");
        reveal_strlit("6");
        reveal_strlit("7");
        reveal_strlit("8");
        reveal_strlit("9");
        reveal_strlit("a");
        reveal_strlit("b");
        reveal_strlit("c");
        reveal_strlit("d");
        reveal_strlit("e");
        reveal_strlit("f");
    }
    let s: &'static str = if d == 0 {
        "0"
    } else if d == 1 {
        "1"
    } else if d == 2 {
        "2"
    } else if d == 3 {
        "3"
    } else if d == 4 {
        "4"
    } else if d == 5 {
        "5"
    } else if d == 6 {
        "6"
    } else if d == 7 {
        "7"
    } else if d == 8 {
        "8"
    } else if d == 9 {
        "9"
    } else if d == 10 {
        "a"
    } else if d == 11 {
        "b"
    } else if d == 12 {
        "c"
    } else if d == 13 {
        "d"
    } else if d == 14 {
        "e"
    } else {
        "f"
    };
    proof {
        assert(s@ =~= seq![spec_hex_digit_char(d as int)]);
    }
    s
}

/// Formats a number in lowercase hexadecimal.
pub fn u64_to_hex_string(n: u64) -> (r: String)
    ensures
        r@ == spec_hex(n as int),
    decreases n,
{
    if n < 16 {
        String::from_str(hex_digit_str(n))
    } else {
        let prefix = u64_to_hex_string(n / 16);
        let r = prefix.concat(hex_digit_str(n % 16));
        proof {
            assert(r@ =~= spec_hex(n as int / 16).push(spec_hex_digit_char(n as int % 16)));
        }
        r
    }
}

/// A stable identifier for a feed or an episode: the 64-bit FNV-1a hash of
/// the input's bytes, written in lowercase hexadecimal. The same input
/// always yields the same identifier.
pub fn generate_id(input: &str) -> (r: String)
    ensures
        r@ == spec_hex(spec_fnv1a(input.spec_bytes(), FNV_OFFSET_BASIS) as int),
{
    let bytes = input.as_bytes();
    let n = bytes.len();
    let mut acc: u64 = FNV_OFFSET_BASIS;
    let mut i: usize = 0;
    proof {
        assert(bytes@.skip(0) =~= bytes@);
    }
    while i < n
        invariant
            n == bytes@.len(),
            i <= n,
            spec_fnv1a(bytes@, FNV_OFFSET_BASIS) == spec_fnv1a(bytes@.skip(i as int), acc),
        decreases n - i,
    {
        proof {
            assert(bytes@.skip(i as int)[0] == bytes@[i as int]);
            assert(bytes@.skip(i as int).skip(1) =~= bytes@.skip(i + 1));
        }
        acc = (acc ^ (bytes[i] as u64)).wrapping_mul(FNV_PRIME);
        i = i + 1;
    }
    proof {
        assert(bytes@.skip(n as int) =~= Seq::<u8>::empty());
    }
    u64_to_hex_string(acc)
}

} // verus!
