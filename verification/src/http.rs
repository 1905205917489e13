use vstd::prelude::*;
use vstd::arithmetic::div_mod::lemma_fundamental_div_mod;
use crate::errors::AudioError;

verus! {

#[verifier::external_type_specification]
#[verifier::external_body]
pub struct ExAgent(ureq::Agent);

/// Relies on ureq's agent builder: a reusable HTTP agent with connect and
/// read timeouts, a browser-style user agent, and redirect following.
#[verifier::external_body]
pub(crate) fn new_agent() -> ureq::Agent {
    ureq::AgentBuilder::new()
        .timeout_connect(std::time::Duration::from_secs(30))
        .timeout_read(std::time::Duration::from_secs(60))
        .user_agent("Mozilla/5.0 (compatible; RustAudioPlayer/1.0)")
        .redirects(10)
        .build()
}

/// Relies on ureq's `Agent::head`: performs a HEAD request and hands back the
/// bytes of the Content-Length header when the server sent one. The value
/// depends on the network, so nothing is promised of it.
#[verifier::external_body]
pub(crate) fn http_head_content_length(agent: &ureq::Agent, url: &str) -> Result<
    Option<Vec<u8>>,
    AudioError,
> {
    match agent.head(url).call() {
        Ok(response) => Ok(response.header("Content-Length").map(|s| s.as_bytes().to_vec())),
        Err(e) => Err(AudioError::NetworkError(format!("HEAD request failed: {}", e))),
    }
}

/// Relies on ureq's `Agent::get` with a one-byte range: the size-discovery
/// fallback. Hands back the bytes of the Content-Range and Content-Length
/// headers; the body is drained so the connection can be reused.
#[verifier::external_body]
pub(crate) fn http_probe_range_headers(agent: &ureq::Agent, url: &str) -> Result<
    (Option<Vec<u8>>, Option<Vec<u8>>),
    AudioError,
> {
    let response = agent.get(url).set("Range", "bytes=0-0").call().map_err(
        |e| AudioError::NetworkError(format!("Range request (fallback) failed: {}", e)),
    )?;
    let content_range = response.header("Content-Range").map(|s| s.as_bytes().to_vec());
    let content_length = response.header("Content-Length").map(|s| s.as_bytes().to_vec());
    let mut sink = Vec::new();
    let _ = std::io::Read::read_to_end(&mut response.into_reader(), &mut sink);
    Ok((content_range, content_length))
}

/// Relies on ureq's `Agent::get` with a `bytes=start-(end-1)` range header:
/// fetches one byte range and reads the response body whole. What comes back
/// depends on the network and the server, so nothing is promised of it.
#[verifier::external_body]
pub(crate) fn http_get_range(agent: &ureq::Agent, url: &str, start: u64, end: u64) -> Result<
    Vec<u8>,
    AudioError,
>
    requires
        start < end,
{
    let response = agent.get(url).set("Range", &format!("bytes={}-{}", start, end - 1)).call()
        .map_err(|e| AudioError::NetworkError(format!("Range request failed: {}", e)))?;
    let mut data = Vec::new();
    std::io::Read::read_to_end(&mut response.into_reader(), &mut data).map_err(
        |e| AudioError::IoError(format!("Failed to read response: {}", e)),
    )?;
    Ok(data)
}

/// ASCII decimal digit.
pub open spec fn is_ascii_digit(b: u8) -> bool {
    48 <= b <= 57
}

pub open spec fn all_digits(s: Seq<u8>) -> bool {
    forall|i: int| 0 <= i < s.len() ==> is_ascii_digit(#[trigger] s[i])
}

/// The number the digit string denotes.
pub open spec fn digits_value(s: Seq<u8>) -> int
    decreases s.len(),
{
    if s.len() == 0 {
        0
    } else {
        digits_value(s.take(s.len() - 1)) * 10 + (s.last() - 48)
    }
}

proof fn lemma_digits_value_nonneg(s: Seq<u8>)
    requires
        all_digits(s),
    ensures
        digits_value(s) >= 0,
    decreases s.len(),
{
    if s.len() > 0 {
        assert(all_digits(s.take(s.len() - 1)));
        lemma_digits_value_nonneg(s.take(s.len() - 1));
    }
}

proof fn lemma_digits_value_monotone(s: Seq<u8>, i: int)
    requires
        all_digits(s),
        0 <= i <= s.len(),
    ensures
        digits_value(s) >= digits_value(s.take(i)),
    decreases s.len() - i,
{
    if i < s.len() {
        lemma_digits_value_monotone(s, i + 1);
        assert(s.take(i + 1).take(i) =~= s.take(i));
        assert(digits_value(s.take(i + 1)) == digits_value(s.take(i)) * 10 + (s[i] - 48));
        lemma_digits_value_nonneg(s.take(i));
        assert(digits_value(s.take(i)) * 10 >= digits_value(s.take(i))) by (nonlinear_arith)
            requires
                digits_value(s.take(i)) >= 0,
        ;
    } else {
        assert(s.take(i) =~= s);
    }
}

/// Parses an unsigned decimal number from header bytes. Succeeds exactly on
/// a nonempty, all-digit string whose value fits; leading plus signs,
/// spaces, or any other byte are rejected.
pub fn parse_u64_ascii(s: &[u8]) -> (r: Option<u64>)
    ensures
        r is Some <==> s@.len() > 0 && all_digits(s@) && digits_value(s@) <= u64::MAX,
        r matches Some(v) ==> v == digits_value(s@),
{
    let n = s.len();
    if n == 0 {
        return None;
    }
    let mut acc: u64 = 0;
    let mut i: usize = 0;
    proof {
        assert(s@.take(0) =~= Seq::<u8>::empty());
    }
    while i < n
        invariant
            n == s@.len(),
            0 < n,
            i <= n,
            all_digits(s@.take(i as int)),
            acc == digits_value(s@.take(i as int)),
        decreases n - i,
    {
        let b = s[i];
        if b < 48 || b > 57 {
            proof {
                assert(!is_ascii_digit(s@[i as int]));
            }
            return None;
        }
        let d = (b - 48) as u64;
        proof {
            assert(s@.take(i + 1).take(i as int) =~= s@.take(i as int));
            assert(s@.take(i + 1).last() == s@[i as int]);
            assert(digits_value(s@.take(i + 1)) == acc * 10 + d);
        }
        if acc > (u64::MAX - d) / 10 {
            proof {
                lemma_fundamental_div_mod((u64::MAX - d) as int, 10);
                assert(acc * 10 >= ((u64::MAX - d) / 10 + 1) * 10) by (nonlinear_arith)
                    requires
                        acc >= (u64::MAX - d) / 10 + 1,
                ;
                assert(digits_value(s@.take(i + 1)) > u64::MAX);
                assert(all_digits(s@.take(i + 1)));
                if all_digits(s@) {
                    lemma_digits_value_monotone(s@, i + 1);
                }
            }
            return None;
        }
        proof {
            lemma_fundamental_div_mod((u64::MAX - d) as int, 10);
            assert(acc * 10 <= ((u64::MAX - d) / 10) * 10) by (nonlinear_arith)
                requires
                    acc <= (u64::MAX - d) / 10,
            ;
        }
        acc = acc * 10 + d;
        i = i + 1;
    }
    proof {
        assert(s@.take(n as int) =~= s@);
    }
    Some(acc)
}

/// Index just past the last `/` in the header, or zero when it has none: the
/// total size in a Content-Range header stands after its last slash.
pub open spec fn spec_after_last_slash(s: Seq<u8>) -> int {
    if (exists|i: int| 0 <= i < s.len() && s[i] == 47u8) {
        (choose|i: int|
            0 <= i < s.len() && s[i] == 47u8 && (forall|j: int|
                i < j < s.len() ==> s[j] != 47u8)) + 1
    } else {
        0
    }
}

/// The total size a Content-Range header of the shape `bytes 0-0/12345`
/// reports: the decimal number after its last slash, parsed exactly as
/// `parse_u64_ascii` parses it. A header without a slash is read whole.
pub fn parse_total_from_content_range(s: &[u8]) -> (r: Option<u64>)
    ensures
        ({
            let tail = s@.skip(spec_after_last_slash(s@));
            &&& (r is Some <==> tail.len() > 0 && all_digits(tail) && digits_value(tail)
                <= u64::MAX)
            &&& (r matches Some(v) ==> v == digits_value(tail))
        }),
{
    let n = s.len();
    let mut start: usize = 0;
    let mut i: usize = 0;
    while i < n
        invariant
            n == s@.len(),
            i <= n,
            start <= i,
            if (exists|k: int| 0 <= k < i && s@[k] == 47u8) {
                start >= 1 && s@[start - 1] == 47u8 && (forall|j: int|
                    start <= j < i ==> s@[j] != 47u8)
            } else {
                start == 0
            },
        decreases n - i,
    {
        if s[i] == 47 {
            start = i + 1;
        }
        i = i + 1;
    }
    proof {
        if exists|k: int| 0 <= k < n && s@[k] == 47u8 {
            assert(s@[start - 1] == 47u8 && (forall|j: int| start <= j < n ==> s@[j] != 47u8));
            let w = choose|w: int|
                0 <= w < s@.len() && s@[w] == 47u8 && (forall|j: int|
                    w < j < s@.len() ==> s@[j] != 47u8);
            assert(w == start - 1);
        }
        assert(spec_after_last_slash(s@) == start);
    }
    let tail = vstd::slice::slice_subrange(s, start, n);
    proof {
        assert(tail@ =~= s@.skip(start as int));
    }
    parse_u64_ascii(tail)
}

/// Least size of one ranged fetch: requests are widened to this chunk so a
/// probing demuxer does not pay one round-trip per small read.
pub const CHUNK_SIZE: usize = 262144;

/// Where a stream seek counts from.
#[derive(Debug, Clone, Copy, PartialEq, Eq, Structural)]
pub enum SeekFrom {
    /// From the start of the stream.
    Start(u64),
    /// From the current position.
    Current(i64),
    /// From the end of the stream; usable only when the total size is known.
    End(i64),
}

/// The absolute offset a seek names, before any range checking; unknown when
/// it counts from the end of a stream whose size is unknown.
pub open spec fn seek_target(position: int, total: Option<u64>, from: SeekFrom) -> Option<int> {
    match from {
        SeekFrom::Start(o) => Some(o as int),
        SeekFrom::Current(d) => Some(position + d),
        SeekFrom::End(d) => match total {
            Some(t) => Some(t + d),
            None => None,
        },
    }
}

/// End of the byte window one uncovered fetch requests: the asked size,
/// widened to at least one chunk, clamped to the known total size. At or
/// past the known end the window collapses to nothing.
pub open spec fn spec_fetch_end(offset: u64, size: usize, total: Option<u64>) -> int {
    let chunk: int = if size > CHUNK_SIZE {
        size as int
    } else {
        CHUNK_SIZE as int
    };
    let widened: int = if offset + chunk <= u64::MAX {
        offset + chunk
    } else {
        u64::MAX as int
    };
    match total {
        Some(t) => if widened < t {
            widened
        } else {
            t as int
        },
        None => widened,
    }
}

/// Computes the window an uncovered fetch asks the network for: requests
/// are widened to `max(size, CHUNK_SIZE)` bytes and clamped to the known
/// end of the file.
pub fn fetch_end(offset: u64, size: usize, total: Option<u64>) -> (end: u64)
    ensures
        end == spec_fetch_end(offset, size, total),
{
    let chunk: u64 = if size > CHUNK_SIZE {
        size as u64
    } else {
        CHUNK_SIZE as u64
    };
    let widened: u64 = if chunk > u64::MAX - offset {
        u64::MAX
    } else {
        offset + chunk
    };
    match total {
        Some(t) => {
            if widened < t {
                widened
            } else {
                t
            }
        },
        None => widened,
    }
}

/// On-demand HTTP range source: reads fetch byte ranges as needed, widened
/// to chunks and cached, so playback can start before the file has
/// downloaded. A read at or past the end returns no bytes, not an error.
pub struct HttpRangeSource {
    url: String,
    agent: ureq::Agent,
    total_size: Option<u64>,
    cache: crate::cache::RangeCache,
    position: u64,
}

impl HttpRangeSource {
    pub closed spec fn spec_total_size(&self) -> Option<u64> {
        self.total_size
    }

    pub closed spec fn spec_position(&self) -> int {
        self.position as int
    }

    pub closed spec fn spec_cache(&self) -> crate::cache::RangeCache {
        self.cache
    }

    /// Whether the cache already holds every byte of the range, so a fetch
    /// of it issues no network call.
    pub open spec fn spec_covered(&self, offset: int, len: int) -> bool {
        self.spec_cache().spec_covered(offset, len)
    }

    /// Opens the source: builds the agent and learns the total size, first
    /// by a HEAD request, then, if that fails, from the Content-Range answer
    /// to a one-byte ranged fetch. A missing Content-Length after a
    /// successful HEAD is tolerated; a failed HEAD with no usable fallback
    /// header is a network error.
    pub fn new(url: String) -> (r: Result<Self, AudioError>)
        ensures
            r matches Ok(s) ==> s.spec_position() == 0 && s.spec_cache().spec_entries()
                == Seq::<crate::cache::CacheEntry>::empty(),
    {
        let agent = new_agent();
        let total_size = match http_head_content_length(&agent, url.as_str()) {
            Ok(header) => {
                match header {
                    Some(bytes) => parse_u64_ascii(bytes.as_slice()),
                    None => None,
                }
            },
            Err(_) => {
                let (content_range, content_length) = http_probe_range_headers(
                    &agent,
                    url.as_str(),
                )?;
                let from_range = match content_range {
                    Some(bytes) => parse_total_from_content_range(bytes.as_slice()),
                    None => None,
                };
                let total = match from_range {
                    Some(t) => Some(t),
                    None => match content_length {
                        Some(bytes) => parse_u64_ascii(bytes.as_slice()),
                        None => None,
                    },
                };
                match total {
                    Some(t) => Some(t),
                    None => {
                        return Err(
                            AudioError::NetworkError(
                                String::from_str("failed to determine content length"),
                            ),
                        );
                    },
                }
            },
        };
        Ok(
            Self {
                url,
                agent,
                total_size,
                cache: crate::cache::RangeCache::new(crate::cache::CACHE_MAX_BYTES),
                position: 0,
            },
        )
    }

    /// Total size of the remote file, when the server reported one.
    pub fn total_size(&self) -> (r: Option<u64>)
        ensures
            r == self.spec_total_size(),
    {
        self.total_size
    }

    /// Serves `[offset, offset + size)`, from the cache when a cached chunk
    /// covers it — the cache is then left untouched and no network call is
    /// made — and otherwise by fetching the widened window `fetch_end`
    /// names, caching the whole chunk, and answering only the requested
    /// slice. Past the known end the window is empty and it answers no
    /// bytes, without an error.
    pub fn fetch_range(&mut self, offset: u64, size: usize) -> (r: Result<Vec<u8>, AudioError>)
        ensures
            final(self).spec_total_size() == old(self).spec_total_size(),
            final(self).spec_position() == old(self).spec_position(),
            final(self).spec_cache().spec_cap() == old(self).spec_cache().spec_cap(),
            old(self).spec_covered(offset as int, size as int) ==> (r is Ok)
                && final(self).spec_cache() == old(self).spec_cache(),
            old(self).spec_covered(offset as int, size as int) ==> (forall|file: Seq<u8>|
                crate::cache::consistent_with(old(self).spec_cache().spec_entries(), file)
                    && offset + size <= file.len() ==> (r matches Ok(d) ==> d@ == file.subrange(
                    offset as int,
                    offset + size,
                ))),
            !old(self).spec_covered(offset as int, size as int) && spec_fetch_end(
                offset,
                size,
                old(self).spec_total_size(),
            ) <= offset ==> (r matches Ok(d) && d@.len() == 0) && final(self).spec_cache() == old(
                self,
            ).spec_cache(),
            !old(self).spec_covered(offset as int, size as int) && spec_fetch_end(
                offset,
                size,
                old(self).spec_total_size(),
            ) > offset && (r is Ok) ==> ({
                let entries = final(self).spec_cache().spec_entries();
                &&& entries.len() >= 1
                &&& entries.last().offset == offset
                &&& (r matches Ok(d) ==> d@ == entries.last().data@.take(
                    if size <= entries.last().data@.len() {
                        size as int
                    } else {
                        entries.last().data@.len() as int
                    },
                ))
                &&& final(self).spec_cache().spec_total_bytes() <= final(self).spec_cache().spec_cap() + entries.last().data@.len()
                &&& exists|k: int|
                    0 <= k <= old(self).spec_cache().spec_entries().len() && entries == old(
                        self,
                    ).spec_cache().spec_entries().push(entries.last()).skip(k)
            }),
            !old(self).spec_covered(offset as int, size as int) && size > 0 ==> (r matches Ok(d)
                && d@.len() == size ==> final(self).spec_covered(offset as int, size as int)),
            r matches Ok(d) ==> d@.len() <= size,
            r is Err ==> final(self).spec_cache() == old(self).spec_cache(),
    {
        match self.cache.lookup(offset, size) {
            Some(data) => {
                return Ok(data);
            },
            None => {},
        }
        let end = fetch_end(offset, size, self.total_size);
        if end <= offset {
            return Ok(Vec::new());
        }
        let data = match http_get_range(&self.agent, self.url.as_str(), offset, end) {
            Ok(d) => d,
            Err(e) => {
                return Err(e);
            },
        };
        let keep = if size < data.len() {
            size
        } else {
            data.len()
        };
        let r = crate::cache::copy_range(&data, 0, keep);
        self.cache.insert(offset, data);
        proof {
            let entries = self.cache.spec_entries();
            assert(entries.last().offset == offset);
            assert(r@ == entries.last().data@.take(keep as int));
            if keep == size && size > 0 {
                assert(crate::cache::entry_covers(
                    &entries[entries.len() - 1],
                    offset as int,
                    size as int,
                ));
            }
        }
        Ok(r)
    }

    /// Whether an in-range read of `[offset, offset + len)` can go ahead:
    /// something was asked for and the offset lies before the known end.
    pub open spec fn spec_read_in_range(&self, offset: int, len: int) -> bool {
        &&& len > 0
        &&& match self.spec_total_size() {
            Some(t) => offset < t,
            None => true,
        }
    }

    /// Reads up to `len` bytes at `offset`. At or past the known end, or
    /// for an empty request, it answers no bytes and leaves the source
    /// untouched; a covered in-range read is served from the cache, which
    /// is then left as it was and no network call is made.
    pub fn read_at(&mut self, offset: u64, len: usize) -> (r: Result<Vec<u8>, AudioError>)
        ensures
            final(self).spec_total_size() == old(self).spec_total_size(),
            final(self).spec_position() == old(self).spec_position(),
            r matches Ok(d) ==> d@.len() <= len,
            (old(self).spec_total_size() matches Some(t) && offset >= t) || len == 0 ==> (
            r matches Ok(d) && d@.len() == 0) && final(self).spec_cache() == old(self).spec_cache(),
            old(self).spec_read_in_range(offset as int, len as int) && old(self).spec_covered(
                offset as int,
                len as int,
            ) ==> (r is Ok) && final(self).spec_cache() == old(self).spec_cache(),
            old(self).spec_read_in_range(offset as int, len as int) && old(self).spec_covered(
                offset as int,
                len as int,
            ) ==> (forall|file: Seq<u8>|
                crate::cache::consistent_with(old(self).spec_cache().spec_entries(), file)
                    && offset + len <= file.len() ==> (r matches Ok(d) ==> d@ == file.subrange(
                    offset as int,
                    offset + len,
                ))),
            r is Err ==> final(self).spec_cache() == old(self).spec_cache(),
    {
        if len == 0 {
            return Ok(Vec::new());
        }
        match self.total_size {
            Some(t) => {
                if offset >= t {
                    return Ok(Vec::new());
                }
            },
            None => {},
        }
        self.fetch_range(offset, len)
    }

    /// Reads up to `len` bytes at the current position and advances it by
    /// what was read; an advance past what an offset can hold stops there.
    /// At or past the known end it answers no bytes and moves nothing, and
    /// a covered in-range read leaves the cache untouched and returns, for
    /// any remote file the cache is consistent with, that file's bytes.
    pub fn read(&mut self, len: usize) -> (r: Result<Vec<u8>, AudioError>)
        ensures
            final(self).spec_total_size() == old(self).spec_total_size(),
            r matches Ok(d) ==> d@.len() <= len && final(self).spec_position() == if old(
                self,
            ).spec_position() + d@.len() <= u64::MAX {
                old(self).spec_position() + d@.len()
            } else {
                u64::MAX as int
            },
            r is Err ==> final(self).spec_position() == old(self).spec_position() && final(self).spec_cache() == old(self).spec_cache(),
            (old(self).spec_total_size() matches Some(t) && old(self).spec_position() >= t) || len
                == 0 ==> (r matches Ok(d) && d@.len() == 0) && final(self).spec_position() == old(
                self,
            ).spec_position() && final(self).spec_cache() == old(self).spec_cache(),
            old(self).spec_read_in_range(old(self).spec_position(), len as int) && old(
                self,
            ).spec_covered(old(self).spec_position(), len as int) ==> (r is Ok) && final(self).spec_cache() == old(self).spec_cache(),
            old(self).spec_read_in_range(old(self).spec_position(), len as int) && old(
                self,
            ).spec_covered(old(self).spec_position(), len as int) ==> (forall|file: Seq<u8>|
                crate::cache::consistent_with(old(self).spec_cache().spec_entries(), file) && old(
                    self,
                ).spec_position() + len <= file.len() ==> (r matches Ok(d) ==> d@ == file.subrange(
                    old(self).spec_position(),
                    old(self).spec_position() + len,
                ))),
    {
        let offset = self.position;
        match self.read_at(offset, len) {
            Ok(data) => {
                let n = data.len() as u64;
                self.position = if n > u64::MAX - self.position {
                    u64::MAX
                } else {
                    self.position + n
                };
                Ok(data)
            },
            Err(e) => Err(e),
        }
    }

    /// Moves the logical position. A target before the start of the stream,
    /// past what an offset can hold, or counted from the end of a stream of
    /// unknown size, is refused and the position is left unchanged.
    pub fn seek(&mut self, from: SeekFrom) -> (r: Result<u64, AudioError>)
        ensures
            final(self).spec_total_size() == old(self).spec_total_size(),
            final(self).spec_cache() == old(self).spec_cache(),
            match seek_target(old(self).spec_position(), old(self).spec_total_size(), from) {
                Some(t) => if 0 <= t <= u64::MAX {
                    (r matches Ok(p) && p == t) && final(self).spec_position() == t
                } else {
                    (r is Err) && final(self).spec_position() == old(self).spec_position()
                },
                None => (r is Err) && final(self).spec_position() == old(self).spec_position(),
            },
    {
        let target: i128 = match from {
            SeekFrom::Start(o) => o as i128,
            SeekFrom::Current(d) => self.position as i128 + d as i128,
            SeekFrom::End(d) => {
                match self.total_size {
                    Some(t) => t as i128 + d as i128,
                    None => {
                        return Err(
                            AudioError::IoError(
                                String::from_str("cannot seek from end: total size unknown"),
                            ),
                        );
                    },
                }
            },
        };
        if target < 0 {
            return Err(AudioError::IoError(String::from_str("cannot seek to negative position")));
        }
        if target > u64::MAX as i128 {
            return Err(AudioError::IoError(String::from_str("seek position out of range")));
        }
        self.position = target as u64;
        Ok(self.position)
    }
}

} // verus!
