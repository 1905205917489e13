use vstd::prelude::*;
use vstd::string::StrSliceExecFns;
use crate::errors::AudioError;
use crate::meta::chars_eq_nocase;
use crate::meta::char_eq_nocase;
use crate::mp4::spec_moov_at_start;

verus! {

/// How many buffered bytes the fast-start probe wants before it judges the
/// leading boxes.
pub const MOOV_PROBE_MIN_BYTES: usize = 8192;

/// How many probe rounds are tried before the stream is assumed fast-start.
pub const MOOV_PROBE_MAX_ATTEMPTS: u32 = 20;

/// Whether `pat` occurs in `s` at position `i`, up to ASCII case.
pub open spec fn matches_at_nocase(s: Seq<char>, pat: Seq<char>, i: int) -> bool {
    0 <= i && i + pat.len() <= s.len() && chars_eq_nocase(s.subrange(i, i + pat.len()), pat)
}

/// Whether `pat` occurs somewhere in `s`, up to ASCII case.
pub open spec fn contains_nocase(s: Seq<char>, pat: Seq<char>) -> bool {
    exists|i: int| #[trigger] matches_at_nocase(s, pat, i)
}

/// Whether `pat` occurs in `s`, compared without regard to ASCII case.
fn contains_pat_nocase(s: &str, pat: &str) -> (r: bool)
    ensures
        r == contains_nocase(s@, pat@),
{
    let slen = s.unicode_len();
    let plen = pat.unicode_len();
    if plen > slen {
        proof {
            assert forall|i: int| !matches_at_nocase(s@, pat@, i) by {}
        }
        return false;
    }
    let mut i: usize = 0;
    while i <= slen - plen
        invariant
            slen == s@.len(),
            plen == pat@.len(),
            plen <= slen,
            i <= slen - plen + 1,
            forall|k: int| 0 <= k < i ==> !matches_at_nocase(s@, pat@, k),
        decreases slen + 1 - i,
    {
        let mut j: usize = 0;
        let mut all = true;
        while j < plen
            invariant
                slen == s@.len(),
                plen == pat@.len(),
                i + plen <= slen,
                j <= plen,
                all ==> (forall|m: int|
                    0 <= m < j ==> char_eq_nocase(#[trigger] s@[i + m], pat@[m])),
                !all ==> j == plen && (exists|m: int|
                    0 <= m < plen && !char_eq_nocase(#[trigger] s@[i + m], pat@[m])),
            decreases plen - j,
        {
            if !crate::meta::char_eq_nocase_exec(s.get_char(i + j), pat.get_char(j)) {
                all = false;
                proof {
                    assert(!char_eq_nocase(s@[i + j], pat@[j as int]));
                }
                j = plen;
            } else {
                proof {
                    assert forall|m: int| 0 <= m < j + 1 implies char_eq_nocase(
                        #[trigger] s@[i + m],
                        pat@[m],
                    ) by {
                        if m == j {
                            assert(char_eq_nocase(s@[(i + j) as int], pat@[j as int]));
                        }
                    }
                }
                j = j + 1;
            }
        }
        if all {
            proof {
                assert(s@.subrange(i as int, i + plen).len() == plen);
                assert forall|m: int| 0 <= m < plen implies char_eq_nocase(
                    #[trigger] s@.subrange(i as int, i + plen)[m],
                    pat@[m],
                ) by {
                    assert(s@.subrange(i as int, i + plen)[m] == s@[i + m]);
                }
                assert(matches_at_nocase(s@, pat@, i as int));
            }
            return true;
        }
        proof {
            assert(!matches_at_nocase(s@, pat@, i as int));
        }
        i = i + 1;
    }
    proof {
        assert forall|k: int| !matches_at_nocase(s@, pat@, k) by {
            if 0 <= k <= slen - plen {
                assert(k < i);
            }
        }
    }
    false
}

/// Whether the URL names an MP4-family container — an `.m4a`, `.mp4` or
/// `.m4b` anywhere in it, case disregarded — which needs the smart source,
/// since its metadata box may sit at the file's end.
pub fn is_m4a_format(url: &str) -> (r: bool)
    ensures
        r == (contains_nocase(url@, ".m4a"@) || contains_nocase(url@, ".mp4"@) || contains_nocase(
            url@,
            ".m4b"@,
        )),
{
    contains_pat_nocase(url, ".m4a") || contains_pat_nocase(url, ".mp4") || contains_pat_nocase(
        url,
        ".m4b",
    )
}

/// Least prebuffer before a progressive download hands off to playback.
pub const PREBUFFER_MIN_BYTES: u64 = 5242880;

/// Cap on the prebuffer, to bound the wait for large files.
pub const PREBUFFER_MAX_BYTES: u64 = 15728640;

/// How many bytes must arrive before a progressive download hands off to
/// playback: a file that must download whole gets no threshold at all;
/// anything else prebuffers thirty percent of the file, held between the
/// floor and the cap, or the floor alone when the size is unknown.
pub fn prebuffer_target(content_length: u64, full_download: bool) -> (r: u64)
    ensures
        full_download ==> r == u64::MAX,
        !full_download && content_length == 0 ==> r == PREBUFFER_MIN_BYTES,
        !full_download && content_length > 0 ==> r == ({
            let thirty = content_length as int * 3 / 10;
            if thirty < PREBUFFER_MIN_BYTES {
                PREBUFFER_MIN_BYTES as int
            } else if thirty > PREBUFFER_MAX_BYTES {
                PREBUFFER_MAX_BYTES as int
            } else {
                thirty
            }
        }),
{
    if full_download {
        u64::MAX
    } else if content_length == 0 {
        PREBUFFER_MIN_BYTES
    } else {
        let thirty = content_length as u128 * 3 / 10;
        if thirty < PREBUFFER_MIN_BYTES as u128 {
            PREBUFFER_MIN_BYTES
        } else if thirty > PREBUFFER_MAX_BYTES as u128 {
            PREBUFFER_MAX_BYTES
        } else {
            thirty as u64
        }
    }
}

/// Powers of two.
pub open spec fn spec_pow2(n: nat) -> int
    decreases n,
{
    if n == 0 {
        1
    } else {
        2 * spec_pow2((n - 1) as nat)
    }
}

proof fn lemma_pow2_monotone(m: nat, n: nat)
    requires
        m <= n,
    ensures
        1 <= spec_pow2(m) <= spec_pow2(n),
    decreases n,
{
    if m < n {
        lemma_pow2_monotone(m, (n - 1) as nat);
    } else if n > 0 {
        lemma_pow2_monotone((m - 1) as nat, (n - 1) as nat);
    }
}

/// The retry schedule for a failed plain request: half a second before the
/// first retry, doubled before each further one.
pub fn retry_backoff_ms(attempt: u32) -> (r: u64)
    requires
        1 <= attempt <= 32,
    ensures
        r == 500 * spec_pow2((attempt - 1) as nat),
{
    let mut factor: u64 = 1;
    let mut i: u32 = 1;
    while i < attempt
        invariant
            1 <= i <= attempt <= 32,
            factor == spec_pow2((i - 1) as nat),
        decreases attempt - i,
    {
        proof {
            lemma_pow2_monotone((i - 1) as nat, 30);
            assert(spec_pow2(30) == 0x4000_0000) by {
                reveal_with_fuel(spec_pow2, 31);
            }
        }
        factor = factor * 2;
        i = i + 1;
    }
    proof {
        lemma_pow2_monotone((attempt - 1) as nat, 31);
        assert(spec_pow2(31) == 0x8000_0000) by {
            reveal_with_fuel(spec_pow2, 32);
        }
    }
    500 * factor
}

/// Size of one chunk of a sequential whole-file download.
pub const DOWNLOAD_CHUNK_BYTES: u64 = 262144;

/// The next window of a sequential whole-file download: one chunk starting
/// at `pos`, clamped to the file end; nothing once `pos` has reached it.
pub fn next_download_chunk(pos: u64, total: u64) -> (r: Option<(u64, u64)>)
    ensures
        pos >= total ==> r is None,
        pos < total ==> r == Some(
            (
                pos,
                if total - pos <= DOWNLOAD_CHUNK_BYTES {
                    total
                } else {
                    (pos + DOWNLOAD_CHUNK_BYTES) as u64
                },
            ),
        ),
{
    if pos >= total {
        None
    } else if total - pos <= DOWNLOAD_CHUNK_BYTES {
        Some((pos, total))
    } else {
        Some((pos, pos + DOWNLOAD_CHUNK_BYTES))
    }
}

/// One round of the fast-start probe: decided, or wait for more bytes.
#[derive(Debug, Clone, Copy, PartialEq, Eq, Structural)]
pub enum ProbeDecision {
    /// The layout is settled; whether the file streams in fast-start order.
    Decided { fast_start: bool },
    /// Not enough bytes yet: sleep briefly and probe again.
    Wait,
}

/// One poll of the one-shot per-load decision: with enough buffered bytes
/// the leading boxes are judged; a read failure or running out of attempts
/// assumes fast start, as the safe fallback; otherwise the probe waits.
pub fn probe_step(attempts: u32, read_result: &Result<Vec<u8>, AudioError>) -> (d: ProbeDecision)
    ensures
        d == match read_result {
            Result::Err(_) => ProbeDecision::Decided { fast_start: true },
            Result::Ok(data) => {
                if data@.len() >= MOOV_PROBE_MIN_BYTES {
                    ProbeDecision::Decided { fast_start: spec_moov_at_start(data@, 0) }
                } else if attempts + 1 >= MOOV_PROBE_MAX_ATTEMPTS {
                    ProbeDecision::Decided { fast_start: true }
                } else {
                    ProbeDecision::Wait
                }
            },
        },
{
    match read_result {
        Ok(data) => {
            if data.len() >= MOOV_PROBE_MIN_BYTES {
                ProbeDecision::Decided { fast_start: crate::mp4::has_moov_at_start(data.as_slice()) }
            } else if attempts >= MOOV_PROBE_MAX_ATTEMPTS - 1 {
                ProbeDecision::Decided { fast_start: true }
            } else {
                ProbeDecision::Wait
            }
        },
        Err(_) => ProbeDecision::Decided { fast_start: true },
    }
}

/// Which source a settled probe keeps for the session; the decision is
/// never re-evaluated during it.
#[derive(Debug, Clone, Copy, PartialEq, Eq, Structural)]
pub enum SourceChoice {
    /// Keep the plain streaming download: the file is fast-start, or the
    /// relocation failed and the plain stream is the best effort left.
    KeepPlainStream,
    /// Switch to the virtual fast-start source and drop the plain stream.
    UseVirtual,
}

/// The selection rule: a fast-start file keeps its plain stream; a
/// slow-start one switches to the virtual source exactly when relocation
/// succeeded, and otherwise falls back to the plain stream.
pub fn choose_m4a_source(fast_start: bool, relocation_ok: bool) -> (c: SourceChoice)
    ensures
        c == if !fast_start && relocation_ok {
            SourceChoice::UseVirtual
        } else {
            SourceChoice::KeepPlainStream
        },
{
    if !fast_start && relocation_ok {
        SourceChoice::UseVirtual
    } else {
        SourceChoice::KeepPlainStream
    }
}

} // verus!
