use vstd::prelude::*;
use crate::cache::CacheEntry;
use crate::cache::RangeCache;
use crate::cache::consistent_with;
use crate::cache::copy_range;
use crate::errors::AudioError;
use crate::http::SeekFrom;
use crate::http::http_get_range;
use crate::http::http_head_content_length;
use crate::http::new_agent;
use crate::http::parse_u64_ascii;
use crate::http::seek_target;
use crate::mp4::FOURCC_FTYP;
use crate::mp4::FOURCC_MDAT;
use crate::mp4::FOURCC_MOOV;
use crate::mp4::find_atom;
use crate::mp4::lemma_find_atom_props;

verus! {

/// Bytes of the file head scanned for the `ftyp` and `mdat` boxes.
pub const HEADER_SEARCH_SIZE: u64 = 2097152;

/// Bytes of the file tail scanned for the `moov` box.
pub const TAIL_SEARCH_SIZE: u64 = 1048576;

/// The virtual fast-start address space. A slow-start file lays its boxes
/// out as `[ftyp][mdat...][moov]`; the virtual layout presents the same
/// bytes as `[ftyp][moov][mdat...]` so a sequential parser meets the
/// metadata first. No bytes are rewritten: reads are translated.
#[derive(Debug, Clone, Copy, PartialEq, Eq, Structural)]
pub struct VirtualLayout {
    /// Size of the leading `ftyp` box; the virtual `moov` starts here.
    pub ftyp_size: u64,
    /// Size of the relocated `moov` box.
    pub moov_size: u64,
    /// Real offset at which the `mdat` box starts.
    pub mdat_offset: u64,
    /// Real file size, which the virtual file shares: only the box order
    /// differs between the two layouts.
    pub total_size: u64,
}

/// Where a virtual offset is served from: a real file offset, or an offset
/// into the already-fetched `moov` bytes.
#[derive(Debug, Clone, Copy, PartialEq, Eq, Structural)]
pub enum MappedOffset {
    /// Read the real file (or the range cache) at this offset.
    Real(u64),
    /// Read the in-memory `moov` bytes at this offset.
    Moov(u64),
}

impl VirtualLayout {
    pub open spec fn wf(&self) -> bool {
        &&& self.ftyp_size + self.moov_size <= self.total_size
        &&& self.mdat_offset <= self.total_size
        &&& self.total_size <= 0x7FFF_FFFF_FFFF_FFFF
    }

    /// Where the byte at virtual offset `v` lives: below the ftyp end it maps
    /// through unchanged; inside the virtual moov window it is served from
    /// the fetched moov bytes; past it, from the mdat region, shifted by the
    /// moov bytes that were moved ahead of it.
    pub open spec fn spec_map(&self, v: int) -> MappedOffset {
        if v < self.ftyp_size {
            MappedOffset::Real(v as u64)
        } else if v < self.ftyp_size + self.moov_size {
            MappedOffset::Moov((v - self.ftyp_size) as u64)
        } else {
            MappedOffset::Real((self.mdat_offset + (v - self.ftyp_size - self.moov_size)) as u64)
        }
    }

    /// Translates a virtual offset to the place its byte is served from.
    pub fn map_virtual_to_real(&self, v: u64) -> (r: MappedOffset)
        requires
            self.wf(),
            v < self.total_size,
        ensures
            r == self.spec_map(v as int),
    {
        if v < self.ftyp_size {
            MappedOffset::Real(v)
        } else if v - self.ftyp_size < self.moov_size {
            MappedOffset::Moov(v - self.ftyp_size)
        } else {
            MappedOffset::Real(self.mdat_offset + (v - self.ftyp_size - self.moov_size))
        }
    }

    /// The real file as a canonical slow-start layout over these box sizes:
    /// `ftyp` at the front, `mdat` directly after it, `moov` at the end.
    pub open spec fn is_slow_start_file(&self, file: Seq<u8>) -> bool {
        &&& file.len() == self.total_size
        &&& self.mdat_offset == self.ftyp_size
        &&& self.wf()
    }

    /// The byte sequence the virtual address space presents over a
    /// slow-start file: `ftyp`, then the trailing `moov`, then `mdat`.
    pub open spec fn virtual_file(&self, file: Seq<u8>) -> Seq<u8> {
        file.take(self.ftyp_size as int) + file.subrange(
            self.total_size - self.moov_size,
            self.total_size as int,
        ) + file.subrange(self.ftyp_size as int, self.total_size - self.moov_size)
    }

    /// Reading every virtual offset through the translation reconstructs
    /// exactly `ftyp`, `moov`, `mdat`, in that order: the byte served for
    /// virtual offset `v` is the `v`-th byte of the virtual file, where the
    /// moov bytes are those at the tail of the real file.
    pub proof fn lemma_virtual_reconstruction(&self, file: Seq<u8>, v: int)
        requires
            self.is_slow_start_file(file),
            0 <= v < self.total_size,
        ensures
            self.virtual_file(file).len() == self.total_size,
            match self.spec_map(v) {
                MappedOffset::Real(off) => self.virtual_file(file)[v] == file[off as int],
                MappedOffset::Moov(off) => self.virtual_file(file)[v] == file[self.total_size
                    - self.moov_size + off],
            },
    {
    }
}

/// Assembles the virtual layout from the two scanned windows: `ftyp` and
/// `mdat` are taken from the head bytes, `moov` from the tail bytes, which
/// begin at real offset `tail_start`. It succeeds exactly when all three
/// boxes are found and their sizes and offsets fit consistently inside the
/// file; any miss or inconsistency is an unsupported-format error, on
/// which the caller falls back to plain streaming.
pub fn build_virtual_layout(header: &[u8], tail: &[u8], tail_start: u64, total: u64) -> (r: Result<
    (VirtualLayout, u64),
    AudioError,
>)
    requires
        1 <= total <= 0x7FFF_FFFF_FFFF_FFFF,
    ensures
        r is Ok <==> ({
            let ftyp = crate::mp4::spec_find_atom(header@, FOURCC_FTYP, 0);
            let mdat = crate::mp4::spec_find_atom(header@, FOURCC_MDAT, 0);
            let moov = crate::mp4::spec_find_atom(tail@, FOURCC_MOOV, 0);
            &&& ftyp is Some
            &&& mdat is Some
            &&& moov is Some
            &&& moov->0.offset <= u64::MAX - tail_start
            &&& tail_start + moov->0.offset < total
            &&& moov->0.size <= total
            &&& ftyp->0.size <= total - moov->0.size
            &&& mdat->0.offset <= total
        }),
        r matches Ok(built) ==> ({
            let ftyp = crate::mp4::spec_find_atom(header@, FOURCC_FTYP, 0);
            let mdat = crate::mp4::spec_find_atom(header@, FOURCC_MDAT, 0);
            let moov = crate::mp4::spec_find_atom(tail@, FOURCC_MOOV, 0);
            &&& built.0.ftyp_size == ftyp->0.size
            &&& built.0.moov_size == moov->0.size
            &&& built.0.mdat_offset == mdat->0.offset
            &&& built.0.total_size == total
            &&& built.0.wf()
            &&& built.0.moov_size >= 8
            &&& built.1 == tail_start + moov->0.offset
            &&& built.1 < total
        }),
        r is Err ==> (r->Err_0 is UnsupportedFormat),
{
    // Binding the slice lengths teaches the prover they fit a usize.
    let hlen = header.len();
    let tlen = tail.len();
    let ftyp = match find_atom(header, FOURCC_FTYP) {
        Some(a) => a,
        None => {
            return Err(
                AudioError::UnsupportedFormat(String::from_str("no ftyp atom found in file header")),
            );
        },
    };
    let mdat = match find_atom(header, FOURCC_MDAT) {
        Some(a) => a,
        None => {
            return Err(
                AudioError::UnsupportedFormat(String::from_str("no mdat atom found in file header")),
            );
        },
    };
    let moov = match find_atom(tail, FOURCC_MOOV) {
        Some(a) => a,
        None => {
            return Err(
                AudioError::UnsupportedFormat(String::from_str("no moov atom found in file tail")),
            );
        },
    };
    proof {
        assert(hlen == header@.len());
        assert(tlen == tail@.len());
        lemma_find_atom_props(header@, FOURCC_FTYP, 0);
        lemma_find_atom_props(header@, FOURCC_MDAT, 0);
        lemma_find_atom_props(tail@, FOURCC_MOOV, 0);
    }
    if moov.offset > u64::MAX - tail_start {
        return Err(AudioError::UnsupportedFormat(String::from_str("moov offset out of range")));
    }
    let real_moov_offset = tail_start + moov.offset;
    if real_moov_offset >= total {
        return Err(AudioError::UnsupportedFormat(String::from_str("moov offset out of range")));
    }
    if moov.size > total || ftyp.size > total - moov.size || mdat.offset > total {
        return Err(AudioError::UnsupportedFormat(String::from_str("inconsistent box layout")));
    }
    let layout = VirtualLayout {
        ftyp_size: ftyp.size,
        moov_size: moov.size,
        mdat_offset: mdat.offset,
        total_size: total,
    };
    Ok((layout, real_moov_offset))
}

/// Virtual fast-start source over HTTP: one metadata round-trip locates the
/// boxes and fetches the trailing `moov` into memory; reads then stream the
/// file in the relocated order, `mdat` bytes coming on demand through the
/// same range-and-cache mechanism as the plain range source.
pub struct VirtualFastStartSource {
    url: String,
    agent: ureq::Agent,
    layout: VirtualLayout,
    moov_data: Vec<u8>,
    real_moov_offset: u64,
    cache: RangeCache,
    position: u64,
}

impl VirtualFastStartSource {
    pub closed spec fn spec_layout(&self) -> VirtualLayout {
        self.layout
    }

    pub closed spec fn spec_moov_data(&self) -> Seq<u8> {
        self.moov_data@
    }

    pub closed spec fn spec_cache(&self) -> RangeCache {
        self.cache
    }

    pub closed spec fn spec_position(&self) -> int {
        self.position as int
    }

    pub open spec fn wf(&self) -> bool {
        self.spec_layout().wf()
    }

    /// Builds the virtual layout in one metadata round-trip: learns the file
    /// size, scans the head for `ftyp` and `mdat`, scans the tail for
    /// `moov`, and fetches the `moov` bytes whole. A missing size is a
    /// network error; a missing or inconsistent box is an unsupported-format
    /// error, on which the caller falls back to plain streaming.
    pub fn new(url: String) -> (r: Result<Self, AudioError>)
        ensures
            r matches Ok(s) ==> s.wf() && s.spec_position() == 0 && s.spec_cache().spec_entries()
                == Seq::<CacheEntry>::empty(),
    {
        let agent = new_agent();
        let total = match http_head_content_length(&agent, url.as_str()) {
            Ok(Some(bytes)) => {
                match parse_u64_ascii(bytes.as_slice()) {
                    Some(t) => t,
                    None => {
                        return Err(
                            AudioError::NetworkError(String::from_str("Content-Length missing")),
                        );
                    },
                }
            },
            Ok(None) => {
                return Err(AudioError::NetworkError(String::from_str("Content-Length missing")));
            },
            Err(e) => {
                return Err(e);
            },
        };
        if total == 0 || total > 0x7FFF_FFFF_FFFF_FFFF {
            return Err(AudioError::UnsupportedFormat(String::from_str("file size out of range")));
        }
        let header_end: u64 = if HEADER_SEARCH_SIZE < total {
            HEADER_SEARCH_SIZE
        } else {
            total
        };
        let header = http_get_range(&agent, url.as_str(), 0, header_end)?;
        let tail_start: u64 = if total > TAIL_SEARCH_SIZE {
            total - TAIL_SEARCH_SIZE
        } else {
            0
        };
        let tail = http_get_range(&agent, url.as_str(), tail_start, total)?;
        let (layout, real_moov_offset) = match build_virtual_layout(
            header.as_slice(),
            tail.as_slice(),
            tail_start,
            total,
        ) {
            Ok(built) => built,
            Err(e) => {
                return Err(e);
            },
        };
        let moov_end: u64 = if layout.moov_size > u64::MAX - real_moov_offset {
            u64::MAX
        } else {
            real_moov_offset + layout.moov_size
        };
        let moov_data = http_get_range(&agent, url.as_str(), real_moov_offset, moov_end)?;
        Ok(
            Self {
                url,
                agent,
                layout,
                moov_data,
                real_moov_offset,
                cache: RangeCache::new(crate::cache::CACHE_MAX_BYTES),
                position: 0,
            },
        )
    }

    /// The exposed size: the real file size, which the virtual layout keeps,
    /// both layouts holding the same bytes in a different order.
    pub fn byte_len(&self) -> (r: u64)
        ensures
            r == self.spec_layout().total_size,
    {
        self.layout.total_size
    }

    /// Serves a real-file range from the chunk cache, fetching a chunk over
    /// HTTP only when no cached chunk covers the request; a covered request
    /// leaves the cache untouched and issues no network call, and at or
    /// past the file's end an uncovered request answers no bytes and
    /// touches nothing.
    fn fetch_with_cache(&mut self, offset: u64, size: usize) -> (r: Result<Vec<u8>, AudioError>)
        ensures
            final(self).spec_layout() == old(self).spec_layout(),
            final(self).spec_moov_data() == old(self).spec_moov_data(),
            final(self).spec_position() == old(self).spec_position(),
            final(self).spec_cache().spec_cap() == old(self).spec_cache().spec_cap(),
            old(self).spec_cache().spec_covered(offset as int, size as int) ==> (r is Ok)
                && final(self).spec_cache() == old(self).spec_cache(),
            old(self).spec_cache().spec_covered(offset as int, size as int) ==> (forall|file: Seq<
                u8,
            >|
                consistent_with(old(self).spec_cache().spec_entries(), file) && offset + size
                    <= file.len() ==> (r matches Ok(d) ==> d@ == file.subrange(
                    offset as int,
                    offset + size,
                ))),
            !old(self).spec_cache().spec_covered(offset as int, size as int) && (offset >= old(
                self,
            ).spec_layout().total_size || size == 0) ==> (r matches Ok(d) && d@.len() == 0)
                && final(self).spec_cache() == old(self).spec_cache(),
            !old(self).spec_cache().spec_covered(offset as int, size as int) && offset < old(
                self,
            ).spec_layout().total_size && size > 0 && (r is Ok) ==> ({
                let entries = final(self).spec_cache().spec_entries();
                &&& entries.len() >= 1
                &&& entries.last().offset == offset
                &&& (r matches Ok(d) ==> d@ == entries.last().data@.take(
                    if size <= entries.last().data@.len() {
                        size as int
                    } else {
                        entries.last().data@.len() as int
                    },
                ))
                &&& final(self).spec_cache().spec_total_bytes() <= final(self).spec_cache().spec_cap() + entries.last().data@.len()
                &&& exists|k: int|
                    0 <= k <= old(self).spec_cache().spec_entries().len() && entries == old(
                        self,
                    ).spec_cache().spec_entries().push(entries.last()).skip(k)
            }),
            !old(self).spec_cache().spec_covered(offset as int, size as int) && size > 0 ==> (
            r matches Ok(d) && d@.len() == size ==> final(self).spec_cache().spec_covered(
                offset as int,
                size as int,
            )),
            r matches Ok(d) ==> d@.len() <= size,
            r is Err ==> final(self).spec_cache() == old(self).spec_cache(),
    {
        match self.cache.lookup(offset, size) {
            Some(data) => {
                return Ok(data);
            },
            None => {},
        }
        let widened: u64 = if size as u64 > u64::MAX - offset {
            u64::MAX
        } else {
            offset + size as u64
        };
        let end: u64 = if widened < self.layout.total_size {
            widened
        } else {
            self.layout.total_size
        };
        if end <= offset {
            return Ok(Vec::new());
        }
        let data = match http_get_range(&self.agent, self.url.as_str(), offset, end) {
            Ok(d) => d,
            Err(e) => {
                return Err(e);
            },
        };
        let keep = if size < data.len() {
            size
        } else {
            data.len()
        };
        let r = copy_range(&data, 0, keep);
        self.cache.insert(offset, data);
        proof {
            let entries = self.cache.spec_entries();
            assert(entries.last().offset == offset);
            assert(r@ == entries.last().data@.take(keep as int));
            if keep == size && size > 0 {
                assert(crate::cache::entry_covers(
                    &entries[entries.len() - 1],
                    offset as int,
                    size as int,
                ));
            }
        }
        Ok(r)
    }

    /// Reads up to `len` bytes at virtual offset `v`. Inside the virtual
    /// `moov` window the bytes come exactly from the fetched `moov` data;
    /// elsewhere they are served through the range cache. At or past the
    /// virtual end it answers no bytes.
    pub fn read_at(&mut self, v: u64, len: usize) -> (r: Result<Vec<u8>, AudioError>)
        requires
            old(self).wf(),
        ensures
            final(self).wf(),
            final(self).spec_layout() == old(self).spec_layout(),
            final(self).spec_moov_data() == old(self).spec_moov_data(),
            final(self).spec_position() == old(self).spec_position(),
            r matches Ok(d) ==> d@.len() <= len,
            v >= old(self).spec_layout().total_size ==> (r matches Ok(d) && d@.len() == 0),
            v < old(self).spec_layout().total_size ==> match old(self).spec_layout().spec_map(
                v as int,
            ) {
                MappedOffset::Moov(off) => (r is Ok) && final(self).spec_cache() == old(
                    self,
                ).spec_cache() && (r matches Ok(d) ==> d@ == if off < old(
                    self,
                ).spec_moov_data().len() {
                    old(self).spec_moov_data().subrange(
                        off as int,
                        if off + len <= old(self).spec_moov_data().len() {
                            off + len
                        } else {
                            old(self).spec_moov_data().len() as int
                        },
                    )
                } else {
                    Seq::<u8>::empty()
                }),
                MappedOffset::Real(off) => {
                    &&& (old(self).spec_cache().spec_covered(off as int, len as int) ==> (r is Ok)
                        && final(self).spec_cache() == old(self).spec_cache())
                    &&& (old(self).spec_cache().spec_covered(off as int, len as int) ==> (forall|
                        file: Seq<u8>,
                    |
                        consistent_with(old(self).spec_cache().spec_entries(), file) && off + len
                            <= file.len() ==> (r matches Ok(d) ==> d@ == file.subrange(
                            off as int,
                            off + len,
                        ))))
                    &&& (!old(self).spec_cache().spec_covered(off as int, len as int) && len > 0
                        ==> (r matches Ok(d) && d@.len() == len ==> final(self).spec_cache().spec_covered(off as int, len as int)))
                    &&& (r is Err ==> final(self).spec_cache() == old(self).spec_cache())
                },
            },
    {
        if v >= self.layout.total_size {
            return Ok(Vec::new());
        }
        match self.layout.map_virtual_to_real(v) {
            MappedOffset::Moov(off) => {
                if off >= self.moov_data.len() as u64 {
                    return Ok(Vec::new());
                }
                let off = off as usize;
                let available = self.moov_data.len() - off;
                let to_read = if len < available {
                    len
                } else {
                    available
                };
                Ok(copy_range(&self.moov_data, off, to_read))
            },
            MappedOffset::Real(off) => self.fetch_with_cache(off, len),
        }
    }

    /// Reads up to `len` bytes at the current virtual position and advances
    /// it by what was read.
    pub fn read(&mut self, len: usize) -> (r: Result<Vec<u8>, AudioError>)
        requires
            old(self).wf(),
        ensures
            final(self).wf(),
            final(self).spec_layout() == old(self).spec_layout(),
            r matches Ok(d) ==> d@.len() <= len && final(self).spec_position() == if old(
                self,
            ).spec_position() + d@.len() <= u64::MAX {
                old(self).spec_position() + d@.len()
            } else {
                u64::MAX as int
            },
            r is Err ==> final(self).spec_position() == old(self).spec_position(),
    {
        let offset = self.position;
        match self.read_at(offset, len) {
            Ok(data) => {
                let n = data.len() as u64;
                self.position = if n > u64::MAX - self.position {
                    u64::MAX
                } else {
                    self.position + n
                };
                Ok(data)
            },
            Err(e) => Err(e),
        }
    }

    /// Moves the virtual position; the same range rules hold as for the
    /// plain range source, with the total size always known.
    pub fn seek(&mut self, from: SeekFrom) -> (r: Result<u64, AudioError>)
        ensures
            final(self).spec_layout() == old(self).spec_layout(),
            final(self).spec_cache() == old(self).spec_cache(),
            match seek_target(
                old(self).spec_position(),
                Some(old(self).spec_layout().total_size),
                from,
            ) {
                Some(t) => if 0 <= t <= u64::MAX {
                    (r matches Ok(p) && p == t) && final(self).spec_position() == t
                } else {
                    (r is Err) && final(self).spec_position() == old(self).spec_position()
                },
                None => (r is Err) && final(self).spec_position() == old(self).spec_position(),
            },
    {
        let target: i128 = match from {
            SeekFrom::Start(o) => o as i128,
            SeekFrom::Current(d) => self.position as i128 + d as i128,
            SeekFrom::End(d) => self.layout.total_size as i128 + d as i128,
        };
        if target < 0 {
            return Err(AudioError::IoError(String::from_str("cannot seek to negative position")));
        }
        if target > u64::MAX as i128 {
            return Err(AudioError::IoError(String::from_str("seek position out of range")));
        }
        self.position = target as u64;
        Ok(self.position)
    }
}

} // verus!
