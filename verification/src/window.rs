use vstd::prelude::*;

verus! {

/// Sliding-window download buffer: the bytes `[start, start + window.len())`
/// of the remote stream. Bytes already played are released from the front to
/// keep memory low; the download thread appends at the back.
pub struct HttpStreamState {
    buffer: Vec<u8>,
    buffer_start_offset: u64,
    total_size: Option<u64>,
    download_position: u64,
    download_complete: bool,
    failed: bool,
    closed: bool,
}

impl HttpStreamState {
    /// The buffered bytes.
    pub closed spec fn window(&self) -> Seq<u8> {
        self.buffer@
    }

    /// Stream offset of the first buffered byte.
    pub closed spec fn start(&self) -> int {
        self.buffer_start_offset as int
    }

    pub closed spec fn spec_total_size(&self) -> Option<u64> {
        self.total_size
    }

    pub closed spec fn spec_download_position(&self) -> int {
        self.download_position as int
    }

    pub closed spec fn spec_complete(&self) -> bool {
        self.download_complete
    }

    pub closed spec fn spec_failed(&self) -> bool {
        self.failed
    }

    pub closed spec fn spec_closed(&self) -> bool {
        self.closed
    }

    /// Whether the byte at stream offset `pos` is buffered: not yet released
    /// and already downloaded.
    pub open spec fn spec_available(&self, pos: int) -> bool {
        self.start() <= pos < self.start() + self.window().len()
    }

    pub fn new() -> (s: Self)
        ensures
            s.window() == Seq::<u8>::empty(),
            s.start() == 0,
            s.spec_total_size() is None,
            s.spec_download_position() == 0,
            !s.spec_complete(),
            !s.spec_failed(),
            !s.spec_closed(),
    {
        Self {
            buffer: Vec::new(),
            buffer_start_offset: 0,
            total_size: None,
            download_position: 0,
            download_complete: false,
            failed: false,
            closed: false,
        }
    }

    pub fn is_available(&self, pos: u64) -> (r: bool)
        ensures
            r == self.spec_available(pos as int),
    {
        if pos < self.buffer_start_offset {
            false
        } else {
            let rel = pos - self.buffer_start_offset;
            rel < self.buffer.len() as u64
        }
    }

    /// Reads up to `len` buffered bytes at stream offset `pos`. An offset
    /// before the window (already released) or past it (not yet downloaded)
    /// yields no bytes.
    pub fn read_at(&self, pos: u64, len: usize) -> (r: Vec<u8>)
        ensures
            pos < self.start() || pos >= self.start() + self.window().len() ==> r@.len() == 0,
            self.spec_available(pos as int) ==> r@ == self.window().subrange(
                pos - self.start(),
                if pos - self.start() + len <= self.window().len() {
                    pos - self.start() + len
                } else {
                    self.window().len() as int
                },
            ),
    {
        if pos < self.buffer_start_offset {
            return Vec::new();
        }
        let rel64 = pos - self.buffer_start_offset;
        if rel64 >= self.buffer.len() as u64 {
            return Vec::new();
        }
        let rel = rel64 as usize;
        let available = self.buffer.len() - rel;
        let to_read = if len < available {
            len
        } else {
            available
        };
        crate::cache::copy_range(&self.buffer, rel, to_read)
    }

    /// Appends downloaded bytes at the back of the window and advances the
    /// download position by as much as it can still count.
    pub fn push_data(&mut self, data: &[u8])
        requires
            old(self).window().len() + data@.len() <= usize::MAX,
        ensures
            final(self).window() == old(self).window() + data@,
            final(self).start() == old(self).start(),
            final(self).spec_total_size() == old(self).spec_total_size(),
            final(self).spec_download_position() == if old(self).spec_download_position()
                + data@.len() <= u64::MAX {
                old(self).spec_download_position() + data@.len()
            } else {
                u64::MAX as int
            },
            final(self).spec_complete() == old(self).spec_complete(),
            final(self).spec_failed() == old(self).spec_failed(),
            final(self).spec_closed() == old(self).spec_closed(),
    {
        let n = data.len();
        let mut i: usize = 0;
        while i < n
            invariant
                n == data@.len(),
                i <= n,
                old(self).window().len() + data@.len() <= usize::MAX,
                self.buffer@ == old(self).buffer@ + data@.take(i as int),
                self.buffer_start_offset == old(self).buffer_start_offset,
                self.total_size == old(self).total_size,
                self.download_position == old(self).download_position,
                self.download_complete == old(self).download_complete,
                self.failed == old(self).failed,
                self.closed == old(self).closed,
            decreases n - i,
        {
            self.buffer.push(data[i]);
            proof {
                assert(self.buffer@ =~= old(self).buffer@ + data@.take(i + 1));
            }
            i = i + 1;
        }
        proof {
            assert(data@.take(n as int) =~= data@);
        }
        let n64 = n as u64;
        self.download_position = if n64 > u64::MAX - self.download_position {
            u64::MAX
        } else {
            self.download_position + n64
        };
    }

    /// Releases the bytes before stream offset `pos` from the front of the
    /// window; a position at or before the window start releases nothing.
    pub fn release_before(&mut self, pos: u64)
        ensures
            final(self).spec_total_size() == old(self).spec_total_size(),
            final(self).spec_download_position() == old(self).spec_download_position(),
            final(self).spec_complete() == old(self).spec_complete(),
            final(self).spec_failed() == old(self).spec_failed(),
            final(self).spec_closed() == old(self).spec_closed(),
            pos <= old(self).start() ==> final(self).window() == old(self).window()
                && final(self).start() == old(self).start(),
            pos > old(self).start() ==> final(self).window() == old(self).window().skip(
                if pos - old(self).start() <= old(self).window().len() {
                    pos - old(self).start()
                } else {
                    old(self).window().len() as int
                },
            ) && final(self).start() == pos,
    {
        if pos <= self.buffer_start_offset {
            return;
        }
        let ahead = pos - self.buffer_start_offset;
        let release_count: usize = if ahead < self.buffer.len() as u64 {
            ahead as usize
        } else {
            self.buffer.len()
        };
        let remaining = self.buffer.len() - release_count;
        let kept = crate::cache::copy_range(&self.buffer, release_count, remaining);
        proof {
            assert(kept@ =~= self.buffer@.skip(release_count as int));
        }
        self.buffer = kept;
        self.buffer_start_offset = pos;
    }

    pub fn set_total_size(&mut self, total: u64)
        ensures
            final(self).spec_total_size() == Some(total),
            final(self).window() == old(self).window(),
            final(self).start() == old(self).start(),
    {
        self.total_size = Some(total);
    }

    pub fn total_size(&self) -> (r: Option<u64>)
        ensures
            r == self.spec_total_size(),
    {
        self.total_size
    }

    pub fn set_complete(&mut self)
        ensures
            final(self).spec_complete(),
            final(self).window() == old(self).window(),
            final(self).start() == old(self).start(),
            final(self).spec_total_size() == old(self).spec_total_size(),
    {
        self.download_complete = true;
    }

    pub fn is_complete(&self) -> (r: bool)
        ensures
            r == self.spec_complete(),
    {
        self.download_complete
    }

    pub fn set_failed(&mut self)
        ensures
            final(self).spec_failed(),
            final(self).window() == old(self).window(),
            final(self).start() == old(self).start(),
    {
        self.failed = true;
    }

    pub fn has_failed(&self) -> (r: bool)
        ensures
            r == self.spec_failed(),
    {
        self.failed
    }

    pub fn close(&mut self)
        ensures
            final(self).spec_closed(),
    {
        self.closed = true;
    }

    pub fn is_closed(&self) -> (r: bool)
        ensures
            r == self.spec_closed(),
    {
        self.closed
    }
}

} // verus!
