use vstd::prelude::*;
use vstd::pervasive::VecAdditionalExecFns;

verus! {

/// Fixed-capacity circular buffer of PCM sample words, decoupling the decode
/// producer from the render consumer. A sample word is the raw 32-bit pattern
/// of one interleaved PCM sample. With capacity `C`, at most `C - 1` slots are
/// ever occupied, which distinguishes a full buffer from an empty one.
pub struct AudioRingBuffer {
    buffer: Vec<u32>,
    write_pos: usize,
    read_pos: usize,
    size: usize,
}

impl AudioRingBuffer {
    pub closed spec fn wf(&self) -> bool {
        &&& self.buffer@.len() == self.size
        &&& self.size >= 1
        &&& self.write_pos < self.size
        &&& self.read_pos < self.size
    }

    pub closed spec fn capacity(&self) -> int {
        self.size as int
    }

    /// Number of occupied slots.
    pub closed spec fn used(&self) -> int {
        if self.write_pos >= self.read_pos {
            self.write_pos - self.read_pos
        } else {
            self.size - (self.read_pos - self.write_pos)
        }
    }

    /// Backing index of the `i`-th occupied slot, counting from the read cursor.
    pub closed spec fn slot(&self, i: int) -> int {
        if self.read_pos + i < self.size {
            self.read_pos + i
        } else {
            self.read_pos + i - self.size
        }
    }

    /// The buffered samples in FIFO order.
    pub closed spec fn contents(&self) -> Seq<u32> {
        Seq::new(self.used() as nat, |i: int| self.buffer@[self.slot(i)])
    }

    pub closed spec fn spec_available_read(&self) -> int {
        self.used()
    }

    pub closed spec fn spec_available_write(&self) -> int {
        self.capacity() - self.used() - 1
    }

    /// The readable slot count is exactly the length of the buffered
    /// contents, so an empty content sequence means nothing is readable.
    pub proof fn lemma_contents_length(&self)
        requires
            self.wf(),
        ensures
            self.contents().len() == self.spec_available_read(),
    {
    }

    /// For all reachable cursor positions, the readable and the writable slot
    /// counts sum to one less than the capacity.
    pub proof fn lemma_occupancy_invariant(&self)
        requires
            self.wf(),
        ensures
            self.spec_available_read() + self.spec_available_write() == self.capacity() - 1,
    {
    }

    /// FIFO order: whatever was buffered before a write is read back first and
    /// unchanged, and the written samples follow it, in their written order.
    pub proof fn lemma_fifo_order(buffered: Seq<u32>, written: Seq<u32>)
        ensures
            (buffered + written).take(buffered.len() as int) == buffered,
            (buffered + written).skip(buffered.len() as int) == written,
    {
        assert((buffered + written).take(buffered.len() as int) =~= buffered);
        assert((buffered + written).skip(buffered.len() as int) =~= written);
    }

    pub fn new(size: usize) -> (rb: Self)
        requires
            size >= 1,
        ensures
            rb.wf(),
            rb.capacity() == size,
            rb.contents() == Seq::<u32>::empty(),
    {
        let rb = Self { buffer: zero_samples(size), write_pos: 0, read_pos: 0, size };
        proof {
            assert(rb.contents() =~= Seq::<u32>::empty());
        }
        rb
    }

    pub fn size(&self) -> (s: usize)
        ensures
            s == self.capacity(),
    {
        self.size
    }

    pub fn available_write(&self) -> (n: usize)
        requires
            self.wf(),
        ensures
            n == self.spec_available_write(),
    {
        if self.write_pos >= self.read_pos {
            self.size - (self.write_pos - self.read_pos) - 1
        } else {
            self.read_pos - self.write_pos - 1
        }
    }

    pub fn available_read(&self) -> (n: usize)
        requires
            self.wf(),
        ensures
            n == self.spec_available_read(),
    {
        if self.write_pos >= self.read_pos {
            self.write_pos - self.read_pos
        } else {
            self.size - (self.read_pos - self.write_pos)
        }
    }

    /// Buffer fullness in thousandths of the capacity.
    pub fn fullness_permille(&self) -> (f: u32)
        requires
            self.wf(),
        ensures
            f == self.used() * 1000 / self.capacity(),
            f <= 1000,
    {
        let used = self.available_read();
        let f = (used as u128 * 1000 / self.size as u128) as u32;
        proof {
            assert(self.used() * 1000 / self.capacity() <= 1000) by {
                assert(self.used() <= self.capacity());
                assert(self.used() * 1000 <= self.capacity() * 1000) by (nonlinear_arith)
                    requires
                        self.used() <= self.capacity(),
                ;
                vstd::arithmetic::div_mod::lemma_div_multiples_vanish(1000, self.capacity());
                vstd::arithmetic::div_mod::lemma_div_is_ordered(
                    self.used() * 1000,
                    self.capacity() * 1000,
                    self.capacity(),
                );
            }
        }
        f
    }

    /// Copies as many leading samples of `data` as fit, without blocking;
    /// excess samples are dropped by the caller. Never occupies the final
    /// free slot, so a full buffer stays distinguishable from an empty one.
    pub fn write(&mut self, data: &Vec<u32>) -> (written: usize)
        requires
            old(self).wf(),
        ensures
            final(self).wf(),
            final(self).capacity() == old(self).capacity(),
            written == if data@.len() <= old(self).spec_available_write() {
                data@.len() as int
            } else {
                old(self).spec_available_write()
            },
            final(self).contents() == old(self).contents() + data@.take(written as int),
    {
        let available = self.available_write();
        let to_write = if data.len() < available { data.len() } else { available };

        let ghost orig = *self;
        let mut i: usize = 0;
        while i < to_write
            invariant
                orig.wf(),
                to_write <= orig.spec_available_write(),
                i <= to_write,
                self.size == orig.size,
                self.read_pos == orig.read_pos,
                self.buffer@.len() == orig.buffer@.len(),
                to_write <= data@.len(),
                self.wf(),
                self.used() == orig.used() + i,
                self.contents() == orig.contents() + data@.take(i as int),
            decreases to_write - i,
        {
            let ghost pre = *self;
            self.buffer.set(self.write_pos, data[i]);
            self.write_pos = if self.write_pos + 1 == self.size { 0 } else { self.write_pos + 1 };
            proof {
                assert(self.buffer@ == pre.buffer@.update(pre.write_pos as int, data@[i as int]));
                assert(pre.slot(pre.used()) == pre.write_pos);
                assert(self.used() == pre.used() + 1);
                assert forall|j: int| 0 <= j < pre.used() implies self.contents()[j]
                    == pre.contents()[j] by {
                    assert(self.slot(j) == pre.slot(j));
                    assert(pre.slot(j) != pre.write_pos);
                }
                assert(self.slot(pre.used()) == pre.write_pos);
                assert(self.contents()[pre.used() as int] == data@[i as int]);
                assert forall|k: int| 0 <= k < self.used() implies self.contents()[k]
                    == (orig.contents() + data@.take(i + 1))[k] by {
                    if k < orig.used() {
                        assert(self.contents()[k] == pre.contents()[k]);
                    } else if k < pre.used() {
                        assert(self.contents()[k] == pre.contents()[k]);
                        assert(pre.contents()[k] == data@.take(i as int)[k - orig.used()]);
                        assert((orig.contents() + data@.take(i + 1))[k] == data@.take(i + 1)[k
                            - orig.used()]);
                    } else {
                        assert(k == pre.used());
                        assert(self.contents()[k] == data@[i as int]);
                        assert((orig.contents() + data@.take(i + 1))[k] == data@.take(i + 1)[
                            i as int]);
                    }
                }
                assert(self.contents() =~= orig.contents() + data@.take(i + 1));
            }
            i = i + 1;
        }
        proof {
            assert(data@.take(to_write as int) == data@.take(to_write as int));
        }
        to_write
    }

    /// Fills the leading slots of `out` with the oldest buffered samples; any
    /// remaining tail of `out` is left for the caller to silence.
    pub fn read(&mut self, out: &mut Vec<u32>) -> (filled: usize)
        requires
            old(self).wf(),
        ensures
            final(self).wf(),
            final(self).capacity() == old(self).capacity(),
            filled == if old(out)@.len() <= old(self).spec_available_read() {
                old(out)@.len() as int
            } else {
                old(self).spec_available_read()
            },
            final(out)@.len() == old(out)@.len(),
            final(out)@ == old(self).contents().take(filled as int) + old(out)@.skip(filled as int),
            final(self).contents() == old(self).contents().skip(filled as int),
    {
        let available = self.available_read();
        let to_read = if out.len() < available { out.len() } else { available };

        let ghost orig = *self;
        let ghost orig_out = *out;
        let mut i: usize = 0;
        while i < to_read
            invariant
                orig.wf(),
                to_read <= orig.spec_available_read(),
                to_read <= orig_out@.len(),
                i <= to_read,
                self.size == orig.size,
                self.write_pos == orig.write_pos,
                self.buffer@ == orig.buffer@,
                self.wf(),
                self.used() == orig.used() - i,
                self.contents() == orig.contents().skip(i as int),
                out@.len() == orig_out@.len(),
                out@ == orig.contents().take(i as int) + orig_out@.skip(i as int),
            decreases to_read - i,
        {
            let ghost pre = *self;
            let ghost pre_out = *out;
            let sample = self.buffer[self.read_pos];
            out.set(i, sample);
            self.read_pos = if self.read_pos + 1 == self.size { 0 } else { self.read_pos + 1 };
            proof {
                assert(sample == orig.contents()[i as int]);
                assert(self.used() == pre.used() - 1);
                assert forall|j: int| 0 <= j < self.used() implies self.contents()[j]
                    == pre.contents()[j + 1] by {
                    assert(self.slot(j) == pre.slot(j + 1));
                }
                assert(self.contents() =~= orig.contents().skip(i + 1));
                assert(out@ =~= orig.contents().take(i + 1) + orig_out@.skip(i + 1));
            }
            i = i + 1;
        }
        to_read
    }

    /// Resets both cursors, discarding all buffered audio.
    pub fn clear(&mut self)
        requires
            old(self).wf(),
        ensures
            final(self).wf(),
            final(self).capacity() == old(self).capacity(),
            final(self).contents() == Seq::<u32>::empty(),
            final(self).spec_available_read() == 0,
    {
        self.write_pos = 0;
        self.read_pos = 0;
        proof {
            assert(self.contents() =~= Seq::<u32>::empty());
        }
    }

    /// Replaces the storage, discarding buffered audio; used once the track's
    /// sample rate and channel count are known.
    pub fn resize(&mut self, new_size: usize)
        requires
            old(self).wf(),
            new_size >= 1,
        ensures
            final(self).wf(),
            final(self).capacity() == new_size,
            final(self).contents() == Seq::<u32>::empty(),
            final(self).spec_available_read() == 0,
    {
        if new_size != self.size {
            self.buffer = zero_samples(new_size);
            self.size = new_size;
        }
        self.write_pos = 0;
        self.read_pos = 0;
        proof {
            assert(self.contents() =~= Seq::<u32>::empty());
        }
    }
}

/// A vector of `n` silent samples.
fn zero_samples(n: usize) -> (v: Vec<u32>)
    ensures
        v@.len() == n,
        forall|i: int| 0 <= i < n ==> v@[i] == 0u32,
{
    let mut v: Vec<u32> = Vec::new();
    let mut i: usize = 0;
    while i < n
        invariant
            i <= n,
            v@.len() == i,
            forall|j: int| 0 <= j < i ==> v@[j] == 0u32,
        decreases n - i,
    {
        v.push(0u32);
        i = i + 1;
    }
    v
}

} // verus!
