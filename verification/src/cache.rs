use vstd::prelude::*;

verus! {

/// Default cap on the bytes a range cache holds, about ten mebibytes.
pub const CACHE_MAX_BYTES: usize = 10485760;

/// One cached chunk: the bytes of the remote file starting at `offset`.
pub struct CacheEntry {
    pub offset: u64,
    pub data: Vec<u8>,
}

/// Whether the entry holds every byte of `[offset, offset + len)`.
pub open spec fn entry_covers(e: &CacheEntry, offset: int, len: int) -> bool {
    &&& e.offset <= offset
    &&& offset + len <= e.offset + e.data@.len()
}

/// Total bytes held by the entries.
pub open spec fn total_bytes_of(s: Seq<CacheEntry>) -> int
    decreases s.len(),
{
    if s.len() == 0 {
        0
    } else {
        s[0].data@.len() + total_bytes_of(s.skip(1))
    }
}

/// Whether every entry repeats bytes of `file` at its own offset. The remote
/// file is never held whole; this predicate ties all cached chunks to it.
pub open spec fn consistent_with(s: Seq<CacheEntry>, file: Seq<u8>) -> bool {
    forall|i: int|
        0 <= i < s.len() ==> (#[trigger] s[i]).offset + s[i].data@.len() <= file.len()
            && s[i].data@ == file.subrange(s[i].offset as int, s[i].offset + s[i].data@.len())
}

proof fn lemma_total_bytes_push(s: Seq<CacheEntry>, e: CacheEntry)
    ensures
        total_bytes_of(s.push(e)) == total_bytes_of(s) + e.data@.len(),
    decreases s.len(),
{
    reveal_with_fuel(total_bytes_of, 2);
    if s.len() == 0 {
        assert(s.push(e)[0] == e);
        assert(s.push(e).skip(1) =~= Seq::<CacheEntry>::empty());
        assert(total_bytes_of(s.push(e)) == e.data@.len() + total_bytes_of(
            Seq::<CacheEntry>::empty(),
        ));
    } else {
        assert(s.push(e)[0] == s[0]);
        assert(s.push(e).skip(1) =~= s.skip(1).push(e));
        lemma_total_bytes_push(s.skip(1), e);
        assert(total_bytes_of(s.push(e)) == s[0].data@.len() + total_bytes_of(
            s.skip(1).push(e),
        ));
        assert(total_bytes_of(s) == s[0].data@.len() + total_bytes_of(s.skip(1)));
    }
}

proof fn lemma_total_bytes_nonneg(s: Seq<CacheEntry>)
    ensures
        total_bytes_of(s) >= 0,
    decreases s.len(),
{
    if s.len() > 0 {
        lemma_total_bytes_nonneg(s.skip(1));
    }
}

/// Bounded chunk cache with first-in-first-out eviction: once the held bytes
/// pass the cap, the oldest chunks leave first. It amortizes network
/// round-trips for a demuxer that probes and seeks irregularly.
pub struct RangeCache {
    entries: Vec<CacheEntry>,
    cap: usize,
}

impl RangeCache {
    pub closed spec fn spec_entries(&self) -> Seq<CacheEntry> {
        self.entries@
    }

    pub closed spec fn spec_cap(&self) -> int {
        self.cap as int
    }

    pub open spec fn spec_total_bytes(&self) -> int {
        total_bytes_of(self.spec_entries())
    }

    /// Whether `[offset, offset + len)` is wholly inside some cached chunk.
    pub open spec fn spec_covered(&self, offset: int, len: int) -> bool {
        exists|i: int|
            0 <= i < self.spec_entries().len() && entry_covers(
                &self.spec_entries()[i],
                offset,
                len,
            )
    }

    pub fn new(cap: usize) -> (c: Self)
        ensures
            c.spec_entries() == Seq::<CacheEntry>::empty(),
            c.spec_cap() == cap,
    {
        Self { entries: Vec::new(), cap }
    }

    fn total_bytes(&self) -> (t: u128)
        ensures
            t == self.spec_total_bytes(),
    {
        let n = self.entries.len();
        let mut acc: u128 = 0;
        let mut i: usize = 0;
        proof {
            assert(self.entries@.skip(0) =~= self.entries@);
        }
        while i < n
            invariant
                n == self.entries@.len(),
                i <= n,
                acc + total_bytes_of(self.entries@.skip(i as int)) == total_bytes_of(
                    self.entries@,
                ),
                acc <= i * 0x1_0000_0000_0000_0000,
            decreases n - i,
        {
            proof {
                lemma_total_bytes_nonneg(self.entries@.skip(i as int));
                lemma_total_bytes_nonneg(self.entries@.skip(i + 1));
                assert(self.entries@.skip(i as int).skip(1) =~= self.entries@.skip(i + 1));
                assert(self.entries@.skip(i as int)[0] == self.entries@[i as int]);
                assert(i * 0x1_0000_0000_0000_0000 + 0x1_0000_0000_0000_0000 == (i + 1)
                    * 0x1_0000_0000_0000_0000) by (nonlinear_arith);
                assert((i + 1) * 0x1_0000_0000_0000_0000 <= 0xFFFF_FFFF_FFFF_FFFF
                    * 0x1_0000_0000_0000_0000) by (nonlinear_arith)
                    requires
                        i + 1 <= 0xFFFF_FFFF_FFFF_FFFF,
                ;
            }
            acc = acc + self.entries[i].data.len() as u128;
            i = i + 1;
        }
        proof {
            assert(self.entries@.skip(i as int) =~= Seq::<CacheEntry>::empty());
        }
        acc
    }

    /// Serves `[offset, offset + len)` from a cached chunk that wholly covers
    /// it; answers nothing exactly when no chunk does, and so exactly when a
    /// fetch would have to go to the network.
    pub fn lookup(&self, offset: u64, len: usize) -> (r: Option<Vec<u8>>)
        ensures
            r is Some <==> self.spec_covered(offset as int, len as int),
            r matches Some(d) ==> d@.len() == len,
            forall|file: Seq<u8>|
                consistent_with(self.spec_entries(), file) && offset + len <= file.len() ==> (
                r matches Some(d) ==> d@ == file.subrange(offset as int, offset + len)),
    {
        let mut i: usize = 0;
        while i < self.entries.len()
            invariant
                i <= self.entries@.len(),
                forall|j: int|
                    0 <= j < i ==> !entry_covers(
                        &self.spec_entries()[j],
                        offset as int,
                        len as int,
                    ),
            decreases self.entries@.len() - i,
        {
            let e = &self.entries[i];
            if offset >= e.offset {
                let rel64 = offset - e.offset;
                if rel64 <= e.data.len() as u64 {
                    let rel = rel64 as usize;
                    if len <= e.data.len() - rel {
                        let slice = copy_range(&e.data, rel, len);
                        proof {
                            assert(entry_covers(
                                &self.spec_entries()[i as int],
                                offset as int,
                                len as int,
                            ));
                            assert forall|file: Seq<u8>|
                                consistent_with(self.spec_entries(), file) && offset + len
                                    <= file.len() implies slice@ == file.subrange(
                                offset as int,
                                offset + len,
                            ) by {
                                assert(self.spec_entries()[i as int].data@ == file.subrange(
                                    self.spec_entries()[i as int].offset as int,
                                    self.spec_entries()[i as int].offset + self.spec_entries()[
                                        i as int].data@.len(),
                                ));
                                assert(slice@ =~= file.subrange(offset as int, offset + len));
                            }
                        }
                        return Some(slice);
                    }
                }
            }
            proof {
                assert(!entry_covers(&self.spec_entries()[i as int], offset as int, len as int));
            }
            i = i + 1;
        }
        None
    }

    /// Appends a fetched chunk, then evicts oldest chunks while the held
    /// bytes pass the cap. The held bytes never pass the cap by more than
    /// the one chunk just added.
    pub fn insert(&mut self, offset: u64, data: Vec<u8>)
        ensures
            final(self).spec_cap() == old(self).spec_cap(),
            final(self).spec_entries().len() >= 1,
            final(self).spec_entries().last().offset == offset,
            final(self).spec_entries().last().data@ == data@,
            final(self).spec_covered(offset as int, data@.len() as int),
            final(self).spec_total_bytes() <= old(self).spec_cap() + data@.len(),
            exists|k: int|
                0 <= k <= old(self).spec_entries().len() && final(self).spec_entries() == old(
                    self,
                ).spec_entries().push((CacheEntry { offset, data })).skip(k),
            forall|file: Seq<u8>|
                consistent_with(old(self).spec_entries(), file) && offset + data@.len()
                    <= file.len() && data@ == file.subrange(offset as int, offset + data@.len())
                    ==> consistent_with(final(self).spec_entries(), file),
    {
        let ghost entry = CacheEntry { offset, data: data };
        proof {
            lemma_total_bytes_push(self.entries@, entry);
        }
        self.entries.push(CacheEntry { offset, data });
        let ghost pushed = self.entries@;
        proof {
            assert(pushed.skip(0) =~= pushed);
        }
        while self.entries.len() > 1 && self.total_bytes() > self.cap as u128
            invariant
                self.cap == old(self).cap,
                self.entries@.len() >= 1,
                exists|k: int| 0 <= k <= pushed.len() && self.entries@ == pushed.skip(k),
                pushed == old(self).spec_entries().push(entry),
            decreases self.entries@.len(),
        {
            let ghost pre = self.entries@;
            self.entries.remove(0);
            proof {
                assert(self.entries@ =~= pre.skip(1));
                let k = choose|k: int| 0 <= k <= pushed.len() && pre == pushed.skip(k);
                assert(pre.skip(1) =~= pushed.skip(k + 1));
            }
        }
        proof {
            let k = choose|k: int| 0 <= k <= pushed.len() && self.entries@ == pushed.skip(k);
            assert(self.entries@.last() == pushed.last());
            assert(self.entries@[self.entries@.len() - 1] == entry);
            assert(entry_covers(
                &self.entries@[self.entries@.len() - 1],
                offset as int,
                entry.data@.len() as int,
            ));
            if self.entries@.len() == 1 {
                assert(self.entries@ =~= Seq::<CacheEntry>::empty().push(entry));
                lemma_total_bytes_push(Seq::<CacheEntry>::empty(), entry);
            }
            assert forall|file: Seq<u8>|
                consistent_with(old(self).spec_entries(), file) && offset + entry.data@.len()
                    <= file.len() && entry.data@ == file.subrange(
                offset as int,
                offset + entry.data@.len(),
            ) implies consistent_with(self.entries@, file) by {
                assert forall|i: int| 0 <= i < self.entries@.len() implies (
                #[trigger] self.entries@[i]).offset + self.entries@[i].data@.len() <= file.len()
                    && self.entries@[i].data@ == file.subrange(
                    self.entries@[i].offset as int,
                    self.entries@[i].offset + self.entries@[i].data@.len(),
                ) by {
                    assert(self.entries@[i] == pushed[k + i]);
                    if k + i < old(self).spec_entries().len() {
                        assert(pushed[k + i] == old(self).spec_entries()[k + i]);
                    } else {
                        assert(pushed[k + i] == entry);
                    }
                }
            }
        }
    }

    /// Number of cached chunks.
    pub fn entry_count(&self) -> (n: usize)
        ensures
            n == self.spec_entries().len(),
    {
        self.entries.len()
    }

    /// A range wholly inside an already-cached chunk is covered, so fetching
    /// it again is served from the cache and issues no second network call
    /// for the overlapping region.
    pub proof fn lemma_overlap_needs_no_refetch(&self, offset: int, len: int, off2: int, len2: int)
        requires
            self.spec_covered(offset, len),
            offset <= off2,
            off2 + len2 <= offset + len,
        ensures
            self.spec_covered(off2, len2),
    {
        let i = choose|i: int|
            0 <= i < self.spec_entries().len() && entry_covers(&self.spec_entries()[i], offset, len);
        assert(entry_covers(&self.spec_entries()[i], off2, len2));
    }
}

/// The `len` bytes of `data` starting at `start`, as their own vector.
pub fn copy_range(data: &Vec<u8>, start: usize, len: usize) -> (r: Vec<u8>)
    requires
        start + len <= data@.len(),
    ensures
        r@ == data@.subrange(start as int, start + len),
{
    let dlen = data.len();
    let mut r: Vec<u8> = Vec::new();
    let mut i: usize = 0;
    while i < len
        invariant
            i <= len,
            start + len <= dlen,
            dlen == data@.len(),
            r@ == data@.subrange(start as int, start + i),
        decreases len - i,
    {
        r.push(data[start + i]);
        proof {
            assert(r@ =~= data@.subrange(start as int, start + i + 1));
        }
        i = i + 1;
    }
    r
}

} // verus!
