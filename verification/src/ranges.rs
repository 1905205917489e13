use vstd::prelude::*;

verus! {

/// Membership in the half-open interval `[lo, hi)`.
pub open spec fn in_interval(p: int, lo: int, hi: int) -> bool {
    lo <= p < hi
}

/// Whether some range of `rs` holds the byte at `pos`.
pub open spec fn ranges_cover(rs: Seq<(u64, u64)>, pos: int) -> bool {
    exists|i: int| 0 <= i < rs.len() && (#[trigger] rs[i]).0 <= pos < rs[i].1
}

/// Sorted and strictly separated: each range is well-formed and ends before
/// the next begins.
pub open spec fn ranges_sorted(rs: Seq<(u64, u64)>) -> bool {
    &&& forall|i: int| 0 <= i < rs.len() ==> (#[trigger] rs[i]).0 <= rs[i].1
    &&& forall|i: int, j: int|
        0 <= i < j < rs.len() ==> (#[trigger] rs[i]).1 < (#[trigger] rs[j]).0
}

/// Bookkeeping for a download that arrives out of order: which byte ranges
/// `[start, end)` of the file have been written into the playback buffer.
/// The ranges are kept sorted and merged, so membership is one scan.
pub struct M4AStreamingState {
    ranges: Vec<(u64, u64)>,
}

impl M4AStreamingState {
    pub closed spec fn spec_ranges(&self) -> Seq<(u64, u64)> {
        self.ranges@
    }

    pub open spec fn wf(&self) -> bool {
        ranges_sorted(self.spec_ranges())
    }

    /// Whether the byte at `pos` lies in some downloaded range.
    pub open spec fn spec_downloaded(&self, pos: int) -> bool {
        ranges_cover(self.spec_ranges(), pos)
    }

    pub fn new() -> (s: Self)
        ensures
            s.wf(),
            s.spec_ranges() == Seq::<(u64, u64)>::empty(),
            forall|p: int| !s.spec_downloaded(p),
    {
        Self { ranges: Vec::new() }
    }

    /// Whether `pos` has been downloaded.
    pub fn is_downloaded(&self, pos: u64) -> (r: bool)
        ensures
            r == self.spec_downloaded(pos as int),
    {
        let n = self.ranges.len();
        let mut i: usize = 0;
        while i < n
            invariant
                n == self.spec_ranges().len(),
                i <= n,
                forall|j: int|
                    0 <= j < i ==> !((#[trigger] self.spec_ranges()[j]).0 <= pos
                        < self.spec_ranges()[j].1),
            decreases n - i,
        {
            let (s, e) = self.ranges[i];
            if s <= pos && pos < e {
                return true;
            }
            i = i + 1;
        }
        false
    }

    /// Records `[start, end)` as downloaded, merging it with every range it
    /// overlaps or touches, so the list stays sorted and separated. Exactly
    /// the positions of the new range become downloaded; nothing is lost.
    pub fn add_range(&mut self, start: u64, end: u64)
        requires
            old(self).wf(),
            start <= end,
        ensures
            final(self).wf(),
            forall|p: int|
                final(self).spec_downloaded(p) <==> (old(self).spec_downloaded(p) || (start <= p
                    < end)),
    {
        let ghost orig = self.ranges@;
        let n = self.ranges.len();
        let mut out: Vec<(u64, u64)> = Vec::new();
        let mut i: usize = 0;
        // Ranges that end before the new one begins, with no touch.
        while i < n && self.ranges[i].1 < start
            invariant
                n == orig.len(),
                self.ranges@ == orig,
                ranges_sorted(orig),
                start <= end,
                i <= n,
                out@ == orig.take(i as int),
                i > 0 ==> orig[i - 1].1 < start,
            decreases n - i,
        {
            let r = self.ranges[i];
            out.push(r);
            proof {
                assert(out@ =~= orig.take(i + 1));
            }
            i = i + 1;
        }
        let ghost first_kept = i as int;
        proof {
            assert(first_kept < n ==> orig[first_kept].1 >= start);
        }
        // Merge every range that overlaps or touches the accumulating one.
        let mut cs = start;
        let mut ce = end;
        while i < n && self.ranges[i].0 <= ce
            invariant
                n == orig.len(),
                self.ranges@ == orig,
                ranges_sorted(orig),
                start <= end,
                0 <= first_kept <= i <= n,
                cs <= ce,
                cs <= start,
                ce >= end,
                first_kept < n ==> orig[first_kept].1 >= start,
                forall|p: int|
                    #[trigger] in_interval(p, cs as int, ce as int) <==> ((start <= p < end)
                        || exists|j: int|
                        first_kept <= j < i && (#[trigger] orig[j]).0 <= p < orig[j].1),
                first_kept > 0 ==> orig[first_kept - 1].1 < cs,
            decreases n - i,
        {
            let (s, e) = self.ranges[i];
            proof {
                // Ends do not shrink along the sorted list, so this range
                // reaches at least to `start`, and the union stays one
                // contiguous interval.
                if i > first_kept {
                    assert(0 <= first_kept < i < orig.len());
                    assert((#[trigger] orig[first_kept]).1 < (#[trigger] orig[i as int]).0);
                }
                assert(orig[i as int].1 >= start);
            }
            let ghost old_cs = cs;
            let ghost old_ce = ce;
            if s < cs {
                cs = s;
            }
            if e > ce {
                ce = e;
            }
            proof {
                assert forall|p: int| #[trigger] in_interval(p, cs as int, ce as int) implies ((
                start <= p < end) || exists|j: int|
                    first_kept <= j < i + 1 && (#[trigger] orig[j]).0 <= p < orig[j].1) by {
                    if old_cs <= p < old_ce {
                        assert(in_interval(p, old_cs as int, old_ce as int));
                        assert((start <= p < end) || exists|j: int|
                            first_kept <= j < i && (#[trigger] orig[j]).0 <= p < orig[j].1);
                    } else if p < old_cs {
                        assert(orig[i as int].0 == cs);
                        assert(orig[i as int].1 >= start >= old_cs);
                        assert(orig[i as int].0 <= p < orig[i as int].1);
                    } else {
                        assert(p >= old_ce);
                        assert(orig[i as int].0 <= old_ce);
                        assert(orig[i as int].0 <= p < orig[i as int].1);
                    }
                }
                assert forall|p: int| ((start <= p < end) || exists|j: int|
                    first_kept <= j < i + 1 && (#[trigger] orig[j]).0 <= p < orig[j].1) implies
                    in_interval(p, cs as int, ce as int) by {
                    if start <= p < end {
                        assert(in_interval(p, old_cs as int, old_ce as int));
                    } else {
                        let j = choose|j: int|
                            first_kept <= j < i + 1 && (#[trigger] orig[j]).0 <= p < orig[j].1;
                        if j < i {
                            assert(in_interval(p, old_cs as int, old_ce as int));
                        }
                    }
                }
            }
            i = i + 1;
        }
        out.push((cs, ce));
        let ghost rest_from = i as int;
        let ghost merged = orig.take(first_kept).push((cs, ce));
        proof {
            assert(out@ =~= merged + orig.subrange(rest_from, rest_from));
        }
        // Ranges entirely after the merged one.
        while i < n
            invariant
                n == orig.len(),
                self.ranges@ == orig,
                0 <= rest_from <= i <= n,
                out@ == merged + orig.subrange(rest_from, i as int),
            decreases n - i,
        {
            let r = self.ranges[i];
            let ghost pre_out = out@;
            out.push(r);
            proof {
                assert(r == orig[i as int]);
                assert(orig.subrange(rest_from, i + 1) =~= orig.subrange(rest_from, i as int).push(
                    orig[i as int],
                ));
                assert(out@ == pre_out.push(r));
                assert(out@ =~= merged + orig.subrange(rest_from, i as int).push(orig[i as int]));
            }
            i = i + 1;
        }
        self.ranges = out;
        proof {
            lemma_rebuilt_ranges(
                self.ranges@,
                orig,
                first_kept,
                rest_from,
                start as int,
                end as int,
                cs as int,
                ce as int,
            );
        }
    }

    /// Number of recorded ranges.
    pub fn range_count(&self) -> (n: usize)
        ensures
            n == self.spec_ranges().len(),
    {
        self.ranges.len()
    }
}

/// The rebuilt list is sorted and separated, and covers exactly the old
/// positions plus the new range.
proof fn lemma_rebuilt_ranges(
    s: Seq<(u64, u64)>,
    orig: Seq<(u64, u64)>,
    first_kept: int,
    rest_from: int,
    start: int,
    end: int,
    cs: int,
    ce: int,
)
    requires
        ranges_sorted(orig),
        0 <= first_kept <= rest_from <= orig.len(),
        start <= end,
        0 <= cs <= ce <= u64::MAX,
        cs <= start,
        ce >= end,
        s == orig.take(first_kept).push(((cs as u64, ce as u64))) + orig.subrange(
            rest_from,
            orig.len() as int,
        ),
        forall|p: int|
            #[trigger] in_interval(p, cs, ce) <==> ((start <= p < end) || exists|j: int|
                first_kept <= j < rest_from && (#[trigger] orig[j]).0 <= p < orig[j].1),
        first_kept > 0 ==> orig[first_kept - 1].1 < cs,
        rest_from < orig.len() ==> orig[rest_from].0 > ce,
    ensures
        ranges_sorted(s),
        forall|p: int| ranges_cover(s, p) <==> (ranges_cover(orig, p) || (start <= p < end)),
{
    let tail_len = orig.len() - rest_from;
    assert(s.len() == first_kept + 1 + tail_len);
    assert forall|i: int| 0 <= i < s.len() implies s[i] == spec_rebuilt_at(
        orig,
        first_kept,
        rest_from,
        cs,
        ce,
        i,
    ) by {
        if i < first_kept {
            assert(s[i] == orig.take(first_kept)[i]);
        } else if i == first_kept {
        } else {
            assert(s[i] == orig.subrange(rest_from, orig.len() as int)[i - first_kept - 1]);
        }
    }
    assert forall|i: int| 0 <= i < s.len() implies (#[trigger] s[i]).0 <= s[i].1 by {
        assert(s[i] == spec_rebuilt_at(orig, first_kept, rest_from, cs, ce, i));
    }
    assert forall|i: int, j: int| 0 <= i < j < s.len() implies (#[trigger] s[i]).1 < (
    #[trigger] s[j]).0 by {
        assert(s[i] == spec_rebuilt_at(orig, first_kept, rest_from, cs, ce, i));
        assert(s[j] == spec_rebuilt_at(orig, first_kept, rest_from, cs, ce, j));
        if i < first_kept && j == first_kept {
            assert(orig[first_kept - 1].1 < cs);
            assert(i < first_kept ==> orig[i].1 <= orig[first_kept - 1].1 || i == first_kept - 1);
            if i < first_kept - 1 {
                assert(orig[i].1 < orig[first_kept - 1].0);
            }
        } else if i == first_kept && j > first_kept {
            let jj = rest_from + (j - first_kept - 1);
            assert(orig[rest_from].0 > ce);
            if jj > rest_from {
                assert(orig[rest_from].1 < orig[jj].0);
                assert(orig[rest_from].0 <= orig[rest_from].1);
            }
        } else if i < first_kept && j > first_kept {
            let jj = rest_from + (j - first_kept - 1);
            assert(orig[i].1 < orig[jj].0);
        }
    }
    assert forall|p: int| ranges_cover(s, p) implies (ranges_cover(orig, p) || (start <= p
        < end)) by {
        let i = choose|i: int| 0 <= i < s.len() && (#[trigger] s[i]).0 <= p < s[i].1;
        assert(s[i] == spec_rebuilt_at(orig, first_kept, rest_from, cs, ce, i));
        if i < first_kept {
            assert(orig[i].0 <= p < orig[i].1);
        } else if i == first_kept {
            assert(in_interval(p, cs, ce));
            if !(start <= p < end) {
                let j = choose|j: int|
                    first_kept <= j < rest_from && (#[trigger] orig[j]).0 <= p < orig[j].1;
                assert(orig[j].0 <= p < orig[j].1);
            }
        } else {
            let jj = rest_from + (i - first_kept - 1);
            assert(orig[jj].0 <= p < orig[jj].1);
        }
    }
    assert forall|p: int| (ranges_cover(orig, p) || (start <= p < end)) implies ranges_cover(
        s,
        p,
    ) by {
        if start <= p < end {
            assert(in_interval(p, cs, ce));
            assert(s[first_kept] == spec_rebuilt_at(orig, first_kept, rest_from, cs, ce, first_kept));
            assert(s[first_kept].0 <= p < s[first_kept].1);
        } else {
            let i = choose|i: int| 0 <= i < orig.len() && (#[trigger] orig[i]).0 <= p < orig[i].1;
            if i < first_kept {
                assert(s[i] == spec_rebuilt_at(orig, first_kept, rest_from, cs, ce, i));
                assert(s[i].0 <= p < s[i].1);
            } else if i < rest_from {
                assert(in_interval(p, cs, ce));
                assert(s[first_kept] == spec_rebuilt_at(
                    orig,
                    first_kept,
                    rest_from,
                    cs,
                    ce,
                    first_kept,
                ));
                assert(s[first_kept].0 <= p < s[first_kept].1);
            } else {
                let k = first_kept + 1 + (i - rest_from);
                assert(s[k] == spec_rebuilt_at(orig, first_kept, rest_from, cs, ce, k));
                assert(s[k].0 <= p < s[k].1);
            }
        }
    }
}

/// The range the rebuilt list holds at index `i`: a kept prefix range, the
/// merged range, or a kept suffix range.
spec fn spec_rebuilt_at(
    orig: Seq<(u64, u64)>,
    first_kept: int,
    rest_from: int,
    cs: int,
    ce: int,
    i: int,
) -> (u64, u64) {
    if i < first_kept {
        orig[i]
    } else if i == first_kept {
        (cs as u64, ce as u64)
    } else {
        orig[rest_from + (i - first_kept - 1)]
    }
}

} // verus!
