//! An ordered sequence of terrain segments along one bearing.

use vstd::prelude::*;

use crate::terrain::line_segment::LineSegment;

verus! {

/// The sum of the lengths of the first `i` segments, millimetres.
pub open spec fn spec_prefix_len(segs: Seq<LineSegment>, i: int) -> int
    decreases i,
{
    if i <= 0 {
        0
    } else {
        spec_prefix_len(segs, i - 1) + segs[i - 1].spec_length()
    }
}

/// The sum of the lengths of all segments, millimetres.
pub open spec fn spec_total_len(segs: Seq<LineSegment>) -> int {
    spec_prefix_len(segs, segs.len() as int)
}

/// Prefix sums of segment lengths start at zero and never decrease.
pub proof fn lemma_prefix_len_monotonic(segs: Seq<LineSegment>, i: int, j: int)
    requires
        0 <= i <= j,
    ensures
        spec_prefix_len(segs, i) <= spec_prefix_len(segs, j),
    decreases j,
{
    if i < j {
        lemma_prefix_len_monotonic(segs, i, j - 1);
    }
}

/// Sequences that agree on their first `i` segments have equal prefix
/// sums up to `i`.
pub proof fn lemma_prefix_len_agree(a: Seq<LineSegment>, b: Seq<LineSegment>, i: int)
    requires
        0 <= i <= a.len(),
        i <= b.len(),
        forall|k: int| 0 <= k < i ==> a[k] == b[k],
    ensures
        spec_prefix_len(a, i) == spec_prefix_len(b, i),
    decreases i,
{
    if i > 0 {
        lemma_prefix_len_agree(a, b, i - 1);
    }
}

/// The total length of a sequence with one segment in front.
pub proof fn lemma_total_len_cons(x: LineSegment, rest: Seq<LineSegment>)
    ensures
        spec_total_len(seq![x] + rest) == x.spec_length() + spec_total_len(rest),
{
    lemma_prefix_len_cons(x, rest, rest.len() as int);
}

/// Prefix sums of a sequence with one segment in front.
pub proof fn lemma_prefix_len_cons(x: LineSegment, rest: Seq<LineSegment>, i: int)
    requires
        0 <= i <= rest.len(),
    ensures
        spec_prefix_len(seq![x] + rest, i + 1) == x.spec_length() + spec_prefix_len(rest, i),
    decreases i,
{
    if i > 0 {
        lemma_prefix_len_cons(x, rest, i - 1);
        assert((seq![x] + rest)[i] == rest[i - 1]);
        assert(spec_prefix_len(seq![x] + rest, i + 1) == spec_prefix_len(seq![x] + rest, i) + (
        seq![x] + rest)[i].spec_length());
        assert(spec_prefix_len(rest, i) == spec_prefix_len(rest, i - 1) + rest[
            i - 1
        ].spec_length());
    } else {
        assert((seq![x] + rest)[0] == x);
        assert(spec_prefix_len(seq![x] + rest, 1) == spec_prefix_len(seq![x] + rest, 0) + (
        seq![x] + rest)[0].spec_length());
        assert(spec_prefix_len(rest, 0) == 0);
        assert(spec_prefix_len(seq![x] + rest, 0) == 0);
    }
}

/// The total length of a sequence with one segment appended.
pub proof fn lemma_total_len_push(segs: Seq<LineSegment>, x: LineSegment)
    ensures
        spec_total_len(segs.push(x)) == spec_total_len(segs) + x.spec_length(),
{
    lemma_prefix_len_agree(segs.push(x), segs, segs.len() as int);
    assert(segs.push(x)[segs.len() as int] == x);
}

/// Reversing a sequence keeps its total length.
pub proof fn lemma_total_len_reverse(segs: Seq<LineSegment>)
    ensures
        spec_total_len(segs.reverse()) == spec_total_len(segs),
    decreases segs.len(),
{
    if segs.len() > 0 {
        let last = segs[segs.len() - 1];
        let front = segs.drop_last();
        assert(segs.reverse() =~= seq![last] + front.reverse());
        lemma_total_len_cons(last, front.reverse());
        lemma_total_len_reverse(front);
        lemma_prefix_len_agree(segs, front, front.len() as int);
    }
}

/// A selection spanning `[0, end]` has total length exactly `end`.
pub proof fn lemma_segments_until_total(segs: Seq<LineSegment>, end: int)
    requires
        0 <= end,
        spec_segments_until(segs, end) is Some,
    ensures
        spec_total_len(spec_segments_until(segs, end)->Some_0) == end,
    decreases segs.len(),
{
    if segs.len() == 0 {
        assert(spec_total_len(Seq::<LineSegment>::empty()) == 0);
    } else if segs[0].spec_length() >= end {
        let cut = segs[0].spec_with_length(end as u64);
        assert(spec_segments_until(segs, end)->Some_0 =~= seq![cut] + Seq::<
            LineSegment,
        >::empty());
        lemma_total_len_cons(cut, Seq::<LineSegment>::empty());
        assert(spec_total_len(Seq::<LineSegment>::empty()) == 0);
    } else {
        let tail_end = end - segs[0].spec_length();
        lemma_segments_until_total(segs.drop_first(), tail_end);
        lemma_total_len_cons(segs[0], spec_segments_until(segs.drop_first(), tail_end)->Some_0);
    }
}

/// A path at least `end` long yields a selection; it is nonempty
/// whenever the path has segments.
pub proof fn lemma_segments_until_some(segs: Seq<LineSegment>, end: int)
    requires
        0 <= end <= spec_total_len(segs),
    ensures
        spec_segments_until(segs, end) is Some,
        segs.len() > 0 ==> spec_segments_until(segs, end)->Some_0.len() > 0,
    decreases segs.len(),
{
    if segs.len() > 0 && segs[0].spec_length() < end {
        assert(segs =~= seq![segs[0]] + segs.drop_first());
        lemma_total_len_cons(segs[0], segs.drop_first());
        lemma_segments_until_some(segs.drop_first(), end - segs[0].spec_length());
    }
}

/// Each selected segment carries the base parameters of the path
/// segment at its position: truncation only changes the length.
pub proof fn lemma_segments_until_bases(segs: Seq<LineSegment>, end: int)
    requires
        spec_segments_until(segs, end) is Some,
    ensures
        spec_segments_until(segs, end)->Some_0.len() <= segs.len(),
        forall|k: int|
            0 <= k < spec_segments_until(segs, end)->Some_0.len()
                ==> #[trigger] spec_segments_until(
                segs,
                end,
            )->Some_0[k].lfmf_parameters.spec_with_distance(0)
                == segs[k].lfmf_parameters.spec_with_distance(0),
    decreases segs.len(),
{
    if segs.len() > 0 && segs[0].spec_length() < end {
        lemma_segments_until_bases(segs.drop_first(), end - segs[0].spec_length());
        let sel = spec_segments_until(segs, end)->Some_0;
        let rest = spec_segments_until(segs.drop_first(), end - segs[0].spec_length())->Some_0;
        assert(forall|k: int| 1 <= k < sel.len() ==> sel[k] == rest[k - 1]);
        assert(forall|k: int|
            1 <= k < sel.len() ==> segs.drop_first()[k - 1] == segs[k]);
    }
}

/// The subsequence of segments spanning `[0, end]`, walking outward
/// from the transmitter; the segment reaching `end` is truncated to end
/// exactly there.  `None` when the path is shorter than `end`.
pub open spec fn spec_segments_until(segs: Seq<LineSegment>, end: int) -> Option<
    Seq<LineSegment>,
>
    decreases segs.len(),
{
    if segs.len() == 0 {
        if end <= 0 {
            Some(Seq::empty())
        } else {
            None
        }
    } else if segs[0].spec_length() >= end {
        Some(seq![segs[0].spec_with_length(end as u64)])
    } else {
        match spec_segments_until(segs.drop_first(), end - segs[0].spec_length()) {
            Some(rest) => Some(seq![segs[0]] + rest),
            None => None,
        }
    }
}

/// An ordered sequence of terrain segments for one bearing; the order
/// is the physical order outward from the transmitter.  Well-formed
/// lines have only positive segment lengths and a total length that
/// fits the distance type.
#[derive(Clone, Debug)]
pub struct Line {
    pub angle_millideg: i64,
    pub segments: Vec<LineSegment>,
}

impl Line {
    /// Every segment length is positive and the total length fits.
    pub open spec fn wf(self) -> bool {
        &&& forall|i: int|
            0 <= i < self.segments@.len() ==> #[trigger] self.segments@[i].spec_length() > 0
        &&& spec_total_len(self.segments@) <= u64::MAX
    }

    /// The total length of the path, millimetres.
    pub open spec fn spec_total(self) -> int {
        spec_total_len(self.segments@)
    }

    /// An empty path for the given bearing, thousandths of a degree.
    pub fn new(angle_millideg: i64) -> (r: Line)
        ensures
            r.angle_millideg == angle_millideg,
            r.segments@ == Seq::<LineSegment>::empty(),
    {
        let segments: Vec<LineSegment> = Vec::new();
        Line { angle_millideg, segments }
    }

    /// A path over the given segments, in physical order.
    pub fn with_segments(angle_millideg: i64, segments: Vec<LineSegment>) -> (r: Line)
        ensures
            r.angle_millideg == angle_millideg,
            r.segments@ == segments@,
    {
        Line { angle_millideg, segments }
    }

    /// The bearing, thousandths of a degree.
    pub fn angle(&self) -> (r: i64)
        ensures
            r == self.angle_millideg,
    {
        self.angle_millideg
    }

    /// The segments, in physical order outward from the transmitter.
    pub fn segments(&self) -> (r: &Vec<LineSegment>)
        ensures
            r@ == self.segments@,
    {
        &self.segments
    }

    /// Appends one segment at the far end of the path.
    pub fn add_segment(&mut self, segment: LineSegment)
        ensures
            final(self).angle_millideg == old(self).angle_millideg,
            final(self).segments@ == old(self).segments@.push(segment),
    {
        self.segments.push(segment);
    }

    /// The total length of the path, millimetres.
    pub fn max_distance(&self) -> (r: u64)
        requires
            self.wf(),
        ensures
            r == self.spec_total(),
    {
        let n = self.segments.len();
        let mut total: u64 = 0;
        let mut i: usize = 0;
        while i < n
            invariant
                n == self.segments@.len(),
                0 <= i <= n,
                total == spec_prefix_len(self.segments@, i as int),
                spec_total_len(self.segments@) <= u64::MAX,
            decreases n - i,
        {
            proof {
                lemma_prefix_len_monotonic(self.segments@, i + 1, n as int);
            }
            total = total + self.segments[i].length_mm();
            i = i + 1;
        }
        total
    }

    /// Whether the path is well formed: every segment length positive
    /// and the total length within the distance type.  Paths built by
    /// the profile parser always are; hand-built ones can be checked
    /// here before evaluation.
    pub fn is_well_formed(&self) -> (r: bool)
        ensures
            r == self.wf(),
    {
        let n = self.segments.len();
        let mut total: u128 = 0;
        let mut i: usize = 0;
        while i < n
            invariant
                n == self.segments@.len(),
                0 <= i <= n,
                total == spec_prefix_len(self.segments@, i as int),
                total <= (i as int) * (u64::MAX as int),
                forall|j: int|
                    0 <= j < i ==> #[trigger] self.segments@[j].spec_length() > 0,
            decreases n - i,
        {
            let len = self.segments[i].length_mm();
            if len == 0 {
                return false;
            }
            proof {
                assert((i + 1) * (u64::MAX as int) == (i as int) * (u64::MAX as int) + (
                u64::MAX as int));
            }
            total = total + (len as u128);
            i = i + 1;
        }
        total <= u64::MAX as u128
    }

    /// Whether the path has no segments.
    pub fn is_empty(&self) -> (r: bool)
        ensures
            r == (self.segments@.len() == 0),
    {
        self.segments.len() == 0
    }

    /// The segments spanning `[0, end_distance_mm]`, the last truncated
    /// to end exactly at `end_distance_mm`; `None` when the path is
    /// shorter than that.  The path itself is never changed.
    pub fn segments_until(&self, end_distance_mm: u64) -> (r: Option<Vec<LineSegment>>)
        requires
            self.wf(),
        ensures
            match spec_segments_until(self.segments@, end_distance_mm as int) {
                Some(s) => r matches Some(v) && v@ == s,
                None => r is None,
            },
    {
        let segs = &self.segments;
        let n = segs.len();
        let mut out: Vec<LineSegment> = Vec::new();
        let mut cum: u64 = 0;
        let mut i: usize = 0;
        let end = end_distance_mm;
        proof {
            assert(segs@.skip(0) =~= segs@);
            let s0 = spec_segments_until(segs@, end as int);
            if s0 is Some {
                assert(out@ + s0->Some_0 =~= s0->Some_0);
            }
        }
        while i < n
            invariant
                n == segs@.len(),
                segs@ == self.segments@,
                end == end_distance_mm,
                self.wf(),
                0 <= i <= n,
                cum == spec_prefix_len(segs@, i as int),
                i > 0 ==> cum < end,
                out@ == segs@.take(i as int),
                spec_segments_until(segs@, end as int) == match spec_segments_until(
                    segs@.skip(i as int),
                    end - cum,
                ) {
                    Some(rest) => Some(out@ + rest),
                    None => None::<Seq<LineSegment>>,
                },
            decreases n - i,
        {
            proof {
                lemma_prefix_len_monotonic(segs@, i + 1, n as int);
                assert(segs@.skip(i as int)[0] == segs@[i as int]);
            }
            let len = segs[i].length_mm();
            if cum + len >= end {
                // This segment reaches `end`: truncate a copy of it and
                // close the selection, leaving the path untouched.
                let mut cut = segs[i];
                cut.set_length_mm(end - cum);
                out.push(cut);
                proof {
                    assert(cut == segs@[i as int].spec_with_length((end - cum) as u64));
                    assert(spec_segments_until(segs@.skip(i as int), end - cum) == Some(
                        seq![segs@[i as int].spec_with_length((end - cum) as u64)],
                    ));
                    assert(out@ =~= segs@.take(i as int) + seq![cut]);
                }
                return Some(out);
            }
            proof {
                assert(segs@.skip(i as int).drop_first() =~= segs@.skip(i + 1));
            }
            out.push(segs[i]);
            cum = cum + len;
            i = i + 1;
            proof {
                assert(out@ =~= segs@.take(i as int));
                let s1 = spec_segments_until(segs@.skip(i as int), end - cum);
                if s1 is Some {
                    assert(out@ + s1->Some_0 =~= segs@.take(i - 1) + (seq![
                        segs@[i - 1],
                    ] + s1->Some_0));
                }
            }
        }
        if end <= cum {
            proof {
                assert(segs@.skip(n as int) =~= Seq::<LineSegment>::empty());
                assert(spec_segments_until(segs@.skip(n as int), end - cum) == Some(
                    Seq::<LineSegment>::empty(),
                ));
                assert(out@ + Seq::<LineSegment>::empty() =~= out@);
            }
            Some(out)
        } else {
            proof {
                assert(segs@.skip(n as int) =~= Seq::<LineSegment>::empty());
            }
            None
        }
    }
}

} // verus!
