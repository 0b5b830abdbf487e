//! Field strength at a distance along a mixed path.
//!
//! A query selects the segments spanning the distance, truncates the
//! last one, and either delegates a single segment directly to the
//! propagation model or combines several segments with Millington's
//! method: one pass walking outward and one pass walking back, each
//! cancelling the homogeneous-path bias at every interior boundary, and
//! the arithmetic mean of the two pass totals as the result.

use vstd::prelude::*;

use crate::params::{
    lemma_validate_with_distance, spec_base_valid, FieldStrengthModel, LFMF_Error,
    FIELD_LIMIT_UDB, MAX_DISTANCE_MM,
};
use crate::terrain::line::{
    lemma_prefix_len_monotonic, lemma_segments_until_bases, lemma_segments_until_some,
    lemma_segments_until_total, lemma_total_len_reverse, spec_prefix_len, spec_segments_until,
    spec_total_len, Line,
};
use crate::terrain::line_segment::LineSegment;

verus! {

/// Why a field-strength query failed.
#[derive(Clone, Copy, PartialEq, Eq, Structural, Debug)]
pub enum EvalError {
    /// The path has no segments.
    EmptyPath,
    /// The query distance lies beyond the far end of the path.
    OutOfRange { distance_mm: u64, total_mm: u64 },
    /// The propagation model rejected a query, at the given segment of
    /// the selection and boundary distance.
    Model { segment_index: usize, boundary_mm: u64, error: LFMF_Error },
}

/// Half of `x`, rounded toward zero.
pub open spec fn spec_half_toward_zero(x: int) -> int {
    if x >= 0 {
        x / 2
    } else {
        -((-x) / 2)
    }
}

/// One one-way Millington pass over `segs`, started at segment `i` with
/// `old_d` millimetres already covered: at each interior boundary the
/// current segment's parameters extended to the boundary are added and
/// the next segment's parameters extended to the same boundary are
/// subtracted; the terminal segment is extended to the full distance.
/// The first failing model query is reported with its segment index and
/// boundary distance.
pub open spec fn spec_one_way_from<M: FieldStrengthModel>(
    m: M,
    segs: Seq<LineSegment>,
    i: int,
    old_d: int,
) -> Result<int, EvalError>
    decreases segs.len() - i,
{
    if i < 0 || i >= segs.len() {
        Ok(0)
    } else {
        let new_d = old_d + segs[i].spec_length();
        let base = segs[i].lfmf_parameters;
        let sub = if old_d != 0 {
            match m.spec_evaluate(base.spec_with_distance(old_d as u64)) {
                Ok(r) => Ok(r.e_udbuvm as int),
                Err(e) => Err(
                    (EvalError::Model {
                        segment_index: i as usize,
                        boundary_mm: old_d as u64,
                        error: e,
                    }),
                ),
            }
        } else {
            Ok(0)
        };
        match sub {
            Err(e) => Err(e),
            Ok(sub_v) => match m.spec_evaluate(base.spec_with_distance(new_d as u64)) {
                Err(e) => Err(
                    (EvalError::Model {
                        segment_index: i as usize,
                        boundary_mm: new_d as u64,
                        error: e,
                    }),
                ),
                Ok(r) => match spec_one_way_from(m, segs, i + 1, new_d) {
                    Err(e2) => Err(e2),
                    Ok(rest) => Ok(r.e_udbuvm - sub_v + rest),
                },
            },
        }
    }
}

/// A full one-way pass over `segs`.
pub open spec fn spec_one_way<M: FieldStrengthModel>(m: M, segs: Seq<LineSegment>) -> Result<
    int,
    EvalError,
> {
    spec_one_way_from(m, segs, 0, 0)
}

/// Millington's method over a selection of at least two segments: the
/// mean of the outward pass and the pass over the reversed order.
pub open spec fn spec_millington<M: FieldStrengthModel>(m: M, segs: Seq<LineSegment>) -> Result<
    int,
    EvalError,
> {
    match spec_one_way(m, segs) {
        Err(e) => Err(e),
        Ok(forward) => match spec_one_way(m, segs.reverse()) {
            Err(e) => Err(e),
            Ok(backward) => Ok(spec_half_toward_zero(forward + backward)),
        },
    }
}

/// Field strength of `line` at `distance_mm` from the transmitter:
/// out of range beyond the path end, empty-path failure on a path with
/// no segments, direct model delegation for one selected segment, and
/// Millington's method for several.
pub open spec fn spec_field_strength_at<M: FieldStrengthModel>(
    m: M,
    line: Line,
    distance_mm: u64,
) -> Result<int, EvalError> {
    match spec_segments_until(line.segments@, distance_mm as int) {
        None => Err(
            (EvalError::OutOfRange {
                distance_mm,
                total_mm: spec_total_len(line.segments@) as u64,
            }),
        ),
        Some(segs) => if segs.len() == 0 {
            Err(EvalError::EmptyPath)
        } else if segs.len() == 1 {
            match m.spec_evaluate(segs[0].lfmf_parameters) {
                Ok(r) => Ok(r.e_udbuvm as int),
                Err(e) => Err(
                    (EvalError::Model {
                        segment_index: 0,
                        boundary_mm: segs[0].spec_length(),
                        error: e,
                    }),
                ),
            }
        } else {
            spec_millington(m, segs)
        },
    }
}

/// A path with no segments fails every query: the zero distance finds
/// an empty selection, and any other lies beyond the path end.
pub proof fn lemma_empty_line_eval<M: FieldStrengthModel>(m: M, line: Line, distance_mm: u64)
    requires
        line.segments@.len() == 0,
    ensures
        distance_mm == 0 ==> spec_field_strength_at(m, line, distance_mm) == Err::<
            int,
            EvalError,
        >(EvalError::EmptyPath),
        distance_mm > 0 ==> spec_field_strength_at(m, line, distance_mm) == Err::<
            int,
            EvalError,
        >((EvalError::OutOfRange { distance_mm, total_mm: 0 })),
{
    assert(spec_total_len(line.segments@) == 0);
    if distance_mm == 0 {
        assert(spec_segments_until(line.segments@, 0) == Some(Seq::<LineSegment>::empty()));
    } else {
        assert(spec_segments_until(line.segments@, distance_mm as int) is None);
    }
}

/// On a single-segment path, the field strength at any distance within
/// the segment is exactly the model's direct result for that distance:
/// the evaluator only truncates the segment and delegates, and a model
/// failure is reported for that one segment.
pub proof fn lemma_single_segment_direct<M: FieldStrengthModel>(m: M, line: Line, d: u64)
    requires
        line.wf(),
        line.segments@.len() == 1,
        0 < d <= line.spec_total(),
    ensures
        spec_field_strength_at(m, line, d) == (match m.spec_evaluate(
            line.segments@[0].lfmf_parameters.spec_with_distance(d),
        ) {
            Ok(r) => Ok::<int, EvalError>(r.e_udbuvm as int),
            Err(e) => Err::<int, EvalError>(
                (EvalError::Model { segment_index: 0, boundary_mm: d, error: e }),
            ),
        }),
{
    let segs = line.segments@;
    assert(spec_total_len(segs) == spec_prefix_len(segs, 0) + segs[0].spec_length());
    let cut = segs[0].spec_with_length(d);
    assert(spec_segments_until(segs, d as int) == Some(seq![cut]));
    assert(cut.lfmf_parameters == segs[0].lfmf_parameters.spec_with_distance(d));
    assert(cut.spec_length() == d);
}

/// A one-way pass whose segments all carry valid base parameters and
/// whose boundaries stay within the model's distance cap never fails.
proof fn lemma_one_way_defined<M: FieldStrengthModel>(m: M, segs: Seq<LineSegment>, i: int)
    requires
        0 <= i <= segs.len(),
        spec_total_len(segs) <= MAX_DISTANCE_MM,
        forall|k: int|
            0 <= k < segs.len() ==> spec_base_valid(#[trigger] segs[k].lfmf_parameters),
    ensures
        spec_one_way_from(m, segs, i, spec_prefix_len(segs, i)) is Ok,
    decreases segs.len() - i,
{
    if i < segs.len() {
        let old_d = spec_prefix_len(segs, i);
        let new_d = old_d + segs[i].spec_length();
        lemma_prefix_len_monotonic(segs, 0, i);
        lemma_prefix_len_monotonic(segs, i + 1, segs.len() as int);
        assert(new_d == spec_prefix_len(segs, i + 1));
        let base = segs[i].lfmf_parameters;
        lemma_validate_with_distance(base, old_d as u64);
        lemma_validate_with_distance(base, new_d as u64);
        m.lemma_evaluate_consistent(base.spec_with_distance(old_d as u64));
        m.lemma_evaluate_consistent(base.spec_with_distance(new_d as u64));
        lemma_one_way_defined(m, segs, i + 1);
    }
}

/// On a path whose segments all carry valid base parameters, every
/// query within both the path and the model's distance cap succeeds:
/// the evaluator owes an answer whenever its inputs are in range.
pub proof fn lemma_field_strength_defined<M: FieldStrengthModel>(m: M, line: Line, d: u64)
    requires
        line.segments@.len() > 0,
        d <= line.spec_total(),
        d <= MAX_DISTANCE_MM,
        forall|k: int|
            0 <= k < line.segments@.len() ==> spec_base_valid(
                #[trigger] line.segments@[k].lfmf_parameters,
            ),
    ensures
        spec_field_strength_at(m, line, d) is Ok,
{
    let segs = line.segments@;
    lemma_segments_until_some(segs, d as int);
    lemma_segments_until_bases(segs, d as int);
    lemma_segments_until_total(segs, d as int);
    let sel = spec_segments_until(segs, d as int)->Some_0;
    assert(forall|k: int|
        0 <= k < sel.len() ==> spec_base_valid(#[trigger] sel[k].lfmf_parameters));
    if sel.len() == 1 {
        assert(spec_total_len(sel) == spec_prefix_len(sel, 0) + sel[0].spec_length());
        assert(sel[0].lfmf_parameters.d_mm == d);
        assert(sel[0].lfmf_parameters.spec_with_distance(d) == sel[0].lfmf_parameters);
        lemma_validate_with_distance(sel[0].lfmf_parameters, d);
        m.lemma_evaluate_consistent(sel[0].lfmf_parameters);
    } else {
        lemma_one_way_defined(m, sel, 0);
        lemma_total_len_reverse(sel);
        assert(forall|k: int|
            0 <= k < sel.reverse().len() ==> spec_base_valid(
                #[trigger] sel.reverse()[k].lfmf_parameters,
            ));
        lemma_one_way_defined(m, sel.reverse(), 0);
    }
}

/// Millington's method over two segments is the hand-computed average:
/// the outward pass adds the first segment's parameters extended to the
/// interior boundary, cancels the second segment's parameters at that
/// boundary, and extends them to the full distance; the backward pass
/// does the same with the order reversed; the result is half their sum.
pub proof fn lemma_millington_two_segments<M: FieldStrengthModel>(
    m: M,
    a: LineSegment,
    b: LineSegment,
)
    requires
        a.spec_length() > 0,
        b.spec_length() > 0,
        a.spec_length() + b.spec_length() <= u64::MAX,
        m.spec_evaluate(a.lfmf_parameters.spec_with_distance(a.spec_length())) is Ok,
        m.spec_evaluate(b.lfmf_parameters.spec_with_distance(a.spec_length())) is Ok,
        m.spec_evaluate(
            b.lfmf_parameters.spec_with_distance((a.spec_length() + b.spec_length()) as u64),
        ) is Ok,
        m.spec_evaluate(b.lfmf_parameters.spec_with_distance(b.spec_length())) is Ok,
        m.spec_evaluate(a.lfmf_parameters.spec_with_distance(b.spec_length())) is Ok,
        m.spec_evaluate(
            a.lfmf_parameters.spec_with_distance((a.spec_length() + b.spec_length()) as u64),
        ) is Ok,
    ensures
        spec_millington(m, seq![a, b]) == ({
            let b1 = a.spec_length();
            let l2 = b.spec_length();
            let t = (a.spec_length() + b.spec_length()) as u64;
            let pa = a.lfmf_parameters;
            let pb = b.lfmf_parameters;
            Ok::<int, EvalError>(
                spec_half_toward_zero(
                    (m.spec_evaluate(pa.spec_with_distance(b1))->Ok_0.e_udbuvm - m.spec_evaluate(
                        pb.spec_with_distance(b1),
                    )->Ok_0.e_udbuvm + m.spec_evaluate(pb.spec_with_distance(t))->Ok_0.e_udbuvm) + (
                    m.spec_evaluate(pb.spec_with_distance(l2))->Ok_0.e_udbuvm - m.spec_evaluate(
                        pa.spec_with_distance(l2),
                    )->Ok_0.e_udbuvm + m.spec_evaluate(pa.spec_with_distance(t))->Ok_0.e_udbuvm),
                ),
            )
        }),
{
    let fwd = seq![a, b];
    let bwd = seq![b, a];
    assert(fwd.reverse() =~= bwd);
    let b1 = a.spec_length();
    let l2 = b.spec_length();
    let t = (b1 + l2) as u64;
    let pa = a.lfmf_parameters;
    let pb = b.lfmf_parameters;
    let ea_b1 = m.spec_evaluate(pa.spec_with_distance(b1))->Ok_0.e_udbuvm;
    let eb_b1 = m.spec_evaluate(pb.spec_with_distance(b1))->Ok_0.e_udbuvm;
    let eb_t = m.spec_evaluate(pb.spec_with_distance(t))->Ok_0.e_udbuvm;
    let eb_l2 = m.spec_evaluate(pb.spec_with_distance(l2))->Ok_0.e_udbuvm;
    let ea_l2 = m.spec_evaluate(pa.spec_with_distance(l2))->Ok_0.e_udbuvm;
    let ea_t = m.spec_evaluate(pa.spec_with_distance(t))->Ok_0.e_udbuvm;
    assert(fwd[0] == a && fwd[1] == b && bwd[0] == b && bwd[1] == a);
    assert(spec_one_way_from(m, fwd, 2, b1 + l2) == Ok::<int, EvalError>(0));
    assert(spec_one_way_from(m, bwd, 2, l2 + b1) == Ok::<int, EvalError>(0));
    assert(spec_one_way_from(m, fwd, 1, b1 as int) == Ok::<int, EvalError>(eb_t - eb_b1));
    assert(spec_one_way_from(m, bwd, 1, l2 as int) == Ok::<int, EvalError>(ea_t - ea_l2));
    assert(spec_one_way(m, fwd) == Ok::<int, EvalError>(ea_b1 + (eb_t - eb_b1)));
    assert(spec_one_way(m, bwd) == Ok::<int, EvalError>(eb_l2 + (ea_t - ea_l2)));
    assert(spec_one_way(m, fwd.reverse()) == spec_one_way(m, bwd));
    assert((ea_b1 + (eb_t - eb_b1)) + (eb_l2 + (ea_t - ea_l2)) == (ea_b1 - eb_b1 + eb_t) + (eb_l2
        - ea_l2 + ea_t));
}

/// Millington's method over three segments is the hand-computed
/// average in the same way: each pass cancels the bias at both
/// interior boundaries and extends the terminal segment to the full
/// distance, and the result is half the sum of the two passes.
pub proof fn lemma_millington_three_segments<M: FieldStrengthModel>(
    m: M,
    a: LineSegment,
    b: LineSegment,
    c: LineSegment,
)
    requires
        a.spec_length() > 0,
        b.spec_length() > 0,
        c.spec_length() > 0,
        a.spec_length() + b.spec_length() + c.spec_length() <= u64::MAX,
        m.spec_evaluate(a.lfmf_parameters.spec_with_distance(a.spec_length())) is Ok,
        m.spec_evaluate(b.lfmf_parameters.spec_with_distance(a.spec_length())) is Ok,
        m.spec_evaluate(
            b.lfmf_parameters.spec_with_distance((a.spec_length() + b.spec_length()) as u64),
        ) is Ok,
        m.spec_evaluate(
            c.lfmf_parameters.spec_with_distance((a.spec_length() + b.spec_length()) as u64),
        ) is Ok,
        m.spec_evaluate(
            c.lfmf_parameters.spec_with_distance(
                (a.spec_length() + b.spec_length() + c.spec_length()) as u64,
            ),
        ) is Ok,
        m.spec_evaluate(c.lfmf_parameters.spec_with_distance(c.spec_length())) is Ok,
        m.spec_evaluate(b.lfmf_parameters.spec_with_distance(c.spec_length())) is Ok,
        m.spec_evaluate(
            b.lfmf_parameters.spec_with_distance((c.spec_length() + b.spec_length()) as u64),
        ) is Ok,
        m.spec_evaluate(
            a.lfmf_parameters.spec_with_distance((c.spec_length() + b.spec_length()) as u64),
        ) is Ok,
        m.spec_evaluate(
            a.lfmf_parameters.spec_with_distance(
                (a.spec_length() + b.spec_length() + c.spec_length()) as u64,
            ),
        ) is Ok,
    ensures
        spec_millington(m, seq![a, b, c]) == ({
            let b1 = a.spec_length();
            let b2 = (a.spec_length() + b.spec_length()) as u64;
            let r1 = c.spec_length();
            let r2 = (c.spec_length() + b.spec_length()) as u64;
            let t = (a.spec_length() + b.spec_length() + c.spec_length()) as u64;
            let pa = a.lfmf_parameters;
            let pb = b.lfmf_parameters;
            let pc = c.lfmf_parameters;
            Ok::<int, EvalError>(
                spec_half_toward_zero(
                    (m.spec_evaluate(pa.spec_with_distance(b1))->Ok_0.e_udbuvm - m.spec_evaluate(
                        pb.spec_with_distance(b1),
                    )->Ok_0.e_udbuvm + m.spec_evaluate(pb.spec_with_distance(b2))->Ok_0.e_udbuvm
                        - m.spec_evaluate(pc.spec_with_distance(b2))->Ok_0.e_udbuvm
                        + m.spec_evaluate(pc.spec_with_distance(t))->Ok_0.e_udbuvm) + (
                    m.spec_evaluate(pc.spec_with_distance(r1))->Ok_0.e_udbuvm - m.spec_evaluate(
                        pb.spec_with_distance(r1),
                    )->Ok_0.e_udbuvm + m.spec_evaluate(pb.spec_with_distance(r2))->Ok_0.e_udbuvm
                        - m.spec_evaluate(pa.spec_with_distance(r2))->Ok_0.e_udbuvm
                        + m.spec_evaluate(pa.spec_with_distance(t))->Ok_0.e_udbuvm),
                ),
            )
        }),
{
    let fwd = seq![a, b, c];
    let bwd = seq![c, b, a];
    assert(fwd.reverse() =~= bwd);
    let b1 = a.spec_length();
    let l2 = b.spec_length();
    let l3 = c.spec_length();
    let b2 = (b1 + l2) as u64;
    let r2 = (l3 + l2) as u64;
    let t = (b1 + l2 + l3) as u64;
    let pa = a.lfmf_parameters;
    let pb = b.lfmf_parameters;
    let pc = c.lfmf_parameters;
    let ea_b1 = m.spec_evaluate(pa.spec_with_distance(b1))->Ok_0.e_udbuvm;
    let eb_b1 = m.spec_evaluate(pb.spec_with_distance(b1))->Ok_0.e_udbuvm;
    let eb_b2 = m.spec_evaluate(pb.spec_with_distance(b2))->Ok_0.e_udbuvm;
    let ec_b2 = m.spec_evaluate(pc.spec_with_distance(b2))->Ok_0.e_udbuvm;
    let ec_t = m.spec_evaluate(pc.spec_with_distance(t))->Ok_0.e_udbuvm;
    let ec_r1 = m.spec_evaluate(pc.spec_with_distance(l3))->Ok_0.e_udbuvm;
    let eb_r1 = m.spec_evaluate(pb.spec_with_distance(l3))->Ok_0.e_udbuvm;
    let eb_r2 = m.spec_evaluate(pb.spec_with_distance(r2))->Ok_0.e_udbuvm;
    let ea_r2 = m.spec_evaluate(pa.spec_with_distance(r2))->Ok_0.e_udbuvm;
    let ea_t = m.spec_evaluate(pa.spec_with_distance(t))->Ok_0.e_udbuvm;
    assert(fwd[0] == a && fwd[1] == b && fwd[2] == c);
    assert(bwd[0] == c && bwd[1] == b && bwd[2] == a);
    assert(spec_one_way_from(m, fwd, 3, b1 + l2 + l3) == Ok::<int, EvalError>(0));
    assert(spec_one_way_from(m, bwd, 3, l3 + l2 + b1) == Ok::<int, EvalError>(0));
    assert(spec_one_way_from(m, fwd, 2, b2 as int) == Ok::<int, EvalError>(ec_t - ec_b2));
    assert(spec_one_way_from(m, bwd, 2, r2 as int) == Ok::<int, EvalError>(ea_t - ea_r2));
    assert(spec_one_way_from(m, fwd, 1, b1 as int) == Ok::<int, EvalError>(
        (eb_b2 - eb_b1) + (ec_t - ec_b2),
    ));
    assert(spec_one_way_from(m, bwd, 1, l3 as int) == Ok::<int, EvalError>(
        (eb_r2 - eb_r1) + (ea_t - ea_r2),
    ));
    assert(spec_one_way(m, fwd) == Ok::<int, EvalError>(ea_b1 + ((eb_b2 - eb_b1) + (ec_t
        - ec_b2))));
    assert(spec_one_way(m, bwd) == Ok::<int, EvalError>(ec_r1 + ((eb_r2 - eb_r1) + (ea_t
        - ea_r2))));
    assert(spec_one_way(m, fwd.reverse()) == spec_one_way(m, bwd));
    assert((ea_b1 + ((eb_b2 - eb_b1) + (ec_t - ec_b2))) + (ec_r1 + ((eb_r2 - eb_r1) + (ea_t
        - ea_r2))) == (ea_b1 - eb_b1 + eb_b2 - ec_b2 + ec_t) + (ec_r1 - eb_r1 + eb_r2 - ea_r2
        + ea_t));
}

/// On a path of two segments, the field strength at a distance inside
/// the second segment is Millington's method over the first segment and
/// the second truncated to end exactly at the query distance.
pub proof fn lemma_field_strength_two_segments<M: FieldStrengthModel>(m: M, line: Line, d: u64)
    requires
        line.wf(),
        line.segments@.len() == 2,
        line.segments@[0].spec_length() < d <= line.spec_total(),
    ensures
        spec_field_strength_at(m, line, d) == spec_millington(
            m,
            seq![
                line.segments@[0],
                line.segments@[1].spec_with_length(
                    (d - line.segments@[0].spec_length()) as u64,
                ),
            ],
        ),
{
    let segs = line.segments@;
    let s0 = segs[0];
    let s1 = segs[1];
    let b1 = s0.spec_length();
    assert(spec_total_len(segs) == spec_prefix_len(segs, 1) + s1.spec_length());
    assert(spec_prefix_len(segs, 1) == spec_prefix_len(segs, 0) + b1);
    let tail = segs.drop_first();
    assert(tail =~= seq![s1]);
    assert(tail.drop_first() =~= Seq::<LineSegment>::empty());
    let cut = s1.spec_with_length((d - b1) as u64);
    assert(spec_segments_until(tail, d - b1) == Some(seq![cut]));
    assert(spec_segments_until(segs, d as int) == Some(seq![s0] + seq![cut]));
    assert(seq![s0] + seq![cut] =~= seq![s0, cut]);
}

/// One one-way Millington pass over `segments`.
fn calc_one_way_field_strength_for_segments<M: FieldStrengthModel>(
    model: &M,
    segments: &Vec<LineSegment>,
) -> (r: Result<i128, EvalError>)
    requires
        spec_total_len(segments@) <= u64::MAX,
    ensures
        match spec_one_way(*model, segments@) {
            Ok(v) => r matches Ok(x) && x == v && -2 * segments@.len() * FIELD_LIMIT_UDB <= v <= 2
                * segments@.len() * FIELD_LIMIT_UDB,
            Err(e) => r == Err::<i128, EvalError>(e),
        },
{
    let n = segments.len();
    let mut acc: i128 = 0;
    let mut old_d: u64 = 0;
    let mut i: usize = 0;
    while i < n
        invariant
            n == segments@.len(),
            0 <= i <= n,
            old_d == spec_prefix_len(segments@, i as int),
            spec_total_len(segments@) <= u64::MAX,
            -2 * (i as int) * FIELD_LIMIT_UDB <= acc <= 2 * (i as int) * FIELD_LIMIT_UDB,
            match spec_one_way_from(*model, segments@, i as int, old_d as int) {
                Ok(v) => spec_one_way(*model, segments@) == Ok::<int, EvalError>(acc + v),
                Err(e) => spec_one_way(*model, segments@) == Err::<int, EvalError>(e),
            },
        decreases n - i,
    {
        proof {
            lemma_prefix_len_monotonic(segments@, i + 1, n as int);
        }
        let seg = segments[i];
        let len = seg.length_mm();
        let new_d = old_d + len;
        let base = seg.lfmf_parameters();
        if old_d != 0 {
            let p = base.with_distance(old_d);
            match model.evaluate(&p) {
                Err(e) => {
                    return Err(
                        EvalError::Model { segment_index: i, boundary_mm: old_d, error: e },
                    );
                },
                Ok(res) => {
                    proof {
                        (*model).lemma_evaluate_consistent(p);
                    }
                    acc = acc - (res.e_udbuvm as i128);
                },
            }
        }
        let p2 = base.with_distance(new_d);
        match model.evaluate(&p2) {
            Err(e) => {
                return Err(EvalError::Model { segment_index: i, boundary_mm: new_d, error: e });
            },
            Ok(res) => {
                proof {
                    (*model).lemma_evaluate_consistent(p2);
                }
                acc = acc + (res.e_udbuvm as i128);
            },
        }
        old_d = new_d;
        i = i + 1;
    }
    Ok(acc)
}

/// Field strength of `line` at `distance_mm` from the transmitter,
/// micro-decibels: delegates one selected segment directly to the model
/// and combines several with Millington's method.  The path itself is
/// never changed; the truncated terminal segment is a scoped copy.
pub fn calc_field_strength_for_line_at_km<M: FieldStrengthModel>(
    model: &M,
    line: &Line,
    distance_mm: u64,
) -> (r: Result<i128, EvalError>)
    requires
        line.wf(),
    ensures
        match spec_field_strength_at(*model, *line, distance_mm) {
            Ok(v) => r matches Ok(x) && x == v,
            Err(e) => r == Err::<i128, EvalError>(e),
        },
{
    match line.segments_until(distance_mm) {
        None => {
            let total = line.max_distance();
            Err(EvalError::OutOfRange { distance_mm, total_mm: total })
        },
        Some(segs) => {
            let count = segs.len();
            if count == 0 {
                Err(EvalError::EmptyPath)
            } else if count == 1 {
                let p = segs[0].lfmf_parameters();
                match model.evaluate(&p) {
                    Ok(res) => Ok(res.e_udbuvm as i128),
                    Err(e) => Err(
                        EvalError::Model {
                            segment_index: 0,
                            boundary_mm: segs[0].length_mm(),
                            error: e,
                        },
                    ),
                }
            } else {
                proof {
                    lemma_segments_until_total(line.segments@, distance_mm as int);
                }
                let forward = match calc_one_way_field_strength_for_segments(model, &segs) {
                    Ok(v) => v,
                    Err(e) => {
                        return Err(e);
                    },
                };
                let mut rev: Vec<LineSegment> = Vec::new();
                let mut j = count;
                while j > 0
                    invariant
                        count == segs@.len(),
                        0 <= j <= count,
                        rev@.len() == count - j,
                        forall|k: int|
                            0 <= k < rev@.len() ==> rev@[k] == segs@[count - 1 - k],
                    decreases j,
                {
                    j = j - 1;
                    rev.push(segs[j]);
                }
                proof {
                    assert(rev@ =~= segs@.reverse());
                    lemma_total_len_reverse(segs@);
                }
                let backward = match calc_one_way_field_strength_for_segments(model, &rev) {
                    Ok(v) => v,
                    Err(e) => {
                        return Err(e);
                    },
                };
                proof {
                    assert(-2 * (count as int) * FIELD_LIMIT_UDB <= forward <= 2 * (
                    count as int) * FIELD_LIMIT_UDB);
                    assert(-2 * (count as int) * FIELD_LIMIT_UDB <= backward <= 2 * (
                    count as int) * FIELD_LIMIT_UDB);
                }
                let sum: i128 = forward + backward;
                let half: i128 = if sum >= 0 {
                    proof {
                        assert((sum as u128) / 2 <= sum as u128);
                    }
                    ((sum as u128) / 2) as i128
                } else {
                    let neg: i128 = 0i128 - sum;
                    proof {
                        assert((neg as u128) / 2 <= neg as u128);
                    }
                    0i128 - (((neg as u128) / 2) as i128)
                };
                assert(half == spec_half_toward_zero(sum as int));
                Ok(half)
            }
        },
    }
}

} // verus!
