//! The terrain-bounded max-distance search.
//!
//! The field-strength-vs-distance curve of a mixed path is not globally
//! monotonic and may jump at internal model switchover points, so
//! bisection invariants cannot be assumed.  The search first walks the
//! segment boundaries outward to bracket the threshold crossing, then
//! refines linearly: stepping outward while the field strength stays
//! above the tolerance band, reverting and shrinking the step by one
//! eighth when it falls below the threshold, and stopping at a minimum
//! resolution of one metre with the last confirmed distance as a
//! best-effort answer.

use vstd::prelude::*;

use crate::evaluate::{calc_field_strength_for_line_at_km, spec_field_strength_at, EvalError};
use crate::params::{FieldStrengthModel, LFMF_Parameters};
use crate::terrain::line::{lemma_prefix_len_monotonic, spec_prefix_len, spec_total_len, Line};

verus! {

/// The tolerance band above the threshold: 1e-4 dB in micro-decibels.
pub const FIELD_STRENGTH_TOLERANCE_UDB: i64 = 100;
/// The resolution below which refinement stops: 1 m.
pub const MINIMUM_STEP_MM: u64 = 1_000;
/// The first refinement step: 5 km.
pub const INITIAL_STEP_MM: u64 = 5_000_000;
/// Each refinement reversal shrinks the step by this factor.
pub const STEP_SHRINK_DIV: u64 = 8;

/// A resolved search: either a distance whose field strength lies in
/// the tolerance band, or the last confirmed usable distance when the
/// step budget was exhausted before the band was hit.
#[derive(Clone, Copy, PartialEq, Eq, Structural, Debug)]
pub enum SearchOutcome {
    /// The field strength at this distance lies in the tolerance band.
    Resolved { distance_mm: u64 },
    /// The search exhausted its step budget; this is the farthest
    /// distance confirmed to be usable, a best-effort answer.
    BestEffort { distance_mm: u64 },
}

impl SearchOutcome {
    /// The distance the search settled on, millimetres.
    pub open spec fn spec_distance(self) -> u64 {
        match self {
            SearchOutcome::Resolved { distance_mm } => distance_mm,
            SearchOutcome::BestEffort { distance_mm } => distance_mm,
        }
    }

    /// The distance the search settled on, millimetres.
    pub fn distance_mm(&self) -> (r: u64)
        ensures
            r == self.spec_distance(),
    {
        match self {
            SearchOutcome::Resolved { distance_mm } => *distance_mm,
            SearchOutcome::BestEffort { distance_mm } => *distance_mm,
        }
    }
}

/// Why a search failed hard.
#[derive(Clone, Copy, PartialEq, Eq, Structural, Debug)]
pub enum SearchError {
    /// A field-strength query failed.
    Eval(EvalError),
    /// Every segment boundary of the path stays above the tolerance
    /// band: the crossing lies beyond the path end.
    BeyondPathEnd { total_mm: u64 },
    /// The field strength at the search ceiling is still above the
    /// tolerance band: the crossing lies beyond the ceiling.
    BeyondSearchCeiling { ceiling_mm: u64 },
}

/// What walking the segment boundaries outward settles.
#[derive(Clone, Copy, PartialEq, Eq, Structural, Debug)]
pub enum BracketOutcome {
    /// A boundary's field strength already lies in the tolerance band.
    Found { distance_mm: u64 },
    /// The crossing lies between these distances: the last boundary
    /// still above the band and the first boundary below the threshold.
    Bracket { lower_mm: u64, upper_mm: u64 },
    /// Every boundary stays above the band; `last_mm` is the path end.
    AllAbove { last_mm: u64 },
    /// A field-strength query failed.
    Failed { error: EvalError },
}

/// Walks segment boundaries outward from boundary `i` at cumulative
/// distance `cur`, evaluating the whole path at each boundary.
pub open spec fn spec_bracket<M: FieldStrengthModel>(
    m: M,
    line: Line,
    lower: int,
    upper: int,
    i: int,
    cur: int,
) -> BracketOutcome
    decreases line.segments@.len() - i,
{
    if i < 0 || i >= line.segments@.len() {
        BracketOutcome::AllAbove { last_mm: cur as u64 }
    } else {
        let cur2 = cur + line.segments@[i].spec_length();
        match spec_field_strength_at(m, line, cur2 as u64) {
            Err(e) => BracketOutcome::Failed { error: e },
            Ok(fs) => if fs > upper {
                spec_bracket(m, line, lower, upper, i + 1, cur2)
            } else if lower <= fs {
                BracketOutcome::Found { distance_mm: cur2 as u64 }
            } else {
                BracketOutcome::Bracket { lower_mm: cur as u64, upper_mm: cur2 as u64 }
            },
        }
    }
}

/// Linear refinement from cursor `cur` with the current `step`: advance
/// while the field strength stays above the band, shrink the step and
/// pull the far bound in when it falls below the threshold, return on a
/// value inside the band, and return the cursor as a best effort when
/// the step falls under the minimum resolution.  Distances at or past
/// the far bound `mx` count as below the threshold without a query.
pub open spec fn spec_refine<M: FieldStrengthModel>(
    m: M,
    line: Line,
    lower: int,
    upper: int,
    cur: int,
    mx: int,
    step: int,
) -> Result<SearchOutcome, SearchError>
    decreases step, mx - cur,
    when 0 < step && cur < mx
{
    let new_d = cur + step;
    if new_d < mx && spec_field_strength_at(m, line, new_d as u64) is Err {
        Err(SearchError::Eval(spec_field_strength_at(m, line, new_d as u64)->Err_0))
    } else {
        let below = new_d >= mx || spec_field_strength_at(m, line, new_d as u64)->Ok_0 < lower;
        if below {
            let step2 = step / (STEP_SHRINK_DIV as int);
            if step2 < MINIMUM_STEP_MM {
                Ok(SearchOutcome::BestEffort { distance_mm: cur as u64 })
            } else {
                spec_refine(m, line, lower, upper, cur, new_d, step2)
            }
        } else if spec_field_strength_at(m, line, new_d as u64)->Ok_0 <= upper {
            Ok(SearchOutcome::Resolved { distance_mm: new_d as u64 })
        } else {
            spec_refine(m, line, lower, upper, new_d, mx, step)
        }
    }
}

/// The whole terrain-bounded search: bracket over the boundaries, then
/// refine linearly inside the bracket.
pub open spec fn spec_find_max_distance_for_line<M: FieldStrengthModel>(
    m: M,
    line: Line,
    min_usable_field_strength: i64,
) -> Result<SearchOutcome, SearchError> {
    let lower = min_usable_field_strength as int;
    let upper = min_usable_field_strength + FIELD_STRENGTH_TOLERANCE_UDB;
    match spec_bracket(m, line, lower, upper, 0, 0) {
        BracketOutcome::Failed { error } => Err(SearchError::Eval(error)),
        BracketOutcome::Found { distance_mm } => Ok(SearchOutcome::Resolved { distance_mm }),
        BracketOutcome::AllAbove { last_mm } => Err(
            (SearchError::BeyondPathEnd { total_mm: last_mm }),
        ),
        BracketOutcome::Bracket { lower_mm, upper_mm } => spec_refine(
            m,
            line,
            lower,
            upper,
            lower_mm as int,
            upper_mm as int,
            INITIAL_STEP_MM as int,
        ),
    }
}

/// Whether the field strength at the `j`th segment boundary of `line`
/// is defined and stays strictly above `upper`.
pub open spec fn spec_boundary_above<M: FieldStrengthModel>(
    m: M,
    line: Line,
    j: int,
    upper: int,
) -> bool {
    match spec_field_strength_at(m, line, spec_prefix_len(line.segments@, j + 1) as u64) {
        Ok(v) => v > upper,
        Err(e) => false,
    }
}

/// Walking the boundaries from `i` on settles on `AllAbove` exactly
/// when every remaining boundary stays above the band, and then
/// reports the cumulative distance of the whole path.
proof fn lemma_bracket_above_iff<M: FieldStrengthModel>(
    m: M,
    line: Line,
    lower: int,
    upper: int,
    i: int,
)
    requires
        line.wf(),
        0 <= i <= line.segments@.len(),
    ensures
        (spec_bracket(m, line, lower, upper, i, spec_prefix_len(line.segments@, i))
            is AllAbove) <==> (forall|j: int|
            i <= j < line.segments@.len() ==> #[trigger] spec_boundary_above(m, line, j, upper)),
        spec_bracket(m, line, lower, upper, i, spec_prefix_len(line.segments@, i)) is AllAbove
            ==> spec_bracket(m, line, lower, upper, i, spec_prefix_len(line.segments@, i)) == (
        BracketOutcome::AllAbove {
            last_mm: spec_prefix_len(line.segments@, line.segments@.len() as int) as u64,
        }),
        spec_bracket(m, line, lower, upper, i, spec_prefix_len(line.segments@, i)) is Bracket
            ==> spec_bracket(m, line, lower, upper, i, spec_prefix_len(line.segments@, i))
            ->Bracket_lower_mm < spec_bracket(
            m,
            line,
            lower,
            upper,
            i,
            spec_prefix_len(line.segments@, i),
        )->Bracket_upper_mm,
    decreases line.segments@.len() - i,
{
    let segs = line.segments@;
    let n = segs.len() as int;
    let cur = spec_prefix_len(segs, i);
    if i < n {
        let cur2 = cur + segs[i].spec_length();
        assert(cur2 == spec_prefix_len(segs, i + 1));
        lemma_prefix_len_monotonic(segs, 0, i);
        lemma_prefix_len_monotonic(segs, i + 1, n);
        lemma_bracket_above_iff(m, line, lower, upper, i + 1);
        match spec_field_strength_at(m, line, cur2 as u64) {
            Err(e) => {
                assert(!spec_boundary_above(m, line, i, upper));
            },
            Ok(fs) => {
                if fs > upper {
                    assert(spec_boundary_above(m, line, i, upper));
                } else {
                    assert(!spec_boundary_above(m, line, i, upper));
                }
            },
        }
    }
}

/// The search fails with `BeyondPathEnd` exactly when the field
/// strength at every segment boundary stays strictly above the
/// tolerance band, so that no crossing lies within the path; the
/// reported length is the path's total.
pub proof fn lemma_beyond_path_end_iff<M: FieldStrengthModel>(
    m: M,
    line: Line,
    min_usable_field_strength: i64,
)
    requires
        line.wf(),
    ensures
        (spec_find_max_distance_for_line(m, line, min_usable_field_strength) matches Err(
            SearchError::BeyondPathEnd { total_mm },
        )) <==> (forall|j: int|
            0 <= j < line.segments@.len() ==> #[trigger] spec_boundary_above(
                m,
                line,
                j,
                min_usable_field_strength + FIELD_STRENGTH_TOLERANCE_UDB,
            )),
        spec_find_max_distance_for_line(m, line, min_usable_field_strength) matches Err(
            SearchError::BeyondPathEnd { total_mm },
        ) ==> total_mm == spec_total_len(line.segments@) as u64,
{
    let lower = min_usable_field_strength as int;
    let upper = min_usable_field_strength + FIELD_STRENGTH_TOLERANCE_UDB;
    lemma_bracket_above_iff(m, line, lower, upper, 0);
    assert(spec_prefix_len(line.segments@, 0) == 0);
    let b = spec_bracket(m, line, lower, upper, 0, 0);
    if !(b is AllAbove) {
        if b is Bracket {
            assert(spec_refine(
                m,
                line,
                lower,
                upper,
                b->Bracket_lower_mm as int,
                b->Bracket_upper_mm as int,
                INITIAL_STEP_MM as int,
            ) is Err ==> !(spec_refine(
                m,
                line,
                lower,
                upper,
                b->Bracket_lower_mm as int,
                b->Bracket_upper_mm as int,
                INITIAL_STEP_MM as int,
            )->Err_0 is BeyondPathEnd)) by {
                lemma_refine_no_path_end(
                    m,
                    line,
                    lower,
                    upper,
                    b->Bracket_lower_mm as int,
                    b->Bracket_upper_mm as int,
                    INITIAL_STEP_MM as int,
                );
            }
        }
    }
}

/// Linear refinement never reports `BeyondPathEnd`: that failure
/// belongs to the bracketing stage alone.
proof fn lemma_refine_no_path_end<M: FieldStrengthModel>(
    m: M,
    line: Line,
    lower: int,
    upper: int,
    cur: int,
    mx: int,
    step: int,
)
    requires
        0 < step,
        cur < mx,
    ensures
        spec_refine(m, line, lower, upper, cur, mx, step) matches Err(e) ==> e is Eval,
    decreases step, mx - cur,
{
    let new_d = cur + step;
    if !(new_d < mx && spec_field_strength_at(m, line, new_d as u64) is Err) {
        let below = new_d >= mx || spec_field_strength_at(m, line, new_d as u64)->Ok_0 < lower;
        if below {
            let step2 = step / (STEP_SHRINK_DIV as int);
            if step2 >= MINIMUM_STEP_MM {
                lemma_refine_no_path_end(m, line, lower, upper, cur, new_d, step2);
            }
        } else if !(spec_field_strength_at(m, line, new_d as u64)->Ok_0 <= upper) {
            lemma_refine_no_path_end(m, line, lower, upper, new_d, mx, step);
        }
    }
}

/// On a path with no segments there is no boundary to bracket with,
/// so the search fails for every threshold, reporting the zero length.
pub proof fn lemma_empty_line_search_fails<M: FieldStrengthModel>(
    m: M,
    line: Line,
    min_usable_field_strength: i64,
)
    requires
        line.segments@.len() == 0,
    ensures
        spec_find_max_distance_for_line(m, line, min_usable_field_strength) == Err::<
            SearchOutcome,
            SearchError,
        >((SearchError::BeyondPathEnd { total_mm: 0 })),
{
    let lower = min_usable_field_strength as int;
    let upper = min_usable_field_strength + FIELD_STRENGTH_TOLERANCE_UDB;
    assert(spec_bracket(m, line, lower, upper, 0, 0) == (BracketOutcome::AllAbove {
        last_mm: 0u64,
    }));
}

/// The linear refinement stage.
fn refine_linear<M: FieldStrengthModel>(
    model: &M,
    line: &Line,
    min_usable_field_strength: i64,
    cur0: u64,
    mx0: u64,
) -> (r: Result<SearchOutcome, SearchError>)
    requires
        line.wf(),
        cur0 < mx0,
        mx0 + 2 * INITIAL_STEP_MM <= u64::MAX,
        cur0 == 0 || (spec_field_strength_at(*model, *line, cur0) matches Ok(v)
            && v > min_usable_field_strength + FIELD_STRENGTH_TOLERANCE_UDB),
    ensures
        r == spec_refine(
            *model,
            *line,
            min_usable_field_strength as int,
            min_usable_field_strength + FIELD_STRENGTH_TOLERANCE_UDB,
            cur0 as int,
            mx0 as int,
            INITIAL_STEP_MM as int,
        ),
        r matches Ok(SearchOutcome::Resolved { distance_mm }) ==> (spec_field_strength_at(
            *model,
            *line,
            distance_mm,
        ) matches Ok(v) && min_usable_field_strength <= v <= min_usable_field_strength
            + FIELD_STRENGTH_TOLERANCE_UDB),
        r matches Ok(SearchOutcome::BestEffort { distance_mm }) ==> distance_mm == 0 || (
        spec_field_strength_at(*model, *line, distance_mm) matches Ok(v) && v
            > min_usable_field_strength + FIELD_STRENGTH_TOLERANCE_UDB),
        r is Err ==> r->Err_0 is Eval,
{
    let lower: i128 = min_usable_field_strength as i128;
    let upper: i128 = lower + (FIELD_STRENGTH_TOLERANCE_UDB as i128);
    let mut cur: u64 = cur0;
    let mut mx: u64 = mx0;
    let mut step: u64 = INITIAL_STEP_MM;
    loop
        invariant
            line.wf(),
            lower == min_usable_field_strength as int,
            upper == min_usable_field_strength + FIELD_STRENGTH_TOLERANCE_UDB,
            cur < mx,
            MINIMUM_STEP_MM <= step <= INITIAL_STEP_MM,
            mx + 2 * step <= mx0 + 2 * INITIAL_STEP_MM,
            mx0 + 2 * INITIAL_STEP_MM <= u64::MAX,
            cur == cur0 || (spec_field_strength_at(*model, *line, cur) matches Ok(v) && v
                > upper),
            cur0 == 0 || (spec_field_strength_at(*model, *line, cur0) matches Ok(v) && v
                > upper),
            spec_refine(
                *model,
                *line,
                lower as int,
                upper as int,
                cur0 as int,
                mx0 as int,
                INITIAL_STEP_MM as int,
            ) == spec_refine(
                *model,
                *line,
                lower as int,
                upper as int,
                cur as int,
                mx as int,
                step as int,
            ),
        decreases step, mx - cur,
    {
        let new_d = cur + step;
        let mut fs_val: i128 = 0;
        let mut below = true;
        if new_d < mx {
            match calc_field_strength_for_line_at_km(model, line, new_d) {
                Err(e) => {
                    return Err(SearchError::Eval(e));
                },
                Ok(v) => {
                    fs_val = v;
                    below = v < lower;
                },
            }
        }
        if below {
            let step2 = step / STEP_SHRINK_DIV;
            if step2 < MINIMUM_STEP_MM {
                return Ok(SearchOutcome::BestEffort { distance_mm: cur });
            }
            mx = new_d;
            step = step2;
        } else if fs_val <= upper {
            return Ok(SearchOutcome::Resolved { distance_mm: new_d });
        } else {
            cur = new_d;
        }
    }
}

/// Finds the largest distance along `line`, millimetres, at which the
/// field strength stays at or above `min_usable_field_strength`
/// micro-decibels: the whole search equals its specification, a
/// resolved distance has its field strength inside the tolerance band
/// above the threshold, a best-effort answer is the farthest distance
/// confirmed above the band, and a path whose boundaries all stay above
/// the band fails with its total length.
pub fn find_max_distance_for_line<M: FieldStrengthModel>(
    model: &M,
    min_usable_field_strength: i64,
    line: &Line,
) -> (r: Result<SearchOutcome, SearchError>)
    requires
        line.wf(),
        line.spec_total() + 2 * INITIAL_STEP_MM <= u64::MAX,
    ensures
        r == spec_find_max_distance_for_line(*model, *line, min_usable_field_strength),
        r matches Ok(SearchOutcome::Resolved { distance_mm }) ==> (spec_field_strength_at(
            *model,
            *line,
            distance_mm,
        ) matches Ok(v) && min_usable_field_strength <= v <= min_usable_field_strength
            + FIELD_STRENGTH_TOLERANCE_UDB),
        r matches Ok(SearchOutcome::BestEffort { distance_mm }) ==> distance_mm == 0 || (
        spec_field_strength_at(*model, *line, distance_mm) matches Ok(v) && v
            > min_usable_field_strength + FIELD_STRENGTH_TOLERANCE_UDB),
        r matches Err(SearchError::BeyondPathEnd { total_mm }) ==> total_mm == line.spec_total(),
{
    let lower: i128 = min_usable_field_strength as i128;
    let upper: i128 = lower + (FIELD_STRENGTH_TOLERANCE_UDB as i128);
    let n = line.segments().len();
    let mut i: usize = 0;
    let mut cur: u64 = 0;
    while i < n
        invariant
            line.wf(),
            line.spec_total() + 2 * INITIAL_STEP_MM <= u64::MAX,
            n == line.segments@.len(),
            lower == min_usable_field_strength as int,
            upper == min_usable_field_strength + FIELD_STRENGTH_TOLERANCE_UDB,
            0 <= i <= n,
            cur == spec_prefix_len(line.segments@, i as int),
            cur == 0 || (spec_field_strength_at(*model, *line, cur) matches Ok(v) && v
                > upper),
            spec_bracket(*model, *line, lower as int, upper as int, 0, 0) == spec_bracket(
                *model,
                *line,
                lower as int,
                upper as int,
                i as int,
                cur as int,
            ),
        decreases n - i,
    {
        proof {
            lemma_prefix_len_monotonic(line.segments@, i + 1, n as int);
        }
        let cur2 = cur + line.segments()[i].length_mm();
        match calc_field_strength_for_line_at_km(model, line, cur2) {
            Err(e) => {
                return Err(SearchError::Eval(e));
            },
            Ok(fs) => {
                if fs > upper {
                    cur = cur2;
                    i = i + 1;
                } else if lower <= fs {
                    return Ok(SearchOutcome::Resolved { distance_mm: cur2 });
                } else {
                    proof {
                        lemma_prefix_len_monotonic(line.segments@, i + 1, n as int);
                    }
                    return refine_linear(model, line, min_usable_field_strength, cur, cur2);
                }
            },
        }
    }
    Err(SearchError::BeyondPathEnd { total_mm: cur })
}

/// One step of the inward fallback walk: one metre toward the
/// transmitter, stopping at zero.
pub open spec fn spec_step_inward(cur: int) -> int {
    if cur <= MINIMUM_STEP_MM {
        0
    } else {
        cur - MINIMUM_STEP_MM
    }
}

/// The inward fallback walk of the unbounded search: from `cur`, step
/// one metre at a time toward the transmitter until the threshold is
/// met; in the tolerance band the distance is resolved, above the band
/// it is a best effort (the walk overshot a discontinuity), and a walk
/// that reaches the transmitter without meeting the threshold yields
/// the zero distance as a best effort.
pub open spec fn spec_walk_inward<M: FieldStrengthModel>(
    m: M,
    p: LFMF_Parameters,
    lower: int,
    upper: int,
    cur: int,
) -> Result<SearchOutcome, SearchError>
    decreases cur,
    when 0 <= cur
{
    match m.spec_evaluate(p.spec_with_distance(cur as u64)) {
        Err(e) => Err(
            (SearchError::Eval(
                (EvalError::Model { segment_index: 0, boundary_mm: cur as u64, error: e }),
            )),
        ),
        Ok(res) => if res.e_udbuvm >= lower {
            if res.e_udbuvm <= upper {
                Ok(SearchOutcome::Resolved { distance_mm: cur as u64 })
            } else {
                Ok(SearchOutcome::BestEffort { distance_mm: cur as u64 })
            }
        } else if cur == 0 {
            Ok(SearchOutcome::BestEffort { distance_mm: 0 })
        } else {
            spec_walk_inward(m, p, lower, upper, spec_step_inward(cur))
        },
    }
}

/// The bisection stage of the unbounded search: evaluate at the
/// cursor, return inside the band, otherwise halve the step and move
/// inward when below the threshold or outward when above the band;
/// when the step stalls under the minimum resolution, fall back to the
/// inward walk.
pub open spec fn spec_bisect<M: FieldStrengthModel>(
    m: M,
    p: LFMF_Parameters,
    lower: int,
    upper: int,
    cur: int,
    step: int,
) -> Result<SearchOutcome, SearchError>
    decreases step,
    when 0 < step && step <= cur
{
    match m.spec_evaluate(p.spec_with_distance(cur as u64)) {
        Err(e) => Err(
            (SearchError::Eval(
                (EvalError::Model { segment_index: 0, boundary_mm: cur as u64, error: e }),
            )),
        ),
        Ok(res) => if lower <= res.e_udbuvm && res.e_udbuvm <= upper {
            Ok(SearchOutcome::Resolved { distance_mm: cur as u64 })
        } else {
            let step2 = step / 2;
            if step2 < MINIMUM_STEP_MM {
                spec_walk_inward(m, p, lower, upper, cur)
            } else if res.e_udbuvm < lower {
                spec_bisect(m, p, lower, upper, cur - step2, step2)
            } else {
                spec_bisect(m, p, lower, upper, cur + step2, step2)
            }
        },
    }
}

/// The whole unbounded continuous search over one homogeneous
/// parameter set: evaluate at the ceiling first — above the band the
/// answer lies beyond it, inside the band the ceiling itself is the
/// answer — then bisect in `[0, ceiling]` with the inward walk as the
/// stall fallback.
pub open spec fn spec_find_max_distance_for_parameters<M: FieldStrengthModel>(
    m: M,
    min_usable_field_strength: i64,
    p: LFMF_Parameters,
    max_search_distance_mm: u64,
) -> Result<SearchOutcome, SearchError> {
    let lower = min_usable_field_strength as int;
    let upper = min_usable_field_strength + FIELD_STRENGTH_TOLERANCE_UDB;
    let mx = max_search_distance_mm;
    match m.spec_evaluate(p.spec_with_distance(mx)) {
        Err(e) => Err(
            (SearchError::Eval((EvalError::Model { segment_index: 0, boundary_mm: mx, error: e }))),
        ),
        Ok(res) => if res.e_udbuvm > upper {
            Err((SearchError::BeyondSearchCeiling { ceiling_mm: mx }))
        } else if lower <= res.e_udbuvm {
            Ok(SearchOutcome::Resolved { distance_mm: mx })
        } else {
            let start = (mx as int) / 2;
            if start == 0 {
                spec_walk_inward(m, p, lower, upper, start)
            } else {
                spec_bisect(m, p, lower, upper, start, start)
            }
        },
    }
}

/// The inward fallback walk, executable form.
fn walk_inward<M: FieldStrengthModel>(
    model: &M,
    p: &LFMF_Parameters,
    min_usable_field_strength: i64,
    cur0: u64,
) -> (r: Result<SearchOutcome, SearchError>)
    ensures
        r == spec_walk_inward(
            *model,
            *p,
            min_usable_field_strength as int,
            min_usable_field_strength + FIELD_STRENGTH_TOLERANCE_UDB,
            cur0 as int,
        ),
        r matches Ok(o) ==> o.spec_distance() <= cur0,
        r matches Ok(SearchOutcome::Resolved { distance_mm }) ==> (m_field(
            *model,
            *p,
            distance_mm,
        ) matches Ok(v) && min_usable_field_strength <= v <= min_usable_field_strength
            + FIELD_STRENGTH_TOLERANCE_UDB),
        r matches Ok(SearchOutcome::BestEffort { distance_mm }) ==> distance_mm == 0 || (m_field(
            *model,
            *p,
            distance_mm,
        ) matches Ok(v) && v > min_usable_field_strength + FIELD_STRENGTH_TOLERANCE_UDB),
        r is Err ==> r->Err_0 is Eval,
{
    let lower: i128 = min_usable_field_strength as i128;
    let upper: i128 = lower + (FIELD_STRENGTH_TOLERANCE_UDB as i128);
    let mut cur: u64 = cur0;
    loop
        invariant
            lower == min_usable_field_strength as int,
            upper == min_usable_field_strength + FIELD_STRENGTH_TOLERANCE_UDB,
            cur <= cur0,
            spec_walk_inward(*model, *p, lower as int, upper as int, cur0 as int)
                == spec_walk_inward(*model, *p, lower as int, upper as int, cur as int),
        decreases cur,
    {
        let q = p.with_distance(cur);
        match model.evaluate(&q) {
            Err(e) => {
                return Err(
                    SearchError::Eval(
                        EvalError::Model { segment_index: 0, boundary_mm: cur, error: e },
                    ),
                );
            },
            Ok(res) => {
                let fs: i128 = res.e_udbuvm as i128;
                if fs >= lower {
                    if fs <= upper {
                        return Ok(SearchOutcome::Resolved { distance_mm: cur });
                    }
                    return Ok(SearchOutcome::BestEffort { distance_mm: cur });
                }
                if cur == 0 {
                    return Ok(SearchOutcome::BestEffort { distance_mm: 0 });
                }
                cur = if cur <= MINIMUM_STEP_MM {
                    0
                } else {
                    cur - MINIMUM_STEP_MM
                };
            },
        }
    }
}

/// Finds a distance at most `max_search_distance_mm` millimetres at
/// which `model`'s field strength for the single homogeneous parameter
/// set `base_parameters` meets `min_usable_field_strength`
/// micro-decibels: the whole search equals its specification, a
/// resolved distance has its field strength inside the tolerance band,
/// a best-effort answer met the threshold but overshot the band at a
/// discontinuity (or is zero when nothing was usable), and a ceiling
/// whose field strength is still above the band fails, the answer
/// lying beyond it.
pub fn find_max_distance_for_parameters<M: FieldStrengthModel>(
    model: &M,
    min_usable_field_strength: i64,
    base_parameters: &LFMF_Parameters,
    max_search_distance_mm: u64,
) -> (r: Result<SearchOutcome, SearchError>)
    ensures
        r == spec_find_max_distance_for_parameters(
            *model,
            min_usable_field_strength,
            *base_parameters,
            max_search_distance_mm,
        ),
        r matches Ok(o) ==> o.spec_distance() <= max_search_distance_mm,
        r matches Ok(SearchOutcome::Resolved { distance_mm }) ==> (m_field(
            *model,
            *base_parameters,
            distance_mm,
        ) matches Ok(v) && min_usable_field_strength <= v <= min_usable_field_strength
            + FIELD_STRENGTH_TOLERANCE_UDB),
        r matches Ok(SearchOutcome::BestEffort { distance_mm }) ==> distance_mm == 0 || (m_field(
            *model,
            *base_parameters,
            distance_mm,
        ) matches Ok(v) && v > min_usable_field_strength + FIELD_STRENGTH_TOLERANCE_UDB),
        r matches Err(SearchError::BeyondSearchCeiling { ceiling_mm }) ==> ceiling_mm
            == max_search_distance_mm && (m_field(
            *model,
            *base_parameters,
            max_search_distance_mm,
        ) matches Ok(v) && v > min_usable_field_strength + FIELD_STRENGTH_TOLERANCE_UDB),
{
    let lower: i128 = min_usable_field_strength as i128;
    let upper: i128 = lower + (FIELD_STRENGTH_TOLERANCE_UDB as i128);
    let mx = max_search_distance_mm;
    let q0 = base_parameters.with_distance(mx);
    match model.evaluate(&q0) {
        Err(e) => Err(
            SearchError::Eval(EvalError::Model { segment_index: 0, boundary_mm: mx, error: e }),
        ),
        Ok(res) => {
            let fs0: i128 = res.e_udbuvm as i128;
            if fs0 > upper {
                return Err(SearchError::BeyondSearchCeiling { ceiling_mm: mx });
            }
            if lower <= fs0 {
                return Ok(SearchOutcome::Resolved { distance_mm: mx });
            }
            let start = mx / 2;
            if start == 0 {
                let r = walk_inward(model, base_parameters, min_usable_field_strength, start);
                return r;
            }
            let mut cur: u64 = start;
            let mut step: u64 = start;
            loop
                invariant
                    lower == min_usable_field_strength as int,
                    upper == min_usable_field_strength + FIELD_STRENGTH_TOLERANCE_UDB,
                    mx == max_search_distance_mm,
                    0 < step <= cur,
                    cur + step <= mx,
                    spec_find_max_distance_for_parameters(
                        *model,
                        min_usable_field_strength,
                        *base_parameters,
                        max_search_distance_mm,
                    ) == spec_bisect(
                        *model,
                        *base_parameters,
                        lower as int,
                        upper as int,
                        cur as int,
                        step as int,
                    ),
                decreases step,
            {
                let q = base_parameters.with_distance(cur);
                match model.evaluate(&q) {
                    Err(e) => {
                        return Err(
                            SearchError::Eval(
                                EvalError::Model { segment_index: 0, boundary_mm: cur, error: e },
                            ),
                        );
                    },
                    Ok(res2) => {
                        let fs: i128 = res2.e_udbuvm as i128;
                        if lower <= fs && fs <= upper {
                            return Ok(SearchOutcome::Resolved { distance_mm: cur });
                        }
                        let step2 = step / 2;
                        if step2 < MINIMUM_STEP_MM {
                            let r = walk_inward(
                                model,
                                base_parameters,
                                min_usable_field_strength,
                                cur,
                            );
                            return r;
                        }
                        if fs < lower {
                            cur = cur - step2;
                        } else {
                            cur = cur + step2;
                        }
                        step = step2;
                    },
                }
            }
        },
    }
}

/// The model's field strength for `p` queried at distance `d`.
pub open spec fn m_field<M: FieldStrengthModel>(m: M, p: LFMF_Parameters, d: u64) -> Result<
    int,
    EvalError,
> {
    match m.spec_evaluate(p.spec_with_distance(d)) {
        Ok(r) => Ok(r.e_udbuvm as int),
        Err(e) => Err((EvalError::Model { segment_index: 0, boundary_mm: d, error: e })),
    }
}

} // verus!
