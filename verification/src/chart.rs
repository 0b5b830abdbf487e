//! Sampled field-strength points along a path, for charting.

use vstd::arithmetic::div_mod::lemma_fundamental_div_mod;
use vstd::prelude::*;

use crate::evaluate::{calc_field_strength_for_line_at_km, spec_field_strength_at, EvalError};
use crate::params::{FieldStrengthModel, MAX_DISTANCE_MM};
use crate::terrain::line::Line;

verus! {

/// Why no chart points could be computed.
#[derive(Clone, Copy, PartialEq, Eq, Structural, Debug)]
pub enum ChartError {
    /// The sampling step must be positive.
    NonPositiveStep,
    /// The path must span a positive distance.
    EmptyLine,
    /// The path is longer than the propagation model admits.
    TooLong { total_mm: u64 },
    /// A field-strength query failed.
    Eval(EvalError),
}

/// The sample points from index `k` on: the `k`th point lies at
/// `k` steps from the transmitter; the first failing query is
/// reported.
pub open spec fn spec_points_from<M: FieldStrengthModel>(
    m: M,
    line: Line,
    step: int,
    k: int,
    iters: int,
    acc: Seq<(u64, int)>,
) -> Result<Seq<(u64, int)>, EvalError>
    decreases iters - k,
{
    if k >= iters || k < 0 {
        Ok(acc)
    } else {
        match spec_field_strength_at(m, line, (step * k) as u64) {
            Err(e) => Err(e),
            Ok(v) => spec_points_from(m, line, step, k + 1, iters, acc.push(((step * k) as u64, v))),
        }
    }
}

/// The sample points of a path: one point per whole step strictly
/// inside the path, starting one step out.  The step must be positive
/// and the path must span a positive distance the model admits.
pub open spec fn spec_calc_points<M: FieldStrengthModel>(m: M, line: Line, step_mm: u64) -> Result<
    Seq<(u64, int)>,
    ChartError,
> {
    if step_mm == 0 {
        Err(ChartError::NonPositiveStep)
    } else if line.spec_total() == 0 {
        Err(ChartError::EmptyLine)
    } else if line.spec_total() > MAX_DISTANCE_MM {
        Err((ChartError::TooLong { total_mm: line.spec_total() as u64 }))
    } else {
        match spec_points_from(m, line, step_mm as int, 1, line.spec_total() / (step_mm as int),
            Seq::empty()) {
            Err(e) => Err(ChartError::Eval(e)),
            Ok(ps) => Ok(ps),
        }
    }
}

/// Samples the field strength along `line` every `step_mm`
/// millimetres, strictly inside the path, for charting.
pub fn calc_points<M: FieldStrengthModel>(model: &M, line: &Line, step_mm: u64) -> (r: Result<
    Vec<(u64, i128)>,
    ChartError,
>)
    requires
        line.wf(),
    ensures
        match spec_calc_points(*model, *line, step_mm) {
            Ok(ps) => r matches Ok(v) && v@.len() == ps.len() && (forall|k: int|
                0 <= k < ps.len() ==> (#[trigger] v@[k]).0 == ps[k].0 && v@[k].1 == ps[k].1),
            Err(e) => r == Err::<Vec<(u64, i128)>, ChartError>(e),
        },
{
    if step_mm == 0 {
        return Err(ChartError::NonPositiveStep);
    }
    let total = line.max_distance();
    if total == 0 {
        return Err(ChartError::EmptyLine);
    }
    if total > MAX_DISTANCE_MM {
        return Err(ChartError::TooLong { total_mm: total });
    }
    let iters = total / step_mm;
    proof {
        lemma_fundamental_div_mod(total as int, step_mm as int);
    }
    let mut points: Vec<(u64, i128)> = Vec::new();
    let mut k: u64 = 1;
    proof {
        assert(points@.map_values(|p: (u64, i128)| (p.0, p.1 as int)) =~= Seq::<
            (u64, int),
        >::empty());
    }
    while k < iters
        invariant
            line.wf(),
            1 <= k,
            k <= iters || k == 1,
            iters == line.spec_total() / (step_mm as int),
            0 < step_mm,
            0 < line.spec_total() <= MAX_DISTANCE_MM,
            step_mm * iters <= line.spec_total(),
            points@.len() == k - 1,
            spec_calc_points(*model, *line, step_mm) == (match spec_points_from(
                *model,
                *line,
                step_mm as int,
                k as int,
                iters as int,
                points@.map_values(|p: (u64, i128)| (p.0, p.1 as int)),
            ) {
                Err(e) => Err::<Seq<(u64, int)>, ChartError>(ChartError::Eval(e)),
                Ok(ps) => Ok::<Seq<(u64, int)>, ChartError>(ps),
            }),
        decreases iters - k,
    {
        proof {
            assert((step_mm as int) * (k as int) <= (step_mm as int) * (iters as int))
                by (nonlinear_arith)
                requires
                    k <= iters,
                    step_mm >= 0,
            ;
        }
        let d = step_mm * k;
        match calc_field_strength_for_line_at_km(model, line, d) {
            Err(e) => {
                return Err(ChartError::Eval(e));
            },
            Ok(v) => {
                let ghost opoints = points@;
                points.push((d, v));
                proof {
                    assert(points@.map_values(|p: (u64, i128)| (p.0, p.1 as int)) =~= opoints
                        .map_values(|p: (u64, i128)| (p.0, p.1 as int)).push(
                        (d, v as int),
                    ));
                }
                k = k + 1;
            },
        }
    }
    proof {
        assert(spec_points_from(
            *model,
            *line,
            step_mm as int,
            k as int,
            iters as int,
            points@.map_values(|p: (u64, i128)| (p.0, p.1 as int)),
        ) == Ok::<Seq<(u64, int)>, EvalError>(
            points@.map_values(|p: (u64, i128)| (p.0, p.1 as int)),
        ));
    }
    Ok(points)
}

} // verus!
