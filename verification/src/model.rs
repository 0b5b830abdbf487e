//! A deterministic synthetic propagation model.
//!
//! The full numerical ground-wave model is an external collaborator; the
//! core only needs a pure `evaluate` capability.  This stub is
//! piecewise-linear in distance with a conductivity-dependent decay, and
//! is calibrated so that, for the standard 10 kW, 1 MHz vertical
//! presets, the field strength falls to 61.9 dB(uV)/m at 48.7 km over
//! ground and at 353.83 km over sea, and to 43.2 dB(uV)/m at 123.283 km
//! over ground and at 749.35 km over sea — the distances the full model
//! predicts for those thresholds.  Being strictly decreasing in
//! distance, it exercises every search path deterministically.

use vstd::arithmetic::div_mod::{lemma_div_nonincreasing, lemma_div_pos_is_pos};
use vstd::prelude::*;

use crate::params::{
    FieldStrengthModel, LFMF_Error, LFMF_Parameters, LFMF_Result, Method, FIELD_LIMIT_UDB,
    MAX_DISTANCE_MM,
};

verus! {

/// Field strength at zero distance, micro-decibels.
pub const SYNTH_BASE_UDB: i64 = 100_000_000;
/// Field strength at either calibration knee, micro-decibels.
pub const KNEE_FIELD_UDB: i64 = 61_900_000;
/// Distance of the ground calibration knee: 48.7 km.
pub const GROUND_KNEE_MM: u64 = 48_700_000;
/// Ground decay up to the knee: 381/487 micro-decibels per millimetre.
pub const GROUND_NEAR_NUM: u64 = 381;
pub const GROUND_NEAR_DEN: u64 = 487;
/// Ground decay past the knee: 18700/74583 micro-decibels per millimetre.
pub const GROUND_FAR_NUM: u64 = 18_700;
pub const GROUND_FAR_DEN: u64 = 74_583;
/// Distance of the sea calibration knee: 353.83 km.
pub const SEA_KNEE_MM: u64 = 353_830_000;
/// Sea decay up to the knee: 3810/35383 micro-decibels per millimetre.
pub const SEA_NEAR_NUM: u64 = 3_810;
pub const SEA_NEAR_DEN: u64 = 35_383;
/// Sea decay past the knee: 935/19776 micro-decibels per millimetre.
pub const SEA_FAR_NUM: u64 = 935;
pub const SEA_FAR_DEN: u64 = 19_776;
/// Conductivity at or above which the sea curve applies.
pub const SEA_SIGMA_MIN_MICRO: u64 = 1_000_000;

/// Synthetic field strength over ground at distance `d` millimetres.
pub open spec fn spec_ground_field(d: int) -> int {
    if d <= GROUND_KNEE_MM {
        SYNTH_BASE_UDB - (GROUND_NEAR_NUM * d) / (GROUND_NEAR_DEN as int)
    } else {
        KNEE_FIELD_UDB - (GROUND_FAR_NUM * (d - GROUND_KNEE_MM)) / (GROUND_FAR_DEN as int)
    }
}

/// Synthetic field strength over sea at distance `d` millimetres.
pub open spec fn spec_sea_field(d: int) -> int {
    if d <= SEA_KNEE_MM {
        SYNTH_BASE_UDB - (SEA_NEAR_NUM * d) / (SEA_NEAR_DEN as int)
    } else {
        KNEE_FIELD_UDB - (SEA_FAR_NUM * (d - SEA_KNEE_MM)) / (SEA_FAR_DEN as int)
    }
}

/// Which curve a parameter set selects: high conductivity is sea-like.
pub open spec fn spec_synth_is_sea(p: LFMF_Parameters) -> bool {
    p.sigma_micro >= SEA_SIGMA_MIN_MICRO
}

/// Synthetic field strength for a parameter set, micro-decibels.
pub open spec fn spec_synth_field(p: LFMF_Parameters) -> int {
    if spec_synth_is_sea(p) {
        spec_sea_field(p.d_mm as int)
    } else {
        spec_ground_field(p.d_mm as int)
    }
}

/// The internal-method indicator: the near piece stands for the
/// flat-earth branch, the far piece for the residue series.
pub open spec fn spec_synth_method(p: LFMF_Parameters) -> Method {
    if spec_synth_is_sea(p) {
        if p.d_mm <= SEA_KNEE_MM {
            Method::FlatEarthCurve
        } else {
            Method::ResidueSeries
        }
    } else {
        if p.d_mm <= GROUND_KNEE_MM {
            Method::FlatEarthCurve
        } else {
            Method::ResidueSeries
        }
    }
}

/// The synthetic field strength stays within the global decibel bound
/// for every admissible distance.
pub proof fn lemma_synth_field_bounds(p: LFMF_Parameters)
    requires
        p.d_mm <= MAX_DISTANCE_MM,
    ensures
        -FIELD_LIMIT_UDB < spec_synth_field(p) <= SYNTH_BASE_UDB,
{
    let d = p.d_mm as int;
    lemma_div_pos_is_pos(GROUND_NEAR_NUM * d, GROUND_NEAR_DEN as int);
    lemma_div_nonincreasing(GROUND_NEAR_NUM * d, GROUND_NEAR_DEN as int);
    lemma_div_pos_is_pos(SEA_NEAR_NUM * d, SEA_NEAR_DEN as int);
    lemma_div_nonincreasing(SEA_NEAR_NUM * d, SEA_NEAR_DEN as int);
    if d > GROUND_KNEE_MM {
        lemma_div_pos_is_pos(GROUND_FAR_NUM * (d - GROUND_KNEE_MM), GROUND_FAR_DEN as int);
        lemma_div_nonincreasing(GROUND_FAR_NUM * (d - GROUND_KNEE_MM), GROUND_FAR_DEN as int);
    }
    if d > SEA_KNEE_MM {
        lemma_div_pos_is_pos(SEA_FAR_NUM * (d - SEA_KNEE_MM), SEA_FAR_DEN as int);
        lemma_div_nonincreasing(SEA_FAR_NUM * (d - SEA_KNEE_MM), SEA_FAR_DEN as int);
    }
}

/// The deterministic synthetic propagation model.
#[derive(Clone, Copy, PartialEq, Eq, Structural, Debug)]
pub struct SyntheticModel;

/// Synthetic field strength over ground, executable form.
fn ground_field(d: u64) -> (r: i64)
    requires
        d <= MAX_DISTANCE_MM,
    ensures
        r == spec_ground_field(d as int),
{
    if d <= GROUND_KNEE_MM {
        proof {
            lemma_div_pos_is_pos(GROUND_NEAR_NUM * d, GROUND_NEAR_DEN as int);
            lemma_div_nonincreasing(GROUND_NEAR_NUM * d, GROUND_NEAR_DEN as int);
        }
        let drop: u64 = (GROUND_NEAR_NUM * d) / GROUND_NEAR_DEN;
        SYNTH_BASE_UDB - (drop as i64)
    } else {
        proof {
            lemma_div_pos_is_pos(GROUND_FAR_NUM * ((d - GROUND_KNEE_MM) as int),
                GROUND_FAR_DEN as int);
            lemma_div_nonincreasing(GROUND_FAR_NUM * ((d - GROUND_KNEE_MM) as int),
                GROUND_FAR_DEN as int);
        }
        let drop: u64 = (GROUND_FAR_NUM * (d - GROUND_KNEE_MM)) / GROUND_FAR_DEN;
        KNEE_FIELD_UDB - (drop as i64)
    }
}

/// Synthetic field strength over sea, executable form.
fn sea_field(d: u64) -> (r: i64)
    requires
        d <= MAX_DISTANCE_MM,
    ensures
        r == spec_sea_field(d as int),
{
    if d <= SEA_KNEE_MM {
        proof {
            lemma_div_pos_is_pos(SEA_NEAR_NUM * d, SEA_NEAR_DEN as int);
            lemma_div_nonincreasing(SEA_NEAR_NUM * d, SEA_NEAR_DEN as int);
        }
        let drop: u64 = (SEA_NEAR_NUM * d) / SEA_NEAR_DEN;
        SYNTH_BASE_UDB - (drop as i64)
    } else {
        proof {
            lemma_div_pos_is_pos(SEA_FAR_NUM * ((d - SEA_KNEE_MM) as int), SEA_FAR_DEN as int);
            lemma_div_nonincreasing(SEA_FAR_NUM * ((d - SEA_KNEE_MM) as int), SEA_FAR_DEN as int);
        }
        let drop: u64 = (SEA_FAR_NUM * (d - SEA_KNEE_MM)) / SEA_FAR_DEN;
        KNEE_FIELD_UDB - (drop as i64)
    }
}

impl FieldStrengthModel for SyntheticModel {
    open spec fn spec_evaluate(self, p: LFMF_Parameters) -> Result<LFMF_Result, LFMF_Error> {
        match p.spec_validate() {
            Err(e) => Err(e),
            Ok(u) => Ok(
                (LFMF_Result {
                    a_btl_udb: (SYNTH_BASE_UDB - spec_synth_field(p)) as i64,
                    e_udbuvm: spec_synth_field(p) as i64,
                    p_rx_udbm: (spec_synth_field(p) - SYNTH_BASE_UDB) as i64,
                    method: spec_synth_method(p),
                }),
            ),
        }
    }

    proof fn lemma_evaluate_consistent(self, p: LFMF_Parameters) {
        if p.spec_validate() is Ok {
            lemma_synth_field_bounds(p);
        }
    }

    fn evaluate(&self, p: &LFMF_Parameters) -> (r: Result<LFMF_Result, LFMF_Error>) {
        match p.validate() {
            Err(e) => Err(e),
            Ok(u) => {
                proof {
                    lemma_synth_field_bounds(*p);
                }
                let e_udbuvm: i64 = if p.sigma_micro >= SEA_SIGMA_MIN_MICRO {
                    sea_field(p.d_mm)
                } else {
                    ground_field(p.d_mm)
                };
                let method = if p.sigma_micro >= SEA_SIGMA_MIN_MICRO {
                    if p.d_mm <= SEA_KNEE_MM {
                        Method::FlatEarthCurve
                    } else {
                        Method::ResidueSeries
                    }
                } else {
                    if p.d_mm <= GROUND_KNEE_MM {
                        Method::FlatEarthCurve
                    } else {
                        Method::ResidueSeries
                    }
                };
                Ok(
                    LFMF_Result {
                        a_btl_udb: SYNTH_BASE_UDB - e_udbuvm,
                        e_udbuvm,
                        p_rx_udbm: e_udbuvm - SYNTH_BASE_UDB,
                        method,
                    },
                )
            },
        }
    }
}

} // verus!
