//! Propagation-model parameters, results and validation.
//!
//! Every physical quantity is a fixed-point integer:
//! - antenna heights in millimetres,
//! - frequency in hertz,
//! - transmit power in milliwatts,
//! - surface refractivity in thousandths of an N-unit,
//! - path distance in millimetres,
//! - relative permittivity in thousandths,
//! - conductivity in micro-siemens per metre,
//! - field strength, loss and received power in micro-decibels.

#![allow(non_camel_case_types)]

use vstd::prelude::*;

verus! {

/// Largest admissible antenna height: 50 m.
pub const MAX_HEIGHT_MM: u64 = 50_000;
/// Smallest admissible frequency: 0.01 MHz.
pub const MIN_FREQUENCY_HZ: u64 = 10_000;
/// Largest admissible frequency: 30 MHz.
pub const MAX_FREQUENCY_HZ: u64 = 30_000_000;
/// Smallest admissible surface refractivity: 250 N-units.
pub const MIN_REFRACTIVITY_MILLI: u64 = 250_000;
/// Largest admissible surface refractivity: 400 N-units.
pub const MAX_REFRACTIVITY_MILLI: u64 = 400_000;
/// Largest admissible path distance: 10000 km.
pub const MAX_DISTANCE_MM: u64 = 10_000_000_000;
/// Smallest admissible relative permittivity: 1.
pub const MIN_PERMITTIVITY_MILLI: u64 = 1_000;
/// Every decibel quantity a model reports lies within this bound
/// (one thousand million decibels), so that sums over a path cannot
/// overflow a 128-bit accumulator.
pub const FIELD_LIMIT_UDB: i64 = 1_000_000_000_000_000;

/// Wave polarization of the transmitting antenna.
#[derive(Clone, Copy, PartialEq, Eq, Structural, Debug)]
pub enum Polarization {
    Horizontal,
    Vertical,
}

/// Immutable physical and geometric inputs of one propagation query.
/// Only the distance field varies between queries along one path.
#[derive(Clone, Copy, PartialEq, Eq, Structural, Debug)]
pub struct LFMF_Parameters {
    /// Transmit antenna height above ground, millimetres.
    pub h_tx_mm: u64,
    /// Receive antenna height above ground, millimetres.
    pub h_rx_mm: u64,
    /// Carrier frequency, hertz.
    pub f_hz: u64,
    /// Transmit power, milliwatts.
    pub p_tx_mw: u64,
    /// Surface refractivity, thousandths of an N-unit.
    pub n_s_milli: u64,
    /// Path distance, millimetres.
    pub d_mm: u64,
    /// Relative permittivity of the surface, thousandths.
    pub epsilon_milli: u64,
    /// Conductivity of the surface, micro-siemens per metre.
    pub sigma_micro: u64,
    /// Wave polarization.
    pub pol: Polarization,
}

/// The physical field that an out-of-range input belongs to.
#[derive(Clone, Copy, PartialEq, Eq, Structural, Debug)]
pub enum ParameterField {
    TxHeight,
    RxHeight,
    Frequency,
    TxPower,
    Refractivity,
    Distance,
    Permittivity,
    Conductivity,
}

/// One input-validation failure: the status code of the propagation
/// model, the offending field, its value in that field's unit, and the
/// inclusive range of admissible values.
#[derive(Clone, Copy, PartialEq, Eq, Structural, Debug)]
pub struct LFMF_Error {
    pub status: i32,
    pub field: ParameterField,
    pub value: u64,
    pub min: u64,
    pub max: u64,
}

/// Indicator of the internal method a propagation model selected.
#[derive(Clone, Copy, PartialEq, Eq, Structural, Debug)]
pub enum Method {
    FlatEarthCurve,
    ResidueSeries,
}

/// Outputs of one successful propagation query.
#[derive(Clone, Copy, PartialEq, Eq, Structural, Debug)]
pub struct LFMF_Result {
    /// Basic transmission loss, micro-decibels.
    pub a_btl_udb: i64,
    /// Field strength, micro-decibels above one microvolt per metre.
    pub e_udbuvm: i64,
    /// Received power, micro-decibels above one milliwatt.
    pub p_rx_udbm: i64,
    /// Internal method the model selected.
    pub method: Method,
}

impl LFMF_Result {
    /// Every reported decibel quantity lies within the global bound.
    pub open spec fn wf(self) -> bool {
        &&& -FIELD_LIMIT_UDB <= self.a_btl_udb <= FIELD_LIMIT_UDB
        &&& -FIELD_LIMIT_UDB <= self.e_udbuvm <= FIELD_LIMIT_UDB
        &&& -FIELD_LIMIT_UDB <= self.p_rx_udbm <= FIELD_LIMIT_UDB
    }
}

impl LFMF_Parameters {
    /// The same parameters with the path distance replaced.
    pub open spec fn spec_with_distance(self, d_mm: u64) -> LFMF_Parameters {
        (LFMF_Parameters { d_mm, ..self })
    }

    /// The same parameters with the path distance replaced.
    pub fn with_distance(&self, d_mm: u64) -> (r: LFMF_Parameters)
        ensures
            r == self.spec_with_distance(d_mm),
    {
        LFMF_Parameters { d_mm, ..*self }
    }

    /// The range check that every propagation model applies, field by
    /// field in a fixed order; the first out-of-range field is reported.
    pub open spec fn spec_validate(self) -> Result<(), LFMF_Error> {
        if self.h_tx_mm > MAX_HEIGHT_MM {
            Err(LFMF_Error {
                status: 1000,
                field: ParameterField::TxHeight,
                value: self.h_tx_mm,
                min: 0,
                max: MAX_HEIGHT_MM,
            })
        } else if self.h_rx_mm > MAX_HEIGHT_MM {
            Err(LFMF_Error {
                status: 1001,
                field: ParameterField::RxHeight,
                value: self.h_rx_mm,
                min: 0,
                max: MAX_HEIGHT_MM,
            })
        } else if self.f_hz < MIN_FREQUENCY_HZ || self.f_hz > MAX_FREQUENCY_HZ {
            Err(LFMF_Error {
                status: 1002,
                field: ParameterField::Frequency,
                value: self.f_hz,
                min: MIN_FREQUENCY_HZ,
                max: MAX_FREQUENCY_HZ,
            })
        } else if self.p_tx_mw == 0 {
            Err(LFMF_Error {
                status: 1003,
                field: ParameterField::TxPower,
                value: self.p_tx_mw,
                min: 1,
                max: u64::MAX,
            })
        } else if self.n_s_milli < MIN_REFRACTIVITY_MILLI || self.n_s_milli
            > MAX_REFRACTIVITY_MILLI {
            Err(LFMF_Error {
                status: 1004,
                field: ParameterField::Refractivity,
                value: self.n_s_milli,
                min: MIN_REFRACTIVITY_MILLI,
                max: MAX_REFRACTIVITY_MILLI,
            })
        } else if self.d_mm > MAX_DISTANCE_MM {
            Err(LFMF_Error {
                status: 1005,
                field: ParameterField::Distance,
                value: self.d_mm,
                min: 0,
                max: MAX_DISTANCE_MM,
            })
        } else if self.epsilon_milli < MIN_PERMITTIVITY_MILLI {
            Err(LFMF_Error {
                status: 1006,
                field: ParameterField::Permittivity,
                value: self.epsilon_milli,
                min: MIN_PERMITTIVITY_MILLI,
                max: u64::MAX,
            })
        } else if self.sigma_micro == 0 {
            Err(LFMF_Error {
                status: 1007,
                field: ParameterField::Conductivity,
                value: self.sigma_micro,
                min: 1,
                max: u64::MAX,
            })
        } else {
            Ok(())
        }
    }

    /// Checks every field against its admissible range.
    pub fn validate(&self) -> (r: Result<(), LFMF_Error>)
        ensures
            r == self.spec_validate(),
    {
        if self.h_tx_mm > MAX_HEIGHT_MM {
            Err(LFMF_Error {
                status: 1000,
                field: ParameterField::TxHeight,
                value: self.h_tx_mm,
                min: 0,
                max: MAX_HEIGHT_MM,
            })
        } else if self.h_rx_mm > MAX_HEIGHT_MM {
            Err(LFMF_Error {
                status: 1001,
                field: ParameterField::RxHeight,
                value: self.h_rx_mm,
                min: 0,
                max: MAX_HEIGHT_MM,
            })
        } else if self.f_hz < MIN_FREQUENCY_HZ || self.f_hz > MAX_FREQUENCY_HZ {
            Err(LFMF_Error {
                status: 1002,
                field: ParameterField::Frequency,
                value: self.f_hz,
                min: MIN_FREQUENCY_HZ,
                max: MAX_FREQUENCY_HZ,
            })
        } else if self.p_tx_mw == 0 {
            Err(LFMF_Error {
                status: 1003,
                field: ParameterField::TxPower,
                value: self.p_tx_mw,
                min: 1,
                max: u64::MAX,
            })
        } else if self.n_s_milli < MIN_REFRACTIVITY_MILLI || self.n_s_milli
            > MAX_REFRACTIVITY_MILLI {
            Err(LFMF_Error {
                status: 1004,
                field: ParameterField::Refractivity,
                value: self.n_s_milli,
                min: MIN_REFRACTIVITY_MILLI,
                max: MAX_REFRACTIVITY_MILLI,
            })
        } else if self.d_mm > MAX_DISTANCE_MM {
            Err(LFMF_Error {
                status: 1005,
                field: ParameterField::Distance,
                value: self.d_mm,
                min: 0,
                max: MAX_DISTANCE_MM,
            })
        } else if self.epsilon_milli < MIN_PERMITTIVITY_MILLI {
            Err(LFMF_Error {
                status: 1006,
                field: ParameterField::Permittivity,
                value: self.epsilon_milli,
                min: MIN_PERMITTIVITY_MILLI,
                max: u64::MAX,
            })
        } else if self.sigma_micro == 0 {
            Err(LFMF_Error {
                status: 1007,
                field: ParameterField::Conductivity,
                value: self.sigma_micro,
                min: 1,
                max: u64::MAX,
            })
        } else {
            Ok(())
        }
    }
}

/// Whether every field except the distance is in range: such a
/// parameter set passes validation at any admissible distance.
pub open spec fn spec_base_valid(p: LFMF_Parameters) -> bool {
    p.spec_with_distance(0).spec_validate() is Ok
}

/// A parameter set whose base is valid passes validation at every
/// distance the model admits.
pub proof fn lemma_validate_with_distance(p: LFMF_Parameters, d_mm: u64)
    requires
        spec_base_valid(p),
        d_mm <= MAX_DISTANCE_MM,
    ensures
        p.spec_with_distance(d_mm).spec_validate() is Ok,
{
}

/// A point-to-point propagation model: a pure function from parameters
/// to field strength, loss and received power, or to a validation error.
///
/// Every model rejects exactly the parameters that `spec_validate`
/// rejects, with the same error, and every success is well formed, so
/// callers can promise success whenever the inputs are in range.
pub trait FieldStrengthModel: Sized {
    /// What one query of this model returns.
    spec fn spec_evaluate(self, p: LFMF_Parameters) -> Result<LFMF_Result, LFMF_Error>;

    /// A query fails exactly on out-of-range inputs, reports the same
    /// error that validation reports, and every success is well formed.
    proof fn lemma_evaluate_consistent(self, p: LFMF_Parameters)
        ensures
            (self.spec_evaluate(p) is Err) == (p.spec_validate() is Err),
            self.spec_evaluate(p) is Err ==> self.spec_evaluate(p)->Err_0
                == p.spec_validate()->Err_0,
            self.spec_evaluate(p) is Ok ==> self.spec_evaluate(p)->Ok_0.wf();

    /// Runs one query.
    fn evaluate(&self, p: &LFMF_Parameters) -> (r: Result<LFMF_Result, LFMF_Error>)
        ensures
            r == self.spec_evaluate(*p),
    ;
}

} // verus!
