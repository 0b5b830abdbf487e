//! Named conductivity/permittivity presets for segment construction.

use vstd::prelude::*;

use crate::params::{LFMF_Parameters, Polarization};

verus! {

/// A named terrain preset: low-conductivity ground or high-conductivity
/// sea water.
#[derive(Clone, Copy, PartialEq, Eq, Structural, Debug)]
pub enum Terrain {
    Ground,
    Sea,
}

impl Terrain {
    /// The parameter snapshot this preset stands for: a 10 m antenna at
    /// each end, 1 MHz, 10 kW, refractivity 300, and the preset's
    /// permittivity and conductivity.  The distance field starts at
    /// 300 km and is replaced on segment construction.
    pub open spec fn spec_parameters(self) -> LFMF_Parameters {
        match self {
            Terrain::Ground => (LFMF_Parameters {
                h_tx_mm: 10_000,
                h_rx_mm: 10_000,
                f_hz: 1_000_000,
                p_tx_mw: 10_000_000,
                n_s_milli: 300_000,
                d_mm: 300_000_000,
                epsilon_milli: 22_000,
                sigma_micro: 3_000,
                pol: Polarization::Vertical,
            }),
            Terrain::Sea => (LFMF_Parameters {
                h_tx_mm: 10_000,
                h_rx_mm: 10_000,
                f_hz: 1_000_000,
                p_tx_mw: 10_000_000,
                n_s_milli: 300_000,
                d_mm: 300_000_000,
                epsilon_milli: 70_000,
                sigma_micro: 5_000_000,
                pol: Polarization::Vertical,
            }),
        }
    }

    /// The parameter snapshot this preset stands for.
    pub fn parameters(&self) -> (r: LFMF_Parameters)
        ensures
            r == self.spec_parameters(),
    {
        match self {
            Terrain::Ground => LFMF_Parameters {
                h_tx_mm: 10_000,
                h_rx_mm: 10_000,
                f_hz: 1_000_000,
                p_tx_mw: 10_000_000,
                n_s_milli: 300_000,
                d_mm: 300_000_000,
                epsilon_milli: 22_000,
                sigma_micro: 3_000,
                pol: Polarization::Vertical,
            },
            Terrain::Sea => LFMF_Parameters {
                h_tx_mm: 10_000,
                h_rx_mm: 10_000,
                f_hz: 1_000_000,
                p_tx_mw: 10_000_000,
                n_s_milli: 300_000,
                d_mm: 300_000_000,
                epsilon_milli: 70_000,
                sigma_micro: 5_000_000,
                pol: Polarization::Vertical,
            },
        }
    }
}

} // verus!
