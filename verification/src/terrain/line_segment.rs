//! One homogeneous span of terrain.

use vstd::prelude::*;

use crate::params::LFMF_Parameters;

verus! {

/// One homogeneous span of terrain along a path.  It owns a snapshot of
/// the propagation parameters; its length is that snapshot's distance
/// field, in millimetres.
#[derive(Clone, Copy, PartialEq, Eq, Structural, Debug)]
pub struct LineSegment {
    pub lfmf_parameters: LFMF_Parameters,
}

impl LineSegment {
    /// The segment's length: the distance field of its parameters.
    pub open spec fn spec_length(self) -> u64 {
        self.lfmf_parameters.d_mm
    }

    /// The same segment with its length replaced.
    pub open spec fn spec_with_length(self, length_mm: u64) -> LineSegment {
        (LineSegment { lfmf_parameters: self.lfmf_parameters.spec_with_distance(length_mm) })
    }

    /// A segment whose length is whatever the snapshot's distance is.
    pub fn new(lfmf_parameters: LFMF_Parameters) -> (r: LineSegment)
        ensures
            r == (LineSegment { lfmf_parameters }),
    {
        LineSegment { lfmf_parameters }
    }

    /// A segment over the given parameters with the given length.
    pub fn with_length(lfmf_parameters: LFMF_Parameters, length_mm: u64) -> (r: LineSegment)
        ensures
            r == (LineSegment { lfmf_parameters }).spec_with_length(length_mm),
    {
        LineSegment { lfmf_parameters: lfmf_parameters.with_distance(length_mm) }
    }

    /// The parameter snapshot, with the segment's length as distance.
    pub fn lfmf_parameters(&self) -> (r: LFMF_Parameters)
        ensures
            r == self.lfmf_parameters,
    {
        self.lfmf_parameters
    }

    /// The segment's length in millimetres.
    pub fn length_mm(&self) -> (r: u64)
        ensures
            r == self.spec_length(),
    {
        self.lfmf_parameters.d_mm
    }

    /// Replaces the segment's length.
    pub fn set_length_mm(&mut self, distance_mm: u64)
        ensures
            *final(self) == old(self).spec_with_length(distance_mm),
    {
        self.lfmf_parameters.d_mm = distance_mm;
    }
}

} // verus!
