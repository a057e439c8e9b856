//! Optional device features that kernels may require.
use vstd::prelude::*;

verus! {

/// A set of device features.
#[derive(Clone, Copy, Debug, PartialEq, Eq, Structural, Hash)]
pub struct Features {
    pub shader_int8: bool,
    pub shader_int16: bool,
    pub shader_int64: bool,
    pub shader_float16: bool,
    pub shader_float64: bool,
}

impl Features {
    /// Every feature of `other` is one of `self`.
    pub open spec fn spec_contains(self, other: Features) -> bool {
        &&& other.shader_int8 ==> self.shader_int8
        &&& other.shader_int16 ==> self.shader_int16
        &&& other.shader_int64 ==> self.shader_int64
        &&& other.shader_float16 ==> self.shader_float16
        &&& other.shader_float64 ==> self.shader_float64
    }

    /// The features that both sets have.
    pub open spec fn spec_intersection(self, other: Features) -> Features {
        Features {
            shader_int8: self.shader_int8 && other.shader_int8,
            shader_int16: self.shader_int16 && other.shader_int16,
            shader_int64: self.shader_int64 && other.shader_int64,
            shader_float16: self.shader_float16 && other.shader_float16,
            shader_float64: self.shader_float64 && other.shader_float64,
        }
    }

    /// The features that either set has.
    pub open spec fn spec_union(self, other: Features) -> Features {
        Features {
            shader_int8: self.shader_int8 || other.shader_int8,
            shader_int16: self.shader_int16 || other.shader_int16,
            shader_int64: self.shader_int64 || other.shader_int64,
            shader_float16: self.shader_float16 || other.shader_float16,
            shader_float64: self.shader_float64 || other.shader_float64,
        }
    }

    /// No feature.
    pub fn empty() -> (r: Features)
        ensures
            r == (Features {
                shader_int8: false,
                shader_int16: false,
                shader_int64: false,
                shader_float16: false,
                shader_float64: false,
            }),
            forall|f: Features| f.spec_contains(r),
    {
        Features {
            shader_int8: false,
            shader_int16: false,
            shader_int64: false,
            shader_float16: false,
            shader_float64: false,
        }
    }

    /// Whether every feature of `other` is one of `self`.
    pub fn contains(&self, other: &Features) -> (r: bool)
        ensures
            r == self.spec_contains(*other),
    {
        (!other.shader_int8 || self.shader_int8) && (!other.shader_int16 || self.shader_int16) && (
        !other.shader_int64 || self.shader_int64) && (!other.shader_float16 || self.shader_float16)
            && (!other.shader_float64 || self.shader_float64)
    }

    /// The features that both sets have.
    pub fn intersection(&self, other: &Features) -> (r: Features)
        ensures
            r == self.spec_intersection(*other),
            self.spec_contains(r),
            other.spec_contains(r),
    {
        Features {
            shader_int8: self.shader_int8 && other.shader_int8,
            shader_int16: self.shader_int16 && other.shader_int16,
            shader_int64: self.shader_int64 && other.shader_int64,
            shader_float16: self.shader_float16 && other.shader_float16,
            shader_float64: self.shader_float64 && other.shader_float64,
        }
    }

    /// The features that either set has.
    pub fn union(&self, other: &Features) -> (r: Features)
        ensures
            r == self.spec_union(*other),
            r.spec_contains(*self),
            r.spec_contains(*other),
    {
        Features {
            shader_int8: self.shader_int8 || other.shader_int8,
            shader_int16: self.shader_int16 || other.shader_int16,
            shader_int64: self.shader_int64 || other.shader_int64,
            shader_float16: self.shader_float16 || other.shader_float16,
            shader_float64: self.shader_float64 || other.shader_float64,
        }
    }
}

} // verus!
