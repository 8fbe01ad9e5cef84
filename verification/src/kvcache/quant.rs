//! The logical quantization mode of a cache.
use vstd::prelude::*;

verus! {

/// Quantization mode, fixed when a cache is made.
#[derive(Clone, Copy, PartialEq, Eq, Structural, Debug)]
pub enum KvQuant {
    /// No quantization at all.
    Bf16,
    K8V8,
    K8V4,
    Planar,
    Planar3,
    PlanarK,
    /// Affine codec at any bit width and group size on either side.
    Mixed { k_bits: i32, v_bits: i32, k_group_size: i32, v_group_size: i32 },
    /// Affine codec with a Hadamard rotation on the K side.
    RotK { v_bits: i32, v_group_size: i32 },
    /// Rotated affine K with a four-bit codebook V.
    RotKTq4V,
    K8VTurbo2,
    K8VTurbo2Tcq,
    K8VTurbo3,
    K8VTurbo3Tcq,
    TurboSym3,
    TurboSym4,
    Iso3,
    Iso4,
    Iso3Sym,
    Iso4Sym,
    IsoKOnly3,
    IsoKOnly4,
    Rotor3,
    Rotor4,
    Rotor3Sym,
    Rotor4Sym,
    RotorKOnly3,
    RotorKOnly4,
    RotorK3Asym { v_bits: i32, v_group_size: i32 },
    RotorK4Asym { v_bits: i32, v_group_size: i32 },
}

/// Bit width of the rotated K codec.
pub const ROT_K_BITS: i32 = 8;

/// Group size of the rotated K codec.
pub const ROT_K_GROUP_SIZE: i32 = 64;

/// Bit widths and group sizes of the mixed-precision path.
#[derive(Clone, Copy, PartialEq, Eq, Structural, Debug)]
pub struct MixedParams {
    pub k_bits: i32,
    pub v_bits: i32,
    pub k_group_size: i32,
    pub v_group_size: i32,
}

impl KvQuant {
    /// The parameters of the affine codec, for the two modes that run on it.
    /// The rotated mode fixes its K side.
    pub open spec fn spec_mixed_params(self) -> Option<MixedParams> {
        match self {
            KvQuant::Mixed { k_bits, v_bits, k_group_size, v_group_size } => Some(
                MixedParams { k_bits, v_bits, k_group_size, v_group_size },
            ),
            KvQuant::RotK { v_bits, v_group_size } => Some(
                MixedParams {
                    k_bits: ROT_K_BITS,
                    v_bits,
                    k_group_size: ROT_K_GROUP_SIZE,
                    v_group_size,
                },
            ),
            _ => None,
        }
    }

    /// The parameters of the affine codec, where the mode runs on it.
    pub fn mixed_params(&self) -> (r: Option<MixedParams>)
        ensures
            r == self.spec_mixed_params(),
    {
        match self {
            KvQuant::Mixed { k_bits, v_bits, k_group_size, v_group_size } => Some(
                MixedParams {
                    k_bits: *k_bits,
                    v_bits: *v_bits,
                    k_group_size: *k_group_size,
                    v_group_size: *v_group_size,
                },
            ),
            KvQuant::RotK { v_bits, v_group_size } => Some(
                MixedParams {
                    k_bits: ROT_K_BITS,
                    v_bits: *v_bits,
                    k_group_size: ROT_K_GROUP_SIZE,
                    v_group_size: *v_group_size,
                },
            ),
            _ => None,
        }
    }
}

} // verus!
