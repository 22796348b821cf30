//! The full-screen noise effect: which shader variant a set of noise
//! settings selects.

use vstd::prelude::*;

verus! {

/// The noise function the shader evaluates.
#[derive(Clone, Copy, PartialEq, Eq, Structural, Hash, Debug)]
pub enum NoiseType {
    Value,
    Perlin,
    Simplex,
}

/// The pipeline variant of the noise effect.
#[derive(Clone, Copy, PartialEq, Eq, Structural, Hash, Debug)]
pub struct NoisePipelineKey {
    pub ty: NoiseType,
    pub enable_fbm: bool,
    pub enable_domain_warp: bool,
}

/// The shader definition naming a noise function.
pub open spec fn noise_def(ty: NoiseType) -> Seq<char> {
    match ty {
        NoiseType::Value => "VALUE"@,
        NoiseType::Perlin => "PERLIN"@,
        NoiseType::Simplex => "SIMPLEX"@,
    }
}

/// The shader definitions of a variant, in order: the noise function, then
/// `FBM` and `DOMAIN_WARP` where enabled.
pub open spec fn noise_defs(key: NoisePipelineKey) -> Seq<Seq<char>> {
    seq![noise_def(key.ty)] + (if key.enable_fbm {
        seq!["FBM"@]
    } else {
        Seq::empty()
    }) + (if key.enable_domain_warp {
        seq!["DOMAIN_WARP"@]
    } else {
        Seq::empty()
    })
}

impl NoisePipelineKey {
    /// The shader definitions of the variant.
    pub fn shader_defs(&self) -> (r: Vec<String>)
        ensures
            r@.map_values(|s: String| s@) == noise_defs(*self),
    {
        let mut defs: Vec<String> = Vec::new();
        match self.ty {
            NoiseType::Value => defs.push("VALUE".to_owned()),
            NoiseType::Perlin => defs.push("PERLIN".to_owned()),
            NoiseType::Simplex => defs.push("SIMPLEX".to_owned()),
        }
        if self.enable_fbm {
            defs.push("FBM".to_owned());
        }
        if self.enable_domain_warp {
            defs.push("DOMAIN_WARP".to_owned());
        }
        assert(defs@.map_values(|s: String| s@) =~= noise_defs(*self));
        defs
    }
}

} // verus!
