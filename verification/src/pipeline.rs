//! Configuration of the in-process generation pipelines.
use vstd::prelude::*;

verus! {

/// The settings of one generation pipeline. `guidance_scale` is the `f32`
/// bit pattern of the configured value.
#[derive(Clone, PartialEq, Eq, Structural, Debug)]
pub enum PipelineConfig {
    LGM { inference_steps: usize, guidance_scale: u32, num_views: usize },
    DiffSplat { inference_steps: usize, grid_resolution: usize },
}

impl PipelineConfig {
    /// The default multi-view settings: 50 steps, guidance 7.5, four views.
    pub fn lgm_default() -> (r: PipelineConfig)
        ensures
            r == (PipelineConfig::LGM {
                inference_steps: 50usize,
                guidance_scale: 0x40F0_0000u32,
                num_views: 4usize,
            }),
    {
        PipelineConfig::LGM { inference_steps: 50, guidance_scale: 0x40F0_0000, num_views: 4 }
    }

    /// The default grid settings: 20 steps on a 128-cell grid.
    pub fn diffsplat_default() -> (r: PipelineConfig)
        ensures
            r == (PipelineConfig::DiffSplat { inference_steps: 20usize, grid_resolution: 128usize }),
    {
        PipelineConfig::DiffSplat { inference_steps: 20, grid_resolution: 128 }
    }
}

} // verus!
