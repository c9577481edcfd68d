use vstd::prelude::*;

verus! {

/// How a pixel's color is integrated from camera rays.
///
/// `SuperSampling` averages several uniformly jittered rays; every other
/// technique evaluates a single ray at the pixel's integer coordinates.
#[derive(Clone, Copy, Debug, PartialEq, Eq, Structural)]
pub enum AntiAliasingTechnique {
    SuperSampling,
    MonteCarlo,
    Spatial,
    Temporal,
    Disabled,
}

/// The per-pixel sampler configuration: a sample count and a technique.
#[derive(Clone, Copy, Debug)]
pub struct AntiAliasing {
    samples_per_pixel: usize,
    technique: AntiAliasingTechnique,
}

impl AntiAliasing {
    pub closed spec fn spec_samples_per_pixel(&self) -> usize {
        self.samples_per_pixel
    }

    pub closed spec fn spec_technique(&self) -> AntiAliasingTechnique {
        self.technique
    }

    pub fn new(samples_per_pixel: usize, technique: AntiAliasingTechnique) -> (r: Self)
        ensures
            r.spec_samples_per_pixel() == samples_per_pixel,
            r.spec_technique() == technique,
    {
        AntiAliasing { samples_per_pixel, technique }
    }

    /// Whether the sub-pixel position of each sample is drawn at random.
    pub fn is_jittered(&self) -> (r: bool)
        ensures
            r <==> self.spec_technique() == AntiAliasingTechnique::SuperSampling,
    {
        match self.technique {
            AntiAliasingTechnique::SuperSampling => true,
            _ => false,
        }
    }

    /// How many rays are traced for one pixel: the configured count when
    /// supersampling, and a single ray at the pixel's integer coordinates
    /// otherwise.
    pub fn sample_count(&self) -> (r: usize)
        ensures
            r == if self.spec_technique() == AntiAliasingTechnique::SuperSampling {
                self.spec_samples_per_pixel()
            } else {
                1
            },
    {
        match self.technique {
            AntiAliasingTechnique::SuperSampling => self.samples_per_pixel,
            _ => 1,
        }
    }
}

} // verus!
