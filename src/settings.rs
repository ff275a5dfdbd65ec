use vstd::prelude::*;

verus! {

/// Why a set of render settings was refused.
#[derive(Debug, Clone, Copy, PartialEq, Eq, Structural)]
pub enum SettingsError {
    /// The image must be at least two pixels wide.
    WidthTooSmall,
    /// The image must be at least two pixels high.
    HeightTooSmall,
    /// At least one sample must be taken per pixel.
    NoSamples,
    /// The image holds more pixels than can be counted.
    TooManyPixels,
}

/// The integer parameters of a render: image size, samples per pixel and
/// the largest number of bounces a ray may take.
#[derive(Debug, Clone, Copy, PartialEq, Eq, Structural)]
pub struct RenderSettings {
    pub image_width: u64,
    pub image_height: u64,
    pub samples_per_pixel: u64,
    pub max_depth: u32,
}

/// Number of sample tasks in a render: one per sample of each pixel. Every
/// task gets an identifier of its own in a `u64`, so this must fit in one.
pub open spec fn task_count(width: u64, height: u64, samples: u64) -> int {
    width * height * samples
}

impl RenderSettings {
    /// Settings that every render function accepts.
    pub open spec fn wf(&self) -> bool {
        &&& self.image_width >= 2
        &&& self.image_height >= 2
        &&& self.samples_per_pixel >= 1
        &&& task_count(self.image_width, self.image_height, self.samples_per_pixel) <= u64::MAX
    }

    /// Checks the parameters and builds the settings.
    pub fn new(image_width: u64, image_height: u64, samples_per_pixel: u64, max_depth: u32) -> (r:
        Result<RenderSettings, SettingsError>)
        ensures
            image_width < 2 ==> r matches Err(SettingsError::WidthTooSmall),
            image_width >= 2 && image_height < 2 ==> r matches Err(SettingsError::HeightTooSmall),
            image_width >= 2 && image_height >= 2 && samples_per_pixel == 0 ==> r matches Err(
                SettingsError::NoSamples,
            ),
            image_width >= 2 && image_height >= 2 && samples_per_pixel >= 1 && task_count(
                image_width,
                image_height,
                samples_per_pixel,
            ) > u64::MAX ==> r matches Err(SettingsError::TooManyPixels),
            image_width >= 2 && image_height >= 2 && samples_per_pixel >= 1 && task_count(
                image_width,
                image_height,
                samples_per_pixel,
            ) <= u64::MAX ==> r == Ok::<_, SettingsError>(
                (RenderSettings { image_width, image_height, samples_per_pixel, max_depth }),
            ),
            r is Ok ==> r->Ok_0.wf(),
    {
        if image_width < 2 {
            return Err(SettingsError::WidthTooSmall);
        }
        if image_height < 2 {
            return Err(SettingsError::HeightTooSmall);
        }
        if samples_per_pixel < 1 {
            return Err(SettingsError::NoSamples);
        }
        let pixels = image_width.checked_mul(image_height);
        match pixels {
            None => {
                proof {
                    lemma_product_grows(image_width as int * image_height as int, samples_per_pixel as int);
                }
                Err(SettingsError::TooManyPixels)
            },
            Some(p) => match p.checked_mul(samples_per_pixel) {
                None => Err(SettingsError::TooManyPixels),
                Some(_) => Ok(RenderSettings { image_width, image_height, samples_per_pixel, max_depth }),
            },
        }
    }
}

proof fn lemma_product_grows(a: int, b: int)
    requires
        a >= 0,
        b >= 1,
    ensures
        a * b >= a,
{
    assert(a * b >= a) by (nonlinear_arith)
        requires
            a >= 0,
            b >= 1,
    ;
}

} // verus!
