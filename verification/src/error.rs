//! The error every fallible operation of the library reports.

use vstd::prelude::*;
use crate::text::push_chars;
use crate::text::chars_of;

verus! {

/// Why an operation refused its inputs; each variant carries a human-readable detail.
#[derive(Debug, PartialEq, Eq)]
pub enum RenderError {
    InvalidImageBuffer(String),
    InvalidFlowField(String),
    InvalidDatamoshSettings(String),
    InvalidFlowCache(String),
    InvalidFlowFeedbackSettings(String),
    InvalidFlowFeedbackState(String),
    InvalidGranularMosaicSettings(String),
    InvalidGranularMosaicCache(String),
    InvalidVideoVocoderSettings(String),
    InvalidConvolutionSettings(String),
    InvalidCoagulationSettings(String),
    InvalidBlockCollageSettings(String),
    InvalidCascadeCollageSettings(String),
    InvalidRetroStaticSettings(String),
    InvalidPixelSortSettings(String),
    InvalidPaletteQuantizeSettings(String),
    InvalidModulationRoute(String),
    IncompatibleInputs(String),
    InvalidGeneratorSettings(String),
}

/// The heading printed before the detail of each variant.
pub open spec fn error_heading(e: RenderError) -> Seq<char> {
    match e {
        RenderError::InvalidImageBuffer(_) => "invalid image buffer: "@,
        RenderError::InvalidFlowField(_) => "invalid flow field: "@,
        RenderError::InvalidDatamoshSettings(_) => "invalid datamosh settings: "@,
        RenderError::InvalidFlowCache(_) => "invalid flow cache: "@,
        RenderError::InvalidFlowFeedbackSettings(_) => "invalid flow feedback settings: "@,
        RenderError::InvalidFlowFeedbackState(_) => "invalid flow feedback state: "@,
        RenderError::InvalidGranularMosaicSettings(_) => "invalid granular mosaic settings: "@,
        RenderError::InvalidGranularMosaicCache(_) => "invalid granular mosaic cache: "@,
        RenderError::InvalidVideoVocoderSettings(_) => "invalid video vocoder settings: "@,
        RenderError::InvalidConvolutionSettings(_) => "invalid convolution blend settings: "@,
        RenderError::InvalidCoagulationSettings(_) => "invalid coagulation settings: "@,
        RenderError::InvalidBlockCollageSettings(_) => "invalid block collage settings: "@,
        RenderError::InvalidCascadeCollageSettings(_) => "invalid cascade collage settings: "@,
        RenderError::InvalidRetroStaticSettings(_) => "invalid retro static settings: "@,
        RenderError::InvalidPixelSortSettings(_) => "invalid pixel sort settings: "@,
        RenderError::InvalidPaletteQuantizeSettings(_) => "invalid palette quantize settings: "@,
        RenderError::InvalidModulationRoute(_) => "invalid modulation route: "@,
        RenderError::IncompatibleInputs(_) => "render inputs are incompatible: "@,
        RenderError::InvalidGeneratorSettings(_) => "invalid generator settings: "@,
    }
}

/// The detail text an error carries.
pub open spec fn error_detail(e: RenderError) -> Seq<char> {
    match e {
        RenderError::InvalidImageBuffer(d) => d@,
        RenderError::InvalidFlowField(d) => d@,
        RenderError::InvalidDatamoshSettings(d) => d@,
        RenderError::InvalidFlowCache(d) => d@,
        RenderError::InvalidFlowFeedbackSettings(d) => d@,
        RenderError::InvalidFlowFeedbackState(d) => d@,
        RenderError::InvalidGranularMosaicSettings(d) => d@,
        RenderError::InvalidGranularMosaicCache(d) => d@,
        RenderError::InvalidVideoVocoderSettings(d) => d@,
        RenderError::InvalidConvolutionSettings(d) => d@,
        RenderError::InvalidCoagulationSettings(d) => d@,
        RenderError::InvalidBlockCollageSettings(d) => d@,
        RenderError::InvalidCascadeCollageSettings(d) => d@,
        RenderError::InvalidRetroStaticSettings(d) => d@,
        RenderError::InvalidPixelSortSettings(d) => d@,
        RenderError::InvalidPaletteQuantizeSettings(d) => d@,
        RenderError::InvalidModulationRoute(d) => d@,
        RenderError::IncompatibleInputs(d) => d@,
        RenderError::InvalidGeneratorSettings(d) => d@,
    }
}

impl RenderError {
    /// The heading of the variant followed by its detail, as the error prints.
    pub fn to_string(&self) -> (r: String)
        ensures
            r@ == error_heading(*self) + error_detail(*self),
    {
        let (heading, detail): (&str, &String) = match self {
            RenderError::InvalidImageBuffer(d) => ("invalid image buffer: ", d),
            RenderError::InvalidFlowField(d) => ("invalid flow field: ", d),
            RenderError::InvalidDatamoshSettings(d) => ("invalid datamosh settings: ", d),
            RenderError::InvalidFlowCache(d) => ("invalid flow cache: ", d),
            RenderError::InvalidFlowFeedbackSettings(d) => ("invalid flow feedback settings: ", d),
            RenderError::InvalidFlowFeedbackState(d) => ("invalid flow feedback state: ", d),
            RenderError::InvalidGranularMosaicSettings(d) => (
                "invalid granular mosaic settings: ",
                d,
            ),
            RenderError::InvalidGranularMosaicCache(d) => ("invalid granular mosaic cache: ", d),
            RenderError::InvalidVideoVocoderSettings(d) => ("invalid video vocoder settings: ", d),
            RenderError::InvalidConvolutionSettings(d) => (
                "invalid convolution blend settings: ",
                d,
            ),
            RenderError::InvalidCoagulationSettings(d) => ("invalid coagulation settings: ", d),
            RenderError::InvalidBlockCollageSettings(d) => ("invalid block collage settings: ", d),
            RenderError::InvalidCascadeCollageSettings(d) => (
                "invalid cascade collage settings: ",
                d,
            ),
            RenderError::InvalidRetroStaticSettings(d) => ("invalid retro static settings: ", d),
            RenderError::InvalidPixelSortSettings(d) => ("invalid pixel sort settings: ", d),
            RenderError::InvalidPaletteQuantizeSettings(d) => (
                "invalid palette quantize settings: ",
                d,
            ),
            RenderError::InvalidModulationRoute(d) => ("invalid modulation route: ", d),
            RenderError::IncompatibleInputs(d) => ("render inputs are incompatible: ", d),
            RenderError::InvalidGeneratorSettings(d) => ("invalid generator settings: ", d),
        };
        let mut r = String::from_str(heading);
        let tail = chars_of(detail.as_str());
        push_chars(&mut r, &tail);
        r
    }
}

} // verus!
