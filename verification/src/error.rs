//! The failure kinds that the library reports to its callers.
use vstd::prelude::*;
use crate::text::concat_str;

verus! {

/// One failure of the generation system: configuration, generation, cloud
/// consistency, input/output, or rendering. Each variant carries the detail
/// text that is shown to the user.
#[derive(Debug)]
pub enum Error {
    ModelNotLoaded(String),
    InvalidConfig(String),
    GenerationFailed(String),
    InvalidGaussianCloud(String),
    IoError(String),
    RenderError(String),
}

impl Error {
    /// The full display text of this error: a fixed prefix naming the kind,
    /// followed by the detail.
    pub open spec fn spec_text(&self) -> Seq<char> {
        match self {
            Error::ModelNotLoaded(m) => "Model not loaded: "@ + m@,
            Error::InvalidConfig(m) => "Invalid configuration: "@ + m@,
            Error::GenerationFailed(m) => "Generation failed: "@ + m@,
            Error::InvalidGaussianCloud(m) => "Invalid Gaussian cloud: "@ + m@,
            Error::IoError(m) => "IO error: "@ + m@,
            Error::RenderError(m) => "Render error: "@ + m@,
        }
    }

    /// Renders the error as the text a user sees.
    pub fn text(&self) -> (r: String)
        ensures
            r@ == self.spec_text(),
    {
        match self {
            Error::ModelNotLoaded(m) => concat_str("Model not loaded: ", m.as_str()),
            Error::InvalidConfig(m) => concat_str("Invalid configuration: ", m.as_str()),
            Error::GenerationFailed(m) => concat_str("Generation failed: ", m.as_str()),
            Error::InvalidGaussianCloud(m) => concat_str("Invalid Gaussian cloud: ", m.as_str()),
            Error::IoError(m) => concat_str("IO error: ", m.as_str()),
            Error::RenderError(m) => concat_str("Render error: ", m.as_str()),
        }
    }
}

} // verus!
