use vstd::prelude::*;
use crate::program::ShaderDialect;

verus! {

/// What can stop one run of the engine.
#[derive(Debug)]
pub enum EngineError {
    /// The image has no pixels: a width or a height of zero.
    EmptyImage,
    /// A padded row of the image would not fit the 32-bit row pitch of a copy.
    TooLarge,
    /// The input bytes are not exactly `width * height * 4`.
    InputSizeMismatch,
    /// No GPU adapter could be found.
    AdapterUnavailable,
    /// The driver rejected a shader program.
    ShaderCompilation { dialect: ShaderDialect, message: String },
    /// The GPU did not finish its work in time.
    Timeout,
    /// The read-back bytes do not make up an image of the expected size.
    InternalConsistency,
}

} // verus!
