//! The image codec, which this library only asks for a verdict.

use vstd::prelude::*;

verus! {

/// Asks `image::load_from_memory` whether `bytes` decode as an image.
///
/// Nothing is promised of the verdict. The codec guesses the format from the
/// first bytes and runs the decoder for it, and which formats it knows
/// depends on how the codec was built and on the format hooks that the
/// process has registered with it.
#[verifier::external_body]
pub(crate) fn image_loads(bytes: &[u8]) -> (ok: bool) {
    image::load_from_memory(bytes).is_ok()
}

} // verus!
