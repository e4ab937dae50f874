//! What a type must offer to serve as the manifest of a preview.

use vstd::prelude::*;

verus! {

/// Marks the types that can be handed through the pipeline as its result:
/// they have an empty value to start from and can be copied.
pub trait HttpResponseData: Default + Clone {

}

} // verus!
