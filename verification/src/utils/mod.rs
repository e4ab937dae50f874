//! Small helpers of the preview pipeline.

use vstd::prelude::*;
use vstd::string::*;
use crate::outside::{base64_encode, base64_standard};
use crate::text::join_text;

pub mod file;

verus! {

pub struct Utils;

/// The text that opens every image handed out as a data URI.
pub const IMAGE_URI_HEAD: &'static str = "data:image/png;base64,";

/// The data URI that carries `data` as a base64 image.
pub open spec fn image_uri(data: Seq<u8>) -> Seq<char> {
    IMAGE_URI_HEAD@ + base64_standard(data)
}

impl Utils {
    /// Wraps the bytes of an image into a data URI.
    pub fn generate_image(data: Vec<u8>) -> (content: String)
        requires
            data@.len() <= usize::MAX / 8,
        ensures
            content@ == image_uri(data@),
    {
        let encoded = base64_encode(&data);
        join_text(IMAGE_URI_HEAD, encoded.as_str())
    }
}

} // verus!
