//! A screenshot frame: the window geometry a screenshot was taken of and the
//! size of the image, which map image coordinates back to the desktop.
use crate::drivers::Shot;
use crate::error::fail;
use crate::types::{Bbox, ToolError};
use vstd::prelude::*;

verus! {

#[derive(Debug, Clone, Copy, PartialEq, Eq, Structural)]
pub struct Frame {
    pub geometry: Bbox,
    pub image_width: u32,
    pub image_height: u32,
}

/// The width and height of the image that encoded bytes decode to, or the
/// decoder's error text.
pub uninterp spec fn decoded_dimensions(bytes: Seq<u8>) -> Result<(u32, u32), Seq<char>>;

/// `image::load_from_memory`, read back as the decoded image's width and
/// height, or its error as text. The crate answers every input with an
/// `ImageResult`: data it cannot read comes back as a decoding error, and
/// its default limits turn sizes beyond what a decoder may allocate into a
/// limit error. That no decoder panics on some malformed input is not
/// stated; nothing here could show it.
#[verifier::external_body]
fn image_dimensions(bytes: &[u8]) -> (r: Result<(u32, u32), String>)
    ensures
        match decoded_dimensions(bytes@) {
            Ok(d) => r == Ok::<(u32, u32), String>(d),
            Err(m) => r matches Err(s) && s@ == m,
        },
{
    match image::load_from_memory(bytes) {
        Ok(image) => Ok((image.width(), image.height())),
        Err(error) => Err(error.to_string()),
    }
}

impl Frame {
    /// The frame of a decoded screenshot of `geometry`: a decoding failure and
    /// an empty geometry are both refused as invalid screenshots.
    pub fn from_decoded(decoded: Result<(u32, u32), String>, geometry: Bbox) -> (r: Result<Frame, ToolError>)
        ensures
            match decoded {
                Err(m) => r matches Err(e) && e.code@ == "invalid_screenshot"@ && e.message@ == m@,
                Ok((w, h)) => if geometry.w == 0 || geometry.h == 0 {
                    r matches Err(e) && e.code@ == "invalid_screenshot"@ && e.message@
                        == "Empty screenshot geometry"@
                } else {
                    r == Ok::<Frame, ToolError>(Frame { geometry, image_width: w, image_height: h })
                },
            },
    {
        let (w, h) = match decoded {
            Ok(d) => d,
            Err(m) => return Err(fail("invalid_screenshot", m.as_str())),
        };
        if geometry.w == 0 || geometry.h == 0 {
            return Err(fail("invalid_screenshot", "Empty screenshot geometry"));
        }
        Ok(Frame { geometry, image_width: w, image_height: h })
    }

    /// The frame of a screenshot of `geometry`.
    pub fn from_shot(shot: &Shot, geometry: Bbox) -> (r: Result<Frame, ToolError>)
        ensures
            match decoded_dimensions(shot.bytes@) {
                Err(m) => r matches Err(e) && e.code@ == "invalid_screenshot"@ && e.message@ == m,
                Ok((w, h)) => if geometry.w == 0 || geometry.h == 0 {
                    r matches Err(e) && e.code@ == "invalid_screenshot"@ && e.message@
                        == "Empty screenshot geometry"@
                } else {
                    r == Ok::<Frame, ToolError>(Frame { geometry, image_width: w, image_height: h })
                },
            },
    {
        let decoded = image_dimensions(shot.bytes.as_slice());
        Frame::from_decoded(decoded, geometry)
    }
}

} // verus!
