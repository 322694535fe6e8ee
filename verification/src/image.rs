//! The cover image that is on show.

use vstd::prelude::*;

verus! {

/// A decoded image of the `image` crate. Nothing is known of its contents
/// here; it is only carried from the loader to the renderer.
#[verifier::external_type_specification]
#[verifier::external_body]
pub struct ExDynamicImage(image::DynamicImage);

/// Holds the cover image on show, with its width and height.
pub struct ImageManager {
    pub image_info: Option<(u32, u32, image::DynamicImage)>,
}

impl ImageManager {
    /// A manager that shows no image.
    pub fn new() -> (m: ImageManager)
        ensures
            m.image_info is None,
    {
        ImageManager { image_info: None }
    }

    /// Drops the image on show.
    pub fn clear(&mut self)
        ensures
            final(self).image_info is None,
    {
        self.image_info = None;
    }
}

} // verus!
