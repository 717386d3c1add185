//! Errors of screenshot rendering.

use vstd::prelude::*;

verus! {

#[verifier::external_type_specification]
#[verifier::external_body]
pub struct ExImageError(image::ImageError);

#[verifier::external_type_specification]
#[verifier::external_body]
pub struct ExIoError(std::io::Error);

/// Errors of screenshot rendering.
#[derive(Debug)]
pub enum ScreenshotError {
    /// Failed to load font.
    FontLoadError(String),
    /// Canvas error.
    CanvasError(String),
    /// Image error (encoding or writing an image).
    ImageError(image::ImageError),
    /// IO error.
    IoError(std::io::Error),
}

} // verus!
