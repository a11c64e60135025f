//! Format-aware save policy: alpha is preserved only for targets whose
//! container can carry it.
use crate::pixel::{Image, PixelFormat};
use crate::utils::str_eq;
use vstd::prelude::*;

verus! {

/// Whether a target extension names a container that keeps an alpha
/// channel intact (compared exactly, as the caller supplies it).
pub open spec fn alpha_capable(ext: Seq<char>) -> bool {
    ext == "png"@ || ext == "webp"@
}

/// The image to hand the codec for a save to a target with extension
/// `extension`: the result unchanged when the target can carry alpha
/// and the result actually has one, otherwise the result with its
/// alpha channel dropped.
pub fn prepare_for_save(img: &Image, extension: &str) -> (r: Image)
    requires
        img.wf(),
    ensures
        r.wf(),
        r.width == img.width,
        r.height == img.height,
        alpha_capable(extension@) && img.spec_has_alpha() ==> r.format == img.format && r.data@
            == img.data@,
        !(alpha_capable(extension@) && img.spec_has_alpha()) ==> r.format == PixelFormat::Rgb8
            && forall|x: int, y: int|
            0 <= x < img.width && 0 <= y < img.height ==> r.spec_pix(x, y) == img.spec_pix(
                x,
                y,
            ).stored(PixelFormat::Rgb8),
{
    if (str_eq(extension, "png") || str_eq(extension, "webp")) && img.has_alpha() {
        img.duplicate()
    } else {
        img.to_rgb8()
    }
}

} // verus!
