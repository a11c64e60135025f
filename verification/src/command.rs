//! The command boundary of the image engine: the argument records the
//! command layer fills in, and the string-keyed selectors resolved once
//! into closed variants.
use crate::utils::str_eq;
use crate::MediaError;
use vstd::prelude::*;

verus! {

/// How a set of images is combined onto one canvas.
#[derive(Clone, Copy, Debug, PartialEq, Eq, Structural)]
pub enum CombineMode {
    Horizontal,
    Vertical,
}

/// The combine mode a name selects: anything but `horizontal` or
/// `vertical` fails with `InvalidMode`.
pub open spec fn spec_combine_mode(m: Seq<char>) -> Result<CombineMode, MediaError> {
    if m == "horizontal"@ {
        Ok(CombineMode::Horizontal)
    } else if m == "vertical"@ {
        Ok(CombineMode::Vertical)
    } else {
        Err(MediaError::InvalidMode)
    }
}

/// Resolve a combine mode name; anything but `horizontal` or
/// `vertical` fails with `InvalidMode`.
pub fn parse_combine_mode(mode: &str) -> (r: Result<CombineMode, MediaError>)
    ensures
        r == spec_combine_mode(mode@),
{
    if str_eq(mode, "horizontal") {
        Ok(CombineMode::Horizontal)
    } else if str_eq(mode, "vertical") {
        Ok(CombineMode::Vertical)
    } else {
        Err(MediaError::InvalidMode)
    }
}

/// The per-pixel filters the tool offers. Intensity, where a filter
/// takes one, is handed to the filter function separately.
#[derive(Clone, Copy, Debug, PartialEq, Eq, Structural)]
pub enum FilterKind {
    Grayscale,
    Brightness,
    Contrast,
    Blur,
}

/// The filter a name selects: an unknown name fails with
/// `InvalidFilter`.
pub open spec fn spec_filter_kind(n: Seq<char>) -> Result<FilterKind, MediaError> {
    if n == "grayscale"@ {
        Ok(FilterKind::Grayscale)
    } else if n == "brightness"@ {
        Ok(FilterKind::Brightness)
    } else if n == "contrast"@ {
        Ok(FilterKind::Contrast)
    } else if n == "blur"@ {
        Ok(FilterKind::Blur)
    } else {
        Err(MediaError::InvalidFilter)
    }
}

/// Resolve a filter name; an unknown name fails with `InvalidFilter`.
pub fn parse_filter(name: &str) -> (r: Result<FilterKind, MediaError>)
    ensures
        r == spec_filter_kind(name@),
{
    if str_eq(name, "grayscale") {
        Ok(FilterKind::Grayscale)
    } else if str_eq(name, "brightness") {
        Ok(FilterKind::Brightness)
    } else if str_eq(name, "contrast") {
        Ok(FilterKind::Contrast)
    } else if str_eq(name, "blur") {
        Ok(FilterKind::Blur)
    } else {
        Err(MediaError::InvalidFilter)
    }
}

/// The shapes an image can be cropped or masked to.
#[derive(Clone, Copy, Debug, PartialEq, Eq, Structural)]
pub enum ShapeKind {
    Circle,
    Square,
    Rounded,
}

/// The shape a name selects: an unknown name fails with
/// `InvalidShape`.
pub open spec fn spec_shape_kind(n: Seq<char>) -> Result<ShapeKind, MediaError> {
    if n == "circle"@ {
        Ok(ShapeKind::Circle)
    } else if n == "square"@ {
        Ok(ShapeKind::Square)
    } else if n == "rounded"@ {
        Ok(ShapeKind::Rounded)
    } else {
        Err(MediaError::InvalidShape)
    }
}

/// Resolve a shape name; an unknown name fails with `InvalidShape`.
pub fn parse_shape(name: &str) -> (r: Result<ShapeKind, MediaError>)
    ensures
        r == spec_shape_kind(name@),
{
    if str_eq(name, "circle") {
        Ok(ShapeKind::Circle)
    } else if str_eq(name, "square") {
        Ok(ShapeKind::Square)
    } else if str_eq(name, "rounded") {
        Ok(ShapeKind::Rounded)
    } else {
        Err(MediaError::InvalidShape)
    }
}

/// Arguments of the overlay command: two image paths, an optional
/// output path, and the overlay offset.
pub struct OverlayArgs {
    pub input: String,
    pub overlay: String,
    pub output: Option<String>,
    pub x: i64,
    pub y: i64,
}

/// Arguments of the image combine command.
pub struct CombineArgs {
    pub inputs: Vec<String>,
    pub output: Option<String>,
    pub mode: String,
}

/// Arguments of the reshape command.
pub struct ReshapeArgs {
    pub input: String,
    pub output: Option<String>,
    pub shape: String,
    pub radius: Option<u32>,
}

impl ReshapeArgs {
    /// The rounding radius the command works with: the given one, or
    /// 30 when none was passed.
    pub fn effective_radius(&self) -> (r: u32)
        ensures
            self.radius is Some ==> r == self.radius->0,
            self.radius is None ==> r == 30,
    {
        match self.radius {
            Some(radius) => radius,
            None => 30,
        }
    }
}

/// Arguments of the video-from-still command: the duration is in
/// seconds.
pub struct CreateVideoArgs {
    pub input: String,
    pub output: Option<String>,
    pub duration: u32,
}

} // verus!
