//! The point pipeline: pure conversions from the source-domain point format
//! to the hardware (wire) point format, made of two named steps — color-depth
//! expansion and x-coordinate correction — plus blanking handling.

use vstd::prelude::*;

verus! {

/// One galvo position plus beam state, as decoded from an animation file.
/// Color channels are 8-bit; `is_blank` marks a beam-off travel point.
#[derive(Clone, Copy, PartialEq, Eq, Structural, Debug)]
pub struct SourcePoint {
    pub x: i16,
    pub y: i16,
    pub r: u8,
    pub g: u8,
    pub b: u8,
    pub is_blank: bool,
}

/// One point in the wire format the projector DAC consumes: the same
/// coordinate range as the source, with widened 16-bit color channels.
#[derive(Clone, Copy, PartialEq, Eq, Structural, Debug)]
pub struct HardwarePoint {
    pub x: i16,
    pub y: i16,
    pub r: u16,
    pub g: u16,
    pub b: u16,
    pub is_blank: bool,
}

/// The exact linear scaling from the 8-bit color range onto the 16-bit one:
/// 0 maps to 0 and 255 maps to 65535 (a plain shift by 8 would reach only
/// 65280).
pub open spec fn spec_expand(c: u8) -> int {
    c * 257
}

/// Expand an 8-bit color channel to the full 16-bit range.
pub fn expand(color: u8) -> (r: u16)
    ensures
        r == spec_expand(color),
{
    (color as u16) * 257
}

/// The x-coordinate correction: negation, saturating at the extremes of the
/// representation so the minimum value cannot wrap around.
pub open spec fn spec_invert_x(x: i16) -> i16 {
    if x == i16::MIN {
        i16::MAX
    } else {
        (-(x as int)) as i16
    }
}

/// Compensate for the flipped x-coordinate plane between the animation
/// source convention and the hardware convention. Kept as a single named
/// step on purpose: it may compensate for a quirk elsewhere in the chain,
/// and must stay independently replaceable.
pub fn invert_x(x_coordinate: i16) -> (r: i16)
    ensures
        r == spec_invert_x(x_coordinate),
{
    if x_coordinate == i16::MIN {
        i16::MAX
    } else {
        -x_coordinate
    }
}

/// What the pipeline emits for one source point: a blanked point (colors off,
/// corrected position) when the point is blank and blanking is not shown,
/// otherwise a lit point with corrected position and expanded colors.
pub open spec fn spec_convert(p: SourcePoint, show_blanking: bool) -> HardwarePoint {
    if p.is_blank && !show_blanking {
        HardwarePoint {
            x: spec_invert_x(p.x),
            y: p.y,
            r: 0,
            g: 0,
            b: 0,
            is_blank: true,
        }
    } else {
        HardwarePoint {
            x: spec_invert_x(p.x),
            y: p.y,
            r: spec_expand(p.r) as u16,
            g: spec_expand(p.g) as u16,
            b: spec_expand(p.b) as u16,
            is_blank: false,
        }
    }
}

/// Convert one source point to one hardware point. A blank source point still
/// produces a real output point (it moves the beam without firing it), so it
/// consumes an output slot like any other.
pub fn convert(p: SourcePoint, show_blanking: bool) -> (h: HardwarePoint)
    ensures
        h == spec_convert(p, show_blanking),
{
    if p.is_blank && !show_blanking {
        HardwarePoint {
            x: invert_x(p.x),
            y: p.y,
            r: 0,
            g: 0,
            b: 0,
            is_blank: true,
        }
    } else {
        HardwarePoint {
            x: invert_x(p.x),
            y: p.y,
            r: expand(p.r),
            g: expand(p.g),
            b: expand(p.b),
            is_blank: false,
        }
    }
}

} // verus!
