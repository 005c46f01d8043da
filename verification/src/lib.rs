//! Playback engine for a laser projector: walks a pre-authored animation
//! (frames of colored or blanked points) in a loop and supplies, on demand,
//! an exact count of hardware-format points per request, converting each
//! point through a small color/coordinate pipeline on the way out.

pub mod anim;
pub mod cursor;
pub mod driver;
pub mod pass;
pub mod point;
