//! The animation data model — frames of source points — and the mathematical
//! model of playback: the sequence of points one full pass of an animation
//! emits, given a per-frame repeat limit. The playback cursor and driver state
//! their contracts over this model.

use vstd::prelude::*;
use crate::point::SourcePoint;

verus! {

/// One complete drawable image: an ordered sequence of source points.
/// A frame may be empty; playback must skip such frames, never stall on them.
pub struct Frame {
    points: Vec<SourcePoint>,
}

impl View for Frame {
    type V = Seq<SourcePoint>;

    closed spec fn view(&self) -> Seq<SourcePoint> {
        self.points@
    }
}

impl Frame {
    pub fn new(points: Vec<SourcePoint>) -> (f: Frame)
        ensures
            f@ == points@,
    {
        Frame { points }
    }

    pub fn len(&self) -> (n: usize)
        ensures
            n == self@.len(),
    {
        self.points.len()
    }

    pub fn point(&self, i: usize) -> (p: SourcePoint)
        requires
            i < self@.len(),
        ensures
            p == self@[i as int],
    {
        self.points[i]
    }
}

/// The sequences of points of a sequence of frames.
pub open spec fn frames_view(frames: Seq<Frame>) -> Seq<Seq<SourcePoint>> {
    frames.map_values(|f: Frame| f@)
}

/// An animation is playable only if some frame has at least one point;
/// otherwise the playback loop could never produce output.
pub open spec fn anim_valid(frames: Seq<Seq<SourcePoint>>) -> bool {
    exists|i: int| 0 <= i < frames.len() && #[trigger] frames[i].len() > 0
}

/// A configuration the playback engine must refuse at load time.
#[derive(Clone, Copy, PartialEq, Eq, Structural, Debug)]
pub enum LoadError {
    /// The animation has no frames, or only empty frames: starting playback
    /// would loop forever without emitting a single point.
    NoDrawablePoints,
}

/// An ordered sequence of frames, validated at construction: at least one
/// frame holds at least one point. Immutable for the lifetime of playback.
pub struct Animation {
    frames: Vec<Frame>,
}

impl View for Animation {
    type V = Seq<Seq<SourcePoint>>;

    closed spec fn view(&self) -> Seq<Seq<SourcePoint>> {
        frames_view(self.frames@)
    }
}

impl Animation {
    /// Accept the frames only if some frame is non-empty; an animation with
    /// zero frames or only empty frames is rejected, exactly then.
    pub fn new(frames: Vec<Frame>) -> (r: Result<Animation, LoadError>)
        ensures
            match r {
                Ok(a) => a@ == frames_view(frames@) && anim_valid(a@),
                Err(e) => e == LoadError::NoDrawablePoints && !anim_valid(frames_view(frames@)),
            },
    {
        let n = frames.len();
        let mut i: usize = 0;
        let mut found: bool = false;
        while i < n
            invariant
                n == frames@.len(),
                i <= n,
                found <==> (exists|j: int|
                    0 <= j < i && #[trigger] frames_view(frames@)[j].len() > 0),
            decreases n - i,
        {
            if frames[i].len() > 0 {
                proof {
                    assert(frames_view(frames@)[i as int].len() > 0);
                }
                found = true;
            }
            i += 1;
        }
        if found {
            Ok(Animation { frames })
        } else {
            Err(LoadError::NoDrawablePoints)
        }
    }

    pub fn frame_count(&self) -> (n: usize)
        ensures
            n == self@.len(),
    {
        self.frames.len()
    }

    pub fn frame_len(&self, i: usize) -> (n: usize)
        requires
            i < self@.len(),
        ensures
            n == self@[i as int].len(),
    {
        proof {
            assert(self@[i as int] == self.frames@[i as int]@);
        }
        self.frames[i].len()
    }

    pub fn point(&self, i: usize, j: usize) -> (p: SourcePoint)
        requires
            i < self@.len(),
            j < self@[i as int].len(),
        ensures
            p == self@[i as int][j as int],
    {
        proof {
            assert(self@[i as int] == self.frames@[i as int]@);
        }
        self.frames[i].point(j)
    }
}

} // verus!
