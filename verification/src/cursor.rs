//! The playback cursor: a pull-based generator over an animation. Each call
//! to `next` yields one source point, walking points within a frame, showing
//! each frame `1 + repeat limit` times, advancing frame by frame, skipping
//! empty frames, and wrapping to the start when a pass over the whole
//! animation is done — an endless, restartable stream.

use vstd::prelude::*;
use vstd::arithmetic::mul::lemma_mul_inequality;
use crate::anim::Animation;
use crate::anim::anim_valid;
use crate::pass::pass_of;
use crate::pass::lemma_pass_take_step;
use crate::pass::lemma_pass_split;
use crate::pass::lemma_pass_index;
use crate::pass::lemma_pass_positive;
use crate::pass::lemma_repeat_len;
use crate::point::SourcePoint;

verus! {

broadcast use vstd::arithmetic::mul::group_mul_basics;

/// The playback state machine: the animation, the configured per-frame
/// repeat limit, and three nested cursors — frame index, point index within
/// the frame, and how many times the frame has been repeated so far.
pub struct Cursor {
    animation: Animation,
    limit: u8,
    current_frame: usize,
    current_point: usize,
    frame_repeat_count: u8,
}

impl Cursor {
    /// The frames being played.
    pub closed spec fn frames(self) -> Seq<Seq<SourcePoint>> {
        self.animation@
    }

    /// The configured per-frame repeat limit (0 disables repetition).
    pub closed spec fn repeat_limit(self) -> nat {
        self.limit as nat
    }

    /// Index of the frame being played.
    pub closed spec fn frame_index(self) -> nat {
        self.current_frame as nat
    }

    /// Index of the next point within the current frame.
    pub closed spec fn point_index(self) -> nat {
        self.current_point as nat
    }

    /// How many times the current frame has been repeated so far.
    pub closed spec fn repeat_count(self) -> nat {
        self.frame_repeat_count as nat
    }

    /// Well-formedness between calls: the animation is playable, the frame
    /// index is in range, the point index is at most one past the last point
    /// returned, and the repeat count never exceeds the limit.
    pub open spec fn wf(self) -> bool {
        &&& anim_valid(self.frames())
        &&& self.frame_index() < self.frames().len()
        &&& self.point_index() <= self.frames()[self.frame_index() as int].len()
        &&& self.repeat_count() <= self.repeat_limit()
    }

    /// How many output slots of the current pass have been consumed: all
    /// slots of the frames already left behind, plus the full copies of the
    /// current frame already emitted, plus the points emitted of the copy
    /// being played.
    pub open spec fn pos(self) -> nat {
        pass_of(self.frames().take(self.frame_index() as int), self.repeat_limit()).len()
            + self.repeat_count() * self.frames()[self.frame_index() as int].len()
            + self.point_index()
    }

    /// The pass position the next emitted point will come from: `pos`
    /// itself, or 0 when the pass is exactly finished and the next call
    /// wraps to a fresh pass.
    pub open spec fn norm_pos(self) -> nat {
        if self.pos() == pass_of(self.frames(), self.repeat_limit()).len() {
            0
        } else {
            self.pos()
        }
    }

    /// Between calls the consumed-slot count never exceeds one pass, so the
    /// next emission position is always inside the pass.
    pub proof fn lemma_pos_in_pass(self)
        requires
            self.wf(),
        ensures
            self.pos() <= pass_of(self.frames(), self.repeat_limit()).len(),
            self.norm_pos() < pass_of(self.frames(), self.repeat_limit()).len(),
    {
        let frames = self.frames();
        let r = self.repeat_limit();
        let i = self.frame_index() as int;
        let f = frames[i];
        lemma_pass_take_step(frames, r, i);
        lemma_repeat_len(f, r + 1);
        lemma_mul_inequality(self.repeat_count() as int, r as int, f.len() as int);
        assert((r + 1) * f.len() == r * f.len() + f.len()) by (nonlinear_arith);
        lemma_pass_split(frames, r, i + 1);
        lemma_pass_positive(frames, r);
    }

    /// Start playback at frame 0, point 0, with no repeats performed.
    pub fn new(animation: Animation, repeat_limit: u8) -> (c: Cursor)
        requires
            anim_valid(animation@),
        ensures
            c.wf(),
            c.frames() == animation@,
            c.repeat_limit() == repeat_limit as nat,
            c.pos() == 0,
    {
        let c = Cursor {
            animation,
            limit: repeat_limit,
            current_frame: 0,
            current_point: 0,
            frame_repeat_count: 0,
        };
        proof {
            assert(c.frames().take(0) =~= Seq::<Seq<SourcePoint>>::empty());
            assert(pass_of(Seq::<Seq<SourcePoint>>::empty(), c.repeat_limit())
                == Seq::<SourcePoint>::empty());
        }
        c
    }

    /// Produce the next point of the endless playback stream: the point at
    /// the current pass position, advancing the cursor by one slot, wrapping
    /// to a fresh pass when the previous call consumed the pass's last slot.
    /// Empty frames are passed over without consuming an output slot.
    pub fn next(&mut self) -> (p: SourcePoint)
        requires
            old(self).wf(),
        ensures
            final(self).wf(),
            final(self).frames() == old(self).frames(),
            final(self).repeat_limit() == old(self).repeat_limit(),
            p == pass_of(old(self).frames(), old(self).repeat_limit())
                [old(self).norm_pos() as int],
            final(self).pos() == old(self).norm_pos() + 1,
    {
        let ghost frames = old(self).frames();
        let ghost r = old(self).repeat_limit();
        let ghost plen = pass_of(frames, r).len();
        let ghost target = old(self).norm_pos();
        let ghost mut wrapped: bool = false;
        proof {
            old(self).lemma_pos_in_pass();
        }
        loop
            invariant
                self.animation == old(self).animation,
                self.limit == old(self).limit,
                frames == self.frames(),
                r == self.repeat_limit(),
                plen == pass_of(frames, r).len(),
                target == old(self).norm_pos(),
                anim_valid(frames),
                self.current_frame as int <= frames.len(),
                self.current_frame as int == frames.len() ==> self.current_point == 0
                    && self.frame_repeat_count == 0,
                (self.current_frame as int) < frames.len() ==> self.current_point as int
                    <= frames[self.current_frame as int].len(),
                self.frame_repeat_count <= self.limit,
                self.norm_pos() == target,
                wrapped ==> self.current_point == 0 && (self.current_frame as int) < frames.len()
                    && (forall|q: int|
                        0 <= q < self.current_frame as int ==> frames[q].len() == 0),
            decreases
                (if wrapped { 0int } else { 1int }),
                frames.len() - self.current_frame as int,
                self.limit as int - self.frame_repeat_count as int,
        {
            let n = self.animation.frame_count();
            if self.current_frame >= n {
                // End of the pass: wrap the whole animation.
                proof {
                    assert(frames.take(frames.len() as int) =~= frames);
                    assert(self.pos() == plen);
                    lemma_pass_positive(frames, r);
                }
                self.current_frame = 0;
                self.current_point = 0;
                self.frame_repeat_count = 0;
                proof {
                    wrapped = true;
                    assert(frames.take(0) =~= Seq::<Seq<SourcePoint>>::empty());
                    assert(pass_of(Seq::<Seq<SourcePoint>>::empty(), r)
                        == Seq::<SourcePoint>::empty());
                    assert(self.pos() == 0);
                }
            } else {
                let flen = self.animation.frame_len(self.current_frame);
                if self.current_point >= flen {
                    // End of the current copy of the frame.
                    let ghost i = self.current_frame as int;
                    let ghost c = self.frame_repeat_count as int;
                    let ghost flens = frames[i].len() as int;
                    if self.limit > 0 && self.frame_repeat_count < self.limit {
                        // Repeat the frame: back to its first point, without
                        // consuming an output slot.
                        proof {
                            assert((c + 1) * flens == c * flens + flens) by (nonlinear_arith);
                        }
                        self.current_point = 0;
                        self.frame_repeat_count = self.frame_repeat_count + 1;
                    } else {
                        // Advance to the next frame, without consuming an
                        // output slot.
                        proof {
                            lemma_pass_take_step(frames, r, i);
                            lemma_repeat_len(frames[i], r + 1);
                            assert(self.frame_repeat_count == self.limit);
                            assert((r + 1) * flens == r * flens + flens) by (nonlinear_arith)
                                requires flens >= 0 && r >= 0;
                            if wrapped {
                                let w = choose|q: int|
                                    0 <= q < frames.len() && #[trigger] frames[q].len() > 0;
                                assert(w > i);
                            }
                        }
                        self.current_frame = self.current_frame + 1;
                        self.current_point = 0;
                        self.frame_repeat_count = 0;
                    }
                } else {
                    // A point exists at the current position: emit it.
                    let p = self.animation.point(self.current_frame, self.current_point);
                    proof {
                        lemma_pass_index(
                            frames,
                            r,
                            self.current_frame as int,
                            self.frame_repeat_count as int,
                            self.current_point as int,
                        );
                        assert(self.pos() < plen);
                    }
                    self.current_point = self.current_point + 1;
                    return p;
                }
            }
        }
    }
}

} // verus!
