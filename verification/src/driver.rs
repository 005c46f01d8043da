//! The playback driver: owns the cursor and answers the hardware's pull
//! contract. Each request names a count, and the driver returns a buffer of
//! exactly that many hardware points — the next points of the endless
//! playback stream, each converted through the point pipeline.

use vstd::prelude::*;
use vstd::arithmetic::div_mod::lemma_add_mod_noop_right;
use vstd::arithmetic::div_mod::lemma_mod_bound;
use vstd::arithmetic::div_mod::lemma_mod_self_0;
use vstd::arithmetic::div_mod::lemma_small_mod;
use crate::anim::Animation;
use crate::anim::anim_valid;
use crate::cursor::Cursor;
use crate::pass::pass_of;
use crate::point::HardwarePoint;
use crate::point::SourcePoint;
use crate::point::convert;
use crate::point::spec_convert;

verus! {

/// Playback configuration, immutable after startup.
#[derive(Clone, Copy, PartialEq, Eq, Structural, Debug)]
pub struct Config {
    /// Show blanking points as lit points instead of blanked ones.
    pub show_blanking: bool,
    /// How many extra times each frame is shown before advancing
    /// (0 disables repetition).
    pub frame_repeat_count_limit: u8,
}

/// The hardware point a request emits at slot `i`, when the playback stream
/// stands at pass position `start` as the request begins: the pass wraps
/// around as often as needed, and every point runs through the pipeline.
pub open spec fn output_at(
    frames: Seq<Seq<SourcePoint>>,
    r: nat,
    show_blanking: bool,
    start: nat,
    i: int,
) -> HardwarePoint {
    spec_convert(
        pass_of(frames, r)[(start + i) % (pass_of(frames, r).len() as int)],
        show_blanking,
    )
}

/// The adapter between the playback cursor and the hardware callback: on
/// each invocation it fills a buffer of exactly the requested size by
/// pulling from the cursor and pushing each point through the pipeline.
pub struct Driver {
    cursor: Cursor,
    show_blanking: bool,
}

impl Driver {
    /// The frames being played.
    pub closed spec fn frames(self) -> Seq<Seq<SourcePoint>> {
        self.cursor.frames()
    }

    /// The configured per-frame repeat limit.
    pub closed spec fn repeat_limit(self) -> nat {
        self.cursor.repeat_limit()
    }

    /// Whether blanking points are shown lit.
    pub closed spec fn shows_blanking(self) -> bool {
        self.show_blanking
    }

    /// The pass position the next emitted point will come from.
    pub closed spec fn norm_pos(self) -> nat {
        self.cursor.norm_pos()
    }

    pub closed spec fn wf(self) -> bool {
        self.cursor.wf()
    }

    /// Start a driver over a validated animation, at the beginning of the
    /// first frame.
    pub fn new(animation: Animation, config: Config) -> (d: Driver)
        requires
            anim_valid(animation@),
        ensures
            d.wf(),
            d.frames() == animation@,
            d.repeat_limit() == config.frame_repeat_count_limit as nat,
            d.shows_blanking() == config.show_blanking,
            d.norm_pos() == 0,
    {
        let cursor = Cursor::new(animation, config.frame_repeat_count_limit);
        Driver { cursor, show_blanking: config.show_blanking }
    }

    /// Fill a buffer with exactly `num_points` hardware points — never
    /// fewer, never more, whatever the animation's size — and leave the
    /// stream standing `num_points` slots further on.
    pub fn fill(&mut self, num_points: usize) -> (buf: Vec<HardwarePoint>)
        requires
            old(self).wf(),
        ensures
            final(self).wf(),
            final(self).frames() == old(self).frames(),
            final(self).repeat_limit() == old(self).repeat_limit(),
            final(self).shows_blanking() == old(self).shows_blanking(),
            buf@.len() == num_points,
            forall|i: int|
                0 <= i < num_points ==> buf@[i] == output_at(
                    old(self).frames(),
                    old(self).repeat_limit(),
                    old(self).shows_blanking(),
                    old(self).norm_pos(),
                    i,
                ),
            final(self).norm_pos() == (old(self).norm_pos() + num_points) % (pass_of(
                old(self).frames(),
                old(self).repeat_limit(),
            ).len() as int),
    {
        let ghost frames = old(self).frames();
        let ghost r = old(self).repeat_limit();
        let ghost plen = pass_of(frames, r).len() as int;
        let ghost start = old(self).norm_pos() as int;
        let ghost sb = old(self).shows_blanking();
        proof {
            old(self).cursor.lemma_pos_in_pass();
            lemma_small_mod(start as nat, plen as nat);
        }
        let mut buf: Vec<HardwarePoint> = Vec::new();
        while buf.len() < num_points
            invariant
                self.cursor.wf(),
                self.cursor.frames() == frames,
                self.cursor.repeat_limit() == r,
                self.show_blanking == sb,
                plen == pass_of(frames, r).len(),
                0 < plen,
                0 <= start < plen,
                buf@.len() <= num_points,
                self.cursor.norm_pos() == (start + buf@.len()) % plen,
                forall|i: int|
                    0 <= i < buf@.len() ==> buf@[i] == output_at(frames, r, sb, start as nat, i),
            decreases num_points - buf@.len(),
        {
            let ghost k = buf@.len() as int;
            let ghost cur = (start + k) % plen;
            let p = self.cursor.next();
            let h = convert(p, self.show_blanking);
            proof {
                lemma_mod_bound(start + k, plen);
                self.cursor.lemma_pos_in_pass();
                lemma_add_mod_noop_right(1, start + k, plen);
                if cur + 1 == plen {
                    lemma_mod_self_0(plen);
                } else {
                    lemma_small_mod((cur + 1) as nat, plen as nat);
                }
                assert(self.cursor.norm_pos() == (start + k + 1) % plen);
            }
            buf.push(h);
        }
        buf
    }
}

} // verus!
