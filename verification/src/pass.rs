//! The model of one playback pass: the sequence of points that one full walk
//! of an animation emits, with each frame repeated `r + 1` times (a repeat
//! limit of `r` means each frame is shown once and then repeated `r` more
//! times), frame 0 through the last frame. The cursor and driver contracts
//! index into this sequence; the public lemmas here are the playback laws.

use vstd::prelude::*;
use crate::point::SourcePoint;

verus! {

/// `f` concatenated with itself `n` times.
pub open spec fn repeat_seq(f: Seq<SourcePoint>, n: nat) -> Seq<SourcePoint>
    decreases n,
{
    if n == 0 {
        Seq::empty()
    } else {
        f + repeat_seq(f, (n - 1) as nat)
    }
}

/// All points one full pass of the animation emits, in order: each frame's
/// points `r + 1` consecutive times, frame 0 through the last frame.
pub open spec fn pass_of(frames: Seq<Seq<SourcePoint>>, r: nat) -> Seq<SourcePoint>
    decreases frames.len(),
{
    if frames.len() == 0 {
        Seq::empty()
    } else {
        repeat_seq(frames[0], r + 1) + pass_of(frames.drop_first(), r)
    }
}

/// The number of points the frames hold, all frames summed.
pub open spec fn total_points(frames: Seq<Seq<SourcePoint>>) -> nat
    decreases frames.len(),
{
    if frames.len() == 0 {
        0
    } else {
        frames[0].len() + total_points(frames.drop_first())
    }
}

pub proof fn lemma_repeat_len(f: Seq<SourcePoint>, n: nat)
    ensures
        repeat_seq(f, n).len() == n * f.len(),
    decreases n,
{
    if n == 0 {
        assert(0 * f.len() == 0) by (nonlinear_arith);
    } else {
        lemma_repeat_len(f, (n - 1) as nat);
        assert(f.len() + (n - 1) * f.len() == n * f.len()) by (nonlinear_arith);
    }
}

/// Within `n` copies of `f` laid end to end, position `j * |f| + k` of the
/// whole holds point `k` of copy `j`.
pub proof fn lemma_repeat_index(f: Seq<SourcePoint>, n: nat, j: nat, k: nat)
    requires
        j < n,
        k < f.len(),
    ensures
        j * f.len() + k < repeat_seq(f, n).len(),
        repeat_seq(f, n)[(j * f.len() + k) as int] == f[k as int],
    decreases j,
{
    lemma_repeat_len(f, n);
    assert((j + 1) * f.len() <= n * f.len()) by (nonlinear_arith)
        requires j + 1 <= n && f.len() >= 0;
    assert(j * f.len() + k < (j + 1) * f.len()) by (nonlinear_arith)
        requires k < f.len();
    if j == 0 {
        assert(0 * f.len() == 0) by (nonlinear_arith);
    } else {
        lemma_repeat_index(f, (n - 1) as nat, (j - 1) as nat, k);
        assert(j * f.len() + k - f.len() == (j - 1) * f.len() + k) by (nonlinear_arith);
        assert(j * f.len() >= f.len()) by (nonlinear_arith)
            requires j >= 1 && f.len() >= 0;
    }
}

/// A pass over frames laid end to end is the two passes laid end to end.
pub proof fn lemma_pass_add(a: Seq<Seq<SourcePoint>>, b: Seq<Seq<SourcePoint>>, r: nat)
    ensures
        pass_of(a + b, r) == pass_of(a, r) + pass_of(b, r),
    decreases a.len(),
{
    if a.len() == 0 {
        assert(a + b =~= b);
        assert(pass_of(a, r) + pass_of(b, r) =~= pass_of(b, r));
    } else {
        assert((a + b).drop_first() =~= a.drop_first() + b);
        lemma_pass_add(a.drop_first(), b, r);
        assert((a + b)[0] == a[0]);
        assert(pass_of(a + b, r) =~= pass_of(a, r) + pass_of(b, r));
    }
}

/// A pass splits at any frame boundary.
pub proof fn lemma_pass_split(frames: Seq<Seq<SourcePoint>>, r: nat, i: int)
    requires
        0 <= i <= frames.len(),
    ensures
        pass_of(frames, r) == pass_of(frames.take(i), r) + pass_of(frames.skip(i), r),
{
    assert(frames =~= frames.take(i) + frames.skip(i));
    lemma_pass_add(frames.take(i), frames.skip(i), r);
}

/// One more frame extends the pass by that frame's `r + 1` copies.
pub proof fn lemma_pass_take_step(frames: Seq<Seq<SourcePoint>>, r: nat, i: int)
    requires
        0 <= i < frames.len(),
    ensures
        pass_of(frames.take(i + 1), r) == pass_of(frames.take(i), r) + repeat_seq(
            frames[i],
            r + 1,
        ),
    decreases frames.len(),
{
    let single = seq![frames[i]];
    assert(frames.take(i + 1) =~= frames.take(i) + single);
    lemma_pass_add(frames.take(i), single, r);
    assert(single.drop_first() =~= Seq::<Seq<SourcePoint>>::empty());
    assert(pass_of(Seq::<Seq<SourcePoint>>::empty(), r) == Seq::<SourcePoint>::empty());
    assert(pass_of(single, r) =~= repeat_seq(frames[i], r + 1));
}

/// Each frame is emitted `r + 1` consecutive times per pass, every point in
/// order: past the pass of the frames before frame `i`, position
/// `j * |frame i| + k` of the whole pass holds point `k` of copy `j` of
/// frame `i`, for every copy `j <= r`.
pub proof fn lemma_pass_index(frames: Seq<Seq<SourcePoint>>, r: nat, i: int, j: int, k: int)
    requires
        0 <= i < frames.len(),
        0 <= j <= r,
        0 <= k < frames[i].len(),
    ensures
        pass_of(frames.take(i), r).len() + j * frames[i].len() + k < pass_of(frames, r).len(),
        pass_of(frames, r)[pass_of(frames.take(i), r).len() + j * frames[i].len() + k]
            == frames[i][k],
{
    let f = frames[i];
    let off = pass_of(frames.take(i), r).len() as int;
    let m = j * f.len() + k;
    lemma_pass_split(frames, r, i);
    let s = frames.skip(i);
    assert(s[0] == frames[i]);
    assert(pass_of(s, r) == repeat_seq(f, r + 1) + pass_of(s.drop_first(), r));
    lemma_repeat_index(f, r + 1, j as nat, k as nat);
    assert(m == (j as nat * f.len() + k as nat) as int);
    assert(repeat_seq(f, r + 1)[m] == f[k]);
    assert(pass_of(s, r)[m] == repeat_seq(f, r + 1)[m]);
    assert(pass_of(frames, r)[off + m] == pass_of(s, r)[m]);
}

/// A pass emits `(r + 1) * total_points(frames)` points.
pub proof fn lemma_pass_len(frames: Seq<Seq<SourcePoint>>, r: nat)
    ensures
        pass_of(frames, r).len() == (r + 1) * total_points(frames),
    decreases frames.len(),
{
    if frames.len() == 0 {
        assert((r + 1) * 0 == 0) by (nonlinear_arith);
    } else {
        lemma_repeat_len(frames[0], r + 1);
        lemma_pass_len(frames.drop_first(), r);
        let a = frames[0].len();
        let b = total_points(frames.drop_first());
        assert((r + 1) * a + (r + 1) * b == (r + 1) * (a + b)) by (nonlinear_arith);
    }
}

/// With repetition disabled, one pass is exactly the frames' points laid end
/// to end: every point of every frame, exactly once, frame 0 through the
/// last frame, in each frame's own order.
pub proof fn lemma_pass_no_repeat(frames: Seq<Seq<SourcePoint>>)
    ensures
        pass_of(frames, 0) == frames.flatten(),
    decreases frames.len(),
{
    if frames.len() == 0 {
        assert(frames.flatten() == Seq::<SourcePoint>::empty());
    } else {
        lemma_pass_no_repeat(frames.drop_first());
        assert(repeat_seq(frames[0], 0) == Seq::<SourcePoint>::empty());
        assert(repeat_seq(frames[0], 1) =~= frames[0]);
        assert(frames.flatten() == frames.first() + frames.drop_first().flatten());
        assert(pass_of(frames, 0) == frames[0] + pass_of(frames.drop_first(), 0));
    }
}

/// Repeating an empty frame yields nothing.
pub proof fn lemma_repeat_empty(f: Seq<SourcePoint>, n: nat)
    requires
        f.len() == 0,
    ensures
        repeat_seq(f, n) == Seq::<SourcePoint>::empty(),
{
    lemma_repeat_len(f, n);
    assert(n * 0 == 0) by (nonlinear_arith);
    assert(repeat_seq(f, n) =~= Seq::<SourcePoint>::empty());
}

/// An empty frame contributes nothing to a pass: removing it changes no
/// emitted point. Playback therefore skips empty frames rather than stalling
/// on them.
pub proof fn lemma_pass_skips_empty(frames: Seq<Seq<SourcePoint>>, r: nat, i: int)
    requires
        0 <= i < frames.len(),
        frames[i].len() == 0,
    ensures
        pass_of(frames.remove(i), r) == pass_of(frames, r),
{
    lemma_pass_split(frames, r, i);
    let s = frames.skip(i);
    assert(s[0] == frames[i]);
    assert(pass_of(s, r) == repeat_seq(frames[i], r + 1) + pass_of(s.drop_first(), r));
    lemma_repeat_empty(frames[i], r + 1);
    assert(pass_of(s, r) =~= pass_of(s.drop_first(), r));
    assert(s.drop_first() =~= frames.skip(i + 1));
    assert(frames.remove(i) =~= frames.take(i) + frames.skip(i + 1));
    lemma_pass_add(frames.take(i), frames.skip(i + 1), r);
}

/// A playable animation (some frame non-empty) has a non-empty pass.
pub proof fn lemma_pass_positive(frames: Seq<Seq<SourcePoint>>, r: nat)
    requires
        crate::anim::anim_valid(frames),
    ensures
        pass_of(frames, r).len() > 0,
{
    let i = choose|i: int| 0 <= i < frames.len() && #[trigger] frames[i].len() > 0;
    lemma_pass_index(frames, r, i, 0, 0);
}

} // verus!
