//! Fade schedules: the brightness factor of every frame of a fade.

use vstd::prelude::*;
use crate::factor::{Factor, Ratio};

verus! {

/// The shape of the brightness curve over the frames of a fade.
#[derive(Clone, Copy, Debug, PartialEq, Eq, Structural)]
pub enum FadeStyle {
    /// From full brightness down to black.
    ToDark,
    /// From black up to full brightness.
    FromDark,
    /// Down to black in the first half of the frames, back up in the rest.
    ToDarkAndBack,
    /// Up from black in the first half of the frames, back down in the rest.
    FromDarkAndBack,
}

/// The factor at position `i` of a linear descent over `len` frames, from one
/// at the first frame to zero at the last: one minus `i / (len - 1)`. A
/// descent of a single frame stays at one, where it starts.
pub open spec fn falling(len: int, i: int) -> Ratio {
    if len <= 1 {
        Ratio { num: 1, den: 1 }
    } else {
        Ratio { num: len - 1 - i, den: len - 1 }
    }
}

/// The factor at position `i` of a linear ascent over `len` frames, from zero
/// at the first frame to one at the last: `i / (len - 1)`. An ascent of a
/// single frame stays at zero, where it starts.
pub open spec fn rising(len: int, i: int) -> Ratio {
    if len <= 1 {
        Ratio { num: 0, den: 1 }
    } else {
        Ratio { num: i, den: len - 1 }
    }
}

/// A linear descent over `len` frames.
pub open spec fn falling_segment(len: nat) -> Seq<Ratio> {
    Seq::new(len, |i: int| falling(len as int, i))
}

/// A linear ascent over `len` frames.
pub open spec fn rising_segment(len: nat) -> Seq<Ratio> {
    Seq::new(len, |i: int| rising(len as int, i))
}

/// The brightness factors of a fade of `frame_count` frames, in frame order.
///
/// A fade of a single frame shows the image at full brightness, whatever the
/// style. The two round trips spend the first `frame_count / 2` frames
/// (rounded down) on the way there and the remaining frames on the way back.
pub open spec fn schedule(frame_count: nat, style: FadeStyle) -> Seq<Ratio> {
    let half = frame_count / 2;
    let rest = (frame_count - half) as nat;
    if frame_count == 1 {
        seq![Ratio { num: 1, den: 1 }]
    } else {
        match style {
            FadeStyle::ToDark => falling_segment(frame_count),
            FadeStyle::FromDark => rising_segment(frame_count),
            FadeStyle::ToDarkAndBack => falling_segment(half) + rising_segment(rest),
            FadeStyle::FromDarkAndBack => rising_segment(half) + falling_segment(rest),
        }
    }
}

/// The mathematical values of a sequence of factors.
pub open spec fn values(factors: Seq<Factor>) -> Seq<Ratio> {
    factors.map_values(|f: Factor| f@)
}

/// Appends a linear descent over `len` frames.
fn append_falling(out: &mut Vec<Factor>, len: usize)
    ensures
        values(final(out)@) == values(old(out)@) + falling_segment(len as nat),
{
    let ghost before = values(out@);
    if len == 1 {
        out.push(Factor::one());
        return;
    }
    let mut i: usize = 0;
    while i < len
        invariant
            len != 1,
            i <= len,
            values(out@) == before + falling_segment(len as nat).subrange(0, i as int),
        decreases len - i,
    {
        let last: usize = len - 1;
        let factor: Factor = Factor::fraction((last - i) as u64, last as u64);
        let ghost whole = falling_segment(len as nat);
        out.push(factor);
        proof {
            assert(whole.subrange(0, i + 1) =~= whole.subrange(0, i as int).push(factor@));
            assert((before + whole.subrange(0, i as int)).push(factor@) =~= before
                + whole.subrange(0, i as int).push(factor@));
        }
        i = i + 1;
    }
}

/// Appends a linear ascent over `len` frames.
fn append_rising(out: &mut Vec<Factor>, len: usize)
    ensures
        values(final(out)@) == values(old(out)@) + rising_segment(len as nat),
{
    let ghost before = values(out@);
    if len == 1 {
        out.push(Factor::zero());
        return;
    }
    let mut i: usize = 0;
    while i < len
        invariant
            len != 1,
            i <= len,
            values(out@) == before + rising_segment(len as nat).subrange(0, i as int),
        decreases len - i,
    {
        let last: usize = len - 1;
        let factor: Factor = Factor::fraction(i as u64, last as u64);
        let ghost whole = rising_segment(len as nat);
        out.push(factor);
        proof {
            assert(whole.subrange(0, i + 1) =~= whole.subrange(0, i as int).push(factor@));
            assert((before + whole.subrange(0, i as int)).push(factor@) =~= before
                + whole.subrange(0, i as int).push(factor@));
        }
        i = i + 1;
    }
}

/// Computes the brightness factor of every frame of a fade, in frame order.
pub fn fade_schedule(frame_count: usize, style: FadeStyle) -> (factors: Vec<Factor>)
    requires
        frame_count >= 1,
    ensures
        factors@.len() == frame_count,
        values(factors@) == schedule(frame_count as nat, style),
        forall|i: int|
            0 <= i < frame_count ==> (#[trigger] factors@[i])@ == schedule(
                frame_count as nat,
                style,
            )[i],
        forall|i: int| 0 <= i < frame_count ==> (#[trigger] factors@[i])@.in_unit_interval(),
        frame_count == 1 ==> factors@[0]@ == (Ratio { num: 1, den: 1 }),
        style == FadeStyle::ToDark && frame_count >= 2 ==> {
            &&& factors@[0]@.is_one()
            &&& factors@[frame_count - 1]@.is_zero()
            &&& forall|i: int, j: int|
                0 <= i <= j < frame_count ==> (#[trigger] factors@[j])@.at_most(
                    (#[trigger] factors@[i])@,
                )
        },
{
    let mut factors: Vec<Factor> = Vec::new();
    if frame_count == 1 {
        factors.push(Factor::one());
        assert(values(factors@) =~= seq![Ratio { num: 1, den: 1 }]);
        return factors;
    }
    let half: usize = frame_count / 2;
    match style {
        FadeStyle::ToDark => {
            append_falling(&mut factors, frame_count);
        },
        FadeStyle::FromDark => {
            append_rising(&mut factors, frame_count);
        },
        FadeStyle::ToDarkAndBack => {
            append_falling(&mut factors, half);
            append_rising(&mut factors, frame_count - half);
        },
        FadeStyle::FromDarkAndBack => {
            append_rising(&mut factors, half);
            append_falling(&mut factors, frame_count - half);
        },
    }
    assert(values(factors@) =~= schedule(frame_count as nat, style));
    assert forall|i: int| 0 <= i < frame_count implies (#[trigger] factors@[i])@ == schedule(
        frame_count as nat,
        style,
    )[i] by {
        assert(values(factors@)[i] == factors@[i]@);
    }
    proof {
        lemma_schedule_shape(frame_count as nat, style);
        if style == FadeStyle::ToDark {
            lemma_to_dark_descends(frame_count as nat);
        }
    }
    factors
}

/// A schedule has one factor per frame, and each lies between zero and one.
pub proof fn lemma_schedule_shape(frame_count: nat, style: FadeStyle)
    requires
        frame_count >= 1,
    ensures
        schedule(frame_count, style).len() == frame_count,
        forall|i: int|
            0 <= i < frame_count ==> (#[trigger] schedule(frame_count, style)[i]).in_unit_interval(),
{
}

/// A fade to dark of two frames or more starts at full brightness, ends in
/// black, and never gets brighter from one frame to a later one.
pub proof fn lemma_to_dark_descends(frame_count: nat)
    requires
        frame_count >= 2,
    ensures
        schedule(frame_count, FadeStyle::ToDark)[0].is_one(),
        schedule(frame_count, FadeStyle::ToDark)[frame_count - 1].is_zero(),
        forall|i: int, j: int|
            0 <= i <= j < frame_count ==> (#[trigger] schedule(frame_count, FadeStyle::ToDark)[j]).at_most(
                #[trigger] schedule(frame_count, FadeStyle::ToDark)[i],
            ),
{
    let s = schedule(frame_count, FadeStyle::ToDark);
    let last = frame_count - 1;
    assert forall|i: int, j: int| 0 <= i <= j < frame_count implies (#[trigger] s[j]).at_most(
        #[trigger] s[i],
    ) by {
        assert((last - j) * last <= (last - i) * last) by (nonlinear_arith)
            requires
                0 <= i <= j <= last,
        ;
    }
}

/// A fade from dark is the fade to dark of the same length read backwards.
pub proof fn lemma_from_dark_reverses_to_dark(frame_count: nat)
    requires
        frame_count >= 1,
    ensures
        schedule(frame_count, FadeStyle::FromDark).len() == schedule(
            frame_count,
            FadeStyle::ToDark,
        ).len(),
        forall|i: int|
            0 <= i < frame_count ==> #[trigger] schedule(frame_count, FadeStyle::FromDark)[i]
                == schedule(frame_count, FadeStyle::ToDark)[frame_count - 1 - i],
{
}

/// In round trips of two frames or more, the two styles are opposite at every
/// frame: the factors of the same frame add up to one.
pub proof fn lemma_round_trips_are_complements(frame_count: nat)
    requires
        frame_count >= 2,
    ensures
        forall|i: int|
            0 <= i < frame_count ==> #[trigger] schedule(frame_count, FadeStyle::FromDarkAndBack)[i]
                == schedule(frame_count, FadeStyle::ToDarkAndBack)[i].complement(),
{
}

/// In round trips of four frames or more, each leg of one style is the same
/// leg of the other style read backwards: the first `frame_count / 2` frames
/// among themselves, and the remaining frames among themselves.
pub proof fn lemma_round_trip_legs_reverse(frame_count: nat)
    requires
        frame_count >= 4,
    ensures
        forall|i: int|
            0 <= i < frame_count / 2 ==> #[trigger] schedule(
                frame_count,
                FadeStyle::FromDarkAndBack,
            )[i] == schedule(frame_count, FadeStyle::ToDarkAndBack)[frame_count / 2 - 1 - i],
        forall|i: int|
            frame_count / 2 <= i < frame_count ==> #[trigger] schedule(
                frame_count,
                FadeStyle::FromDarkAndBack,
            )[i] == schedule(frame_count, FadeStyle::ToDarkAndBack)[frame_count / 2 + (frame_count
                - 1 - i)],
{
}

/// A round trip of one or two frames is the round trip of the other style read
/// backwards. Longer round trips are not: each ends at the brightness at which
/// it starts, which is where the other style does not start.
pub proof fn lemma_short_round_trips_reverse(frame_count: nat)
    requires
        1 <= frame_count <= 2,
    ensures
        forall|i: int|
            0 <= i < frame_count ==> #[trigger] schedule(frame_count, FadeStyle::FromDarkAndBack)[i]
                == schedule(frame_count, FadeStyle::ToDarkAndBack)[frame_count - 1 - i],
{
}

} // verus!
