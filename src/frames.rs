//! The camera angles of a run's frames, and the arguments of the encoder that
//! turns the frames into one animation.

use vstd::prelude::*;
use crate::names::{frame_name, frame_file_name};

verus! {

/// Width and height of a rendered frame, in pixels.
pub const FRAME_SIZE: u32 = 512;

/// Tilt of the camera above the horizon, in degrees, the same for each frame.
pub const FRAME_TILT_DEGREES: u32 = 35;

/// Grey level of the background of each frame.
pub const FRAME_BACKGROUND: u8 = 0xEE;

/// An angle about the vertical axis, in degrees: `numerator / denominator`.
#[derive(Clone, Copy, Debug, PartialEq, Eq, Structural)]
pub struct FrameAngle {
    pub numerator: u64,
    pub denominator: u32,
}

/// Frame `index` of `count` is seen from `index * 360 / count` degrees: the
/// frames split one full turn into equal steps.
pub open spec fn is_frame_angle(a: FrameAngle, index: nat, count: nat) -> bool {
    a.numerator == index * 360 && a.denominator == count
}

/// The angle of frame `index` out of `frame_count`.
pub fn frame_angle(index: u32, frame_count: u32) -> (r: FrameAngle)
    requires
        index < frame_count,
    ensures
        is_frame_angle(r, index as nat, frame_count as nat),
{
    FrameAngle { numerator: (index as u64) * 360, denominator: frame_count }
}

/// The frames of a run go round once, in order: each angle lies in
/// `[0, 360)` degrees, and a later frame has a larger angle.
pub proof fn lemma_frame_angles_ordered(a: FrameAngle, b: FrameAngle, i: nat, j: nat, count: nat)
    requires
        i < j < count,
        is_frame_angle(a, i, count),
        is_frame_angle(b, j, count),
    ensures
        a.denominator == b.denominator,
        a.numerator < b.numerator,
        b.numerator < 360 * b.denominator,
        a.numerator == 0 <==> i == 0,
{
}

/// The names of the first `n` frame files, in index order.
pub open spec fn frame_names(n: nat) -> Seq<Seq<char>> {
    Seq::new(n, |i: int| frame_name(i as nat))
}

/// The encoder's arguments: `-o <output> --fps <rate>` and the frame files
/// in index order.
pub open spec fn encoder_args_of(output: Seq<char>, fps: Seq<char>, n: nat) -> Seq<Seq<char>> {
    seq![seq!['-', 'o'], output, seq!['-', '-', 'f', 'p', 's'], fps] + frame_names(n)
}

/// The arguments that make the encoder write the frames `0..frame_count` of
/// the workspace, in order, into `output` at `fps` frames per second.
pub fn encoder_args(output: &str, fps: &str, frame_count: u32) -> (r: Vec<String>)
    ensures
        r.deep_view() == encoder_args_of(output@, fps@, frame_count as nat),
{
    let mut r: Vec<String> = Vec::new();
    r.push(String::from_str("-o"));
    r.push(String::from_str(output));
    r.push(String::from_str("--fps"));
    r.push(String::from_str(fps));
    proof {
        reveal_strlit("-o");
        reveal_strlit("--fps");
    }
    let ghost head = seq![seq!['-', 'o'], output@, seq!['-', '-', 'f', 'p', 's'], fps@];
    assert(r.deep_view() =~~= head);
    let mut i: u32 = 0;
    while i < frame_count
        invariant
            i <= frame_count,
            r.deep_view() =~= head + frame_names(i as nat),
        decreases frame_count - i,
    {
        let name = frame_file_name(i);
        let ghost before = r.deep_view();
        r.push(name);
        assert(r.deep_view() =~= before.push(frame_name(i as nat)));
        assert(frame_names((i + 1) as nat) =~= frame_names(i as nat).push(frame_name(i as nat)));
        assert(r.deep_view() =~= head + frame_names((i + 1) as nat));
        i = i + 1;
    }
    r
}

} // verus!
