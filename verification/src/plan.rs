//! What kind of run a file calls for.
//!
//! A file whose name ends in `.gif`, in capital or small letters, is played as
//! an animation; every other file is shown as a still picture. The two kinds
//! differ in when a picture is scaled, and only an animation can loop.

use vstd::prelude::*;
use vstd::string::*;
use crate::sizing::ScaleWhen;

verus! {

/// How a file is played.
#[derive(Clone, Copy, Debug, PartialEq, Eq, Structural)]
pub struct Plan {
    /// The file is decoded as an animation, frame by frame.
    pub animated: bool,
    /// When a frame is scaled.
    pub when: ScaleWhen,
    /// The run starts again after the last frame.
    pub looping: bool,
}

/// The name ends in `.gif`, each letter capital or small.
pub open spec fn is_gif_name(path: Seq<char>) -> bool {
    &&& path.len() >= 4
    &&& path[path.len() - 4] == '.'
    &&& (path[path.len() - 3] == 'g' || path[path.len() - 3] == 'G')
    &&& (path[path.len() - 2] == 'i' || path[path.len() - 2] == 'I')
    &&& (path[path.len() - 1] == 'f' || path[path.len() - 1] == 'F')
}

/// The plan for a file, given the loop flag of the settings. An animation is
/// scaled where it fits the canvas and loops if the flag says so; a still
/// picture is scaled where it exceeds the canvas and is shown once.
pub open spec fn plan_for(path: Seq<char>, gif_loop: bool) -> Plan {
    if is_gif_name(path) {
        Plan { animated: true, when: ScaleWhen::Contained, looping: gif_loop }
    } else {
        Plan { animated: false, when: ScaleWhen::Oversized, looping: false }
    }
}

/// Whether the name ends in `.gif`, each letter capital or small.
pub fn has_gif_name(path: &str) -> (gif: bool)
    ensures
        gif == is_gif_name(path@),
{
    let n: usize = path.unicode_len();
    if n < 4 {
        return false;
    }
    let dot = path.get_char(n - 4);
    let g = path.get_char(n - 3);
    let i = path.get_char(n - 2);
    let f = path.get_char(n - 1);
    dot == '.' && (g == 'g' || g == 'G') && (i == 'i' || i == 'I') && (f == 'f' || f == 'F')
}

/// The plan for a file, given the loop flag of the settings.
pub fn playback_plan(path: &str, gif_loop: bool) -> (plan: Plan)
    ensures
        plan == plan_for(path@, gif_loop),
{
    if has_gif_name(path) {
        Plan { animated: true, when: ScaleWhen::Contained, looping: gif_loop }
    } else {
        Plan { animated: false, when: ScaleWhen::Oversized, looping: false }
    }
}

} // verus!
