//! Recovering full-colour stereo from anaglyph 3D.

use vstd::prelude::*;

pub mod blur;
pub mod choices;
pub mod cli;
pub mod compose;
pub mod decode;
pub mod encode;
pub mod extract;
pub mod frame;
pub mod grade;
pub mod leak;
pub mod locate;
pub mod media;
pub mod packed;
mod parallel;
pub mod panels;
pub mod params;
pub mod path;
pub mod pipeline;
pub mod preview;
pub mod probe;
pub mod progress;
pub mod render;
pub mod repeat;
pub mod restore;
pub mod scalar;
pub mod session;
pub mod text;
pub mod timecode;
pub mod trace;
pub mod transfer;
pub mod view;

verus! {

} // verus!
