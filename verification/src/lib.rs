//! memebox: an input method engine that types emoji, text in randomized
//! case, and words drawn as the wire frame of a cube.
//!
//! - `cube`: the cube picture of a word;
//! - `casing`: swapping the case of characters, at random places;
//! - `engine`: what the engine does on each event of the input method
//!   framework;
//! - `text`: std's character and string operations that it relies on.
use vstd::prelude::*;

pub mod casing;
pub mod cube;
pub mod engine;
pub mod text;
