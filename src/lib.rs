//! Turns two analog sticks and a few buttons of a game controller into
//! keystrokes, in the manner of a radial on-screen keyboard.
//!
//! Stick components are fixed-point integers: `UNIT` stands for 1.0.
use vstd::prelude::*;

pub mod vector;
pub mod sector;
pub mod table;
pub mod chord;
