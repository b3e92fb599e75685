//! An interpreter for the CHIP-8 virtual machine, with what a front end
//! needs around it.
//!
//! `machine` holds the model: the machine's state and the effect of every
//! instruction, as mathematics. `processor` holds the interpreter, whose
//! every function is proved to do what the model says; `laws` states and
//! proves properties of the model. `instruction` is the instruction set and
//! its decoder, `font` the built-in glyphs, `display` the pixel grid and its
//! colours. `host` names what is taken from outside without proof: the
//! random source and the clock.
//!
//! Three choices that the instruction set leaves open are made as follows.
//! A sprite that reaches past an edge of the display wraps around to the
//! opposite edge, in both directions. A reset keeps memory, and with it the
//! loaded program, and starts everything else afresh. A malformed program
//! does not bring the machine down: the step that cannot be carried out
//! reports why and leaves the machine as it was.
//!
//! `config` holds the settings and their text formats, `io` the state of the
//! window and its menu, `text` the text handling that both share.

pub mod config;
pub mod display;
pub mod font;
pub mod host;
pub mod instruction;
pub mod io;
pub mod laws;
pub mod machine;
pub mod processor;
mod sprite;
pub mod text;
