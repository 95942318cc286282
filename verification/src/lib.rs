//! The core of a Wayland screen-zoom tool: everything it decides and computes
//! between the compositor, the graphics library and the user.
//!
//! `outputs` keeps what the compositor announces, `screencopy` and `frame`
//! lead a capture from the request to its pixels, and `pixels` turns those
//! into an upright RGBA image, which `texture` checks. `selection` picks the
//! output, `cli` reads the command line, and `interaction` decides what the
//! mouse and the keyboard do. `wire` holds the codes of the Wayland protocols.

pub mod cli;
pub mod frame;
pub mod interaction;
pub mod outputs;
pub mod pixels;
pub mod screencopy;
pub mod selection;
pub mod text;
pub mod texture;
pub mod wire;
