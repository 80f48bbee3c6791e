//! Verified core of a runtime binary-patching toolkit: signature patterns and
//! scanning over a module image, hook lifecycle management, foreign-ABI data
//! views (packets, save slots, wide strings), recording transfer codecs, and
//! the colour-configuration rules.
//!
//! Everything that touches the live target process (OS loader queries, the
//! inline-hook backend, the clipboard, the file system) stays outside this
//! crate; the functions here work on plain values handed in from that edge.

pub mod color;
pub mod config;
pub mod cxxstd;
pub mod hook;
pub mod memory;
pub mod pattern;
pub mod recordings;
pub mod red;
pub mod save;
pub mod strutil;
pub mod ue4ss;
pub mod wide;
