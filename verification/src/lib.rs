//! Decision core of a keyboard-driven quick-selection menu: every candidate
//! gets one selection letter, and each keystroke narrows the candidates until
//! a single one is left and activated.

pub mod assignment;
pub mod config;
pub mod entry;
pub mod laws;
pub mod letters;
pub mod menu;
pub mod pattern;
pub mod placement;
pub mod session;
