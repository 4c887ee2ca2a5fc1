//! Mixer state as the control thread keeps it.

pub mod master;
pub mod track;
