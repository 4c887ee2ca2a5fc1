//! The engine: render planning, device lifecycle and control decisions.

pub mod render;
pub mod chain;
pub mod clip;
pub mod callback;
pub mod control_laws;
pub mod command;
pub mod device;
pub mod input;
pub mod inner;
pub mod stream;
pub mod live;
pub mod take;
pub mod media;
pub mod input_laws;
pub mod plan_laws;
pub mod project;
pub mod report;
pub mod report_laws;
pub mod sample;
pub mod state;
pub mod schedule;
