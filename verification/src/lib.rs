pub mod commands;
pub mod deploy;
pub mod engine;
pub mod paths;
pub mod platform;
pub mod postprocess;
pub mod text;
pub mod transcribe;
