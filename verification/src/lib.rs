//! Verified core of the rayslash module host: the limits and validation rules
//! that guard what a WebAssembly module may ask of the host and what it may
//! hand back to the launcher.

pub mod cache;
pub mod compiler;
pub mod decimal;
pub mod host_error;
pub mod http;
pub mod json;
pub mod origin;
pub mod protocol;
pub mod result;
pub mod runtime;
pub mod startup;
pub mod text;
