//! Backends that turn a module into shader source.

pub mod glsl_common;
pub mod ir;
