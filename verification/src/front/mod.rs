//! Front ends that read shader source.

pub mod glsl_error;
