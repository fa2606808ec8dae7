//! Shader IR validation and GLSL text generation.
use vstd::prelude::*;

pub mod arena;
pub mod back;
pub mod decimal;
pub mod front;
pub mod ir;
pub mod proc;
pub mod valid;

verus! {

} // verus!
