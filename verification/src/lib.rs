use vstd::prelude::*;

pub mod kernel;
pub mod text;
pub mod codec;
pub mod capability;
pub mod error;
