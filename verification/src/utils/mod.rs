//! Small building blocks shared by the rest of the crate.

pub mod error;
pub mod text;
pub mod single_instance;
