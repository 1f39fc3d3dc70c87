//! Expansion of `impl Config for ...` blocks: every option named in the
//! attribute payload gets a delegation statement that asks the companion
//! default-supplying macro for its default implementation.

pub mod expand;
pub mod options;
pub mod path;

pub use expand::use_default_config_for;
