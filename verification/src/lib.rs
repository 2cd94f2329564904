//! Verified core of the EasyEDA to Altium component converter.

pub mod api;
pub mod cad;
pub mod cli;
pub mod convert;
pub mod error;
pub mod json;
pub mod meta;
pub mod shape;
pub mod strip;
pub mod svg;
pub mod text;
pub mod types;

pub use error::Error;
