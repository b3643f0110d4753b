//! Resolution of the inputs of a unified kernel image: which file backs each
//! section of the image for a given kernel and flavor, and what has to be
//! synthesized first.

pub mod app;
pub mod config;
pub mod error;
pub mod format;
pub mod initrd;
pub mod logger;
pub mod os_release;
pub mod path;
pub mod plan;
pub mod probe;
pub mod resolve;
pub mod select;
pub mod source;
pub mod temp;
pub mod text;
pub mod validate;
