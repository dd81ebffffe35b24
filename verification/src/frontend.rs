//! The web pages that people use.
pub mod template_structs;
pub mod client;
