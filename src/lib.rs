//! Parsing, assembly and storage layout of bandwidth measurements taken by an
//! external measurement tool that prints one JSON record per line.
pub mod aggregate;
pub mod decode;
pub mod json;
pub mod runner;
pub mod store;
pub mod types;
