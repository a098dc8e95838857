//! Core logic for turning a workspace crate into a distributable WebAssembly
//! package: picking the crate and build target to package, deriving the
//! package descriptor, translating compiler flags, and planning the on-disk
//! bundle. All decision logic lives here; subprocess and file-system work is
//! left to the thin driver around this library.

pub mod bundle;
pub mod codec;
pub mod compiler;
pub mod error;
pub mod generate;
pub mod manifest;
pub mod metadata;
pub mod paths;
pub mod publish;
pub mod resolve;
pub mod select;
pub mod strutil;
