//! The retrieval pipeline: loaders that read documents, chunkers that
//! split them, and the core types they share.

pub mod base;
pub mod chunkers;
pub mod loaders;
