//! Structural analysis of PDF documents: an ordered object index, stream
//! payload classification, a bidirectional reference graph, structural
//! heuristics and a byte-level recovery scan.
pub mod context;
pub mod heuristics;
pub mod input_file;
pub mod lifecycle;
pub mod objects;
pub mod pages;
pub mod primitive;
pub mod recovery_mode;
pub mod text;
pub mod views;
