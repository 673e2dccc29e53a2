//! The objects of a document: their index, the classification of stream
//! payloads, and the references between objects.
pub mod collector;
pub mod graph;
pub mod object_linker;
pub mod stream_parser;
