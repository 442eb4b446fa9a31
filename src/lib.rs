//! Extraction of per-game metadata, per-ply board positions and per-ply
//! annotations from a stream of PGN traversal events.
pub mod annotation;
pub mod extractor;
pub mod fields;
pub mod laws;
pub mod records;
pub mod replay;
