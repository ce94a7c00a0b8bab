//! Conversion engine for electronic component libraries: translates source-CAD
//! geometry (symbols, footprints, 3D model references) into target-CAD library
//! records, with coordinate normalization, arc reconstruction, a mini path
//! language, library-file merging and batch-run accounting.
//!
//! All coordinates, lengths and angles are carried as signed 64-bit integers in
//! micro-units: one unit of the source format equals 1_000_000. This keeps every
//! transform exact and lets each step carry a full functional contract.

pub mod batch;
pub mod builder;
pub mod cli;
pub mod error;
pub mod footprint_builder;
pub mod fmt;
pub mod kicad;
pub mod library;
pub mod naming;
pub mod num;
pub mod geom;
pub mod parse;
pub mod serialize;
pub mod serialize_footprint;
pub mod path;
pub mod pipeline;
pub mod transform;
pub mod trig;
