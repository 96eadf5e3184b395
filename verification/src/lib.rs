//! Bauhaus-style SVG pattern generation: palettes, configuration rules,
//! theme metadata and SVG text handling, with their contracts.

pub mod color;
pub mod config;
pub mod error;
pub mod method;
pub mod output;
pub mod palette_data;
pub mod palettes;
pub mod random;
pub mod svg;
pub mod text;
pub mod theme;
