//! Spectra: shader module dependency resolution, the folding of pipeline modules into shaders, and scene registries.

pub mod cube;
pub mod duplicate;
pub mod fold;
pub mod glsl_types;
pub mod graph;
pub mod module;
pub mod pipeline;
pub mod printable;
pub mod scene;
pub mod stage;
pub mod syntax;
pub mod text;
pub mod writer;
