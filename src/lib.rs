//! Emission and post-processing pipeline for compiling WGSL shaders to SPIR-V
//! binaries or per-entry-point HLSL: capability selection, HLSL register
//! assignment, artifact naming, optimizer fallback and HLSL annotation.
pub mod bindings;
pub mod capabilities;
pub mod metadata;
pub mod module;
pub mod pipeline;
pub mod shader_model;
pub mod text;
