//! A small real-time 3D renderer core: fixed-point vector and matrix algebra,
//! Perlin noise, a free-look camera and the composition of a voxel world into
//! per-cube model-view-projection matrices.
pub mod fixed;
pub mod vec;
pub mod mat;
pub mod perlin_noise;
pub mod input;
pub mod config;
pub mod camera;
pub mod world;
pub mod texture_loader;
pub mod font;
pub mod perf_metrics;
pub mod text;
