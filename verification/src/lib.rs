//! Height-map synthesis from coherent noise.

pub mod height_map;
pub mod lifecycle;
pub mod perlin;
pub mod sample;
pub mod sampler;
