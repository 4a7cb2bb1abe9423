//! Deterministic climate generation for a toroidal world map.
//!
//! Every quantity is held in fixed point (see `fixed`). The caller samples
//! the noise fields at each cell's place on the torus and hands the samples
//! in; the library turns them into elevation, temperature and moisture, runs
//! the moisture advection pass and classifies each cell into a biome.
pub mod biome;
pub mod climate;
pub mod elevation;
pub mod fixed;
pub mod menu;
pub mod seeds;
pub mod torus;
pub mod world;
