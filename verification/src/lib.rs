//! Core of a voxel-heightmap terrain renderer.
//!
//! One ray is cast per screen column. Along the ray the terrain is sampled at
//! distances that grow coarser with each level of detail, every sample is
//! projected to a screen row, and the rows between the sample and the skyline
//! drawn so far are painted with the terrain colour and a fog alpha. All
//! world-space quantities are fixed-point integers, so every result is exact
//! and the same on every machine.
//!
//! - `units`: the fixed-point units.
//! - `arith`: floor division and wrap-around.
//! - `error`: the errors.
//! - `terrain_map`: height and colour maps with toroidal lookup.
//! - `camera`: the eye, the heading and the ray of each column.
//! - `config`: the parameters of the march.
//! - `march`: the distances a column samples.
//! - `fog`: the alpha of a sample.
//! - `skyline`: which rows a sequence of samples paints.
//! - `column`: casting one column.
//! - `frame`: rendering every column, one by one or in parallel.

pub mod arith;
pub mod camera;
pub mod column;
pub mod config;
pub mod error;
pub mod fog;
pub mod frame;
pub mod march;
pub mod skyline;
pub mod terrain_map;
pub mod units;
