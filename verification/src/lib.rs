//! Verified core of a live-Earth visualizer: data-feed bookkeeping, tile and
//! container parsing, and the integer logic of its geometry builders.

pub mod source;
pub mod text;
pub mod json;
pub mod glb;
pub mod hash;
pub mod cli;
pub mod scene;
pub mod raster;
pub mod grid;
pub mod himawari;
pub mod rain;
pub mod clock;
pub mod wind;
pub mod paths;
pub mod gz;
pub mod roads;
pub mod landmask;
pub mod coast;
pub mod terrain;
pub mod city;
pub mod catalog;
