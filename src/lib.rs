//! Density accumulation for orbits of two-dimensional polynomial maps: a grid
//! of saturating visit counters with a dense and a sparse backing, the
//! accumulator that bins orbit points and streams shaded rows, the
//! bookkeeping of the chaos search, and the vertex rule of the chaos game.
pub mod cells;
pub mod dense;
pub mod sparse;
pub mod store;
pub mod accumulator;
pub mod laws;
pub mod rule;
pub mod trial;
pub mod search;
pub mod grid;
pub mod scheme;
