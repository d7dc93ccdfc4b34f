//! Verified core of a space-weather telemetry service: normalization of
//! loosely-typed upstream records into typed time-series rows, an append-only
//! time-ordered store, and a window query engine that reshapes rows into the
//! column-oriented form that chart renderers consume.

pub mod clock;
pub mod fields;
pub mod normalize;
pub mod numeric;
pub mod poll;
pub mod row;
pub mod store;
pub mod timestamp;
pub mod window;
