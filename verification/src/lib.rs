//! Shape, layout and wiring rules of an AIMv2-style vision transformer.

pub mod binding;
pub mod config;
pub mod eval;
pub mod layers;
pub mod layout;
pub mod model;
pub mod naming;
pub mod params;
pub mod plan;
pub mod reads;
pub mod shape;
pub mod term;
