//! Core of a brute-force ray tracer: the choice of the closest hit, the
//! index-paired store of primitives and materials, the scene settings and the
//! control of the recursive light transport, all without floating point.
pub mod distance;
pub mod scene;
pub mod tracer;
