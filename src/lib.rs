//! A click-through crosshair overlay: pixel preparation, animation timing,
//! buffer-pool sizing, the surface state machine and the parameter cache.

pub mod pixel;
pub mod crosshair;
pub mod pool;
pub mod surface;
pub mod cache_params;
