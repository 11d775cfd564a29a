//! The decision logic of a small 3-D scene viewer: which cube-map texture the
//! skybox shows and when it is swapped, how the directional light turns with
//! time, and what the unlit skybox material binds.
//!
//! Everything here works on plain values. The engine side (windows, assets,
//! entities, the GPU) calls in once per frame and carries out what comes back.

pub mod catalog;
pub mod cycler;
pub mod formats;
pub mod light;
pub mod material;
pub mod schedule;
