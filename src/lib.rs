//! Deterministic robot avatars: a string is hashed into eight selectors,
//! the selectors pick five sprites out of an atlas, and the sprites are
//! alpha-blended onto a 300 by 300 canvas that is encoded as PNG.

pub mod avatar;
pub mod blend;
pub mod compositor;
pub mod fingerprint;
pub mod layers;
pub mod raster;
pub mod routing;
