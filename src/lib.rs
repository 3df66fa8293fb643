//! Distance functions over points with coordinates, and the capability
//! traits that classify them.

pub mod coords;
pub mod distance;
pub mod lp;
