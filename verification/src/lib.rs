//! Spray sizing for GoldSrc games, built on a small generic two-component vector.
//!
//! [`GameData`] holds what a game allows for sprays: sides in multiples of a number, a largest
//! area, and the aspect ratios to choose from; [`GameData::fit_size`] finds, for an image, the
//! allowed size nearest to it and the spray sizes of that ratio.

pub mod vector2;
pub mod vector_ops;
pub mod gcd;
pub mod difference;
pub mod calculator;
pub mod dialogue;
pub mod picture;

pub use vector2::{Vector2, VectorFrom, VectorTryFrom};
pub use gcd::gcd;
pub use difference::{SetDifference, SymmetricDifference};
pub use calculator::{
    GameData, RatioFittingResult, GOLDSRC_MULTIPLE, HALF_LIFE_RELATIVE_SIZE, SVEN_COOP_RELATIVE_SIZE,
};
