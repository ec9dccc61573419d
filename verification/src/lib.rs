//! Coordinate-range abstractions for chart axes: value-to-pixel mapping,
//! discrete (indexable) coordinates, and a decorator that restricts the
//! displayed pixel span of an axis to a sub-interval of its logical domain.

pub mod arith;
pub mod fraction;
pub mod numeric;
pub mod partial_axis;
pub mod ranged;

pub use crate::fraction::Fraction;
pub use crate::numeric::RangedCoordI64;
pub use crate::partial_axis::make_partial_axis;
pub use crate::partial_axis::IntoPartialAxis;
pub use crate::partial_axis::PartialAxis;
pub use crate::ranged::AsRangedCoord;
pub use crate::ranged::DiscreteRanged;
pub use crate::ranged::Ranged;
