//! A geodetic coordinate transformation engine: operator descriptions in a
//! terse shorthand or a block syntax are compiled into executable operator
//! plans, composed into pipelines, and applied to sets of coordinates.
//!
//! Angular components are radians inside the engine; degrees appear only at
//! the boundary. A coordinate component is carried as the bit pattern of an
//! IEEE 754 double, so that the plumbing between operators is exact and the
//! numerical kernels can live with the caller.

use vstd::prelude::*;

mod block;
mod coord;
mod error;
mod factory;
mod gravsoft;
mod grid;
pub mod gridshift;
mod gys;
mod merc;
mod ntv2;
mod operator;
mod params;
mod pipeline;
mod text;
mod tmerc;

pub use coord::Coor2D;
pub use coord::Coor3D;
pub use coord::Coor4D;
pub use coord::CoordinateSet;
pub use coord::DataEpoch;
pub use coord::MdIdentifier;
pub use coord::NAN_BITS;
pub use coord::ZERO_BITS;
pub use error::GeodesyError;
pub use factory::expand_gys;
pub use gravsoft::gravsoft_tokens;
pub use gravsoft::infer_bands;
pub use grid::decide;
pub use grid::success_count;
pub use grid::decide_inverse;
pub use grid::Grid;
pub use grid::GridAction;
pub use ntv2::Endianness;
pub use ntv2::NTv2Parser;
pub use factory::operator_factory;
pub use gys::GysArgs;
pub use gys::GysResource;
pub use merc::Merc;
pub use operator::builtins;
pub use operator::Context;
pub use operator::OpKind;
pub use operator::Operator;
pub use operator::OperatorCore;
pub use params::OpParameter;
pub use pipeline::fold_successes;
pub use pipeline::Directive;
pub use pipeline::Pipeline;
pub use tmerc::Tmerc;

verus! {

/// Indicate that a two-way operator, function, or method, should run in the
/// *forward* direction.
pub const FWD: bool = true;

/// Indicate that a two-way operator, function, or method, should run in the
/// *inverse* direction.
pub const INV: bool = false;

} // verus!
