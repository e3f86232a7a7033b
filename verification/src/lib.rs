//! A Whitted-style ray tracer over fixed-point arithmetic.
//!
//! Every scalar is an `i64` holding a real number scaled by `fp::ONE`
//! (so `ONE` itself denotes 1.0). All geometry — sphere and triangle
//! intersection, barycentric interpolation, affine transforms with the
//! inverse-transpose rule for normals, nearest-hit aggregation and the
//! recursive shading integrator — is computed exactly in this
//! representation, and each function's contract pins the result down to
//! the exact integer it returns. Loading mesh files and writing image
//! files are left to unverified callers, which hand the library plain
//! arrays and receive plain colors back.

pub mod fp;
pub mod image;
pub mod material;
pub mod mesh;
pub mod object;
pub mod scene;
pub mod shade;
pub mod shape;
pub mod types;
pub mod util;
pub mod vec3;

pub use fp::ONE;
