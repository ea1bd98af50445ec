//! A recursive ray tracer over fixed-point arithmetic.
//!
//! A scene of spheres and triangles, lit by point lights, is seen by a
//! camera; the renderer computes the color of each pixel from direct
//! lighting with shadows, mirror reflection and transparency, up to a given
//! number of bounces, optionally with several rays for each pixel and
//! optionally for two eyes at once.
//!
//! All numbers are saturating fixed-point scalars (module [`fixed`]); sums
//! of many terms and the products of the intersection tests are kept exact
//! in wide integers (module [`wide`]) and rounded once. So
//! every function is total and every result is an exact function of the
//! inputs. What a function computes is stated by a spec function of the
//! same module, and the general properties of the renderer are proved in
//! [`raytracer::laws`].
//!
//! Conventions:
//! - Vectors form a right-handed system: the `right` vector of a camera is
//!   the cross product of its direction of view with its `up` vector.
//! - The ray of a camera has the point of the image plane as its direction,
//!   as it is. Where the renderer traces that ray it normalises the
//!   direction first, so the distance of a hit is a length; the rays that
//!   leave a surface keep unit length up to rounding.
//! - An intersection test takes a direction of any length.
//! - A primitive is known by its index in the scene; a ray that leaves a
//!   surface passes over the primitive with that index.
//! - Reflection and transparency draw on one budget of bounces.
//! - The largest scalar stands for infinity: a sphere of that radius is the
//!   background, and a hit at that distance is a hit on the background.

pub mod fixed;
pub mod image;
pub mod matrix;
pub mod raytracer;
pub mod wide;
