//! A ray tracer over fixed-point arithmetic.
//!
//! A scene of spheres and floors, lit by point lights, is seen through a
//! camera; each pixel's colour comes from the nearest hit of a ray cast
//! through the camera's near plane, shaded with ambient, diffuse and
//! specular light, hard shadows and a bounded number of reflections.

pub mod canvas;
pub mod fixed;
pub mod geom;
pub mod random;
pub mod scene;
pub mod shape;
