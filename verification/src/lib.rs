//! Verified logic of a small wireframe 3D viewer: the mesh model and its
//! well-formedness, the wireframe drawing order, the conversion of flat OBJ
//! buffers into vertices and triangles, and the keyboard camera controls.

pub mod controls;
pub mod mesh;
pub mod wireframe;
