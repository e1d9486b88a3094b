//! Scene files in the glTF format: what such a file describes, how its
//! binary container is framed, and how the objects of a scene are reached
//! from one another.

pub mod accessor;
pub mod element;
pub mod glb;
pub mod info;
pub mod scene;
pub mod valid;
