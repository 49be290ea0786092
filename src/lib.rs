//! Scene authoring core of a small 3D editor: world objects, their script
//! files, instanced render groups, object placement and the scene files.

pub mod text;
pub mod geometry;
pub mod world_object;
pub mod logs;
pub mod options;
pub mod codec;
pub mod registry;
pub mod input;
pub mod session;
pub mod screens;
pub mod light;
pub mod bridge;
