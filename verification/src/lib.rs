//! Thumbnail generation for a desktop shell: which generator takes a file,
//! what the caller is shown while or instead of a thumbnail, and under which
//! name a finished thumbnail is kept.
//!
//! - [`plugins`]: the generators and the registry that picks one for a file.
//! - [`supervisor`]: the course of a request, and what the caller gets.
//! - [`executor`]: waiting for a worker under a time limit.
//! - [`runner`]: running an outside converter under a memory ceiling.
//! - [`cache`]: the name of a thumbnail in the cache.
//! - [`providers`]: the two handlers that the shell talks to.
//! - [`renderer`]: what the 3D renderer decides before it loads a model.
//! - [`bitmap`], [`archive`], [`strutil`], [`model`]: images, ZIP archives,
//!   text and the values that pass between the parts.

use vstd::prelude::*;

pub mod archive;
pub mod bitmap;
pub mod cache;
pub mod executor;
pub mod model;
pub mod plugins;
pub mod providers;
pub mod renderer;
pub mod runner;
pub mod strutil;
pub mod supervisor;

verus! {

/// The graphics API that the 3D renderer drives.
#[derive(Debug, Clone, Copy, PartialEq, Eq, Structural)]
pub enum RendererBackend {
    Default,
    OpenGL,
    Vulkan,
    Metal,
}

} // verus!
