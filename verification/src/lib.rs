//! Asset access through a virtual, root-relative path namespace, with a
//! record of the files that every load depended on.
//!
//! An [`AssetPath`] names an asset below a root directory. Registering a
//! path with a [`Tracker`] makes the tracker invalid as soon as the file
//! behind the path changes, so that whatever was derived from the file can
//! be derived again.

pub mod asset;
pub mod cache;
pub mod gltf;
pub mod path;
pub mod path_laws;
pub mod root;
pub mod token;
pub mod tracker;

pub use asset::{tag_error, with_asset, AssetLoadError, AssetLoadResult, AssetPath};
pub use root::{AssetRoot, AssetRootWatcher};
pub use tracker::Tracker;
