//! Media-file organisation: directory listings, collision-free moves,
//! a content-addressed thumbnail cache and a debounced change watcher.
pub mod naming;
pub mod media;
pub mod paths;
pub mod scan;
pub mod thumbs;
pub mod retention;
pub mod watcher;
pub mod settings;
