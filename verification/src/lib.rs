//! Media library scanner and artwork asset manager.
//!
//! The crate walks a movie or TV directory tree, classifies files by their
//! byte content rather than their extension, plans duration probing for files
//! the caller does not already know, records progress events on an explicit
//! event bus, and manages a directory of artwork images: copying, downloading,
//! deleting to trash, and sweeping out images no longer referenced.

pub mod artwork;
pub mod events;
pub mod fswalk;
pub mod laws;
pub mod scan;
pub mod mime;
pub mod paths;
pub mod probe;
pub mod scan_core;
pub mod sniff;
pub mod text;
pub mod trashbin;
pub mod webimg;
