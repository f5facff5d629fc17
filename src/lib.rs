//! Podcast client core: feed extraction and incremental merge, the
//! single-flight sync flag, audio cache resolution, the playback state
//! machine and the autoplay driver.

pub mod audio_cache;
pub mod autoplay;
pub mod errors;
pub mod feed;
pub mod image_cache;
pub mod migrations;
pub mod pages;
pub mod player;
pub mod sorting;
pub mod sync;
pub mod text;
pub mod types;
