//! Core of a non-linear video editor's realtime preview engine.
//!
//! The crate models the components that make interactive preview feel
//! instantaneous: the timeline graph and its resolver, the playback clock,
//! the per-source decode worker state machine with command debouncing, the
//! small LRU frame cache, the triple-buffered GPU plane ring with row-padded
//! staging uploads, the BT.709 limited-range YUV to RGB conversion, and the
//! audio mixing contract. All media times are integer microseconds and all
//! rates are integer thousandths, so every rule is stated and proved over
//! plain integer arithmetic.

pub mod assets;
pub mod audio;
pub mod cache;
pub mod clock;
pub mod convert;
pub mod export;
pub mod interaction;
pub mod jobs;
pub mod media;
pub mod ring;
pub mod sequence;
pub mod time;
pub mod timeline;
pub mod worker;

pub use time::Fps;
