//! Adaptive prefetch-and-cache pipeline for browsing a sequence of large images.
//!
//! The library holds the logic of the pipeline: the item catalog with its cursor,
//! the table of decode requests with its deduplication and staleness rules, the
//! locality window around the cursor, and the cache of display-resident layers.
//! Threads, channels, decoding and the GPU are left to the program around it.

pub mod config;
pub mod fps_meter;
pub mod image_loader;
pub mod input_events;
pub mod layers;
pub mod locality;
pub mod overlay;
pub mod storage;
pub mod texture;
