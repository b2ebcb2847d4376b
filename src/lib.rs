//! Palette derivation from the dominant colors of an image: color arithmetic,
//! brightness/saturation curves, the palette builder and the palette cache.

pub mod builder;
pub mod cache;
pub mod cli;
pub mod color;
pub mod config;
pub mod css;
pub mod curve;
pub mod dcol;
pub mod error;
pub mod magick;
pub mod order;
pub mod palette;
pub mod template;
pub mod text;
pub mod wallpaper;
