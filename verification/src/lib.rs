//! A verified rendering core for a small embedded display: geometry,
//! canvases with clipping viewports, a fixed-budget drawing cache, a
//! closed set of drawable shapes, and two rendering strategies.

pub mod backlight;
pub mod bar;
pub mod button_request;
pub mod bitmap;
pub mod blur;
pub mod cache;
pub mod canvas;
pub mod circle;
pub mod corner_highlight;
pub mod color;
pub mod display;
pub mod error;
pub mod geometry;
pub mod jpeg;
pub mod passphrase;
pub mod progress;
pub mod qrcode;
pub mod screens;
pub mod render;
pub mod shape;
pub mod text;
pub mod toif;
