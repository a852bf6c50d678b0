//! Frame encoding engine for HUB75-style RGB LED matrix panels.
//!
//! The library turns a logical pixel grid into the exact sequence of 16-bit
//! control words (color bits, row-address bits, latch, output-enable) that a
//! scanning LED-matrix controller shifts out, using binary-coded modulation
//! for per-channel brightness.

pub mod buffer;
pub mod config;
pub mod matrix_word;
pub mod rgb_matrix;

pub use buffer::{ColorStorage, FrameBuffer};
pub use config::{FrameConfiguration, MatrixConfig};
pub use matrix_word::{MatrixPixel, MatrixWord, MatrixWordMut};
pub use rgb_matrix::{Color, MatrixError, Rgb, RgbMatrix};
