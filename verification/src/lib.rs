//! Firmware core for a small monochrome oscilloscope front panel.
//!
//! The crate holds the two verified subsystems: the page-addressed
//! framebuffer with its rasterizer and display transport, and the
//! double-buffered sampling pipeline.  Hardware access (the serial bus,
//! the sampling peripheral) stays outside: the transport functions
//! return the exact byte sequences to put on the bus, and the pipeline
//! is driven by the events the hardware raises.

pub mod font;
pub mod oled;
pub mod sampling;
