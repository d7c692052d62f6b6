//! Mirrors a host display to remote viewers as a motion-JPEG stream and turns
//! remote pointer and keyboard commands into host input events.
//!
//! The crate holds the rules of that pipeline as verified functions: frame
//! downsampling and chunk framing, the viewer registry, the capture tick, the
//! coordinate mapping and the command dispatch. Capturing the screen, serving
//! HTTP and injecting input events are left to the program around it.

pub mod broadcaster;
pub mod capture;
pub mod chunk;
pub mod frame;
pub mod jpeg;
pub mod keys;
pub mod pccontroller;
pub mod scale;
pub mod text;
