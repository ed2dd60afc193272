//! Frame extraction support for a video renderer: a cache of decoded frames,
//! the decisions of the seek and decode loop, and the bitmap encoding of the
//! resulting RGB24 pixels.
pub mod bitmap;
pub mod extraction;
pub mod frame_cache;
