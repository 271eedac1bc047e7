//! Decoding of animated GIF streams into fully composited RGBA frames, playback
//! of the result with a lazily filled texture cache, and the study timer that
//! the application runs beside it.

pub mod frame;
pub mod compose;
pub mod decode;
pub mod player;
pub mod timer;
pub mod app_data;
