//! Compact container format, frame codec, terminal renderer and live wire
//! protocol for half-block terminal video.
pub mod le;
pub mod format;
pub mod compress;
pub mod encode;
pub mod decode;
pub mod delta;
pub mod halfblock;
pub mod render;
pub mod playback;
pub mod audio;
pub mod protocol;
pub mod live;
pub mod resize;
pub mod convert;
