//! A layout-agnostic model of multi-channel audio sample buffers.
//!
//! Buffers expose their samples as logical `channels x frames` grids through a
//! small set of capability traits. Windowing wrappers narrow the visible frame
//! range without copying, read/write adapters track partial consumption across
//! repeated passes, and a streaming copy moves frames between any two buffers
//! that offer the required capabilities.

pub mod buf;
pub mod channel;
pub mod interleaved;
pub mod io;
pub mod sequential;
pub mod util;
pub mod window;

pub use buf::{Buf, Channels, ChannelsMut, ExactSizeBuf, ReadBuf, WriteBuf};
pub use channel::Channel;
pub use interleaved::Interleaved;
pub use sequential::Sequential;
pub use window::{limit, skip, Limit, Skip};
