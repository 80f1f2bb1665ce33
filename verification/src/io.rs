//! Read and write adapters and the streaming copy between them.

pub mod copy;
pub mod read;
pub mod read_write;
pub mod write;

pub use copy::copy_remaining;
pub use read::Read;
pub use read_write::ReadWrite;
pub use write::Write;
