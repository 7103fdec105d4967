//! A growable byte buffer for staging network I/O.
//!
//! The backing storage is split by two cursors into three contiguous regions:
//!
//! ```text
//! +-------------------+------------------+------------------+
//! | prependable bytes |  readable bytes  |  writable bytes  |
//! +-------------------+------------------+------------------+
//! 0      <=      read_index   <=   write_index    <=     len
//! ```
//!
//! [`model`] holds the mathematical model of that layout, [`endian`] the
//! big-endian integer codec, [`text`] the UTF-8 boundary, [`buffer`] the
//! executable buffer, and [`laws`] the algebraic properties that relate its
//! operations.

pub mod buffer;
pub mod endian;
pub mod laws;
pub mod model;
pub mod text;

pub use buffer::Buffer;
pub use model::{BufferView, INITIAL, PREPEND, READ_CHUNK};
pub use text::DecodeError;
