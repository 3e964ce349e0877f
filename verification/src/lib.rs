//! Turns a premultiplied ARGB framebuffer into a JPEG stream.
//!
//! The work is done in two stages. `convert` maps every packed pixel to its
//! three straight colour bytes; `encode` hands those bytes to the JPEG encoder
//! and appends the stream to an in-memory sink. `render_chunked` runs one
//! after the other.

pub mod convert;
pub mod encode;
pub mod jpeg;
pub mod pack;
mod parallel;
pub mod pipeline;
pub mod pixel;

pub use convert::{convert, convert_sequential};
pub use encode::{delivery_outcome, encode, EncodeError};
pub use jpeg::{MAX_PIXELS, MAX_RGB_LEN};
pub use pack::{pack_rgba, u8rgba_u32argb};
pub use pipeline::{render_chunked, Framebuffer};
pub use pixel::{alpha, blue, green, red, unpremultiply, unpremultiply_channel};
