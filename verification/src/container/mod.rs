//! Containers of fixed capacity.

pub mod ring_buffer;

pub use ring_buffer::RingBuffer;
