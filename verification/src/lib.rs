//! A two-thread 2D rendering core.
//!
//! The logic side changes a scene of layers and sprites through [`engine`],
//! which keeps the authoritative record ([`manager`], [`arena`]) and collects
//! one [`message`] for each change. A commit seals the messages into a batch
//! and hands it to the bounded [`channel`]. The render side ([`consumer`],
//! [`pass`]) applies the batches in order to instance buffers ([`geometry`],
//! [`buffer`]) and says what to transfer and draw. [`texture`] and [`image`]
//! count the shares of GPU textures, [`transform`] keeps the dirty flags of
//! cached matrices, and [`vsync`] orders the synchronisation modes.
//! [`pipeline`] states what holds of the two sides together.
//!
//! Nothing here calls the graphics backend: every function that has work for
//! it returns that work as a value.

pub mod arena;
pub mod buffer;
pub mod channel;
pub mod consumer;
pub mod engine;
pub mod geometry;
pub mod image;
pub mod manager;
pub mod message;
pub mod pass;
pub mod pipeline;
pub mod texture;
pub mod transform;
pub mod vsync;
