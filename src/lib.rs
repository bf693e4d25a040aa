//! Aranya Fast Channels transport core: wire framing, the channel table
//! with its replay defence, the stream table with its readiness scan, and
//! the engine state that ties them together.

pub mod error;
pub mod ids;
pub mod wire;
pub mod streams;
pub mod chans;
pub mod sealed;
pub mod afc;
