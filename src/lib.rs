//! A monophonic sampler's verified core: the frame geometry of a SOLA time
//! stretch and of its correlation search, and the real-time playback path
//! (chunk cursor, voice state machine, single-slot hand-off).

pub mod chunk;
pub mod correlator;
pub mod pad;
pub mod sola;
pub mod voice;

pub use chunk::Chunk;
pub use pad::pad_vec;
pub use voice::{Mailbox, Msg, Voice};
