//! Bridge between a client application and an embedded editor process:
//! binary resolution and launch planning, the startup handshake, the
//! command pump with its shared running flag, and the inbound event router.

pub mod command;
pub mod launch;
pub mod channels;
pub mod handshake;
pub mod lifecycle;
pub mod events;
