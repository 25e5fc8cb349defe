//! Decoding of the Märklin-Motorola track protocol.

pub mod buildable_u8;
pub mod frames;
pub mod mm_machine;
pub mod mm_packet;

pub use buildable_u8::BuildableU8;

// State machines
pub use mm_machine::{MmAccMachine, MmLocoMachine};

// Loco packet types
pub use mm_packet::{MmLocoCommand, MmLocoPacket, MmSpeed};

// Accessory packet types
pub use mm_packet::{MmAccCommand, MmAccPacket, MmFuncPacket, MmRawAccPacket};
