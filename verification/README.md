# mm_decoder

A verified decoder for the Märklin-Motorola (MM1/MM2) track protocol.

- `src/buildable_u8.rs`: a byte builder that shifts bits in one at a time.
- `src/mm_machine.rs`: the pulse-driven state machines (`MmLocoMachine`,
  `MmAccMachine`), their pulse timings, and the spec step function `step` that
  `advance` is proved to follow.
- `src/frames.rs`: the pulse trains a sender puts on the track, `run` (a machine fed
  pulse after pulse), and the proof that a packet sent twice is delivered once.
- `src/mm_packet.rs`: locomotive and accessory packets: trinary and extended
  addresses, MM1/MM2 commands, accessory ports and function states, with their laws.

Feed pulse durations in microseconds to `advance`; any invalid duration (0 always
is) resets the machine.
