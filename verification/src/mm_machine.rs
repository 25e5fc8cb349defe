use vstd::prelude::*;

use crate::buildable_u8::{shifted_in, BuildableU8};
use crate::mm_packet::{MmLocoPacket, MmRawAccPacket};

verus! {

// Public Types
pub type MmLocoMachine = MmMachine<MmLocoTiming>;

pub type MmAccMachine = MmMachine<MmAccTiming>;

// MmTiming
//
// The state machines are the same for locomotive and accessory MM packets, but the timing is different.
// Because of this, the state machine is made generic over the two pulse timing sets and their respective packet types.
pub trait MmTiming {
    const SH_MIN: u16;
    const SH_MAX: u16;
    const LG_MIN: u16;
    const LG_MAX: u16;

    type Packet: PartialEq;

    /// The packet that `make_packet` makes of an address byte, a middle bit and a data byte.
    spec fn spec_make_packet(address: u8, middle: bool, data: u8) -> Self::Packet;

    fn make_packet(address: u8, middle: bool, data: u8) -> (p: Self::Packet)
        ensures
            p == Self::spec_make_packet(address, middle, data),
    ;

    /// Whether two packets are the same.
    fn same_packet(a: &Self::Packet, b: &Self::Packet) -> (r: bool)
        ensures
            r == (*a == *b),
    ;
}

pub struct MmLocoTiming;

impl MmTiming for MmLocoTiming {
    // a short pulse lasts 26 us (tolerance 5), a long one 7 times as long (tolerance 10)
    const SH_MIN: u16 = 21;
    const SH_MAX: u16 = 31;
    const LG_MIN: u16 = 172;
    const LG_MAX: u16 = 192;

    type Packet = MmLocoPacket;

    open spec fn spec_make_packet(address: u8, middle: bool, data: u8) -> MmLocoPacket {
        MmLocoPacket::spec_new(address, middle, data)
    }

    fn make_packet(address: u8, middle: bool, data: u8) -> (p: MmLocoPacket) {
        MmLocoPacket::new(address, middle, data)
    }

    fn same_packet(a: &MmLocoPacket, b: &MmLocoPacket) -> (r: bool) {
        *a == *b
    }
}

pub struct MmAccTiming;

impl MmTiming for MmAccTiming {
    // a short pulse lasts 13 us (tolerance 5), a long one 7 times as long (tolerance 10)
    const SH_MIN: u16 = 8;
    const SH_MAX: u16 = 18;
    const LG_MIN: u16 = 81;
    const LG_MAX: u16 = 101;

    type Packet = MmRawAccPacket;

    open spec fn spec_make_packet(address: u8, middle: bool, data: u8) -> MmRawAccPacket {
        MmRawAccPacket::spec_new(address, middle, data)
    }

    fn make_packet(address: u8, middle: bool, data: u8) -> (p: MmRawAccPacket) {
        MmRawAccPacket::new(address, middle, data)
    }

    fn same_packet(a: &MmRawAccPacket, b: &MmRawAccPacket) -> (r: bool) {
        *a == *b
    }
}

// MmPulse
/// What a pulse is to the machine, or what the last pulse was when it awaits the
/// second half of a bit.
#[derive(Debug, PartialEq, Eq, Structural, Clone, Copy)]
pub enum MmPulse {
    Short,
    Long,
    /// no first half of a bit is pending: the next pulse leads a bit
    IdlePrev,
    Invalid,
}

/// The kind of pulse a duration is under timing `T`.
pub open spec fn spec_classify<T: MmTiming>(value: u16) -> MmPulse {
    if T::SH_MIN <= value <= T::SH_MAX {
        MmPulse::Short
    } else if T::LG_MIN <= value <= T::LG_MAX {
        MmPulse::Long
    } else {
        MmPulse::Invalid
    }
}

impl MmPulse {
    fn classify<T: MmTiming>(value: u16) -> (r: Self)
        ensures
            r == spec_classify::<T>(value),
    {
        if value >= T::SH_MIN && value <= T::SH_MAX {
            MmPulse::Short
        } else if value >= T::LG_MIN && value <= T::LG_MAX {
            MmPulse::Long
        } else {
            MmPulse::Invalid
        }
    }
}

// MmBit
#[derive(PartialEq, Eq, Structural)]
enum MmBit {
    Zero,
    One,
}

impl From<MmBit> for u8 {
    fn from(mm_bit: MmBit) -> (r: u8) {
        match mm_bit {
            MmBit::Zero => 0x00,
            MmBit::One => 0x01,
        }
    }
}

impl vstd::std_specs::convert::FromSpecImpl<MmBit> for u8 {
    open spec fn obeys_from_spec() -> bool {
        true
    }

    closed spec fn from_spec(v: MmBit) -> u8 {
        match v {
            MmBit::Zero => 0,
            MmBit::One => 1,
        }
    }
}

// MmMachine
enum MmState {
    Address(BuildableU8),
    Middle(u8),
    Data(BuildableU8),
}

/// Where a machine is within a packet.
pub enum Stage {
    /// Receiving the address byte: the bits so far and how many there are.
    Address(u8, u8),
    /// Receiving the middle bits: how many have come.
    Middle(u8),
    /// Receiving the data byte: the bits so far and how many there are.
    Data(u8, u8),
}

/// What a machine holds: its stage, the pending first half of a bit, the address
/// byte and middle bit of the packet being received, and the packet that waits for
/// its repetition.
pub struct MachineView<P> {
    pub stage: Stage,
    pub prev_pulse: MmPulse,
    pub address: u8,
    pub middle: bool,
    pub prev_packet: Option<P>,
}

impl<P> MachineView<P> {
    /// The counters of the stage are within their ranges.
    pub open spec fn wf(self) -> bool {
        match self.stage {
            Stage::Address(_, n) => n < 8,
            Stage::Middle(n) => n < 2,
            Stage::Data(_, n) => n < 8,
        }
    }

    /// The machine after a reset: a new address byte is awaited, led by the next pulse.
    /// The packet waiting for its repetition is kept.
    pub open spec fn reset(self) -> Self {
        MachineView {
            stage: Stage::Address(0, 0),
            prev_pulse: MmPulse::IdlePrev,
            address: self.address,
            middle: self.middle,
            prev_packet: self.prev_packet,
        }
    }

    pub open spec fn with_prev_pulse(self, prev_pulse: MmPulse) -> Self {
        MachineView {
            stage: self.stage,
            prev_pulse,
            address: self.address,
            middle: self.middle,
            prev_packet: self.prev_packet,
        }
    }

    pub open spec fn with_stage(self, stage: Stage) -> Self {
        MachineView {
            stage,
            prev_pulse: self.prev_pulse,
            address: self.address,
            middle: self.middle,
            prev_packet: self.prev_packet,
        }
    }
}

/// The state of a new machine.
pub open spec fn initial_view<P>() -> MachineView<P> {
    MachineView {
        stage: Stage::Address(0, 0),
        prev_pulse: MmPulse::Invalid,
        address: 0,
        middle: false,
        prev_packet: None,
    }
}

/// What a bit (`one` for a 1) does when it arrives: it is added to the address byte,
/// counted as a middle bit (the second one is kept), or added to the data byte. The
/// last data bit completes a packet, which is delivered when it repeats the packet
/// that waits, and waits itself otherwise; the machine then resets.
pub open spec fn take_bit<T: MmTiming>(s: MachineView<T::Packet>, one: bool) -> (
    MachineView<T::Packet>,
    Option<T::Packet>,
) {
    let b: u8 = if one {
        1
    } else {
        0
    };
    match s.stage {
        Stage::Address(d, n) => if n == 7 {
            (
                MachineView {
                    stage: Stage::Middle(0),
                    prev_pulse: s.prev_pulse,
                    address: shifted_in(d, b),
                    middle: s.middle,
                    prev_packet: s.prev_packet,
                },
                None,
            )
        } else {
            (s.with_stage(Stage::Address(shifted_in(d, b), (n + 1) as u8)), None)
        },
        Stage::Middle(n) => if n + 1 >= 2 {
            (
                MachineView {
                    stage: Stage::Data(0, 0),
                    prev_pulse: s.prev_pulse,
                    address: s.address,
                    middle: one,
                    prev_packet: s.prev_packet,
                },
                None,
            )
        } else {
            (s.with_stage(Stage::Middle((n + 1) as u8)), None)
        },
        Stage::Data(d, n) => if n == 7 {
            let p = T::spec_make_packet(s.address, s.middle, shifted_in(d, b));
            if s.prev_packet == Some(p) {
                (
                    MachineView {
                        stage: s.stage,
                        prev_pulse: s.prev_pulse,
                        address: s.address,
                        middle: s.middle,
                        prev_packet: None,
                    }.reset(),
                    Some(p),
                )
            } else {
                (
                    MachineView {
                        stage: s.stage,
                        prev_pulse: s.prev_pulse,
                        address: s.address,
                        middle: s.middle,
                        prev_packet: Some(p),
                    }.reset(),
                    None,
                )
            }
        } else {
            (s.with_stage(Stage::Data(shifted_in(d, b), (n + 1) as u8)), None)
        },
    }
}

/// What one pulse does to a machine with timing `T`: the next state, and the packet
/// delivered, if any. An invalid pulse resets the machine. A valid pulse that leads
/// a bit (short for 0, long for 1) is taken as that bit at once; the pulse after it
/// completes the bit and must be of the other kind, or the machine resets.
pub open spec fn step<T: MmTiming>(s: MachineView<T::Packet>, pulse: u16) -> (
    MachineView<T::Packet>,
    Option<T::Packet>,
) {
    let kind = spec_classify::<T>(pulse);
    if kind == MmPulse::Invalid {
        (s.reset(), None)
    } else if s.prev_pulse != MmPulse::IdlePrev {
        let s1 = if s.prev_pulse == kind {
            s.reset()
        } else {
            s
        };
        (s1.with_prev_pulse(MmPulse::IdlePrev), None)
    } else {
        take_bit::<T>(s.with_prev_pulse(kind), kind == MmPulse::Long)
    }
}

/// A Marklin-Motorola protocol decoder. Feed a contiguous series of microsecond-resolution track pulses. Any invalid pulse will reset the machine.
pub struct MmMachine<T: MmTiming> {
    // state machine values
    state: MmState,
    prev_pulse: MmPulse,
    // packet data (the data field is contained in Data state)
    address: u8,
    middle: bool,
    // for packet comparison (double packeting)
    prev_packet: Option<T::Packet>,
    _timing: core::marker::PhantomData<T>,
}

impl<T: MmTiming> View for MmMachine<T> {
    type V = MachineView<T::Packet>;

    closed spec fn view(&self) -> MachineView<T::Packet> {
        MachineView {
            stage: match self.state {
                MmState::Address(b) => Stage::Address(b@.0, b@.1),
                MmState::Middle(n) => Stage::Middle(n),
                MmState::Data(b) => Stage::Data(b@.0, b@.1),
            },
            prev_pulse: self.prev_pulse,
            address: self.address,
            middle: self.middle,
            prev_packet: self.prev_packet,
        }
    }
}

impl<T: MmTiming> MmMachine<T> {
    /// Create a new MmMachine.
    pub fn new() -> (r: Self)
        ensures
            r@ == initial_view::<T::Packet>(),
            r@.wf(),
    {
        Self {
            state: MmState::Address(BuildableU8::new()),
            prev_pulse: MmPulse::Invalid,
            address: 0,
            middle: false,
            prev_packet: None,
            _timing: core::marker::PhantomData,
        }
    }

    /// Parse a pulse (in microseconds) through the MmMachine.
    /// Will produce a packet after a series of contiguous pulses representing a complete packet are parsed.
    pub fn advance(&mut self, pulse: u16) -> (r: Option<T::Packet>)
        requires
            old(self)@.wf(),
        ensures
            final(self)@.wf(),
            (final(self)@, r) == step::<T>(old(self)@, pulse),
    {
        let mm_pulse = MmPulse::classify::<T>(pulse);

        // when a non-MM pulse is encountered, the MM pulse chain has been interrupted
        // the state machine needs to be reset for a new packet. This ensures orientation for when
        // a packet begins; the first valid pulse (Short or Long) will start a packet.
        if mm_pulse == MmPulse::Invalid {
            self.reset();
            return None;
        }
        // MM bit resolver
        // Actions for the state machine are taken on the first "half pulse" without waiting for the complement.
        // Instead, there is a check to see if a complement mismatches, which will cause a reset of the FSM.
        // The reason for this is that the final "bit" will never have a complementary pulse; rather, there is
        // a long low period until the next packet.

        let mm_bit = match self.prev_pulse {
            MmPulse::IdlePrev => {
                // IdlePrev indicates this pulse is the "leading" half of interest. Store it for
                // mismatch comparison with the next pulse, and proceed to FSM.
                self.prev_pulse = mm_pulse;
                if mm_pulse == MmPulse::Short {
                    MmBit::Zero
                } else {
                    MmBit::One
                }
            },
            _ => {
                // A stored pulse means this is the complementary pulse. Compare to find a mismatch.
                // If a mismatch happens, it means the FSM is disorientated and has read between bits (one pulse
                // out of sync). There is no recovery from this for the current packet so just reset.
                if self.prev_pulse == mm_pulse {
                    self.reset();
                }
                // Even if there's no mismatch (normal case) we must reset the previous pulse to idle (waiting for
                // leading pulse of interest) and return None - no FSM action taken on complementary pulse.

                self.prev_pulse = MmPulse::IdlePrev;
                return None;
            },
        };

        // the state machine - it is guaranteed that an MM bit is resolved
        match &mut self.state {
            MmState::Address(address) => {
                match address.push(u8::from(mm_bit)) {
                    Some(byte) => {
                        self.address = byte;
                        self.state = MmState::Middle(0);
                    },
                    None => {},
                }
            },
            MmState::Middle(bit_count) => {
                // both middle bits are always the same, so we only need to record one
                *bit_count += 1;
                if *bit_count >= 2 {
                    self.middle = mm_bit != MmBit::Zero;
                    self.state = MmState::Data(BuildableU8::new());
                }
            },
            MmState::Data(data) => {
                match data.push(u8::from(mm_bit)) {
                    Some(byte) => {
                        // completed packet - create packet type
                        let new_packet = T::make_packet(self.address, self.middle, byte);

                        // check for matching packet pair
                        let matched = match &self.prev_packet {
                            Some(prev) => T::same_packet(prev, &new_packet),
                            None => false,
                        };
                        let ret = if matched {
                            // matching packets - return the current packet and reset previous packet
                            self.prev_packet = None;
                            Some(new_packet)
                        } else {
                            // packet doesn't match or no previous packet - store current
                            self.prev_packet = Some(new_packet);
                            None
                        };

                        // reset state machine and return
                        self.reset();
                        return ret;
                    },
                    None => {},
                }
            },
        }

        None
    }

    /// Resets the MmMachine. Used when illegal conditions are met.
    fn reset(&mut self)
        ensures
            final(self)@ == old(self)@.reset(),
    {
        // the packet doesn't need resetting as there's no indexing variable
        self.state = MmState::Address(BuildableU8::new());
        self.prev_pulse = MmPulse::IdlePrev;
    }
}

} // verus!

verus! {

/// The pulse windows of the two machines: a locomotive machine takes 21 to 31 us as a
/// short pulse and 172 to 192 us as a long one (26 us and 182 us, give or take 5 and
/// 10); an accessory machine takes 8 to 18 us and 81 to 101 us (13 us and 91 us, give
/// or take 5 and 10). Any other duration is invalid to them.
pub proof fn lemma_timing_windows(v: u16)
    ensures
        spec_classify::<MmLocoTiming>(v) == if 21 <= v <= 31 {
            MmPulse::Short
        } else if 172 <= v <= 192 {
            MmPulse::Long
        } else {
            MmPulse::Invalid
        },
        spec_classify::<MmAccTiming>(v) == if 8 <= v <= 18 {
            MmPulse::Short
        } else if 81 <= v <= 101 {
            MmPulse::Long
        } else {
            MmPulse::Invalid
        },
{
}

/// A pulse of 0 us is invalid to both machines, so feeding it resets either of them.
pub proof fn lemma_zero_is_invalid()
    ensures
        spec_classify::<MmLocoTiming>(0) == MmPulse::Invalid,
        spec_classify::<MmAccTiming>(0) == MmPulse::Invalid,
{
    lemma_timing_windows(0);
}

/// The packet a machine makes of the bytes and the middle bit it received holds them
/// as they came, for both timings.
pub proof fn lemma_made_packets_hold_their_bits(address: u8, middle: bool, data: u8)
    ensures
        MmLocoTiming::spec_make_packet(address, middle, data)@ == (address, middle, data),
        MmAccTiming::spec_make_packet(address, middle, data)@ == (address, middle, data),
{
    MmLocoPacket::lemma_spec_new_view(address, middle, data);
    MmRawAccPacket::lemma_spec_new_view(address, middle, data);
}

/// An invalid pulse resets any machine and delivers nothing: a new address byte is
/// awaited, led by the next valid pulse, and only the packet waiting for its
/// repetition is kept.
pub proof fn lemma_invalid_pulse_resets<T: MmTiming>(s: MachineView<T::Packet>, pulse: u16)
    requires
        spec_classify::<T>(pulse) == MmPulse::Invalid,
    ensures
        step::<T>(s, pulse) == (s.reset(), None::<T::Packet>),
        step::<T>(s, pulse).0.stage == Stage::Address(0, 0),
        step::<T>(s, pulse).0.prev_pulse == MmPulse::IdlePrev,
        step::<T>(s, pulse).0.prev_packet == s.prev_packet,
{
}

/// The second half of a bit must be of the other kind than the first: a second half
/// of the same kind shows that the machine lost its place, and resets it.
pub proof fn lemma_mismatched_halves_reset<T: MmTiming>(s: MachineView<T::Packet>, pulse: u16)
    requires
        s.prev_pulse == MmPulse::Short || s.prev_pulse == MmPulse::Long,
        spec_classify::<T>(pulse) == s.prev_pulse,
    ensures
        step::<T>(s, pulse) == (s.reset(), None::<T::Packet>),
{
}

} // verus!
