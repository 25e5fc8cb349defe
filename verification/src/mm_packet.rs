use vstd::prelude::*;

verus! {

// ---------------------------------------------------------------------------
// Bit-level model of a packet's address and data bytes
// ---------------------------------------------------------------------------
/// Bit `k` (0 is the least significant) of `d`, as 0 or 1.
pub open spec fn bit(d: u8, k: u8) -> u8 {
    (d >> k) & 1
}

/// The MM1 speed bits: the leading bit of each of the four data bit pairs.
/// The first transmitted pair (bit 7) is the least significant bit of the code.
pub open spec fn speed_code(d: u8) -> u8 {
    (bit(d, 7) + 2 * bit(d, 5) + 4 * bit(d, 3) + 8 * bit(d, 1)) as u8
}

/// The MM2 sub-command bits: the trailing bit of each of the four data bit pairs,
/// in the same order as `speed_code`.
pub open spec fn sub_code(d: u8) -> u8 {
    (bit(d, 6) + 2 * bit(d, 4) + 4 * bit(d, 2) + 8 * bit(d, 0)) as u8
}

proof fn lemma_data_codes(d: u8)
    by (bit_vector)
    ensures
        ((d & 0b1000_0000) >> 7 | (d & 0b0010_0000) >> 4 | (d & 0b0000_1000) >> 1 | (d
            & 0b0000_0010) << 2) == speed_code(d),
        ((d & 0b0100_0000) >> 6 | (d & 0b0001_0000) >> 3 | (d & 0b0000_0100) | (d & 0b0000_0001)
            << 3) == sub_code(d),
        speed_code(d) < 16,
        sub_code(d) < 16,
{
}

/// The speed that a four bit MM1 speed code stands for: code 0 is a stop,
/// code 1 a change of direction, and code `n` speed step `n - 1`.
pub open spec fn speed_of_code(code: u8) -> MmSpeed {
    if code == 0 {
        MmSpeed::Speed(0)
    } else if code == 1 {
        MmSpeed::Reverse
    } else {
        MmSpeed::Speed((code - 1) as u8)
    }
}

/// Everything a locomotive data byte says, MM1 and MM2 alike.
pub open spec fn spec_command(d: u8) -> MmLocoCommand {
    let code = speed_code(d);
    let sub = sub_code(d);
    let speed = speed_of_code(code);
    if code == sub {
        MmLocoCommand::OldSpeed(speed)
    } else if sub == 0b0101 {
        // reverse speeds 7 to 14, some of which stand for functions switched off
        if code == 3 {
            MmLocoCommand::Function { speed, function: 1, state: false }
        } else if code == 4 {
            MmLocoCommand::Function { speed, function: 2, state: false }
        } else if code == 6 {
            MmLocoCommand::Function { speed, function: 3, state: false }
        } else if code == 7 {
            MmLocoCommand::Function { speed, function: 4, state: false }
        } else {
            MmLocoCommand::NewSpeed { speed, direction: false }
        }
    } else if sub == 0b1101 {
        // reverse speeds 0 to 6
        MmLocoCommand::NewSpeed { speed, direction: false }
    } else if sub == 0b1010 {
        // forward speeds 0 to 6, some of which stand for functions switched on
        if code == 11 {
            MmLocoCommand::Function { speed, function: 1, state: true }
        } else if code == 12 {
            MmLocoCommand::Function { speed, function: 2, state: true }
        } else if code == 14 {
            MmLocoCommand::Function { speed, function: 3, state: true }
        } else if code == 15 {
            MmLocoCommand::Function { speed, function: 4, state: true }
        } else {
            MmLocoCommand::NewSpeed { speed, direction: true }
        }
    } else if sub == 0b0010 {
        // forward speeds 7 to 14
        MmLocoCommand::NewSpeed { speed, direction: true }
    } else {
        // a function command: the low three sub-command bits name the function,
        // the highest one its state
        let f = sub % 8;
        let state = sub >= 8;
        if f == 0b011 {
            MmLocoCommand::Function { speed, function: 1, state }
        } else if f == 0b100 {
            MmLocoCommand::Function { speed, function: 2, state }
        } else if f == 0b110 {
            MmLocoCommand::Function { speed, function: 3, state }
        } else if f == 0b111 {
            MmLocoCommand::Function { speed, function: 4, state }
        } else {
            MmLocoCommand::OldSpeed(speed)
        }
    }
}

/// The port (0 to 7) an accessory data byte addresses.
pub open spec fn spec_port(d: u8) -> u8 {
    (bit(d, 7) + 2 * bit(d, 5) + 4 * bit(d, 2)) as u8
}

/// The state an accessory data byte sets its port to.
pub open spec fn spec_port_state(d: u8) -> bool {
    bit(d, 1) == 1 || bit(d, 0) == 1
}

proof fn lemma_output_bits(d: u8)
    by (bit_vector)
    ensures
        ((d & 0b1000_0000) >> 7 | (d & 0b0010_0000) >> 4 | (d & 0b0000_0100)) == spec_port(d),
        (d & 0b0000_0011 != 0) == spec_port_state(d),
        spec_port(d) < 8,
        (d & 0b1100_0000 != 0) == (bit(d, 7) == 1 || bit(d, 6) == 1),
        (d & 0b0011_0000 != 0) == (bit(d, 5) == 1 || bit(d, 4) == 1),
        (d & 0b0000_1100 != 0) == (bit(d, 3) == 1 || bit(d, 2) == 1),
{
}

// ---------------------------------------------------------------------------
// Trinary addresses
// ---------------------------------------------------------------------------
/// Two-bit group `i` (0 to 3) of an address byte; group 0 holds bits 0 and 1.
pub open spec fn address_pair(raw: u8, i: u8) -> u8 {
    (raw >> (i * 2) as u8) & 3
}

/// The trinary digit a two-bit group stands for: `00` is 0, `11` is 1 and `10` is 2.
/// The group `01` stands for no digit.
pub open spec fn trit(pair: u8) -> u8 {
    if pair == 3 {
        1
    } else if pair == 2 {
        2
    } else {
        0
    }
}

/// Whether every two-bit group of an address byte is a trinary digit.
pub open spec fn is_trinary(raw: u8) -> bool {
    forall|i: u8| i < 4 ==> address_pair(raw, i) != 1
}

/// The number the first `n` trinary digits of an address byte spell, group 0 being
/// the most significant digit.
pub open spec fn trinary_prefix(raw: u8, n: u8) -> nat
    decreases n,
{
    if n == 0 {
        0
    } else {
        trinary_prefix(raw, (n - 1) as u8) * 3 + trit(address_pair(raw, (n - 1) as u8)) as nat
    }
}

/// The number (0 to 80) that the four trinary digits of an address byte spell.
pub open spec fn trinary_value(raw: u8) -> nat {
    trinary_prefix(raw, 4)
}

/// The decimal address of an address byte in the classic 80-address scheme.
/// Transmitted 0 is address 80, transmitted 80 is the idle address, which is no
/// address, and so is a byte that is not trinary.
pub open spec fn spec_address(raw: u8) -> Option<u8> {
    if !is_trinary(raw) {
        None
    } else if trinary_value(raw) == 80 {
        None
    } else if trinary_value(raw) == 0 {
        Some(80u8)
    } else {
        Some(trinary_value(raw) as u8)
    }
}

/// How many of the trinary digits (`00`, `10`, `11`) are smaller than a two-bit group.
pub open spec fn trits_below(pair: u8) -> nat {
    if pair == 0 {
        0
    } else if pair <= 2 {
        1
    } else {
        2
    }
}

/// How many trinary address bytes are smaller than `raw`, counting digit by digit
/// from the most significant group (bits 6 and 7).
pub open spec fn trinary_bytes_below(raw: u8) -> nat {
    let p3 = address_pair(raw, 3);
    let p2 = address_pair(raw, 2);
    let p1 = address_pair(raw, 1);
    let p0 = address_pair(raw, 0);
    trits_below(p3) * 27 + if p3 == 1 {
        0
    } else {
        trits_below(p2) * 9 + if p2 == 1 {
            0
        } else {
            trits_below(p1) * 3 + if p1 == 1 {
                0
            } else {
                trits_below(p0)
            }
        }
    }
}

/// The extended address (0 to 255) of an address byte. A trinary byte keeps its
/// decimal address, the idle address being 0. The bytes that are not trinary take
/// the addresses from 81 on, in the order of their values.
pub open spec fn spec_ext_address(raw: u8) -> u8 {
    if is_trinary(raw) {
        match spec_address(raw) {
            Some(a) => a,
            None => 0,
        }
    } else {
        (81 + raw - trinary_bytes_below(raw)) as u8
    }
}

proof fn lemma_pairs(raw: u8)
    by (bit_vector)
    ensures
        address_pair(raw, 0) == raw & 3,
        address_pair(raw, 1) == (raw >> 2u8) & 3,
        address_pair(raw, 2) == (raw >> 4u8) & 3,
        address_pair(raw, 3) == (raw >> 6u8) & 3,
        raw == address_pair(raw, 0) + 4 * address_pair(raw, 1) + 16 * address_pair(raw, 2) + 64
            * address_pair(raw, 3),
        address_pair(raw, 0) <= 3,
        address_pair(raw, 1) <= 3,
        address_pair(raw, 2) <= 3,
        address_pair(raw, 3) <= 3,
{
}

/// Decodes the trinary address byte into its decimal address.
fn decode_address(raw: u8) -> (r: Option<u8>)
    ensures
        r == spec_address(raw),
{
    proof {
        lemma_pairs(raw);
    }
    let mut ret_address: u8 = 0;
    // compute the trits individually, group 0 first
    for i in 0..4u8
        invariant
            ret_address == trinary_prefix(raw, i),
            i == 0 ==> ret_address < 1,
            i == 1 ==> ret_address < 3,
            i == 2 ==> ret_address < 9,
            i == 3 ==> ret_address < 27,
            forall|j: u8| j < i ==> address_pair(raw, j) != 1,
            address_pair(raw, 0) <= 3,
            address_pair(raw, 1) <= 3,
            address_pair(raw, 2) <= 3,
            address_pair(raw, 3) <= 3,
    {
        let trit = (raw >> (i * 2)) & 0b0000_0011;
        assert(trit == address_pair(raw, i));
        let bin_trit: u8 = match trit {
            0b00 => 0,
            0b11 => 1,
            0b10 => 2,
            _ => return None,  // 0b01 is not a trinary digit
        };
        ret_address = (ret_address * 3) + bin_trit;
    }
    assert(trinary_value(raw) == ret_address);
    // the transmitted address 0 is actually 80, and transmitted 80 is the idle packet address
    match ret_address {
        80 => None,
        0 => Some(80),
        _ => Some(ret_address),
    }
}

/// Maps an address byte to its extended address.
fn extended_address(raw: u8) -> (r: u8)
    ensures
        r == spec_ext_address(raw),
        !is_trinary(raw) ==> 81 <= r,
{
    proof {
        lemma_pairs(raw);
    }
    let p3 = (raw >> 6) & 3;
    let p2 = (raw >> 4) & 3;
    let p1 = (raw >> 2) & 3;
    let p0 = raw & 3;
    if p3 != 1 && p2 != 1 && p1 != 1 && p0 != 1 {
        assert(is_trinary(raw)) by {
            assert forall|i: u8| i < 4 implies address_pair(raw, i) != 1 by {
                assert(i == 0 || i == 1 || i == 2 || i == 3);
            }
        }
        match decode_address(raw) {
            Some(a) => a,
            None => 0,
        }
    } else {
        assert(!is_trinary(raw)) by {
            if p3 == 1 {
                assert(address_pair(raw, 3) == 1);
            } else if p2 == 1 {
                assert(address_pair(raw, 2) == 1);
            } else if p1 == 1 {
                assert(address_pair(raw, 1) == 1);
            } else {
                assert(address_pair(raw, 0) == 1);
            }
        }
        let below3: u8 = if p3 == 0 { 0 } else if p3 <= 2 { 1 } else { 2 };
        let below2: u8 = if p2 == 0 { 0 } else if p2 <= 2 { 1 } else { 2 };
        let below1: u8 = if p1 == 0 { 0 } else if p1 <= 2 { 1 } else { 2 };
        let below0: u8 = if p0 == 0 { 0 } else if p0 <= 2 { 1 } else { 2 };
        let below: u8 = below3 * 27 + if p3 == 1 {
            0
        } else {
            below2 * 9 + if p2 == 1 {
                0
            } else {
                below1 * 3 + if p1 == 1 {
                    0
                } else {
                    below0
                }
            }
        };
        assert(below == trinary_bytes_below(raw));
        assert(below <= raw);
        assert(raw - below <= 174);
        81 + (raw - below)
    }
}

// ---------------------------------------------------------------------------
// Commands
// ---------------------------------------------------------------------------
/// A speed, or the instruction to change direction.
#[derive(Debug, PartialEq, Eq, Structural)]
pub enum MmSpeed {
    /// change direction
    Reverse,
    /// actual speed (0-14)
    Speed(u8),
}

/// `MmLocoCommand` - MM loco packet instruction abstracted from the data bits.
///
/// The data section of an MM packet is complex due to MM2's protocol extension. In MM1, the 8 bits of data
/// are actually 4 paired bits (every two bits are the same). This makes for only 16 values, and thus, 16 different
/// speed instructions. Many MM1 decoders only read the leading bit of each pair leaving the remaining 4 bits
/// functionally unused.
///
/// MM2 exploits this by encoding additional data in the remaining 4 bits. If the remaining four bits differ from
/// their leading counterparts, the packet is considered of type MM2, while remaining compatible with decoders of
/// MM1. The meaning of the remaining four bits is quite complex and can differ depending on the leading "speed" bits
/// of each pair.
///
/// This type is a superset of every possible set of information contained in a data packet. The simplest is `OldSpeed`
/// which contains MM1 type speed information only. `NewSpeed` contains both MM1 speed information and absolute direction.
/// `Function` contains the MM1 speed information along with one function F1-F4 status.
#[derive(Debug, PartialEq, Eq, Structural)]
pub enum MmLocoCommand {
    /// MM1 (old) speed
    OldSpeed(MmSpeed),
    /// MM2 (new) speed with absolute direction
    NewSpeed { speed: MmSpeed, direction: bool },
    /// MM2 (new) speed with function
    Function { speed: MmSpeed, function: u8, state: bool },
}

fn speed_from_code(code: u8) -> (r: MmSpeed)
    requires
        code < 16,
    ensures
        r == speed_of_code(code),
{
    match code {
        0 => MmSpeed::Speed(0),
        1 => MmSpeed::Reverse,
        _ => MmSpeed::Speed(code - 1),
    }
}

// ---------------------------------------------------------------------------
// Locomotive packets
// ---------------------------------------------------------------------------
/// A locomotive-frequency packet: trinary address byte, middle (function F0) bit
/// and data byte.
#[derive(Debug, PartialEq, Eq, Structural)]
pub struct MmLocoPacket {
    address: u8,
    middle: bool,
    data: u8,
}

impl View for MmLocoPacket {
    /// The address byte, the middle bit and the data byte.
    type V = (u8, bool, u8);

    closed spec fn view(&self) -> (u8, bool, u8) {
        (self.address, self.middle, self.data)
    }
}

impl MmLocoPacket {
    /// The packet made of an address byte, a middle bit and a data byte.
    pub closed spec fn spec_new(address: u8, middle: bool, data: u8) -> Self {
        Self { address, middle, data }
    }

    /// The packet made by `spec_new` holds what it was made of.
    pub broadcast proof fn lemma_spec_new_view(address: u8, middle: bool, data: u8)
        ensures
            (#[trigger] Self::spec_new(address, middle, data))@ == (address, middle, data),
    {
    }

    pub fn new(address: u8, middle: bool, data: u8) -> (r: Self)
        ensures
            r == Self::spec_new(address, middle, data),
            r@ == (address, middle, data),
    {
        Self { address, middle, data }
    }

    /// Returns a decimal reprenstation of the trinary address.
    /// This function currently only allows for the 80 addresses as in the first Marklin-motorola protocol and ignores
    /// extended addresses that have since been implemented. As such, addresses that are considered illegal will return None.
    /// This includes the idle packet address.
    pub fn address(&self) -> (r: Option<u8>)
        ensures
            r == spec_address(self@.0),
    {
        decode_address(self.address)
    }

    /// Returns an address in the range of 0-255 (u8) using the extended motorola address encoding.
    /// This encoding uses the trinary-illegal values to encode the addresses 81-255. An address of 0 represents the idle address.
    pub fn ext_address(&self) -> (r: u8)
        ensures
            r == spec_ext_address(self@.0),
    {
        extended_address(self.address)
    }

    /// Returns the headlight function (middle bit) value.
    pub fn f0(&self) -> (r: bool)
        ensures
            r == self@.1,
    {
        self.middle
    }

    /// Exclusively decodes information from MM1 (old).
    pub fn speed(&self) -> (r: MmSpeed)
        ensures
            r == speed_of_code(speed_code(self@.2)),
    {
        let d = self.data;
        proof {
            lemma_data_codes(d);
        }
        let dcba: u8 = (d & 0b1000_0000) >> 7 | (d & 0b0010_0000) >> 4 | (d & 0b0000_1000) >> 1 | (d
            & 0b0000_0010) << 2;
        speed_from_code(dcba)
    }

    /// Decodes information from both MM1 (old) and MM2 (new).
    pub fn command(&self) -> (r: MmLocoCommand)
        ensures
            r == spec_command(self@.2),
    {
        let d = self.data;
        proof {
            lemma_data_codes(d);
        }
        // speed bits (MM1)
        let dcba: u8 = (d & 0b1000_0000) >> 7 | (d & 0b0010_0000) >> 4 | (d & 0b0000_1000) >> 1 | (d
            & 0b0000_0010) << 2;
        // sub-command bits (MM2) - reversed order to match dcba
        let hgfe: u8 = (d & 0b0100_0000) >> 6 | (d & 0b0001_0000) >> 3 | (d & 0b0000_0100) | (d
            & 0b0000_0001) << 3;
        // simplest case is MM1 speed type
        if dcba == hgfe {
            return MmLocoCommand::OldSpeed(speed_from_code(dcba));
        }
        // checking for MM2 speed information - some variants are instead functions

        match hgfe {
            0b0101 => {  // speeds -14 to -7 (includes function exceptions)
                let speed = speed_from_code(dcba);
                return match dcba {
                    3 => MmLocoCommand::Function { speed, function: 1, state: false },  // speed 2
                    4 => MmLocoCommand::Function { speed, function: 2, state: false },  // speed 3
                    6 => MmLocoCommand::Function { speed, function: 3, state: false },  // speed 5
                    7 => MmLocoCommand::Function { speed, function: 4, state: false },  // speed 6
                    _ => MmLocoCommand::NewSpeed { speed, direction: false },
                };
            },
            0b1101 => {  // speeds -6 to -0
                return MmLocoCommand::NewSpeed { speed: speed_from_code(dcba), direction: false };
            },
            0b1010 => {  // speeds +0 to +6 (includes function exceptions)
                let speed = speed_from_code(dcba);
                return match dcba {
                    11 => MmLocoCommand::Function { speed, function: 1, state: true },  // speed 2
                    12 => MmLocoCommand::Function { speed, function: 2, state: true },  // speed 3
                    14 => MmLocoCommand::Function { speed, function: 3, state: true },  // speed 5
                    15 => MmLocoCommand::Function { speed, function: 4, state: true },  // speed 6
                    _ => MmLocoCommand::NewSpeed { speed, direction: true },
                };
            },
            0b0010 => {  // speeds +7 to +14
                return MmLocoCommand::NewSpeed { speed: speed_from_code(dcba), direction: true };
            },
            _ => {},
        }
        // not a speed command, thus must be a normal function command

        let gfe = hgfe & 0b0000_0111;
        let h = hgfe & 0b0000_1000 != 0;
        assert(gfe == hgfe % 8 && h == (hgfe >= 8)) by (bit_vector)
            requires
                gfe == hgfe & 0b0000_0111,
                h == (hgfe & 0b0000_1000 != 0),
                hgfe < 16,
        ;
        let speed = speed_from_code(dcba);
        match gfe {
            0b011 => MmLocoCommand::Function { speed, function: 1, state: h },
            0b100 => MmLocoCommand::Function { speed, function: 2, state: h },
            0b110 => MmLocoCommand::Function { speed, function: 3, state: h },
            0b111 => MmLocoCommand::Function { speed, function: 4, state: h },
            _ => MmLocoCommand::OldSpeed(speed),  // the new protocol is not exhaustive - this is a safety net
        }
    }
}

// ---------------------------------------------------------------------------
// Accessory-frequency packets
// ---------------------------------------------------------------------------
/// `MmAccCommand` - MM accessory packet instruction abstracted from the data bits.
///
/// The higher frequency MM accessory packets are also used for locomotive functions in MM1. This is determined
/// by the middle bits; 1 = accessory, 0 = loco function.
#[derive(Debug, PartialEq, Eq, Structural)]
pub enum MmAccCommand {
    Acc(MmAccPacket),
    Func(MmFuncPacket),
}

/// An accessory-frequency packet before it is told apart into an accessory or a
/// function packet.
#[derive(Debug, PartialEq, Eq, Structural)]
pub struct MmRawAccPacket {
    address: u8,
    middle: bool,
    data: u8,
}

impl View for MmRawAccPacket {
    /// The address byte, the middle bit and the data byte.
    type V = (u8, bool, u8);

    closed spec fn view(&self) -> (u8, bool, u8) {
        (self.address, self.middle, self.data)
    }
}

impl MmRawAccPacket {
    /// The packet made of an address byte, a middle bit and a data byte.
    pub closed spec fn spec_new(address: u8, middle: bool, data: u8) -> Self {
        Self { address, middle, data }
    }

    /// The packet made by `spec_new` holds what it was made of.
    pub broadcast proof fn lemma_spec_new_view(address: u8, middle: bool, data: u8)
        ensures
            (#[trigger] Self::spec_new(address, middle, data))@ == (address, middle, data),
    {
    }

    pub fn new(address: u8, middle: bool, data: u8) -> (r: Self)
        ensures
            r == Self::spec_new(address, middle, data),
            r@ == (address, middle, data),
    {
        Self { address, middle, data }
    }

    /// Resolves the type as either accessory or loco functions:
    /// a middle bit of 1 makes an accessory packet, 0 a loco function packet.
    pub fn get_type(self) -> (r: MmAccCommand)
        ensures
            match r {
                MmAccCommand::Acc(p) => self@.1 && p@ == (self@.0, self@.2),
                MmAccCommand::Func(p) => !self@.1 && p@ == (self@.0, self@.2),
            },
    {
        match self.middle {
            true => MmAccCommand::Acc(MmAccPacket { address: self.address, data: self.data }),
            false => MmAccCommand::Func(MmFuncPacket { address: self.address, data: self.data }),
        }
    }
}

/// An accessory packet: which port of a decoder to switch.
#[derive(Debug, PartialEq, Eq, Structural)]
pub struct MmAccPacket {
    address: u8,
    data: u8,
}

impl View for MmAccPacket {
    /// The address byte and the data byte.
    type V = (u8, u8);

    closed spec fn view(&self) -> (u8, u8) {
        (self.address, self.data)
    }
}

impl MmAccPacket {
    /// Returns a decimal reprenstation of the trinary address.
    /// This function currently only allows for the 80 addresses as in the first Marklin-motorola protocol and ignores
    /// extended addresses that have since been implemented. As such, addresses that are considered illegal will return None.
    /// This includes the idle packet address.
    pub fn address(&self) -> (r: Option<u8>)
        ensures
            r == spec_address(self@.0),
    {
        decode_address(self.address)
    }

    /// Returns an address in the range of 0-255 (u8) using the extended motorola address encoding.
    /// This encoding uses the trinary-illegal values to encode the addresses 81-255. An address of 0 represents the idle address.
    pub fn ext_address(&self) -> (r: u8)
        ensures
            r == spec_ext_address(self@.0),
    {
        extended_address(self.address)
    }

    /// Provides the port (0..7) and its corresponding state
    pub fn output(&self) -> (r: (u8, bool))
        ensures
            r == (spec_port(self@.1), spec_port_state(self@.1)),
    {
        let d = self.data;
        proof {
            lemma_output_bits(d);
        }
        let port = (d & 0b1000_0000) >> 7 | (d & 0b0010_0000) >> 4 | (d & 0b0000_0100);
        let state = d & 0b0000_0011 != 0;
        (port, state)
    }
}

/// A function packet: the states of functions F1 to F4 of an MM1 locomotive.
#[derive(Debug, PartialEq, Eq, Structural)]
pub struct MmFuncPacket {
    address: u8,
    data: u8,
}

impl View for MmFuncPacket {
    /// The address byte and the data byte.
    type V = (u8, u8);

    closed spec fn view(&self) -> (u8, u8) {
        (self.address, self.data)
    }
}

impl MmFuncPacket {
    /// Returns a decimal reprenstation of the trinary address.
    /// This function currently only allows for the 80 addresses as in the first Marklin-motorola protocol and ignores
    /// extended addresses that have since been implemented. As such, addresses that are considered illegal will return None.
    /// This includes the idle packet address.
    pub fn address(&self) -> (r: Option<u8>)
        ensures
            r == spec_address(self@.0),
    {
        decode_address(self.address)
    }

    /// Returns an address in the range of 0-255 (u8) using the extended motorola address encoding.
    /// This encoding uses the trinary-illegal values to encode the addresses 81-255. An address of 0 represents the idle address.
    pub fn ext_address(&self) -> (r: u8)
        ensures
            r == spec_ext_address(self@.0),
    {
        extended_address(self.address)
    }

    /// Boolean array for functions F1-F4. Index 0 = F1.
    /// Function `i + 1` is on when either bit of data bit pair `i` is set.
    pub fn states(&self) -> (r: [bool; 4])
        ensures
            r@ == seq![
                bit(self@.1, 7) == 1 || bit(self@.1, 6) == 1,
                bit(self@.1, 5) == 1 || bit(self@.1, 4) == 1,
                bit(self@.1, 3) == 1 || bit(self@.1, 2) == 1,
                bit(self@.1, 1) == 1 || bit(self@.1, 0) == 1,
            ],
    {
        let d = self.data;
        proof {
            lemma_output_bits(d);
        }
        let states = [
            (d & 0b1100_0000) != 0,
            (d & 0b0011_0000) != 0,
            (d & 0b0000_1100) != 0,
            (d & 0b0000_0011) != 0,
        ];
        assert(states@ =~= seq![
            bit(d, 7) == 1 || bit(d, 6) == 1,
            bit(d, 5) == 1 || bit(d, 4) == 1,
            bit(d, 3) == 1 || bit(d, 2) == 1,
            bit(d, 1) == 1 || bit(d, 0) == 1,
        ]);
        states
    }
}

} // verus!

verus! {

// ---------------------------------------------------------------------------
// Laws of addresses
// ---------------------------------------------------------------------------
/// The two-bit group that stands for a trinary digit.
pub open spec fn pair_of_trit(t: nat) -> u8 {
    if t == 0 {
        0
    } else if t == 1 {
        3
    } else {
        2
    }
}

/// The address byte of decimal address `a` (1 to 80): the trinary digits of `a`
/// (of 0 for address 80), the most significant in group 0.
pub open spec fn address_byte(a: u8) -> u8 {
    let v = (a % 80) as nat;
    (pair_of_trit(v / 27) + 4 * pair_of_trit((v / 9) % 3) + 16 * pair_of_trit((v / 3) % 3) + 64
        * pair_of_trit(v % 3)) as u8
}

proof fn lemma_trinary_digits(raw: u8)
    ensures
        trinary_value(raw) == 27 * trit(address_pair(raw, 0)) + 9 * trit(address_pair(raw, 1)) + 3
            * trit(address_pair(raw, 2)) + trit(address_pair(raw, 3)),
        trinary_value(raw) <= 80,
{
    reveal_with_fuel(trinary_prefix, 5);
}

/// A decoded address is one of the 80 addresses, 1 to 80.
pub proof fn lemma_address_range(raw: u8)
    ensures
        spec_address(raw) matches Some(a) ==> 1 <= a <= 80,
{
    lemma_trinary_digits(raw);
}

/// Each of the 80 addresses has exactly one address byte: the byte `address_byte`
/// gives decodes to it, and no other byte does.
pub proof fn lemma_address_encoding(raw: u8, a: u8)
    requires
        1 <= a <= 80,
    ensures
        spec_address(address_byte(a)) == Some(a),
        spec_address(raw) == Some(a) ==> raw == address_byte(a),
{
    let b = address_byte(a);
    let v = (a % 80) as nat;
    lemma_pairs(b);
    lemma_trinary_digits(b);
    assert(address_pair(b, 0) == pair_of_trit(v / 27) && address_pair(b, 1) == pair_of_trit(
        (v / 9) % 3,
    ) && address_pair(b, 2) == pair_of_trit((v / 3) % 3) && address_pair(b, 3) == pair_of_trit(
        v % 3,
    ));
    assert(is_trinary(b)) by {
        assert forall|i: u8| i < 4 implies address_pair(b, i) != 1 by {
            assert(i == 0 || i == 1 || i == 2 || i == 3);
        }
    }
    assert(trinary_value(b) == v);
    if spec_address(raw) == Some(a) {
        lemma_pairs(raw);
        lemma_trinary_digits(raw);
        assert(address_pair(raw, 0) != 1 && address_pair(raw, 1) != 1 && address_pair(raw, 2) != 1
            && address_pair(raw, 3) != 1);
        assert(trinary_value(raw) == v);
    }
}

/// The extended addresses extend the trinary ones: a trinary byte keeps its address,
/// the idle address is 0, and every other byte has an address from 81 to 255.
pub proof fn lemma_ext_address_extends(raw: u8)
    ensures
        spec_address(raw) matches Some(a) ==> spec_ext_address(raw) == a,
        is_trinary(raw) && spec_address(raw) is None ==> spec_ext_address(raw) == 0,
        !is_trinary(raw) ==> 81 <= spec_ext_address(raw) <= 255,
{
    lemma_ext_bound(raw);
}

proof fn lemma_ext_bound(raw: u8)
    ensures
        !is_trinary(raw) ==> trinary_bytes_below(raw) <= raw && raw - trinary_bytes_below(raw)
            <= 174,
{
    lemma_pairs(raw);
    if !is_trinary(raw) {
        let i = choose|i: u8| i < 4 && address_pair(raw, i) == 1;
        assert(i == 0 || i == 1 || i == 2 || i == 3);
    }
}

/// Going from one byte to the next, the count of smaller trinary bytes grows by one
/// exactly when the byte is trinary.
proof fn lemma_trinary_bytes_below_step(r: u8)
    requires
        r < 255,
    ensures
        trinary_bytes_below((r + 1) as u8) == trinary_bytes_below(r) + if is_trinary(r) {
            1int
        } else {
            0int
        },
{
    let s = (r + 1) as u8;
    lemma_pairs(r);
    lemma_pairs(s);
    if is_trinary(r) {
        assert(address_pair(r, 0) != 1 && address_pair(r, 1) != 1 && address_pair(r, 2) != 1
            && address_pair(r, 3) != 1);
    } else {
        let i = choose|i: u8| i < 4 && address_pair(r, i) == 1;
        assert(i == 0 || i == 1 || i == 2 || i == 3);
    }
}

proof fn lemma_trinary_bytes_below_gap(r1: u8, r2: u8)
    requires
        r1 < r2,
        !is_trinary(r1),
    ensures
        trinary_bytes_below(r2) - trinary_bytes_below(r1) <= r2 - r1 - 1,
    decreases r2 - r1,
{
    if r2 == r1 + 1 {
        lemma_trinary_bytes_below_step(r1);
    } else {
        lemma_trinary_bytes_below_gap(r1, (r2 - 1) as u8);
        lemma_trinary_bytes_below_step((r2 - 1) as u8);
    }
}

/// No two address bytes share an extended address.
pub proof fn lemma_ext_address_distinct(r1: u8, r2: u8)
    requires
        r1 != r2,
    ensures
        spec_ext_address(r1) != spec_ext_address(r2),
{
    lemma_ext_address_extends(r1);
    lemma_ext_address_extends(r2);
    lemma_trinary_digits(r1);
    lemma_trinary_digits(r2);
    if is_trinary(r1) && is_trinary(r2) {
        lemma_address_range(r1);
        lemma_address_range(r2);
        if spec_address(r1) is None && spec_address(r2) is None {
            // both are the idle address: the byte of trinary 80 is unique too
            lemma_pairs(r1);
            lemma_pairs(r2);
            assert(address_pair(r1, 0) != 1 && address_pair(r1, 1) != 1 && address_pair(r1, 2)
                != 1 && address_pair(r1, 3) != 1);
            assert(address_pair(r2, 0) != 1 && address_pair(r2, 1) != 1 && address_pair(r2, 2)
                != 1 && address_pair(r2, 3) != 1);
        } else if spec_address(r1) is Some {
            lemma_address_encoding(r1, spec_address(r1)->0);
            lemma_address_encoding(r2, spec_address(r1)->0);
        } else {
            lemma_address_encoding(r2, spec_address(r2)->0);
            lemma_address_encoding(r1, spec_address(r2)->0);
        }
    } else if !is_trinary(r1) && !is_trinary(r2) {
        lemma_ext_bound(r1);
        lemma_ext_bound(r2);
        if r1 < r2 {
            lemma_trinary_bytes_below_gap(r1, r2);
        } else {
            lemma_trinary_bytes_below_gap(r2, r1);
        }
    }
}

// ---------------------------------------------------------------------------
// Laws of commands
// ---------------------------------------------------------------------------
/// The speed a command carries.
pub open spec fn command_speed(c: MmLocoCommand) -> MmSpeed {
    match c {
        MmLocoCommand::OldSpeed(speed) => speed,
        MmLocoCommand::NewSpeed { speed, .. } => speed,
        MmLocoCommand::Function { speed, .. } => speed,
    }
}

/// Every command carries the MM1 speed of its data byte, which is a change of
/// direction or a speed step from 0 to 14, and a function command names one of the
/// functions F1 to F4.
pub proof fn lemma_command_speed(d: u8)
    ensures
        command_speed(spec_command(d)) == speed_of_code(speed_code(d)),
        speed_of_code(speed_code(d)) matches MmSpeed::Speed(n) ==> n <= 14,
        spec_command(d) matches MmLocoCommand::Function { function, .. } ==> 1 <= function <= 4,
{
    lemma_data_codes(d);
}

/// An MM1 data byte, each of whose four bit pairs holds the same bit twice, is
/// decoded as an MM1 speed.
pub proof fn lemma_mm1_command(d: u8)
    requires
        bit(d, 7) == bit(d, 6),
        bit(d, 5) == bit(d, 4),
        bit(d, 3) == bit(d, 2),
        bit(d, 1) == bit(d, 0),
    ensures
        spec_command(d) == MmLocoCommand::OldSpeed(speed_of_code(speed_code(d))),
{
}

/// The MM1 speed steps: speed code 0 stops, code 1 and no other changes direction,
/// and every code from 2 to 15 is speed step one less than the code, so that the
/// codes 2 to 15 give the fourteen steps 1 to 14, each once, in order.
pub proof fn lemma_speed_steps(d: u8)
    ensures
        speed_code(d) <= 15,
        (speed_of_code(speed_code(d)) == MmSpeed::Reverse) == (speed_code(d) == 1),
        speed_code(d) == 0 ==> speed_of_code(speed_code(d)) == MmSpeed::Speed(0),
        speed_code(d) >= 2 ==> speed_of_code(speed_code(d)) == MmSpeed::Speed(
            (speed_code(d) - 1) as u8,
        ),
{
    lemma_data_codes(d);
}

/// The step of a speed, -1 standing for a change of direction.
pub open spec fn speed_step(s: MmSpeed) -> int {
    match s {
        MmSpeed::Speed(n) => n as int,
        MmSpeed::Reverse => -1,
    }
}

/// The absolute direction a command gives, if it gives one (`true` is forward).
pub open spec fn command_direction(c: MmLocoCommand) -> Option<bool> {
    match c {
        MmLocoCommand::NewSpeed { direction, .. } => Some(direction),
        _ => None,
    }
}

/// Two data bytes with different speed codes from 2 to 15 ask for different speed
/// steps, the higher code for the higher step.
pub proof fn lemma_speed_steps_ordered(d1: u8, d2: u8)
    requires
        2 <= speed_code(d1) < speed_code(d2),
    ensures
        speed_of_code(speed_code(d1)) != MmSpeed::Reverse,
        speed_of_code(speed_code(d2)) != MmSpeed::Reverse,
        speed_step(speed_of_code(speed_code(d1))) < speed_step(speed_of_code(speed_code(d2))),
{
    lemma_speed_steps(d1);
    lemma_speed_steps(d2);
}

/// The MM2 direction: when the sub-command bits differ from the speed code, a command
/// with an absolute direction has the direction forward exactly when the sub-command
/// is 0b1010 or 0b0010 (trailing bit E, data bit 6, is 0), and reverse when it is
/// 0b0101 or 0b1101 (E is 1). Sub-command 0b1101 (reverse, speeds 0 to 6) and 0b0010
/// (forward, speeds 7 to 14) always give a speed with that direction, whatever the
/// speed code; no other sub-command gives a direction.
pub proof fn lemma_mm2_direction(d: u8)
    requires
        speed_code(d) != sub_code(d),
    ensures
        command_direction(spec_command(d)) is Some ==> command_direction(spec_command(d)) == Some(
            sub_code(d) == 0b1010 || sub_code(d) == 0b0010,
        ) && command_direction(spec_command(d)) == Some(bit(d, 6) == 0) && (sub_code(d) == 0b0101
            || sub_code(d) == 0b1101 || sub_code(d) == 0b1010 || sub_code(d) == 0b0010),
        sub_code(d) == 0b1101 ==> spec_command(d) == (MmLocoCommand::NewSpeed {
            speed: speed_of_code(speed_code(d)),
            direction: false,
        }),
        sub_code(d) == 0b0010 ==> spec_command(d) == (MmLocoCommand::NewSpeed {
            speed: speed_of_code(speed_code(d)),
            direction: true,
        }),
{
    lemma_data_codes(d);
    assert(bit(d, 6) == sub_code(d) % 2) by (bit_vector);
}

/// The MM2 function exceptions. With sub-command 0b0101 (reverse, speeds 7 to 14) the
/// speed codes 3, 4, 6 and 7 switch F1, F2, F3 and F4 off, at speed steps 2, 3, 5 and
/// 6; every other code is a reverse speed. With sub-command 0b1010 (forward, speeds 0
/// to 6) the speed codes 11, 12, 14 and 15 switch F1, F2, F3 and F4 on, at speed
/// steps 10, 11, 13 and 14; every other code (but 10, an MM1 speed) is a forward speed.
pub proof fn lemma_mm2_function_exceptions(d: u8)
    ensures
        sub_code(d) == 0b0101 ==> spec_command(d) == (if speed_code(d) == 3 {
            MmLocoCommand::Function { speed: MmSpeed::Speed(2), function: 1, state: false }
        } else if speed_code(d) == 4 {
            MmLocoCommand::Function { speed: MmSpeed::Speed(3), function: 2, state: false }
        } else if speed_code(d) == 6 {
            MmLocoCommand::Function { speed: MmSpeed::Speed(5), function: 3, state: false }
        } else if speed_code(d) == 7 {
            MmLocoCommand::Function { speed: MmSpeed::Speed(6), function: 4, state: false }
        } else if speed_code(d) == 5 {
            MmLocoCommand::OldSpeed(MmSpeed::Speed(4))
        } else {
            MmLocoCommand::NewSpeed { speed: speed_of_code(speed_code(d)), direction: false }
        }),
        sub_code(d) == 0b1010 ==> spec_command(d) == (if speed_code(d) == 11 {
            MmLocoCommand::Function { speed: MmSpeed::Speed(10), function: 1, state: true }
        } else if speed_code(d) == 12 {
            MmLocoCommand::Function { speed: MmSpeed::Speed(11), function: 2, state: true }
        } else if speed_code(d) == 14 {
            MmLocoCommand::Function { speed: MmSpeed::Speed(13), function: 3, state: true }
        } else if speed_code(d) == 15 {
            MmLocoCommand::Function { speed: MmSpeed::Speed(14), function: 4, state: true }
        } else if speed_code(d) == 10 {
            MmLocoCommand::OldSpeed(MmSpeed::Speed(9))
        } else {
            MmLocoCommand::NewSpeed { speed: speed_of_code(speed_code(d)), direction: true }
        }),
{
    lemma_data_codes(d);
}

/// The MM2 function commands. When the sub-command bits differ from the speed code and
/// are none of the speed sub-commands 0b0101, 0b1101, 0b1010 and 0b0010, their low
/// three bits name the function (0b011 F1, 0b100 F2, 0b110 F3, 0b111 F4) and their
/// highest bit H, data bit 0, is its new state; any other low three bits leave an MM1
/// speed. The speed is the MM1 speed throughout.
pub proof fn lemma_mm2_function_commands(d: u8)
    requires
        speed_code(d) != sub_code(d),
        sub_code(d) != 0b0101,
        sub_code(d) != 0b1101,
        sub_code(d) != 0b1010,
        sub_code(d) != 0b0010,
    ensures
        ({
            let low = sub_code(d) % 8;
            let h = bit(d, 0) == 1;
            let speed = speed_of_code(speed_code(d));
            spec_command(d) == (if low == 0b011 {
                MmLocoCommand::Function { speed, function: 1, state: h }
            } else if low == 0b100 {
                MmLocoCommand::Function { speed, function: 2, state: h }
            } else if low == 0b110 {
                MmLocoCommand::Function { speed, function: 3, state: h }
            } else if low == 0b111 {
                MmLocoCommand::Function { speed, function: 4, state: h }
            } else {
                MmLocoCommand::OldSpeed(speed)
            })
        }),
{
    lemma_data_codes(d);
    assert((bit(d, 0) == 1) == (sub_code(d) >= 8)) by (bit_vector);
}

/// The function and state a command switches, if it switches one.
pub open spec fn switched(c: MmLocoCommand) -> Option<(u8, bool)> {
    match c {
        MmLocoCommand::Function { function, state, .. } => Some((function, state)),
        _ => None,
    }
}

/// A function exception switches the same function, to the same state, as the
/// function command whose sub-command bits are the exception's speed code: the speed
/// code of an exception reads as a function command.
pub proof fn lemma_exceptions_read_as_function_commands(d1: u8, d2: u8)
    requires
        sub_code(d1) == 0b0101 || sub_code(d1) == 0b1010,
        switched(spec_command(d1)) is Some,
        sub_code(d2) == speed_code(d1),
        speed_code(d2) != sub_code(d2),
    ensures
        switched(spec_command(d1)) == switched(spec_command(d2)),
{
    lemma_data_codes(d1);
    lemma_data_codes(d2);
    assert((bit(d2, 0) == 1) == (sub_code(d2) >= 8)) by (bit_vector);
}

/// The speed and sub-command codes in plain arithmetic: the speed code takes data
/// bits 7, 5, 3 and 1 as its bits 0 to 3, the sub-command code bits 6, 4, 2 and 0.
pub proof fn lemma_data_codes_arithmetic(d: u8)
    ensures
        speed_code(d) == (d / 128) % 2 + 2 * ((d / 32) % 2) + 4 * ((d / 8) % 2) + 8 * ((d / 2) % 2),
        sub_code(d) == (d / 64) % 2 + 2 * ((d / 16) % 2) + 4 * ((d / 4) % 2) + 8 * (d % 2),
{
    assert(speed_code(d) == (d / 128) % 2 + 2 * ((d / 32) % 2) + 4 * ((d / 8) % 2) + 8 * ((d / 2)
        % 2)) by (bit_vector);
    assert(sub_code(d) == (d / 64) % 2 + 2 * ((d / 16) % 2) + 4 * ((d / 4) % 2) + 8 * (d % 2))
        by (bit_vector);
}

/// Accessory outputs in plain arithmetic: the port takes data bits 7, 5 and 2 as its
/// bits 0 to 2, and the port is switched on when either of data bits 1 and 0 is set.
/// Function F(i + 1) of a function packet is on when data bit pair i (from the most
/// significant end) is not 00.
pub proof fn lemma_outputs_arithmetic(d: u8)
    ensures
        spec_port(d) == (d / 128) % 2 + 2 * ((d / 32) % 2) + 4 * ((d / 4) % 2),
        spec_port_state(d) == (d % 4 != 0),
        (bit(d, 7) == 1 || bit(d, 6) == 1) == ((d / 64) % 4 != 0),
        (bit(d, 5) == 1 || bit(d, 4) == 1) == ((d / 16) % 4 != 0),
        (bit(d, 3) == 1 || bit(d, 2) == 1) == ((d / 4) % 4 != 0),
        (bit(d, 1) == 1 || bit(d, 0) == 1) == (d % 4 != 0),
{
    assert(spec_port(d) == (d / 128) % 2 + 2 * ((d / 32) % 2) + 4 * ((d / 4) % 2)) by (bit_vector);
    assert(spec_port_state(d) == (d % 4 != 0)) by (bit_vector);
    assert((bit(d, 7) == 1 || bit(d, 6) == 1) == ((d / 64) % 4 != 0)) by (bit_vector);
    assert((bit(d, 5) == 1 || bit(d, 4) == 1) == ((d / 16) % 4 != 0)) by (bit_vector);
    assert((bit(d, 3) == 1 || bit(d, 2) == 1) == ((d / 4) % 4 != 0)) by (bit_vector);
    assert((bit(d, 1) == 1 || bit(d, 0) == 1) == (d % 4 != 0)) by (bit_vector);
}

/// The value of two-bit group `i` of an address byte.
pub open spec fn group_weight(i: u8) -> nat {
    if i == 0 {
        1
    } else if i == 1 {
        4
    } else if i == 2 {
        16
    } else {
        64
    }
}

/// The value of trinary digit `i` of an address, group 0 being the most significant.
pub open spec fn digit_weight(i: u8) -> nat {
    if i == 0 {
        27
    } else if i == 1 {
        9
    } else if i == 2 {
        3
    } else {
        1
    }
}

/// Trinary digits: turning a group `00` of an address byte into `11` adds its digit
/// weight to the trinary value, turning it into `10` adds twice its digit weight, and
/// group 0 (bits 0 and 1) is the most significant digit, group 3 the least.
pub proof fn lemma_trinary_digit_weights(raw: u8, i: u8)
    requires
        i < 4,
        address_pair(raw, i) == 0,
    ensures
        trinary_value((raw + 3 * group_weight(i)) as u8) == trinary_value(raw) + digit_weight(i),
        trinary_value((raw + 2 * group_weight(i)) as u8) == trinary_value(raw) + 2 * digit_weight(
            i,
        ),
{
    let r1 = (raw + 3 * group_weight(i)) as u8;
    let r2 = (raw + 2 * group_weight(i)) as u8;
    lemma_pairs(raw);
    lemma_pairs(r1);
    lemma_pairs(r2);
    lemma_trinary_digits(raw);
    lemma_trinary_digits(r1);
    lemma_trinary_digits(r2);
    assert(i == 0 || i == 1 || i == 2 || i == 3);
}

/// An accessory data byte addresses one of the ports 0 to 7.
pub proof fn lemma_port_range(d: u8)
    ensures
        spec_port(d) <= 7,
{
    lemma_output_bits(d);
}

} // verus!
