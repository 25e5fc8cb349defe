//! Pulse trains as a sender puts them on the track, and what a machine makes of them.
use vstd::prelude::*;

use crate::buildable_u8::shifted_in;
use crate::mm_machine::{
    lemma_timing_windows, spec_classify, step, take_bit, MachineView, MmAccTiming, MmLocoTiming,
    MmPulse, MmTiming, Stage,
};
use crate::mm_packet::bit;

verus! {

/// Feeds pulses to a machine one after another: the final state, and what each
/// pulse delivered.
pub open spec fn run<T: MmTiming>(s: MachineView<T::Packet>, pulses: Seq<u16>) -> (
    MachineView<T::Packet>,
    Seq<Option<T::Packet>>,
)
    decreases pulses.len(),
{
    if pulses.len() == 0 {
        (s, seq![])
    } else {
        let (s1, out) = run::<T>(s, pulses.drop_last());
        let (s2, o) = step::<T>(s1, pulses.last());
        (s2, out.push(o))
    }
}

/// The leading half of a bit: short for 0, long for 1.
pub open spec fn lead_pulse(one: bool, short: u16, long: u16) -> u16 {
    if one {
        long
    } else {
        short
    }
}

/// Both halves of a bit: the leading half, then a pulse of the other kind.
pub open spec fn bit_pulses(one: bool, short: u16, long: u16) -> Seq<u16> {
    if one {
        seq![long, short]
    } else {
        seq![short, long]
    }
}

/// The first `k` bits of a byte, most significant bit first, each with both halves.
pub open spec fn byte_pulses(x: u8, k: nat, short: u16, long: u16) -> Seq<u16>
    decreases k,
{
    if k == 0 {
        seq![]
    } else {
        byte_pulses(x, (k - 1) as nat, short, long) + bit_pulses(
            bit(x, (8 - k) as u8) == 1,
            short,
            long,
        )
    }
}

/// A packet on the track: the address byte, the two middle bits, the data byte, all
/// most significant bit first. The last bit has only its leading half: on the track
/// the pause that ends the packet stands for its second half.
pub open spec fn packet_pulses(
    address: u8,
    first_middle: bool,
    middle: bool,
    data: u8,
    short: u16,
    long: u16,
) -> Seq<u16> {
    byte_pulses(address, 8, short, long) + bit_pulses(first_middle, short, long) + bit_pulses(
        middle,
        short,
        long,
    ) + byte_pulses(data, 7, short, long) + seq![lead_pulse(bit(data, 0) == 1, short, long)]
}

/// `n` times nothing.
pub open spec fn nothing<P>(n: nat) -> Seq<Option<P>> {
    Seq::new(n, |i: int| None::<P>)
}

/// The bits that the first `k` bits of `x`, most significant first, leave in a byte
/// that held `d`.
pub open spec fn shift_first(d: u8, x: u8, k: nat) -> u8
    decreases k,
{
    if k == 0 {
        d
    } else {
        shifted_in(shift_first(d, x, (k - 1) as nat), bit(x, (8 - k) as u8))
    }
}

/// A byte stage with `n` bits making `d`: of the address byte, or of the data byte.
pub open spec fn byte_stage(is_data: bool, d: u8, n: u8) -> Stage {
    if is_data {
        Stage::Data(d, n)
    } else {
        Stage::Address(d, n)
    }
}

/// What a sender's timing must be: a short pulse, a long pulse and a gap that the
/// machine takes as such.
pub open spec fn fair_timing<T: MmTiming>(short: u16, long: u16, gap: u16) -> bool {
    &&& spec_classify::<T>(short) == MmPulse::Short
    &&& spec_classify::<T>(long) == MmPulse::Long
    &&& spec_classify::<T>(gap) == MmPulse::Invalid
}

/// Feeding `a` and then `b` is feeding `a + b`.
pub proof fn lemma_run_append<T: MmTiming>(
    s: MachineView<T::Packet>,
    a: Seq<u16>,
    b: Seq<u16>,
)
    ensures
        run::<T>(s, a + b) == (
            run::<T>(run::<T>(s, a).0, b).0,
            run::<T>(s, a).1 + run::<T>(run::<T>(s, a).0, b).1,
        ),
    decreases b.len(),
{
    if b.len() == 0 {
        assert(a + b =~= a);
        assert(run::<T>(s, a).1 + run::<T>(run::<T>(s, a).0, b).1 =~= run::<T>(s, a).1);
    } else {
        lemma_run_append::<T>(s, a, b.drop_last());
        assert((a + b).drop_last() =~= a + b.drop_last());
        assert((a + b).last() == b.last());
        let mid = run::<T>(s, a).0;
        let r1 = run::<T>(s, a).1;
        let rb = run::<T>(mid, b.drop_last());
        let st = step::<T>(rb.0, b.last());
        assert(r1 + rb.1.push(st.1) =~= (r1 + rb.1).push(st.1));
    }
}

/// Feeding one pulse is one step.
pub proof fn lemma_run_one<T: MmTiming>(s: MachineView<T::Packet>, x: u16)
    ensures
        run::<T>(s, seq![x]) == (step::<T>(s, x).0, seq![step::<T>(s, x).1]),
{
    reveal_with_fuel(run, 2);
    assert(seq![x].drop_last() =~= Seq::<u16>::empty());
    assert(seq![x].last() == x);
    assert(Seq::<Option<T::Packet>>::empty().push(step::<T>(s, x).1) =~= seq![
        step::<T>(s, x).1,
    ]);
}

/// Both halves of a bit that completes no packet take the bit and leave the machine
/// awaiting the next leading half.
proof fn lemma_bit<T: MmTiming>(s: MachineView<T::Packet>, one: bool, short: u16, long: u16)
    requires
        s.wf(),
        s.prev_pulse == MmPulse::IdlePrev,
        spec_classify::<T>(short) == MmPulse::Short,
        spec_classify::<T>(long) == MmPulse::Long,
        !(s.stage matches Stage::Data(_, n) && n == 7),
    ensures
        run::<T>(s, bit_pulses(one, short, long)) == (
            take_bit::<T>(s, one).0.with_prev_pulse(MmPulse::IdlePrev),
            nothing::<T::Packet>(2),
        ),
        take_bit::<T>(s, one).0.wf(),
{
    let lead = lead_pulse(one, short, long);
    let trail = if one {
        short
    } else {
        long
    };
    assert(bit_pulses(one, short, long) =~= seq![lead] + seq![trail]);
    lemma_run_append::<T>(s, seq![lead], seq![trail]);
    lemma_run_one::<T>(s, lead);
    let kind = if one {
        MmPulse::Long
    } else {
        MmPulse::Short
    };
    let s1 = step::<T>(s, lead).0;
    assert(s.with_prev_pulse(kind).stage == s.stage);
    assert(s1 == take_bit::<T>(s.with_prev_pulse(kind), one).0);
    assert(s1.prev_pulse == kind);
    lemma_run_one::<T>(s1, trail);
    assert(take_bit::<T>(s.with_prev_pulse(kind), one).0.with_prev_pulse(MmPulse::IdlePrev)
        == take_bit::<T>(s, one).0.with_prev_pulse(MmPulse::IdlePrev));
    assert(seq![None::<T::Packet>] + seq![None::<T::Packet>] =~= nothing::<T::Packet>(2));
}

/// The first `k` (at most 7) bits of a byte, fed to a machine that starts that byte,
/// are gathered in its stage.
proof fn lemma_byte<T: MmTiming>(
    s: MachineView<T::Packet>,
    is_data: bool,
    d: u8,
    x: u8,
    k: nat,
    short: u16,
    long: u16,
)
    requires
        s.prev_pulse == MmPulse::IdlePrev,
        s.stage == byte_stage(is_data, d, 0),
        k <= 7,
        spec_classify::<T>(short) == MmPulse::Short,
        spec_classify::<T>(long) == MmPulse::Long,
    ensures
        run::<T>(s, byte_pulses(x, k, short, long)) == (
            s.with_stage(byte_stage(is_data, shift_first(d, x, k), k as u8)),
            nothing::<T::Packet>(2 * k),
        ),
    decreases k,
{
    if k == 0 {
        assert(s.with_stage(byte_stage(is_data, d, 0)) == s);
        assert(nothing::<T::Packet>(0) =~= seq![]);
    } else {
        let k1 = (k - 1) as nat;
        lemma_byte::<T>(s, is_data, d, x, k1, short, long);
        let one = bit(x, (8 - k) as u8) == 1;
        lemma_run_append::<T>(s, byte_pulses(x, k1, short, long), bit_pulses(one, short, long));
        let mid = s.with_stage(byte_stage(is_data, shift_first(d, x, k1), k1 as u8));
        lemma_bit::<T>(mid, one, short, long);
        assert(bit(x, (8 - k) as u8) == (if one {
            1u8
        } else {
            0u8
        })) by {
            let b = (8 - k) as u8;
            assert((x >> b) & 1 == 0 || (x >> b) & 1 == 1) by (bit_vector);
        }
        assert(take_bit::<T>(mid, one).0.with_prev_pulse(MmPulse::IdlePrev) == s.with_stage(
            byte_stage(is_data, shift_first(d, x, k), k as u8),
        ));
        assert(nothing::<T::Packet>(2 * k1) + nothing::<T::Packet>(2) =~= nothing::<T::Packet>(
            2 * k,
        ));
    }
}

proof fn lemma_eight_bits(d: u8, x: u8)
    by (bit_vector)
    ensures
        shifted_in(
            shifted_in(
                shifted_in(
                    shifted_in(
                        shifted_in(
                            shifted_in(shifted_in(shifted_in(d, bit(x, 7)), bit(x, 6)), bit(x, 5)),
                            bit(x, 4),
                        ),
                        bit(x, 3),
                    ),
                    bit(x, 2),
                ),
                bit(x, 1),
            ),
            bit(x, 0),
        ) == x,
        bit(x, 0) == 0 || bit(x, 0) == 1,
{
}

/// The last bit of a byte leaves the byte whole, whatever the byte held before.
proof fn lemma_byte_complete(d: u8, x: u8)
    ensures
        shifted_in(shift_first(d, x, 7), bit(x, 0)) == x,
        bit(x, 0) == 0 || bit(x, 0) == 1,
{
    reveal_with_fuel(shift_first, 8);
    lemma_eight_bits(d, x);
}

/// One packet, fed to a machine at the start of a packet (awaiting a new address
/// byte, led by the next pulse), leaves the machine at the start of the next one. The
/// leading half of its last bit delivers the packet when it repeats the packet that
/// waited, and makes it wait otherwise; no other pulse delivers anything. Of the two
/// middle bits the second is kept.
pub proof fn lemma_packet<T: MmTiming>(
    s: MachineView<T::Packet>,
    d0: u8,
    address: u8,
    first_middle: bool,
    middle: bool,
    data: u8,
    short: u16,
    long: u16,
)
    requires
        s.prev_pulse == MmPulse::IdlePrev,
        s.stage == Stage::Address(d0, 0),
        spec_classify::<T>(short) == MmPulse::Short,
        spec_classify::<T>(long) == MmPulse::Long,
    ensures
        ({
            let p = T::spec_make_packet(address, middle, data);
            let (s2, out) = run::<T>(
                s,
                packet_pulses(address, first_middle, middle, data, short, long),
            );
            &&& out.len() == 35
            &&& forall|i: int| 0 <= i < 34 ==> out[i] is None
            &&& out[34] == (if s.prev_packet == Some(p) {
                Some(p)
            } else {
                None
            })
            &&& s2 == (MachineView {
                stage: Stage::Address(0, 0),
                prev_pulse: MmPulse::IdlePrev,
                address,
                middle,
                prev_packet: if s.prev_packet == Some(p) {
                    None
                } else {
                    Some(p)
                },
            })
        }),
{
    let p = T::spec_make_packet(address, middle, data);
    let a7 = byte_pulses(address, 7, short, long);
    let a_last = bit_pulses(bit(address, 0) == 1, short, long);
    let m1 = bit_pulses(first_middle, short, long);
    let m2 = bit_pulses(middle, short, long);
    let d7 = byte_pulses(data, 7, short, long);
    let lead = lead_pulse(bit(data, 0) == 1, short, long);
    let tail = seq![lead];
    assert(byte_pulses(address, 8, short, long) == a7 + a_last);
    assert(packet_pulses(address, first_middle, middle, data, short, long) =~= a7 + a_last + m1
        + m2 + d7 + tail);

    // the first seven address bits
    lemma_byte::<T>(s, false, d0, address, 7, short, long);
    let s1 = s.with_stage(Stage::Address(shift_first(d0, address, 7), 7));
    // the last address bit
    lemma_byte_complete(d0, address);
    lemma_bit::<T>(s1, bit(address, 0) == 1, short, long);
    let s2 = MachineView {
        stage: Stage::Middle(0),
        prev_pulse: MmPulse::IdlePrev,
        address,
        middle: s.middle,
        prev_packet: s.prev_packet,
    };
    assert(take_bit::<T>(s1, bit(address, 0) == 1).0.with_prev_pulse(MmPulse::IdlePrev) == s2);
    // the middle bits
    lemma_bit::<T>(s2, first_middle, short, long);
    let s3 = s2.with_stage(Stage::Middle(1));
    assert(take_bit::<T>(s2, first_middle).0.with_prev_pulse(MmPulse::IdlePrev) == s3);
    lemma_bit::<T>(s3, middle, short, long);
    let s4 = MachineView {
        stage: Stage::Data(0, 0),
        prev_pulse: MmPulse::IdlePrev,
        address,
        middle,
        prev_packet: s.prev_packet,
    };
    assert(take_bit::<T>(s3, middle).0.with_prev_pulse(MmPulse::IdlePrev) == s4);
    // the first seven data bits
    lemma_byte::<T>(s4, true, 0, data, 7, short, long);
    let s5 = s4.with_stage(Stage::Data(shift_first(0, data, 7), 7));
    // the leading half of the last data bit
    lemma_byte_complete(0, data);
    lemma_run_one::<T>(s5, lead);
    let st = step::<T>(s5, lead);
    let s6 = MachineView {
        stage: Stage::Address(0, 0),
        prev_pulse: MmPulse::IdlePrev,
        address,
        middle,
        prev_packet: if s.prev_packet == Some(p) {
            None
        } else {
            Some(p)
        },
    };
    let o = if s.prev_packet == Some(p) {
        Some(p)
    } else {
        None
    };
    assert(st == (s6, o));

    // glue the pieces
    lemma_run_append::<T>(s, a7, a_last);
    lemma_run_append::<T>(s, a7 + a_last, m1);
    lemma_run_append::<T>(s, a7 + a_last + m1, m2);
    lemma_run_append::<T>(s, a7 + a_last + m1 + m2, d7);
    lemma_run_append::<T>(s, a7 + a_last + m1 + m2 + d7, tail);
    let out = run::<T>(s, packet_pulses(address, first_middle, middle, data, short, long)).1;
    assert(out =~= nothing::<T::Packet>(14) + nothing::<T::Packet>(2) + nothing::<T::Packet>(2)
        + nothing::<T::Packet>(2) + nothing::<T::Packet>(14) + seq![o]);
}

/// A packet sent twice, each copy after a gap, is delivered exactly once, whatever
/// state the machine was in: at the end of its second copy, or, when that very packet
/// already waited for its repetition, at the end of its first copy.
pub proof fn lemma_packet_sent_twice<T: MmTiming>(
    s: MachineView<T::Packet>,
    address: u8,
    middle: bool,
    data: u8,
    short: u16,
    long: u16,
    gap: u16,
)
    requires
        fair_timing::<T>(short, long, gap),
    ensures
        ({
            let p = T::spec_make_packet(address, middle, data);
            let f = packet_pulses(address, middle, middle, data, short, long);
            let (s2, out) = run::<T>(s, seq![gap] + f + seq![gap] + f);
            let waited = s.prev_packet == Some(p);
            &&& out.len() == 72
            &&& forall|i: int| 0 <= i < 72 && i != 35 && i != 71 ==> out[i] is None
            &&& out[35] == (if waited {
                Some(p)
            } else {
                None
            })
            &&& out[71] == (if waited {
                None
            } else {
                Some(p)
            })
            &&& s2 == (MachineView {
                stage: Stage::Address(0, 0),
                prev_pulse: MmPulse::IdlePrev,
                address,
                middle,
                prev_packet: if waited {
                    Some(p)
                } else {
                    None
                },
            })
        }),
{
    let p = T::spec_make_packet(address, middle, data);
    let f = packet_pulses(address, middle, middle, data, short, long);
    lemma_run_one::<T>(s, gap);
    let s1 = s.reset();
    lemma_packet::<T>(s1, 0, address, middle, middle, data, short, long);
    let s2 = run::<T>(s1, f).0;
    lemma_run_one::<T>(s2, gap);
    assert(s2.reset() == s2);
    lemma_packet::<T>(s2, 0, address, middle, middle, data, short, long);
    lemma_run_append::<T>(s, seq![gap], f);
    lemma_run_append::<T>(s, seq![gap] + f, seq![gap]);
    lemma_run_append::<T>(s, seq![gap] + f + seq![gap], f);
}

// ---------------------------------------------------------------------------
// Tolerance
// ---------------------------------------------------------------------------
/// Pulses of the same kind are interchangeable: two pulse trains that agree, pulse by
/// pulse, in what kind of pulse each is (short, long or invalid) drive a machine
/// through the same states and deliver the same packets. With the pulse windows of
/// `lemma_timing_windows` this is the tolerance of the timings.
pub proof fn lemma_same_kinds_same_run<T: MmTiming>(
    s: MachineView<T::Packet>,
    pulses1: Seq<u16>,
    pulses2: Seq<u16>,
)
    requires
        pulses1.len() == pulses2.len(),
        forall|i: int|
            0 <= i < pulses1.len() ==> spec_classify::<T>(#[trigger] pulses1[i])
                == spec_classify::<T>(pulses2[i]),
    ensures
        run::<T>(s, pulses1) == run::<T>(s, pulses2),
    decreases pulses1.len(),
{
    if pulses1.len() > 0 {
        let n = pulses1.len() - 1;
        assert forall|i: int| 0 <= i < n implies spec_classify::<T>(
            #[trigger] pulses1.drop_last()[i],
        ) == spec_classify::<T>(pulses2.drop_last()[i]) by {
            assert(pulses1.drop_last()[i] == pulses1[i]);
            assert(pulses2.drop_last()[i] == pulses2[i]);
        }
        lemma_same_kinds_same_run::<T>(s, pulses1.drop_last(), pulses2.drop_last());
        assert(spec_classify::<T>(pulses1[n]) == spec_classify::<T>(pulses2[n]));
    }
}

// ---------------------------------------------------------------------------
// Delivery over the history of calls
// ---------------------------------------------------------------------------
/// The packet that a pulse completes, delivered or not: a valid pulse that leads the
/// last data bit completes the packet of the address byte, the middle bit and the
/// data byte with that bit.
pub open spec fn completed<T: MmTiming>(s: MachineView<T::Packet>, pulse: u16) -> Option<
    T::Packet,
> {
    let kind = spec_classify::<T>(pulse);
    match s.stage {
        Stage::Data(d, n) => if kind != MmPulse::Invalid && s.prev_pulse == MmPulse::IdlePrev && n
            == 7 {
            Some(
                T::spec_make_packet(
                    s.address,
                    s.middle,
                    shifted_in(
                        d,
                        if kind == MmPulse::Long {
                            1
                        } else {
                            0
                        },
                    ),
                ),
            )
        } else {
            None
        },
        _ => None,
    }
}

/// The last packet that a pulse train completed, fed from `s`, and whether the pulse
/// that completed it delivered it; `None` when no pulse completed a packet.
pub open spec fn last_completed<T: MmTiming>(s: MachineView<T::Packet>, pulses: Seq<u16>) -> Option<
    (T::Packet, bool),
>
    decreases pulses.len(),
{
    if pulses.len() == 0 {
        None
    } else {
        let before = run::<T>(s, pulses.drop_last()).0;
        match completed::<T>(before, pulses.last()) {
            Some(p) => Some((p, step::<T>(before, pulses.last()).1 is Some)),
            None => last_completed::<T>(s, pulses.drop_last()),
        }
    }
}

/// What waits for its repetition is the last completed packet, unless it was
/// delivered.
proof fn lemma_waiting_packet<T: MmTiming>(s: MachineView<T::Packet>, pulses: Seq<u16>)
    requires
        s.prev_packet is None,
    ensures
        run::<T>(s, pulses).0.prev_packet == match last_completed::<T>(s, pulses) {
            Some((q, false)) => Some(q),
            _ => None,
        },
    decreases pulses.len(),
{
    if pulses.len() > 0 {
        lemma_waiting_packet::<T>(s, pulses.drop_last());
    }
}

/// Delivery over the history of calls, for a machine that starts with no packet
/// waiting (as a new machine does): a pulse delivers a packet exactly when it completes
/// one that equals the last packet completed before it, and that one was not
/// delivered; a pulse that completes no packet delivers nothing.
pub proof fn lemma_delivery_history<T: MmTiming>(
    s: MachineView<T::Packet>,
    pulses: Seq<u16>,
    pulse: u16,
)
    requires
        s.prev_packet is None,
    ensures
        ({
            let before = run::<T>(s, pulses).0;
            step::<T>(before, pulse).1 == match completed::<T>(before, pulse) {
                Some(p) => if last_completed::<T>(s, pulses) == Some((p, false)) {
                    Some(p)
                } else {
                    None
                },
                None => None,
            }
        }),
{
    lemma_waiting_packet::<T>(s, pulses);
}

/// A pulse that is invalid, or that completes a packet, leaves the machine at the start
/// of a packet: awaiting a new address byte, led by the next pulse.
pub proof fn lemma_start_of_packet<T: MmTiming>(s: MachineView<T::Packet>, pulse: u16)
    requires
        spec_classify::<T>(pulse) == MmPulse::Invalid || completed::<T>(s, pulse) is Some,
    ensures
        step::<T>(s, pulse).0.stage == Stage::Address(0, 0),
        step::<T>(s, pulse).0.prev_pulse == MmPulse::IdlePrev,
{
}

// ---------------------------------------------------------------------------
// A packet as eighteen bits
// ---------------------------------------------------------------------------
/// The first `k` of `bits`, each with both halves.
pub open spec fn bits_pulses(bits: Seq<bool>, k: nat, short: u16, long: u16) -> Seq<u16>
    decreases k,
{
    if k == 0 {
        seq![]
    } else {
        bits_pulses(bits, (k - 1) as nat, short, long) + bit_pulses(bits[k - 1], short, long)
    }
}

/// Eighteen bits on the track: the first seventeen with both halves, the leading half
/// of the last.
pub open spec fn frame_pulses(bits: Seq<bool>, short: u16, long: u16) -> Seq<u16> {
    bits_pulses(bits, 17, short, long) + seq![lead_pulse(bits[17], short, long)]
}

/// The byte that eight bits from `start` on make, the first most significant.
pub open spec fn bits_byte(bits: Seq<bool>, start: int) -> u8 {
    byte_of_bools(
        bits[start],
        bits[start + 1],
        bits[start + 2],
        bits[start + 3],
        bits[start + 4],
        bits[start + 5],
        bits[start + 6],
        bits[start + 7],
    )
}

pub open spec fn byte_of_bools(
    b0: bool,
    b1: bool,
    b2: bool,
    b3: bool,
    b4: bool,
    b5: bool,
    b6: bool,
    b7: bool,
) -> u8 {
    ((if b0 {
        128u8
    } else {
        0u8
    }) | (if b1 {
        64u8
    } else {
        0u8
    }) | (if b2 {
        32u8
    } else {
        0u8
    }) | (if b3 {
        16u8
    } else {
        0u8
    }) | (if b4 {
        8u8
    } else {
        0u8
    }) | (if b5 {
        4u8
    } else {
        0u8
    }) | (if b6 {
        2u8
    } else {
        0u8
    }) | (if b7 {
        1u8
    } else {
        0u8
    }))
}

proof fn lemma_byte_of_bools_bits(
    b0: bool,
    b1: bool,
    b2: bool,
    b3: bool,
    b4: bool,
    b5: bool,
    b6: bool,
    b7: bool,
)
    by (bit_vector)
    ensures
        (bit(byte_of_bools(b0, b1, b2, b3, b4, b5, b6, b7), 7) == 1) == b0,
        (bit(byte_of_bools(b0, b1, b2, b3, b4, b5, b6, b7), 6) == 1) == b1,
        (bit(byte_of_bools(b0, b1, b2, b3, b4, b5, b6, b7), 5) == 1) == b2,
        (bit(byte_of_bools(b0, b1, b2, b3, b4, b5, b6, b7), 4) == 1) == b3,
        (bit(byte_of_bools(b0, b1, b2, b3, b4, b5, b6, b7), 3) == 1) == b4,
        (bit(byte_of_bools(b0, b1, b2, b3, b4, b5, b6, b7), 2) == 1) == b5,
        (bit(byte_of_bools(b0, b1, b2, b3, b4, b5, b6, b7), 1) == 1) == b6,
        (bit(byte_of_bools(b0, b1, b2, b3, b4, b5, b6, b7), 0) == 1) == b7,
{
}

proof fn lemma_bits_byte(bits: Seq<bool>, start: int)
    requires
        0 <= start,
        start + 8 <= bits.len(),
    ensures
        forall|j: int|
            start <= j < start + 8 ==> (bit(bits_byte(bits, start), (7 - (j - start)) as u8) == 1)
                == #[trigger] bits[j],
{
    lemma_byte_of_bools_bits(
        bits[start],
        bits[start + 1],
        bits[start + 2],
        bits[start + 3],
        bits[start + 4],
        bits[start + 5],
        bits[start + 6],
        bits[start + 7],
    );
    assert forall|j: int| start <= j < start + 8 implies (bit(
        bits_byte(bits, start),
        (7 - (j - start)) as u8,
    ) == 1) == #[trigger] bits[j] by {
        let i = j - start;
        assert(i == 0 || i == 1 || i == 2 || i == 3 || i == 4 || i == 5 || i == 6 || i == 7);
    }
}

/// The pulses of the bits of a byte are those of the byte.
proof fn lemma_bits_as_byte(bits: Seq<bool>, start: int, k: nat, short: u16, long: u16)
    requires
        0 <= start,
        start + 8 <= bits.len(),
        k <= 8,
    ensures
        bits_pulses(bits, (start + k) as nat, short, long) == bits_pulses(
            bits,
            start as nat,
            short,
            long,
        ) + byte_pulses(bits_byte(bits, start), k, short, long),
    decreases k,
{
    if k == 0 {
        assert(bits_pulses(bits, start as nat, short, long) + byte_pulses(
            bits_byte(bits, start),
            0,
            short,
            long,
        ) =~= bits_pulses(bits, start as nat, short, long));
    } else {
        lemma_bits_as_byte(bits, start, (k - 1) as nat, short, long);
        lemma_bits_byte(bits, start);
        let i = k - 1;
        assert((bit(bits_byte(bits, start), (7 - i) as u8) == 1) == bits[start + i]);
        assert((8 - k) as u8 == (7 - i) as u8);
        let a = bits_pulses(bits, start as nat, short, long);
        let b = byte_pulses(bits_byte(bits, start), (k - 1) as nat, short, long);
        let c = bit_pulses(bits[start + i], short, long);
        assert(a + b + c =~= a + (b + c));
    }
}

/// Eighteen bits fed to a machine at the start of a packet: the address byte is the
/// first eight bits, the middle bit the tenth, the data byte the last eight. No pulse
/// delivers anything but the leading half of the last bit, which delivers the packet
/// exactly when it repeats the packet that waited (by `lemma_delivery_history`: the
/// last packet completed before, when it was not delivered). The machine is left at
/// the start of the next packet.
pub proof fn lemma_packet_bits<T: MmTiming>(
    s: MachineView<T::Packet>,
    d0: u8,
    bits: Seq<bool>,
    short: u16,
    long: u16,
)
    requires
        s.prev_pulse == MmPulse::IdlePrev,
        s.stage == Stage::Address(d0, 0),
        bits.len() == 18,
        spec_classify::<T>(short) == MmPulse::Short,
        spec_classify::<T>(long) == MmPulse::Long,
    ensures
        ({
            let p = T::spec_make_packet(bits_byte(bits, 0), bits[9], bits_byte(bits, 10));
            let (s2, out) = run::<T>(s, frame_pulses(bits, short, long));
            &&& out.len() == 35
            &&& forall|i: int| 0 <= i < 34 ==> out[i] is None
            &&& out[34] == (if s.prev_packet == Some(p) {
                Some(p)
            } else {
                None
            })
            &&& s2.stage == Stage::Address(0, 0)
            &&& s2.prev_pulse == MmPulse::IdlePrev
            &&& s2.prev_packet == (if s.prev_packet == Some(p) {
                None
            } else {
                Some(p)
            })
        }),
{
    let a = bits_byte(bits, 0);
    let d = bits_byte(bits, 10);
    lemma_bits_as_byte(bits, 0, 8, short, long);
    lemma_bits_as_byte(bits, 10, 7, short, long);
    lemma_bits_byte(bits, 10);
    assert((bit(d, 0) == 1) == bits[17]);
    assert(bits_pulses(bits, 0, short, long) =~= seq![]);
    let b10 = bits_pulses(bits, 10, short, long);
    assert(bits_pulses(bits, 9, short, long) == bits_pulses(bits, 8, short, long) + bit_pulses(
        bits[8],
        short,
        long,
    ));
    assert(b10 == bits_pulses(bits, 9, short, long) + bit_pulses(bits[9], short, long));
    assert(frame_pulses(bits, short, long) =~= packet_pulses(
        a,
        bits[8],
        bits[9],
        d,
        short,
        long,
    ));
    lemma_packet::<T>(s, d0, a, bits[8], bits[9], d, short, long);
}

/// The nominal timings are fair: 26 us and 182 us for a locomotive machine, 13 us and
/// 91 us for an accessory machine, with a pause read as a 0 us pulse.
pub proof fn lemma_nominal_timings()
    ensures
        fair_timing::<MmLocoTiming>(26, 182, 0),
        fair_timing::<MmAccTiming>(13, 91, 0),
{
    lemma_timing_windows(26);
    lemma_timing_windows(182);
    lemma_timing_windows(13);
    lemma_timing_windows(91);
    lemma_timing_windows(0);
}

} // verus!
