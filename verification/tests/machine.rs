use mm_decoder::{MmAccCommand, MmAccMachine, MmLocoCommand, MmLocoMachine, MmSpeed};

const LOCO_SHORT: u16 = 26;
const LOCO_LONG: u16 = 182;
const ACC_SHORT: u16 = 13;
const ACC_LONG: u16 = 91;
const GAP: u16 = 0;

/// The pulses of one packet: address and data most significant bit first, the middle
/// bit twice, the last bit with its leading half only, then a gap.
fn packet_pulses(address: u8, middle: bool, data: u8, short: u16, long: u16) -> Vec<u16> {
    let mut bits = Vec::new();
    for i in (0..8).rev() {
        bits.push((address >> i) & 1 == 1);
    }
    bits.push(middle);
    bits.push(middle);
    for i in (0..8).rev() {
        bits.push((data >> i) & 1 == 1);
    }
    let mut pulses = Vec::new();
    for (i, one) in bits.iter().enumerate() {
        let (lead, trail) = if *one { (long, short) } else { (short, long) };
        pulses.push(lead);
        if i + 1 < bits.len() {
            pulses.push(trail);
        }
    }
    pulses.push(GAP);
    pulses
}

#[test]
fn loco_packet_sent_twice_is_delivered_once() {
    let mut m = MmLocoMachine::new();
    let f = packet_pulses(0b0000_0011, true, 0b1111_1111, LOCO_SHORT, LOCO_LONG);
    assert_eq!(f.len(), 36);
    let mut pulses = vec![GAP];
    pulses.extend(&f);
    pulses.extend(&f);
    let mut delivered = Vec::new();
    for (i, p) in pulses.iter().enumerate() {
        if let Some(packet) = m.advance(*p) {
            delivered.push((i, packet));
        }
    }
    assert_eq!(delivered.len(), 1);
    let (i, packet) = &delivered[0];
    assert_eq!(*i, 71);
    assert_eq!(packet.address(), Some(27));
    assert_eq!(packet.ext_address(), 27);
    assert!(packet.f0());
    assert_eq!(packet.command(), MmLocoCommand::OldSpeed(MmSpeed::Speed(14)));
}

#[test]
fn loco_packet_sent_four_times_is_delivered_twice() {
    let mut m = MmLocoMachine::new();
    let f = packet_pulses(0x00, false, 0b0011_0000, LOCO_SHORT, LOCO_LONG);
    let mut count = 0;
    m.advance(GAP);
    for _ in 0..4 {
        for p in &f {
            if let Some(packet) = m.advance(*p) {
                assert_eq!(packet.address(), Some(80));
                assert_eq!(packet.speed(), MmSpeed::Speed(1));
                count += 1;
            }
        }
    }
    assert_eq!(count, 2);
}

#[test]
fn different_packets_are_not_delivered() {
    let mut m = MmLocoMachine::new();
    m.advance(GAP);
    let f1 = packet_pulses(0xFF, false, 0x00, LOCO_SHORT, LOCO_LONG);
    let f2 = packet_pulses(0xFF, false, 0xFF, LOCO_SHORT, LOCO_LONG);
    for p in f1.iter().chain(f2.iter()) {
        assert!(m.advance(*p).is_none());
    }
}

#[test]
fn tolerances_are_accepted() {
    let mut m = MmLocoMachine::new();
    m.advance(GAP);
    // short pulses at the low edge, long ones at the high edge
    let f = packet_pulses(0xFF, false, 0x00, 21, 192);
    let g = packet_pulses(0xFF, false, 0x00, 31, 172);
    let mut count = 0;
    for p in f.iter().chain(g.iter()) {
        if m.advance(*p).is_some() {
            count += 1;
        }
    }
    assert_eq!(count, 1);
}

#[test]
fn pulses_outside_tolerance_are_invalid() {
    let mut m = MmLocoMachine::new();
    m.advance(GAP);
    let f = packet_pulses(0xFF, false, 0x00, 20, 182);
    for p in f.iter().chain(f.iter()) {
        assert!(m.advance(*p).is_none());
    }
    let g = packet_pulses(0xFF, false, 0x00, 26, 193);
    for p in g.iter().chain(g.iter()) {
        assert!(m.advance(*p).is_none());
    }
}

#[test]
fn invalid_pulse_in_a_packet_resets() {
    let mut m = MmLocoMachine::new();
    m.advance(GAP);
    let f = packet_pulses(0xFF, true, 0x0F, LOCO_SHORT, LOCO_LONG);
    // first copy complete
    for p in &f {
        assert!(m.advance(*p).is_none());
    }
    // second copy broken by a zero pulse halfway
    for p in &f[..20] {
        assert!(m.advance(*p).is_none());
    }
    assert!(m.advance(0).is_none());
    // the waiting packet is kept: a whole copy now delivers it
    let mut got = None;
    for p in &f {
        if let Some(packet) = m.advance(*p) {
            got = Some(packet);
        }
    }
    let packet = got.expect("packet");
    assert_eq!(packet.address(), Some(40));
}

#[test]
fn mismatched_halves_reset() {
    let mut m = MmLocoMachine::new();
    m.advance(GAP);
    let f = packet_pulses(0xFF, false, 0x00, LOCO_SHORT, LOCO_LONG);
    // a bit whose second half is of the same kind as its first
    m.advance(LOCO_SHORT);
    m.advance(LOCO_SHORT);
    // the machine awaits a new packet: two full copies deliver it
    let mut count = 0;
    for p in f.iter().chain(f.iter()) {
        if m.advance(*p).is_some() {
            count += 1;
        }
    }
    assert_eq!(count, 1);
}

#[test]
fn new_machine_takes_first_pulse_as_a_second_half() {
    // without a leading gap, the first pulse of a new machine is discarded and
    // the machine is out of step with the packet
    let mut m = MmLocoMachine::new();
    let f = packet_pulses(0xFF, false, 0x00, LOCO_SHORT, LOCO_LONG);
    let mut count = 0;
    for p in f.iter().chain(f.iter()) {
        if m.advance(*p).is_some() {
            count += 1;
        }
    }
    // the first copy is misread; the gap ending it puts the machine in step,
    // so only one correct copy is seen
    assert_eq!(count, 0);
}

#[test]
fn accessory_packet_sent_twice_is_delivered_once() {
    let mut m = MmAccMachine::new();
    let f = packet_pulses(0b1100_0000, true, 0b1010_0110, ACC_SHORT, ACC_LONG);
    let mut pulses = vec![GAP];
    pulses.extend(&f);
    pulses.extend(&f);
    let mut delivered = Vec::new();
    for (i, p) in pulses.iter().enumerate() {
        if let Some(packet) = m.advance(*p) {
            delivered.push((i, packet));
        }
    }
    assert_eq!(delivered.len(), 1);
    assert_eq!(delivered[0].0, 71);
    let packet = delivered.pop().unwrap().1;
    match packet.get_type() {
        MmAccCommand::Acc(p) => {
            assert_eq!(p.address(), Some(1));
            assert_eq!(p.output(), (7, true));
        }
        MmAccCommand::Func(_) => panic!("expected an accessory packet"),
    }
}

#[test]
fn loco_timing_does_not_read_accessory_pulses() {
    let mut m = MmLocoMachine::new();
    m.advance(GAP);
    let f = packet_pulses(0xFF, false, 0x00, ACC_SHORT, ACC_LONG);
    for p in f.iter().chain(f.iter()) {
        assert!(m.advance(*p).is_none());
    }
}

#[test]
fn zero_is_invalid_for_both_machines() {
    let mut a = MmAccMachine::new();
    let mut l = MmLocoMachine::new();
    assert!(a.advance(0).is_none());
    assert!(l.advance(0).is_none());
}

/// The pulses of a packet without the pause that ends it.
fn packet_pulses_no_gap(address: u8, data: u8, short: u16, long: u16) -> Vec<u16> {
    let mut f = packet_pulses(address, false, data, short, long);
    f.pop();
    f
}

#[test]
fn delivery_follows_the_last_completed_packet() {
    let mut m = MmLocoMachine::new();
    m.advance(GAP);
    let a = packet_pulses(0xFF, false, 0x0F, LOCO_SHORT, LOCO_LONG);
    let b = packet_pulses(0xFF, false, 0xF0, LOCO_SHORT, LOCO_LONG);
    let mut results = Vec::new();
    for f in [&a, &b, &a, &a, &a, &a] {
        let mut got = None;
        for p in f.iter() {
            if let Some(packet) = m.advance(*p) {
                got = Some(packet);
            }
        }
        results.push(got.map(|p| p.command()));
    }
    assert!(results[0].is_none());
    assert!(results[1].is_none());
    assert!(results[2].is_none());
    assert!(results[3].is_some());
    assert!(results[4].is_none());
    assert!(results[5].is_some());
}

#[test]
fn packets_back_to_back_without_pause() {
    let mut m = MmLocoMachine::new();
    m.advance(GAP);
    let f = packet_pulses_no_gap(0xFF, 0x00, LOCO_SHORT, LOCO_LONG);
    assert_eq!(f.len(), 35);
    let mut delivered = Vec::new();
    for (i, p) in f.iter().chain(f.iter()).enumerate() {
        if m.advance(*p).is_some() {
            delivered.push(i);
        }
    }
    assert_eq!(delivered, vec![69]);
}

#[test]
fn second_middle_bit_is_kept() {
    let mut m = MmLocoMachine::new();
    m.advance(GAP);
    // first middle bit 0, second 1
    let mut f = packet_pulses(0xFF, true, 0x00, LOCO_SHORT, LOCO_LONG);
    f[16] = LOCO_SHORT;
    f[17] = LOCO_LONG;
    let mut got = None;
    for p in f.iter().chain(f.iter()) {
        if let Some(packet) = m.advance(*p) {
            got = Some(packet);
        }
    }
    assert!(got.expect("packet").f0());
}

#[test]
fn pulses_of_the_same_kind_give_the_same_results() {
    let f = packet_pulses(0b0000_0011, true, 0b1010_0101, LOCO_SHORT, LOCO_LONG);
    let mut pulses = vec![GAP];
    pulses.extend(&f);
    pulses.extend(&f);
    // move every pulse within its window
    let wobble: Vec<u16> = pulses
        .iter()
        .enumerate()
        .map(|(i, p)| match *p {
            LOCO_SHORT => 21 + (i as u16 % 11),
            LOCO_LONG => 172 + (i as u16 % 21),
            _ => 500 + i as u16,
        })
        .collect();
    let mut m1 = MmLocoMachine::new();
    let mut m2 = MmLocoMachine::new();
    for (p1, p2) in pulses.iter().zip(wobble.iter()) {
        assert_eq!(m1.advance(*p1), m2.advance(*p2));
    }
}
