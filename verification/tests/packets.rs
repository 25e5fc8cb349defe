use mm_decoder::{MmAccCommand, MmLocoCommand, MmLocoPacket, MmRawAccPacket, MmSpeed};

fn loco(address: u8, data: u8) -> MmLocoPacket {
    MmLocoPacket::new(address, false, data)
}

#[test]
fn address_zero_is_eighty() {
    assert_eq!(loco(0x00, 0).address(), Some(80));
}

#[test]
fn address_idle_is_none() {
    // trinary 2222 = 80, the idle address
    assert_eq!(loco(0b1010_1010, 0).address(), None);
}

#[test]
fn address_all_ones_is_forty() {
    // trinary 1111 = 27 + 9 + 3 + 1
    assert_eq!(loco(0xFF, 0).address(), Some(40));
}

#[test]
fn address_first_group_is_most_significant() {
    // group 0 (bits 0-1) = 11 -> digit 1 worth 27
    assert_eq!(loco(0b0000_0011, 0).address(), Some(27));
    // group 3 (bits 6-7) = 11 -> digit 1 worth 1
    assert_eq!(loco(0b1100_0000, 0).address(), Some(1));
    // group 3 = 10 -> digit 2
    assert_eq!(loco(0b1000_0000, 0).address(), Some(2));
}

#[test]
fn address_non_trinary_is_none() {
    assert_eq!(loco(0b0000_0001, 0).address(), None);
    assert_eq!(loco(0b0100_0000, 0).address(), None);
}

#[test]
fn address_range_over_all_bytes() {
    for raw in 0..=255u8 {
        if let Some(a) = loco(raw, 0).address() {
            assert!((1..=80).contains(&a));
        }
    }
}

#[test]
fn every_address_has_one_byte() {
    let mut count = [0u32; 81];
    for raw in 0..=255u8 {
        if let Some(a) = loco(raw, 0).address() {
            count[a as usize] += 1;
        }
    }
    for a in 1..=80 {
        assert_eq!(count[a], 1, "address {}", a);
    }
}

#[test]
fn ext_address_extends_trinary_addresses() {
    assert_eq!(loco(0x00, 0).ext_address(), 80);
    assert_eq!(loco(0xFF, 0).ext_address(), 40);
    assert_eq!(loco(0b1010_1010, 0).ext_address(), 0);
    // the smallest byte that is not trinary is the first extended address
    assert_eq!(loco(0b0000_0001, 0).ext_address(), 81);
    // the largest byte that is not trinary is the last one
    assert_eq!(loco(0b1111_1101, 0).ext_address(), 255);
}

#[test]
fn ext_address_is_a_bijection() {
    let mut seen = [false; 256];
    for raw in 0..=255u8 {
        let p = loco(raw, 0);
        let e = p.ext_address();
        assert!(!seen[e as usize]);
        seen[e as usize] = true;
        match p.address() {
            Some(a) => assert_eq!(e, a),
            None => assert!(e == 0 || e >= 81),
        }
    }
    assert!(seen.iter().all(|s| *s));
}

#[test]
fn f0_is_middle_bit() {
    assert!(MmLocoPacket::new(0, true, 0).f0());
    assert!(!MmLocoPacket::new(0, false, 0).f0());
}

#[test]
fn speed_codes() {
    assert_eq!(loco(0, 0b0000_0000).speed(), MmSpeed::Speed(0));
    // code 1: bit 7 set
    assert_eq!(loco(0, 0b1100_0000).speed(), MmSpeed::Reverse);
    // code 15: bits 7, 5, 3, 1 set
    assert_eq!(loco(0, 0b1010_1010).speed(), MmSpeed::Speed(14));
    // code 2: bit 5 set
    assert_eq!(loco(0, 0b0011_0000).speed(), MmSpeed::Speed(1));
}

#[test]
fn mm1_command_is_old_speed() {
    // every pair doubled: code 2, speed step 1
    assert_eq!(
        loco(0, 0b0011_0000).command(),
        MmLocoCommand::OldSpeed(MmSpeed::Speed(1))
    );
    assert_eq!(
        loco(0, 0b1111_1111).command(),
        MmLocoCommand::OldSpeed(MmSpeed::Speed(14))
    );
}

/// Builds a data byte from a speed code and a sub-command code.
fn data_of(dcba: u8, hgfe: u8) -> u8 {
    let mut d = 0u8;
    // leading bits: bit 7 = A, bit 5 = B, bit 3 = C, bit 1 = D
    if dcba & 1 != 0 { d |= 0b1000_0000; }
    if dcba & 2 != 0 { d |= 0b0010_0000; }
    if dcba & 4 != 0 { d |= 0b0000_1000; }
    if dcba & 8 != 0 { d |= 0b0000_0010; }
    // trailing bits: bit 6 = E, bit 4 = F, bit 2 = G, bit 0 = H
    if hgfe & 1 != 0 { d |= 0b0100_0000; }
    if hgfe & 2 != 0 { d |= 0b0001_0000; }
    if hgfe & 4 != 0 { d |= 0b0000_0100; }
    if hgfe & 8 != 0 { d |= 0b0000_0001; }
    d
}

#[test]
fn mm2_reverse_speeds() {
    assert_eq!(
        loco(0, data_of(9, 0b0101)).command(),
        MmLocoCommand::NewSpeed { speed: MmSpeed::Speed(8), direction: false }
    );
    assert_eq!(
        loco(0, data_of(2, 0b1101)).command(),
        MmLocoCommand::NewSpeed { speed: MmSpeed::Speed(1), direction: false }
    );
}

#[test]
fn mm2_forward_speeds() {
    assert_eq!(
        loco(0, data_of(5, 0b1010)).command(),
        MmLocoCommand::NewSpeed { speed: MmSpeed::Speed(4), direction: true }
    );
    assert_eq!(
        loco(0, data_of(12, 0b0010)).command(),
        MmLocoCommand::NewSpeed { speed: MmSpeed::Speed(11), direction: true }
    );
}

#[test]
fn mm2_function_exceptions() {
    assert_eq!(
        loco(0, data_of(3, 0b0101)).command(),
        MmLocoCommand::Function { speed: MmSpeed::Speed(2), function: 1, state: false }
    );
    assert_eq!(
        loco(0, data_of(7, 0b0101)).command(),
        MmLocoCommand::Function { speed: MmSpeed::Speed(6), function: 4, state: false }
    );
    assert_eq!(
        loco(0, data_of(12, 0b1010)).command(),
        MmLocoCommand::Function { speed: MmSpeed::Speed(11), function: 2, state: true }
    );
    assert_eq!(
        loco(0, data_of(14, 0b1010)).command(),
        MmLocoCommand::Function { speed: MmSpeed::Speed(13), function: 3, state: true }
    );
}

#[test]
fn mm2_function_commands() {
    assert_eq!(
        loco(0, data_of(0, 0b1011)).command(),
        MmLocoCommand::Function { speed: MmSpeed::Speed(0), function: 1, state: true }
    );
    assert_eq!(
        loco(0, data_of(1, 0b0100)).command(),
        MmLocoCommand::Function { speed: MmSpeed::Reverse, function: 2, state: false }
    );
    assert_eq!(
        loco(0, data_of(9, 0b1110)).command(),
        MmLocoCommand::Function { speed: MmSpeed::Speed(8), function: 3, state: true }
    );
    assert_eq!(
        loco(0, data_of(9, 0b0111)).command(),
        MmLocoCommand::Function { speed: MmSpeed::Speed(8), function: 4, state: false }
    );
}

#[test]
fn mm2_unknown_sub_command_is_old_speed() {
    // sub-command 0b0001 is neither a speed nor a function
    assert_eq!(
        loco(0, data_of(6, 0b0001)).command(),
        MmLocoCommand::OldSpeed(MmSpeed::Speed(5))
    );
}

#[test]
fn command_speed_matches_speed() {
    for d in 0..=255u8 {
        let p = loco(0, d);
        let s = match p.command() {
            MmLocoCommand::OldSpeed(s) => s,
            MmLocoCommand::NewSpeed { speed, .. } => speed,
            MmLocoCommand::Function { speed, function, .. } => {
                assert!((1..=4).contains(&function));
                speed
            }
        };
        assert_eq!(s, p.speed());
        if let MmSpeed::Speed(n) = s {
            assert!(n <= 14);
        }
    }
}

#[test]
fn raw_acc_packet_middle_one_is_accessory() {
    match MmRawAccPacket::new(0b0000_0011, true, 0b1000_0011).get_type() {
        MmAccCommand::Acc(p) => {
            assert_eq!(p.address(), Some(27));
            assert_eq!(p.ext_address(), 27);
            assert_eq!(p.output(), (1, true));
        }
        MmAccCommand::Func(_) => panic!("expected an accessory packet"),
    }
}

#[test]
fn raw_acc_packet_middle_zero_is_function() {
    match MmRawAccPacket::new(0b1010_1010, false, 0b0100_0001).get_type() {
        MmAccCommand::Func(p) => {
            assert_eq!(p.address(), None);
            assert_eq!(p.ext_address(), 0);
            assert_eq!(p.states(), [true, false, false, true]);
        }
        MmAccCommand::Acc(_) => panic!("expected a function packet"),
    }
}

#[test]
fn accessory_ports() {
    let port_of = |d: u8| match MmRawAccPacket::new(0, true, d).get_type() {
        MmAccCommand::Acc(p) => p.output(),
        MmAccCommand::Func(_) => panic!("expected an accessory packet"),
    };
    assert_eq!(port_of(0b0000_0000), (0, false));
    assert_eq!(port_of(0b0010_0001), (2, true));
    assert_eq!(port_of(0b1010_0110), (7, true));
    for d in 0..=255u8 {
        assert!(port_of(d).0 <= 7);
    }
}

#[test]
fn function_states() {
    let states_of = |d: u8| match MmRawAccPacket::new(0, false, d).get_type() {
        MmAccCommand::Func(p) => p.states(),
        MmAccCommand::Acc(_) => panic!("expected a function packet"),
    };
    assert_eq!(states_of(0), [false; 4]);
    assert_eq!(states_of(0b1000_0000), [true, false, false, false]);
    assert_eq!(states_of(0b0001_0000), [false, true, false, false]);
    assert_eq!(states_of(0b0000_1100), [false, false, true, false]);
    assert_eq!(states_of(0b0000_0010), [false, false, false, true]);
}
