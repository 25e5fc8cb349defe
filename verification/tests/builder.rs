use mm_decoder::BuildableU8;

#[test]
fn eight_pushes_make_a_byte_first_bit_most_significant() {
    let mut b = BuildableU8::new();
    let bits = [1u8, 0, 1, 1, 0, 0, 1, 0];
    for (i, bit) in bits.iter().enumerate() {
        let r = b.push(*bit);
        if i < 7 {
            assert_eq!(r, None);
        } else {
            assert_eq!(r, Some(0b1011_0010));
        }
    }
}

#[test]
fn only_the_lowest_bit_counts() {
    let mut b = BuildableU8::new();
    let mut r = None;
    for _ in 0..8 {
        r = b.push(0b1111_1110);
    }
    assert_eq!(r, Some(0));
    let mut b = BuildableU8::new();
    for _ in 0..8 {
        r = b.push(0b0000_0011);
    }
    assert_eq!(r, Some(0xFF));
}

#[test]
fn next_byte_starts_after_eight_pushes() {
    let mut b = BuildableU8::new();
    for _ in 0..8 {
        b.push(1);
    }
    let mut r = None;
    for bit in [0u8, 0, 0, 0, 0, 0, 0, 1] {
        r = b.push(bit);
    }
    assert_eq!(r, Some(1));
}

#[test]
fn nth_push_hands_out_the_last_eight_bits() {
    let mut b = BuildableU8::new();
    let bits: Vec<u8> = (0..24u32).map(|i| ((i * 7 + 3) % 5 % 2) as u8).collect();
    for n in 1..=bits.len() {
        let r = b.push(bits[n - 1]);
        if n % 8 == 0 {
            let mut byte = 0u8;
            for k in 0..8 {
                byte |= (bits[n - 8 + k] & 1) << (7 - k);
            }
            assert_eq!(r, Some(byte));
        } else {
            assert_eq!(r, None);
        }
    }
}

#[test]
fn pushing_x_or_its_lowest_bit_is_the_same() {
    let xs = [0xA5u8, 0x02, 0xFF, 0x10, 0x33, 0x80, 0x01, 0x7E, 0x55, 0xC3];
    let mut b1 = BuildableU8::new();
    let mut b2 = BuildableU8::new();
    for x in xs {
        assert_eq!(b1.push(x), b2.push(x & 1));
    }
}
