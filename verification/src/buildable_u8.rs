use vstd::prelude::*;

verus! {

/// A bit-by-bit byte builder. Shifts bits in from LSB until 8 bits have been pushed,
/// then returns the completed byte.
pub struct BuildableU8 {
    data: u8,
    index: u8,
}

/// The value of one bit pushed into a builder: only its lowest bit counts.
pub open spec fn bit_of(bit: u8) -> u8 {
    bit % 2
}

/// The byte held after shifting `bit` in at the least significant end of `data`.
pub open spec fn shifted_in(data: u8, bit: u8) -> u8 {
    ((data * 2 + bit_of(bit)) % 256) as u8
}

/// One push: the bit is shifted in and counted; the eighth bit of a byte hands the
/// byte out and starts the count again.
pub open spec fn push_step(v: (u8, u8), bit: u8) -> ((u8, u8), Option<u8>) {
    let data = shifted_in(v.0, bit);
    if v.1 == 7 {
        ((data, 0), Some(data))
    } else {
        ((data, (v.1 + 1) as u8), None)
    }
}

/// Pushes the first `k` of `bits` one after another: the final state and what each
/// push returned.
pub open spec fn push_prefix(v: (u8, u8), bits: Seq<u8>, k: nat) -> ((u8, u8), Seq<Option<u8>>)
    decreases k,
{
    if k == 0 {
        (v, seq![])
    } else {
        let (v1, out) = push_prefix(v, bits, (k - 1) as nat);
        let (v2, o) = push_step(v1, bits[k - 1]);
        (v2, out.push(o))
    }
}

/// The byte eight bits make, the first of them being the most significant.
pub open spec fn byte_of(bits: Seq<u8>) -> u8 {
    (bit_of(bits[0]) * 128 + bit_of(bits[1]) * 64 + bit_of(bits[2]) * 32 + bit_of(bits[3]) * 16
        + bit_of(bits[4]) * 8 + bit_of(bits[5]) * 4 + bit_of(bits[6]) * 2 + bit_of(bits[7])) as u8
}

proof fn lemma_eight_shifts(d: u8, b0: u8, b1: u8, b2: u8, b3: u8, b4: u8, b5: u8, b6: u8, b7: u8)
    by (bit_vector)
    ensures
        shifted_in(shifted_in(shifted_in(shifted_in(shifted_in(shifted_in(shifted_in(shifted_in(d, b0), b1), b2), b3), b4), b5), b6), b7)
            == ((b0 % 2) * 128 + (b1 % 2) * 64 + (b2 % 2) * 32 + (b3 % 2) * 16 + (b4 % 2) * 8 + (b5 % 2) * 4 + (b6 % 2) * 2 + (b7 % 2)) as u8,
{
}

/// Eight bits pushed into a builder that starts a byte come out as one byte, on the
/// eighth push, the first bit pushed being its most significant bit; the seven pushes
/// before hand out nothing, and the builder is left to start the next byte.
pub proof fn lemma_eight_pushes(v: (u8, u8), bits: Seq<u8>)
    requires
        v.1 == 0,
        bits.len() == 8,
    ensures
        push_prefix(v, bits, 8).0 == (byte_of(bits), 0u8),
        push_prefix(v, bits, 8).1 =~= seq![None, None, None, None, None, None, None, Some(byte_of(bits))],
{
    reveal_with_fuel(push_prefix, 9);
    lemma_eight_shifts(v.0, bits[0], bits[1], bits[2], bits[3], bits[4], bits[5], bits[6], bits[7]);
}

/// The bits that the first `k` of `bits` leave in a byte that held `d`.
pub open spec fn shift_all(d: u8, bits: Seq<u8>, k: nat) -> u8
    decreases k,
{
    if k == 0 {
        d
    } else {
        shifted_in(shift_all(d, bits, (k - 1) as nat), bits[k - 1])
    }
}

proof fn lemma_push_prefix_from_new(bits: Seq<u8>, k: nat)
    requires
        k <= bits.len(),
    ensures
        push_prefix((0u8, 0u8), bits, k).0 == (shift_all(0, bits, k), (k % 8) as u8),
        push_prefix((0u8, 0u8), bits, k).1.len() == k,
        k > 0 ==> push_prefix((0u8, 0u8), bits, k).1[k - 1] == if k % 8 == 0 {
            Some(shift_all(0, bits, k))
        } else {
            None
        },
    decreases k,
{
    if k > 0 {
        lemma_push_prefix_from_new(bits, (k - 1) as nat);
    }
}

proof fn lemma_last_eight(d: u8, bits: Seq<u8>, n: nat)
    requires
        8 <= n <= bits.len(),
    ensures
        shift_all(d, bits, n) == byte_of(bits.subrange(n - 8, n as int)),
{
    reveal_with_fuel(shift_all, 9);
    let k: int = n - 8;
    lemma_eight_shifts(
        shift_all(d, bits, k as nat),
        bits[k],
        bits[k + 1],
        bits[k + 2],
        bits[k + 3],
        bits[k + 4],
        bits[k + 5],
        bits[k + 6],
        bits[k + 7],
    );
}

/// The n-th push into a new builder hands out nothing unless n is a multiple of 8;
/// then it hands out the last eight bits pushed, the oldest being the most
/// significant. After n pushes, n % 8 bits of the next byte are held.
pub proof fn lemma_nth_push(bits: Seq<u8>, n: nat)
    requires
        1 <= n <= bits.len(),
    ensures
        push_prefix((0u8, 0u8), bits, n).1[n - 1] == if n % 8 == 0 {
            Some(byte_of(bits.subrange(n - 8, n as int)))
        } else {
            None
        },
        push_prefix((0u8, 0u8), bits, n).0.1 == n % 8,
{
    lemma_push_prefix_from_new(bits, n);
    if n % 8 == 0 {
        lemma_last_eight(0, bits, n);
    }
}

/// Only the lowest bit of what is pushed counts: two runs of pushes into builders in
/// the same state, whose bits agree in their lowest bit, hand out the same results
/// and leave the builders in the same state.
pub proof fn lemma_low_bit_only(v: (u8, u8), bits1: Seq<u8>, bits2: Seq<u8>, n: nat)
    requires
        n <= bits1.len(),
        n <= bits2.len(),
        forall|i: int| 0 <= i < n ==> bit_of(#[trigger] bits1[i]) == bit_of(bits2[i]),
    ensures
        push_prefix(v, bits1, n) == push_prefix(v, bits2, n),
    decreases n,
{
    if n > 0 {
        lemma_low_bit_only(v, bits1, bits2, (n - 1) as nat);
        assert(bit_of(bits1[n - 1]) == bit_of(bits2[n - 1]));
    }
}

proof fn lemma_masked_bit(x: u8)
    by (bit_vector)
    ensures
        bit_of(x & 1) == bit_of(x),
{
}

/// Pushing `x` and pushing `x & 1` are the same, push after push.
pub proof fn lemma_masked_pushes(v: (u8, u8), bits: Seq<u8>, n: nat)
    requires
        n <= bits.len(),
    ensures
        push_prefix(v, bits, n) == push_prefix(v, bits.map_values(|x: u8| x & 1), n),
{
    let masked = bits.map_values(|x: u8| x & 1);
    assert forall|i: int| 0 <= i < n implies bit_of(#[trigger] bits[i]) == bit_of(masked[i]) by {
        lemma_masked_bit(bits[i]);
    }
    lemma_low_bit_only(v, bits, masked, n);
}

impl View for BuildableU8 {
    /// The byte built so far and how many bits of the current byte have been pushed.
    type V = (u8, u8);

    closed spec fn view(&self) -> (u8, u8) {
        (self.data, self.index)
    }
}

impl BuildableU8 {
    #[verifier::type_invariant]
    closed spec fn inv(self) -> bool {
        self.index < 8
    }

    pub fn new() -> (r: Self)
        ensures
            r@ == (0u8, 0u8),
    {
        Self { data: 0, index: 0 }
    }

    pub fn push(&mut self, bit: u8) -> (r: Option<u8>)
        ensures
            old(self)@.1 < 8,
            (final(self)@, r) == push_step(old(self)@, bit),
    {
        proof {
            use_type_invariant(&*self);
        }
        let d = self.data;
        let data = (d << 1) | (bit & 0x01);
        assert(((d << 1u8) | (bit & 0x01u8)) == ((d * 2 + bit % 2) % 256) as u8) by (bit_vector);
        self.data = data;
        let index = self.index + 1;
        if index >= 8 {
            self.index = 0;
            return Some(self.data);
        }
        self.index = index;
        None
    }
}

} // verus!
