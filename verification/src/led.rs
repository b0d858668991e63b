//! Bit-serial LED frame encoder.
//!
//! The RGB LED hangs off two pins (data and clock) of the peripheral's
//! output register, so a colour update is bit-banged: every logical
//! protocol byte becomes sixteen register values, two per bit (clock low
//! with the data bit, then clock high with the data bit held). A frame is
//! the register address, one dummy byte, and eight logical bytes — a
//! two-byte start marker, a brightness byte, the colour in B, G, R order,
//! and a two-byte end marker — 2 + 8 * 16 = 130 bytes in all. Only the
//! data and clock bits of each emitted byte ever change; the remaining
//! bits carry the previous byte's value forward, so unrelated
//! output-register state is preserved.

use vstd::prelude::*;

verus! {

/// The byte that `set_bit` leaves in place of `byte`: bit `pin` forced to
/// `value != 0`, all other bits kept.
pub open spec fn set_bit_spec(byte: u8, pin: u8, value: u8) -> u8 {
    if value != 0 {
        byte | (1u8 << pin)
    } else {
        byte & (0xffu8 ^ (1u8 << pin))
    }
}

/// The first byte emitted for one data bit: clock (bit 6) low, data
/// (bit 7) set to the bit, the rest of `prev` kept.
pub open spec fn low_byte(prev: u8, bit: bool) -> u8 {
    set_bit_spec(set_bit_spec(prev, 6, 0), 7, if bit { 1 } else { 0 })
}

/// The second byte emitted for one data bit: the low byte with the clock
/// raised.
pub open spec fn high_byte(prev: u8, bit: bool) -> u8 {
    set_bit_spec(low_byte(prev, bit), 6, 1)
}

/// The bytes the bit-banger emits for the top `n` bits of `b`,
/// most-significant first, starting from last emitted byte `prev`.
pub open spec fn banged(prev: u8, b: u8, n: nat) -> Seq<u8>
    decreases n,
{
    if n == 0 {
        Seq::empty()
    } else {
        let bit = b & 0x80 != 0;
        seq![low_byte(prev, bit), high_byte(prev, bit)]
            + banged(high_byte(prev, bit), b << 1, (n - 1) as nat)
    }
}

/// A buffer `s` after one whole logical byte `b` has been bit-banged onto
/// its end.
pub open spec fn frame_after(s: Seq<u8>, b: u8) -> Seq<u8>
    recommends
        s.len() >= 1,
{
    s + banged(s.last(), b, 8)
}

/// The full frame for colour (r, g, b): register address, dummy byte,
/// then the eight logical bytes — start marker, brightness, colour in
/// B, G, R order, end marker — each expanded by the bit-banger.
pub open spec fn encoded(r: u8, g: u8, b: u8) -> Seq<u8> {
    frame_after(
        frame_after(
            frame_after(
                frame_after(
                    frame_after(
                        frame_after(
                            frame_after(frame_after(seq![0x01u8, 0x00u8], 0x00), 0x00),
                            0xef,
                        ),
                        b,
                    ),
                    g,
                ),
                r,
            ),
            0x00,
        ),
        0x00,
    )
}

/// Scratch buffer holding the last encoded frame.
#[derive(Clone, Debug)]
pub struct ColorBuffer(Vec<u8>);

impl View for ColorBuffer {
    type V = Seq<u8>;

    closed spec fn view(&self) -> Seq<u8> {
        self.0@
    }
}

impl Default for ColorBuffer {
    fn default() -> (r: Self)
        ensures
            r@ == Seq::<u8>::empty(),
    {
        ColorBuffer(Vec::new())
    }
}

impl ColorBuffer {
    const REG_OUTPUT: u8 = 0x01;

    const PIN_LED_DATA: u8 = 7;

    const PIN_LED_CLOCK: u8 = 6;

    pub fn buffer(&self) -> (r: &Vec<u8>)
        ensures
            r@ == self@,
    {
        &self.0
    }

    /// Repeat the last byte of the buffer.
    pub fn next(&mut self)
        requires
            old(self)@.len() >= 1,
        ensures
            final(self)@ == old(self)@.push(old(self)@.last()),
    {
        let last = self.0[self.0.len() - 1];
        self.0.push(last);
    }

    /// Force bit `pin` of the buffer's last byte to `value != 0`.
    pub fn set_bit(&mut self, pin: u8, value: u8)
        requires
            old(self)@.len() >= 1,
            pin < 8,
        ensures
            final(self)@ == old(self)@.update(
                old(self)@.len() - 1,
                set_bit_spec(old(self)@.last(), pin, value),
            ),
    {
        let len = self.0.len();
        if value != 0 {
            let cur = self.0[len - 1];
            self.0[len - 1] = cur | (1u8 << pin);
        } else {
            let cur = self.0[len - 1];
            self.0[len - 1] = cur & (0xffu8 ^ (1u8 << pin));
        }
    }

    /// Bit-bang one logical byte, most-significant bit first: per bit,
    /// one byte with the clock low and the data line set to the bit,
    /// then one with the clock raised.
    pub fn write_byte(&mut self, b: u8)
        requires
            old(self)@.len() >= 1,
        ensures
            final(self)@ == old(self)@ + banged(old(self)@.last(), b, 8),
            final(self)@.len() == old(self)@.len() + 16,
    {
        let mut cur = b;
        let ghost orig = self.0@;
        for k in 0..8usize
            invariant
                orig.len() >= 1,
                self.0@.len() == orig.len() + 2 * (k as int),
                orig + banged(orig.last(), b, 8) == self.0@ + banged(
                    self.0@.last(),
                    cur,
                    (8 - k) as nat,
                ),
        {
            let ghost pre = self.0@;
            let ghost prev = self.0@.last();
            let ghost cur0 = cur;
            self.next();
            self.set_bit(Self::PIN_LED_CLOCK, 0);
            self.set_bit(Self::PIN_LED_DATA, cur & 0x80);
            self.next();
            self.set_bit(Self::PIN_LED_CLOCK, 1);
            cur = cur << 1;
            proof {
                let bit = cur0 & 0x80 != 0;
                let lo = low_byte(prev, bit);
                let hi = high_byte(prev, bit);
                assert(self.0@ =~= pre + seq![lo, hi]);
                assert(self.0@.last() == hi);
                assert(banged(prev, cur0, (8 - k) as nat) == seq![lo, hi] + banged(
                    hi,
                    cur,
                    (8 - (k + 1)) as nat,
                ));
                assert(pre + banged(prev, cur0, (8 - k) as nat) =~= self.0@ + banged(
                    hi,
                    cur,
                    (8 - (k + 1)) as nat,
                ));
            }
        }
        proof {
            assert(banged(self.0@.last(), cur, 0) =~= Seq::<u8>::empty());
            assert(self.0@ + banged(self.0@.last(), cur, 0) =~= self.0@);
        }
    }

    /// Rebuild the buffer as the full frame for colour (r, g, b).
    pub fn set_color(&mut self, r: u8, g: u8, b: u8)
        ensures
            final(self)@ == encoded(r, g, b),
            final(self)@.len() == 130,
    {
        let mut fresh: Vec<u8> = Vec::new();
        fresh.push(Self::REG_OUTPUT);
        fresh.push(0u8);
        self.0 = fresh;
        proof {
            assert(self.0@ =~= seq![0x01u8, 0x00u8]);
        }
        self.write_byte(0);
        self.write_byte(0);
        self.write_byte(0xef);
        self.write_byte(b);
        self.write_byte(g);
        self.write_byte(r);
        self.write_byte(0);
        self.write_byte(0);
    }
}

/// Each bit of a logical byte costs exactly two emitted bytes.
pub proof fn lemma_banged_len(prev: u8, b: u8, n: nat)
    ensures
        banged(prev, b, n).len() == 2 * n,
    decreases n,
{
    if n > 0 {
        let bit = b & 0x80 != 0;
        lemma_banged_len(high_byte(prev, bit), b << 1, (n - 1) as nat);
    }
}

/// The encoded frame has exactly 130 bytes, whatever the colour.
pub proof fn lemma_encoded_len(r: u8, g: u8, b: u8)
    ensures
        encoded(r, g, b).len() == 130,
{
    let s0 = seq![0x01u8, 0x00u8];
    let s1 = frame_after(s0, 0x00);
    let s2 = frame_after(s1, 0x00);
    let s3 = frame_after(s2, 0xef);
    let s4 = frame_after(s3, b);
    let s5 = frame_after(s4, g);
    let s6 = frame_after(s5, r);
    let s7 = frame_after(s6, 0x00);
    lemma_banged_len(s0.last(), 0x00, 8);
    lemma_banged_len(s1.last(), 0x00, 8);
    lemma_banged_len(s2.last(), 0xef, 8);
    lemma_banged_len(s3.last(), b, 8);
    lemma_banged_len(s4.last(), g, 8);
    lemma_banged_len(s5.last(), r, 8);
    lemma_banged_len(s6.last(), 0x00, 8);
    lemma_banged_len(s7.last(), 0x00, 8);
}

/// Encoding is deterministic: any two frames produced for the same
/// colour are byte-identical.
pub proof fn lemma_encode_deterministic(r: u8, g: u8, b: u8, first: Seq<u8>, second: Seq<u8>)
    requires
        first == encoded(r, g, b),
        second == encoded(r, g, b),
    ensures
        first == second,
{
}

} // verus!
