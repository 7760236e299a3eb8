//! Driver for the AS5047P 14-bit magnetic angle encoder (SPI mode 3,
//! 16-bit big-endian words with an even parity bit), and the wrap-aware
//! step counter behind its velocity estimate.

use vstd::prelude::*;

verus! {

/// Read command flag (bit 14).
pub const READ_FLAG: u16 = 0x4000;
/// Parity bit (bit 15).
pub const PARITY_FLAG: u16 = 0x8000;
/// The 14 data bits.
pub const DATA_MASK_14BIT: u16 = 0x3fff;
/// Error flag in a reply (bit 14).
pub const ERROR_FLAG: u16 = 0x4000;
/// Address of the compensated angle register.
pub const REG_ANGLECOM: u16 = 0x3fff;
/// Counts per revolution.
pub const COUNTS_PER_REV: u16 = 16384;

/// Failures of an encoder read.
#[derive(Debug, Clone, Copy, PartialEq, Eq)]
pub enum As5047pError<SpiE> {
    /// The SPI transfer failed.
    Spi(SpiE),
    /// The reply had odd parity.
    BadParity,
    /// The sensor flagged an error in its reply.
    SensorError,
}

/// Whether bit `i` of `w` is set, as 0 or 1.
pub open spec fn bit_value(w: u16, i: nat) -> nat {
    if (w >> (i as u16)) & 1u16 == 1u16 { 1 } else { 0 }
}

/// The number of set bits of `w` below bit `n`.
pub open spec fn ones_below(w: u16, n: nat) -> nat
    decreases n,
{
    if n == 0 {
        0
    } else {
        ones_below(w, (n - 1) as nat) + bit_value(w, (n - 1) as nat)
    }
}

/// Whether a 16-bit word has an even number of set bits.
pub open spec fn even_parity(w: u16) -> bool {
    ones_below(w, 16) % 2 == 0
}

proof fn lemma_ones_agree(a: u16, b: u16, n: nat)
    requires
        n <= 16,
        forall|i: nat| i < n ==> bit_value(a, i) == bit_value(b, i),
    ensures
        ones_below(a, n) == ones_below(b, n),
    decreases n,
{
    if n > 0 {
        lemma_ones_agree(a, b, (n - 1) as nat);
    }
}

/// Whether a 16-bit word has even parity.
pub fn has_even_parity(word: u16) -> (even: bool)
    ensures
        even == even_parity(word),
{
    let mut count: u16 = 0;
    let mut i: u16 = 0;
    while i < 16
        invariant
            0 <= i <= 16,
            count == ones_below(word, i as nat),
            count <= i,
        decreases 16 - i,
    {
        if (word >> i) & 1 == 1 {
            count += 1;
        }
        i += 1;
    }
    count % 2 == 0
}

/// The 15 low bits of `word` with bit 15 set so that the word has even
/// parity.
pub open spec fn with_parity(word: u16) -> u16 {
    let low = word & 0x7fffu16;
    if ones_below(low, 15) % 2 == 0 { low } else { low | 0x8000u16 }
}

/// Adds the even-parity bit (bit 15) to a 15-bit word.
pub fn add_even_parity(word_15bit: u16) -> (word: u16)
    ensures
        word == with_parity(word_15bit),
        word & 0x7fffu16 == word_15bit & 0x7fffu16,
        even_parity(word),
{
    let low15 = word_15bit & !PARITY_FLAG;
    assert(!0x8000u16 == 0x7fffu16) by (bit_vector);
    assert(bit_value(low15, 15) == 0) by {
        assert((low15 >> 15u16) & 1u16 != 1u16) by (bit_vector)
            requires
                low15 == word_15bit & 0x7fffu16,
        ;
    }
    let parity_even = has_even_parity(low15);
    let word = if parity_even { low15 } else { low15 | PARITY_FLAG };
    proof {
        assert(ones_below(low15, 16) == ones_below(low15, 15));
        if !parity_even {
            assert forall|i: nat| i < 15 implies bit_value(word, i) == bit_value(low15, i) by {
                let k = i as u16;
                assert(((low15 | 0x8000u16) >> k) & 1u16 == (low15 >> k) & 1u16) by (bit_vector)
                    requires
                        k < 15,
                ;
            }
            lemma_ones_agree(word, low15, 15);
            assert((word >> 15u16) & 1u16 == 1u16) by (bit_vector)
                requires
                    word == low15 | 0x8000u16,
            ;
            assert(word & 0x7fffu16 == word_15bit & 0x7fffu16) by (bit_vector)
                requires
                    word == low15 | 0x8000u16,
                    low15 == word_15bit & 0x7fffu16,
            ;
        } else {
            assert(word & 0x7fffu16 == word_15bit & 0x7fffu16) by (bit_vector)
                requires
                    word == low15,
                    low15 == word_15bit & 0x7fffu16,
            ;
        }
    }
    word
}

/// The command word that reads register `reg_addr` (14-bit address).
pub open spec fn read_command_word(reg_addr: u16) -> u16 {
    with_parity(0x4000u16 | (reg_addr & 0x3fffu16))
}

/// The command word that reads register `reg_addr`: the read flag and the
/// 14-bit address, with even parity.
pub fn read_command(reg_addr: u16) -> (cmd: u16)
    ensures
        cmd == read_command_word(reg_addr),
        even_parity(cmd),
{
    add_even_parity(READ_FLAG | (reg_addr & DATA_MASK_14BIT))
}

/// The word sent to clock a register's value out: zero, with even parity.
pub fn nop_command() -> (cmd: u16)
    ensures
        cmd == with_parity(0),
        cmd == 0,
{
    let cmd = add_even_parity(0);
    assert(0u16 & 0x7fffu16 == 0u16) by (bit_vector);
    assert(ones_below(0u16, 15) == 0) by {
        assert forall|i: nat| i < 15 implies bit_value(0u16, i) == 0 by {
            let k = i as u16;
            assert((0u16 >> k) & 1u16 != 1u16) by (bit_vector);
        }
        lemma_ones_zero(15);
    }
    cmd
}

proof fn lemma_ones_zero(n: nat)
    requires
        n <= 16,
        forall|i: nat| i < n ==> bit_value(0u16, i) == 0,
    ensures
        ones_below(0u16, n) == 0,
    decreases n,
{
    if n > 0 {
        lemma_ones_zero((n - 1) as nat);
    }
}

/// The outcome of a read given the sensor's reply: with parity checking on,
/// odd parity is `BadParity`; then a set error flag is `SensorError`;
/// otherwise the 14 data bits.
pub open spec fn reply_outcome<E>(parity_check: bool, reply: u16) -> Result<u16, As5047pError<E>> {
    if parity_check && !even_parity(reply) {
        Err(As5047pError::BadParity)
    } else if reply & 0x4000u16 != 0 {
        Err(As5047pError::SensorError)
    } else {
        Ok(reply & 0x3fffu16)
    }
}

/// A reply that carries the 14-bit value `v` in bits 0..13, has no error
/// flag, and has even parity when parity is checked, reads as exactly `v`:
/// all fourteen data bits come back.
pub proof fn lemma_clean_reply_reads_value<E>(parity_check: bool, reply: u16, v: u16)
    requires
        v < 0x4000,
        reply & 0x3fffu16 == v,
        reply & 0x4000u16 == 0,
        parity_check ==> even_parity(reply),
    ensures
        reply_outcome::<E>(parity_check, reply) == Ok::<u16, As5047pError<E>>(v),
        v >= 0x2000 ==> reply_outcome::<E>(parity_check, reply) != Ok::<u16, As5047pError<E>>(
            (v - 0x2000) as u16,
        ),
{
}

/// Decodes a reply word (see `reply_outcome`).
pub fn decode_reply<E>(parity_check: bool, reply: u16) -> (res: Result<u16, As5047pError<E>>)
    ensures
        res == reply_outcome::<E>(parity_check, reply),
{
    if parity_check && !has_even_parity(reply) {
        return Err(As5047pError::BadParity);
    }
    if (reply & ERROR_FLAG) != 0 {
        return Err(As5047pError::SensorError);
    }
    Ok(reply & DATA_MASK_14BIT)
}

/// The LUT index of a raw angle: `raw * lut_steps / 16384`.
pub open spec fn lut_index(raw: u16, lut_steps: usize) -> int {
    (raw * lut_steps) / 16384
}

/// AS5047P 14-bit magnetic encoder on an SPI device.
pub struct As5047p<SPI> {
    spi: SPI,
    parity_check: bool,
}

impl<SPI> As5047p<SPI> {
    /// Whether replies are parity-checked.
    pub closed spec fn checks_parity(&self) -> bool {
        self.parity_check
    }

    /// The SPI device.
    pub closed spec fn device(&self) -> SPI {
        self.spi
    }

    /// A driver on a configured SPI device (mode 3), checking parity.
    pub fn new(spi: SPI) -> (enc: Self)
        ensures
            enc.device() == spi,
            enc.checks_parity(),
    {
        As5047p { spi, parity_check: true }
    }

    /// Turns reply parity checking on or off.
    pub fn with_parity_check(self, enabled: bool) -> (enc: Self)
        ensures
            enc.device() == self.device(),
            enc.checks_parity() == enabled,
    {
        let mut s = self;
        s.parity_check = enabled;
        s
    }

    /// Whether replies are parity-checked.
    pub fn parity_check_enabled(&self) -> (on: bool)
        ensures
            on == self.checks_parity(),
    {
        self.parity_check
    }

    /// The SPI device, for the transfers of a read.
    pub fn device_mut(&mut self) -> (spi: &mut SPI)
        ensures
            *spi == old(self).device(),
            final(self).device() == *final(spi),
            final(self).checks_parity() == old(self).checks_parity(),
    {
        &mut self.spi
    }

    /// Gives the SPI device back.
    pub fn release(self) -> (spi: SPI)
        ensures
            spi == self.device(),
    {
        self.spi
    }

    /// The LUT index (0 .. lut_steps) of a raw angle.
    pub fn raw_to_lut_index(raw: u16, lut_steps: usize) -> (idx: usize)
        requires
            raw * lut_steps <= usize::MAX,
        ensures
            idx == lut_index(raw, lut_steps),
            raw < 16384 && lut_steps > 0 ==> idx < lut_steps,
    {
        proof {
            if raw < 16384 && lut_steps > 0 {
                assert((raw * lut_steps) / 16384 < lut_steps) by (nonlinear_arith)
                    requires
                        raw < 16384,
                        lut_steps > 0,
                ;
            }
        }
        (raw as usize) * lut_steps / (COUNTS_PER_REV as usize)
    }
}

/// The step between two raw angles, taken the short way round the 14-bit
/// circle: in `-8192 ..= 8192`.
pub open spec fn wrapped_delta(prev: u16, raw: u16) -> int {
    let d = raw - prev;
    if d > 8192 {
        d - 16384
    } else if d < -8192 {
        d + 16384
    } else {
        d
    }
}

/// Between two 14-bit samples the wrapped step is at most half a
/// revolution either way, and it lands on the second sample modulo a
/// revolution.
pub proof fn lemma_wrapped_delta_bounds(prev: u16, raw: u16)
    requires
        prev < 16384,
        raw < 16384,
    ensures
        -8192 <= wrapped_delta(prev, raw) <= 8192,
        (prev + wrapped_delta(prev, raw)) % 16384 == raw as int,
{
    let d = raw - prev;
    if d > 8192 {
        assert((prev + d - 16384) % 16384 == raw as int) by {
            assert(prev + d - 16384 == raw - 16384);
            vstd::arithmetic::div_mod::lemma_mod_add_multiples_vanish(raw - 16384, 16384);
            vstd::arithmetic::div_mod::lemma_small_mod(raw as nat, 16384);
        }
    } else if d < -8192 {
        assert((prev + d + 16384) % 16384 == raw as int) by {
            vstd::arithmetic::div_mod::lemma_mod_add_multiples_vanish(raw as int, 16384);
            vstd::arithmetic::div_mod::lemma_small_mod(raw as nat, 16384);
        }
    } else {
        vstd::arithmetic::div_mod::lemma_small_mod(raw as nat, 16384);
    }
}

/// Counts the encoder steps between consecutive samples, across the wrap
/// at zero.
pub struct As5047pVelocityEstimator {
    prev_raw: Option<u16>,
}

impl As5047pVelocityEstimator {
    /// The last sample, if any.
    pub closed spec fn previous(&self) -> Option<u16> {
        self.prev_raw
    }

    pub fn new() -> (e: Self)
        ensures
            e.previous() is None,
    {
        As5047pVelocityEstimator { prev_raw: None }
    }

    /// Forgets the last sample.
    pub fn reset(&mut self)
        ensures
            final(self).previous() is None,
    {
        self.prev_raw = None;
    }

    /// Records a sample; returns the wrapped step from the previous one, or
    /// `None` for the first sample.
    pub fn update_counts(&mut self, raw_angle: u16) -> (delta: Option<i32>)
        ensures
            final(self).previous() == Some(raw_angle),
            old(self).previous() is None ==> delta is None,
            old(self).previous() matches Some(p) ==> delta == Some(wrapped_delta(p, raw_angle) as i32),
    {
        match self.prev_raw {
            None => {
                self.prev_raw = Some(raw_angle);
                None
            },
            Some(prev) => {
                let mut delta: i32 = raw_angle as i32 - prev as i32;
                if delta > 8192 {
                    delta -= 16384;
                } else if delta < -8192 {
                    delta += 16384;
                }
                self.prev_raw = Some(raw_angle);
                Some(delta)
            },
        }
    }
}

impl Default for As5047pVelocityEstimator {
    fn default() -> (e: Self)
        ensures
            e.previous() is None,
    {
        Self::new()
    }
}

} // verus!
