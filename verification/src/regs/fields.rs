//! Register fields.
//!
//! Each register value keeps all of its 32 bits, also those that no field names, so a value that
//! was read can be written back as it was.
use vstd::arithmetic::power2;
use vstd::prelude::*;

verus! {

/// Bit `n` of a register value.
pub open spec fn bit(raw: u32, n: u32) -> bool {
    (raw >> n) & 1 == 1
}

/// The register value `raw` with `value` in place of bit `n`.
pub open spec fn put_bit(raw: u32, n: u32, value: bool) -> u32 {
    if value {
        raw | (1u32 << n)
    } else {
        raw & !(1u32 << n)
    }
}

/// The four bits of a register value from bit `n` upwards.
pub open spec fn nibble(raw: u32, n: u32) -> u32 {
    (raw >> n) & 0xF
}

/// A bit that was put reads back, and no other bit changes.
pub proof fn law_put_bit(raw: u32, n: u32, value: bool)
    requires
        n < 32,
    ensures
        bit(put_bit(raw, n, value), n) == value,
        forall|i: u32|
            i < 32 && i != n ==> #[trigger] bit(put_bit(raw, n, value), i) == bit(raw, i),
{
    assert(bit(put_bit(raw, n, value), n) == value) by (bit_vector)
        requires
            n < 32,
    ;
    assert forall|i: u32| i < 32 && i != n implies #[trigger] bit(put_bit(raw, n, value), i)
        == bit(raw, i) by {
        assert(bit(put_bit(raw, n, value), i) == bit(raw, i)) by (bit_vector)
            requires
                n < 32,
                i < 32,
                i != n,
        ;
    }
}

/// Bit `n` of a register value is its digit in base 2 at that place.
pub proof fn law_bit_is_a_binary_digit_at(raw: u32, n: u32)
    requires
        n < 32,
    ensures
        bit(raw, n) <==> raw as int / power2::pow2(n as nat) as int % 2 == 1,
{
    vstd::bits::lemma_u32_shr_is_div(raw, n);
    let high: u32 = raw >> n;
    assert(high & 1 == high % 2) by (bit_vector);
}

/// The two lowest bits of a register value, as its remainders.
pub proof fn law_bit_is_a_binary_digit(raw: u32)
    ensures
        bit(raw, 0) <==> raw % 2 == 1,
        bit(raw, 1) <==> raw as int / 2 % 2 == 1,
{
    assert(bit(raw, 0) == (raw % 2 == 1)) by (bit_vector);
    assert(bit(raw, 1) == ((raw / 2) % 2 == 1)) by (bit_vector);
}

/// A register value is determined by its bits.
pub proof fn law_bits_determine_value(a: u32, b: u32)
    requires
        forall|i: u32| i < 32 ==> #[trigger] bit(a, i) == bit(b, i),
    ensures
        a == b,
{
    if a != b {
        let d: u32 = a ^ b;
        assert(d != 0) by (bit_vector)
            requires
                d == a ^ b,
                a != b,
        ;
        lemma_some_bit_set(d);
        let i = choose|i: u32| i < 32 && bit(d, i);
        assert(bit(a, i) == bit(b, i));
        assert(bit(a, i) != bit(b, i)) by (bit_vector)
            requires
                d == a ^ b,
                i < 32,
                bit(d, i),
        ;
    }
}

/// The nibble is the digit of the register value in base 16 at its place.
pub proof fn law_nibble_is_a_digit(raw: u32)
    ensures
        nibble(raw, 0) == raw as int % 16,
        nibble(raw, 8) == raw as int / 256 % 16,
{
    assert(nibble(raw, 0) == raw % 16) by (bit_vector);
    assert(nibble(raw, 8) == (raw / 256) % 16) by (bit_vector);
}

/// Reads one bit.
fn get_bit(raw: u32, n: u32) -> (r: bool)
    requires
        n < 32,
    ensures
        r == bit(raw, n),
{
    (raw >> n) & 1 == 1
}

/// Replaces one bit.
fn set_bit(raw: u32, n: u32, value: bool) -> (r: u32)
    requires
        n < 32,
    ensures
        r == put_bit(raw, n, value),
{
    if value {
        raw | (1u32 << n)
    } else {
        raw & !(1u32 << n)
    }
}

/// Extracts four bits with `arbitrary_int::u4::extract_u32`, whose result is taken as a plain
/// `u8` with `value`. Trusted: the result is the value shifted down by `start_bit` and cut to
/// four bits. The call panics where the four bits do not lie within the 32.
#[verifier::external_body]
fn extract_nibble(raw: u32, start_bit: usize) -> (r: u8)
    requires
        start_bit <= 28,
    ensures
        r == nibble(raw, start_bit as u32),
{
    arbitrary_int::u4::extract_u32(raw, start_bit).value()
}

/// Interface description, `AXI_DMAC_REG_INTERFACE_DESC`.
#[derive(Clone, Copy, Debug)]
pub struct InterfaceDescription {
    raw_value: u32,
}

impl View for InterfaceDescription {
    type V = u32;

    closed spec fn view(&self) -> u32 {
        self.raw_value
    }
}

impl Default for InterfaceDescription {
    /// The register value without any bit set.
    fn default() -> (r: Self)
        ensures
            r@ == 0,
    {
        InterfaceDescription { raw_value: 0 }
    }
}

impl InterfaceDescription {
    /// The register with the value `value`.
    pub fn new_with_raw_value(value: u32) -> (r: Self)
        ensures
            r@ == value,
    {
        InterfaceDescription { raw_value: value }
    }

    /// The value of the whole register.
    pub fn raw_value(&self) -> (r: u32)
        ensures
            r == self@,
    {
        self.raw_value
    }

    /// Log2 of the bytes per beat of the source interface.
    pub fn bytes_per_beat_src_log2(&self) -> (r: u8)
        ensures
            r == nibble(self@, 8),
            r < 16,
    {
        proof {
            let raw = self@;
            assert(nibble(raw, 8) < 16) by (bit_vector);
        }
        extract_nibble(self.raw_value, 8)
    }

    /// Log2 of the bytes per beat of the destination interface.
    pub fn bytes_per_beat_dest_log2(&self) -> (r: u8)
        ensures
            r == nibble(self@, 0),
            r < 16,
    {
        proof {
            let raw = self@;
            assert(nibble(raw, 0) < 16) by (bit_vector);
        }
        extract_nibble(self.raw_value, 0)
    }
}

/// Interrupt bits of the mask, pending and source registers.
#[derive(Clone, Copy, Debug)]
pub struct Irq {
    raw_value: u32,
}

impl View for Irq {
    type V = u32;

    closed spec fn view(&self) -> u32 {
        self.raw_value
    }
}

impl Default for Irq {
    /// The register value without any bit set.
    fn default() -> (r: Self)
        ensures
            r@ == 0,
    {
        Irq { raw_value: 0 }
    }
}

impl Irq {
    /// The register with the value `value`.
    pub fn new_with_raw_value(value: u32) -> (r: Self)
        ensures
            r@ == value,
    {
        Irq { raw_value: value }
    }

    /// The value of the whole register.
    pub fn raw_value(&self) -> (r: u32)
        ensures
            r == self@,
    {
        self.raw_value
    }

    /// End of transfer.
    pub fn end_of_transfer(&self) -> (r: bool)
        ensures
            r == bit(self@, 1),
    {
        get_bit(self.raw_value, 1)
    }

    /// The register with the bit `end_of_transfer` set to `value`.
    pub fn with_end_of_transfer(&self, value: bool) -> (r: Self)
        ensures
            r@ == put_bit(self@, 1, value),
    {
        Irq { raw_value: set_bit(self.raw_value, 1, value) }
    }

    /// Start of transfer.
    pub fn start_of_transfer(&self) -> (r: bool)
        ensures
            r == bit(self@, 0),
    {
        get_bit(self.raw_value, 0)
    }

    /// The register with the bit `start_of_transfer` set to `value`.
    pub fn with_start_of_transfer(&self, value: bool) -> (r: Self)
        ensures
            r@ == put_bit(self@, 0, value),
    {
        Irq { raw_value: set_bit(self.raw_value, 0, value) }
    }
}

/// Control register, `AXI_DMAC_REG_CTRL`.
#[derive(Clone, Copy, Debug)]
pub struct Control {
    raw_value: u32,
}

impl View for Control {
    type V = u32;

    closed spec fn view(&self) -> u32 {
        self.raw_value
    }
}

impl Default for Control {
    /// The register value without any bit set.
    fn default() -> (r: Self)
        ensures
            r@ == 0,
    {
        Control { raw_value: 0 }
    }
}

impl Control {
    /// The register with the value `value`.
    pub fn new_with_raw_value(value: u32) -> (r: Self)
        ensures
            r@ == value,
    {
        Control { raw_value: value }
    }

    /// The value of the whole register.
    pub fn raw_value(&self) -> (r: u32)
        ensures
            r == self@,
    {
        self.raw_value
    }

    /// Pauses the core.
    pub fn pause(&self) -> (r: bool)
        ensures
            r == bit(self@, 1),
    {
        get_bit(self.raw_value, 1)
    }

    /// The register with the bit `pause` set to `value`.
    pub fn with_pause(&self, value: bool) -> (r: Self)
        ensures
            r@ == put_bit(self@, 1, value),
    {
        Control { raw_value: set_bit(self.raw_value, 1, value) }
    }

    /// Enables the core. Clearing it stops a running transfer.
    pub fn enable(&self) -> (r: bool)
        ensures
            r == bit(self@, 0),
    {
        get_bit(self.raw_value, 0)
    }

    /// The register with the bit `enable` set to `value`.
    pub fn with_enable(&self, value: bool) -> (r: Self)
        ensures
            r@ == put_bit(self@, 0, value),
    {
        Control { raw_value: set_bit(self.raw_value, 0, value) }
    }
}

/// Transfer submission register, `AXI_DMAC_REG_START_TRANSFER`.
#[derive(Clone, Copy, Debug)]
pub struct StartTransfer {
    raw_value: u32,
}

impl View for StartTransfer {
    type V = u32;

    closed spec fn view(&self) -> u32 {
        self.raw_value
    }
}

impl Default for StartTransfer {
    /// The register value without any bit set.
    fn default() -> (r: Self)
        ensures
            r@ == 0,
    {
        StartTransfer { raw_value: 0 }
    }
}

impl StartTransfer {
    /// The register with the value `value`.
    pub fn new_with_raw_value(value: u32) -> (r: Self)
        ensures
            r@ == value,
    {
        StartTransfer { raw_value: value }
    }

    /// The value of the whole register.
    pub fn raw_value(&self) -> (r: u32)
        ensures
            r == self@,
    {
        self.raw_value
    }

    /// Reads 1 while the transfer queue is full. Writing 1 submits the transfer.
    pub fn submit(&self) -> (r: bool)
        ensures
            r == bit(self@, 0),
    {
        get_bit(self.raw_value, 0)
    }

    /// The register with the bit `submit` set to `value`.
    pub fn with_submit(&self, value: bool) -> (r: Self)
        ensures
            r@ == put_bit(self@, 0, value),
    {
        StartTransfer { raw_value: set_bit(self.raw_value, 0, value) }
    }
}

/// Transfer flags, `AXI_DMAC_REG_FLAGS`.
#[derive(Clone, Copy, Debug)]
pub struct Flags {
    raw_value: u32,
}

impl View for Flags {
    type V = u32;

    closed spec fn view(&self) -> u32 {
        self.raw_value
    }
}

impl Default for Flags {
    /// The register value without any bit set.
    fn default() -> (r: Self)
        ensures
            r@ == 0,
    {
        Flags { raw_value: 0 }
    }
}

impl Flags {
    /// The register with the value `value`.
    pub fn new_with_raw_value(value: u32) -> (r: Self)
        ensures
            r@ == value,
    {
        Flags { raw_value: value }
    }

    /// The value of the whole register.
    pub fn raw_value(&self) -> (r: u32)
        ensures
            r == self@,
    {
        self.raw_value
    }

    /// The transfer repeats until the core is disabled. Only cores which support this in
    /// hardware keep the bit.
    pub fn cyclic(&self) -> (r: bool)
        ensures
            r == bit(self@, 0),
    {
        get_bit(self.raw_value, 0)
    }

    /// The register with the bit `cyclic` set to `value`.
    pub fn with_cyclic(&self, value: bool) -> (r: Self)
        ensures
            r@ == put_bit(self@, 0, value),
    {
        Flags { raw_value: set_bit(self.raw_value, 0, value) }
    }
}

/// Some bit of a value other than zero is set.
proof fn lemma_some_bit_set(d: u32)
    requires
        d != 0,
    ensures
        exists|i: u32| i < 32 && bit(d, i),
    decreases d,
{
    assert(d & 1 == 1 || d & 1 == 0) by (bit_vector);
    if d & 1 == 1 {
        assert(bit(d, 0)) by (bit_vector)
            requires
                d & 1 == 1,
        ;
    } else {
        let half: u32 = d >> 1;
        assert(0 < half < d) by (bit_vector)
            requires
                d != 0,
                d & 1 == 0,
                half == d >> 1,
        ;
        lemma_some_bit_set(half);
        let i = choose|i: u32| i < 32 && bit(half, i);
        assert(i < 31) by (bit_vector)
            requires
                i < 32,
                bit(half, i),
                half == d >> 1,
        ;
        let j = (i + 1) as u32;
        assert(bit(d, j)) by (bit_vector)
            requires
                i < 31,
                j == i + 1,
                bit(half, i),
                half == d >> 1,
        ;
    }
}

} // verus!
