//! Registers, and the bus transactions that move their contents.
use crate::alert::AlertSlot;
use crate::units::Channel;
use vstd::prelude::*;
use vstd::slice::slice_subrange;

verus! {

/// Maximum register data size in bytes: the energy registers are 32 bits wide.
pub const LARGEST_REG_SIZE_BYTES: usize = 4;

// ── Register map ─────────────────────────────────────────────────────────────

/// A register of the device.
#[derive(Debug, Clone, Copy, PartialEq, Eq, Structural)]
pub enum Register {
    /// A channel's shunt voltage, signed.
    ShuntVoltage(Channel),
    /// A channel's bus voltage, unsigned.
    BusVoltage(Channel),
    /// A channel's calculated current, signed.
    Current(Channel),
    /// A channel's calculated power, unsigned.
    Power(Channel),
    /// A channel's accumulated energy, unsigned and 32 bits wide.
    Energy(Channel),
    /// A channel's `SHUNT_CAL`.
    Calibration(Channel),
    /// A slot's threshold.
    AlertLimit(AlertSlot),
    /// A slot's condition and target channel.
    AlertConfig(AlertSlot),
    /// Channel enables, conversion timing and operating mode.
    Config1,
    /// Reset, ALERT pin behaviour and ADC ranges.
    Config2,
    /// Conversion, overflow and alert flags.
    Flags,
    /// The manufacturer's identification.
    ManufacturerId,
}

impl Register {
    /// The register's address (datasheet Table 7-1). The channels' banks, and
    /// the slots' registers in them, are eight apart.
    pub open spec fn location(self) -> int {
        match self {
            Register::ShuntVoltage(channel) => 8 * channel.position(),
            Register::BusVoltage(channel) => 8 * channel.position() + 1,
            Register::Current(channel) => 8 * channel.position() + 2,
            Register::Power(channel) => 8 * channel.position() + 3,
            Register::Energy(channel) => 8 * channel.position() + 4,
            Register::Calibration(channel) => 8 * channel.position() + 5,
            Register::AlertLimit(slot) => 8 * slot.position() + 6,
            Register::AlertConfig(slot) => 8 * slot.position() + 7,
            Register::Config1 => 0x20,
            Register::Config2 => 0x21,
            Register::Flags => 0x22,
            Register::ManufacturerId => 0x7E,
        }
    }

    /// The number of bytes the register holds.
    pub open spec fn size(self) -> int {
        if self is Energy {
            4
        } else {
            2
        }
    }

    /// The register's address.
    pub fn address(self) -> (address: u8)
        ensures
            address == self.location(),
    {
        match self {
            Register::ShuntVoltage(channel) => 8 * channel.index() as u8,
            Register::BusVoltage(channel) => 8 * channel.index() as u8 + 1,
            Register::Current(channel) => 8 * channel.index() as u8 + 2,
            Register::Power(channel) => 8 * channel.index() as u8 + 3,
            Register::Energy(channel) => 8 * channel.index() as u8 + 4,
            Register::Calibration(channel) => 8 * channel.index() as u8 + 5,
            Register::AlertLimit(slot) => 8 * slot.index() as u8 + 6,
            Register::AlertConfig(slot) => 8 * slot.index() as u8 + 7,
            Register::Config1 => 0x20,
            Register::Config2 => 0x21,
            Register::Flags => 0x22,
            Register::ManufacturerId => 0x7E,
        }
    }

    /// The number of bytes the register holds.
    pub fn width(self) -> (bytes: usize)
        ensures
            bytes == self.size(),
            bytes <= LARGEST_REG_SIZE_BYTES,
    {
        match self {
            Register::Energy(_) => 4,
            _ => 2,
        }
    }
}

/// The bank of eight that an address lies in, and the offset there.
spec fn place(r: Register) -> (int, int) {
    (r.location() / 8, r.location() % 8)
}

proof fn lemma_place(r: Register)
    ensures
        0 <= r.location() < 0x80,
        match r {
            Register::ShuntVoltage(channel) => place(r) == (channel.position(), 0int),
            Register::BusVoltage(channel) => place(r) == (channel.position(), 1int),
            Register::Current(channel) => place(r) == (channel.position(), 2int),
            Register::Power(channel) => place(r) == (channel.position(), 3int),
            Register::Energy(channel) => place(r) == (channel.position(), 4int),
            Register::Calibration(channel) => place(r) == (channel.position(), 5int),
            Register::AlertLimit(slot) => place(r) == (slot.position(), 6int),
            Register::AlertConfig(slot) => place(r) == (slot.position(), 7int),
            Register::Config1 => place(r) == (4int, 0int),
            Register::Config2 => place(r) == (4int, 1int),
            Register::Flags => place(r) == (4int, 2int),
            Register::ManufacturerId => place(r) == (15int, 6int),
        },
{
}

/// No two registers share an address.
pub proof fn law_register_addresses_are_distinct(r: Register, s: Register)
    ensures
        0 <= r.location() < 0x80,
        r.location() == s.location() <==> r == s,
{
    lemma_place(r);
    lemma_place(s);
    if r.location() == s.location() {
        assert(place(r) == place(s));
        match r {
            Register::ShuntVoltage(_) => assert(s is ShuntVoltage),
            Register::BusVoltage(_) => assert(s is BusVoltage),
            Register::Current(_) => assert(s is Current),
            Register::Power(_) => assert(s is Power),
            Register::Energy(_) => assert(s is Energy),
            Register::Calibration(_) => assert(s is Calibration),
            Register::AlertLimit(_) => assert(s is AlertLimit),
            Register::AlertConfig(_) => assert(s is AlertConfig),
            Register::Config1 => assert(s is Config1),
            Register::Config2 => assert(s is Config2),
            Register::Flags => assert(s is Flags),
            Register::ManufacturerId => assert(s is ManufacturerId),
        }
    }
}

// ── Transactions ─────────────────────────────────────────────────────────────

/// A transaction for the bus to perform.
#[derive(Debug, Clone, Copy, PartialEq, Eq, Structural)]
pub enum Request {
    /// Write a 16-bit word to a register.
    Write {
        /// The register to write.
        register: Register,
        /// The word to write.
        word: u16,
    },
    /// Read a register.
    Read {
        /// The register to read.
        register: Register,
    },
}

/// What the bus reports back.
#[derive(Debug, Clone, Copy, PartialEq, Eq)]
pub enum Reply<I2cError> {
    /// The write was acknowledged.
    Written,
    /// The read returned this value.
    Data(u32),
    /// The transaction failed. The device may or may not have acted on it.
    Failed(I2cError),
}

impl<I2cError> Reply<I2cError> {
    /// Whether this can be the reply to a request: a failure, or what the kind
    /// of request and the width of the register call for.
    pub open spec fn answers(self, request: Request) -> bool {
        match (request, self) {
            (_, Reply::Failed(_)) => true,
            (Request::Write { .. }, Reply::Written) => true,
            (Request::Read { register }, Reply::Data(raw)) => register.size() == 4 || raw
                <= 0xFFFF,
            _ => false,
        }
    }
}

// ── Bytes ────────────────────────────────────────────────────────────────────

/// The number that bytes spell, most significant first.
pub open spec fn big_endian(bytes: Seq<u8>) -> int
    decreases bytes.len(),
{
    if bytes.len() == 0 {
        0
    } else {
        256 * big_endian(bytes.drop_last()) + bytes.last()
    }
}

/// The two bytes of a word, most significant first.
pub fn word_to_bytes(word: u16) -> (bytes: [u8; 2])
    ensures
        bytes@ == seq![(word / 256) as u8, (word % 256) as u8],
        big_endian(bytes@) == word,
{
    let bytes: [u8; 2] = [(word / 256) as u8, (word % 256) as u8];
    proof {
        reveal_with_fuel(big_endian, 3);
        assert(bytes@.drop_last() == seq![bytes[0]]);
        assert(bytes@.drop_last().drop_last() == Seq::<u8>::empty());
    }
    bytes
}

/// The number that up to four bytes spell, most significant first.
pub fn value_of_bytes(bytes: &[u8]) -> (value: u32)
    requires
        bytes@.len() <= LARGEST_REG_SIZE_BYTES,
    ensures
        value == big_endian(bytes@),
        bytes@.len() <= 2 ==> value <= 0xFFFF,
{
    let mut value: u32 = 0;
    let mut i: usize = 0;
    while i < bytes.len()
        invariant
            i <= bytes@.len() <= 4,
            value == big_endian(bytes@.take(i as int)),
            i == 0 ==> value == 0,
            i == 1 ==> value <= 0xFF,
            i == 2 ==> value <= 0xFFFF,
            i == 3 ==> value <= 0xFF_FFFF,
        decreases bytes@.len() - i,
    {
        assert(bytes@.take(i + 1).drop_last() == bytes@.take(i as int));
        value = 256 * value + bytes[i] as u32;
        i = i + 1;
    }
    assert(bytes@.take(i as int) == bytes@);
    value
}

/// The signed number that a 16-bit word holds in two's complement.
pub open spec fn twos_complement(word: int) -> int {
    if word < 0x8000 {
        word
    } else {
        word - 0x1_0000
    }
}

/// The word that holds a signed number in two's complement.
pub open spec fn twos_complement_word(value: int) -> int {
    if value < 0 {
        value + 0x1_0000
    } else {
        value
    }
}

/// Read a word as a signed number.
pub fn word_to_signed(word: u16) -> (value: i16)
    ensures
        value == twos_complement(word as int),
{
    proof {
        assert(word < 0x8000 ==> (word as i16) == word) by (bit_vector);
        assert(word >= 0x8000 ==> (word as i16) == word - 0x1_0000) by (bit_vector);
    }
    word as i16
}

/// Write a signed number as a word.
pub fn signed_to_word(value: i16) -> (word: u16)
    ensures
        word == twos_complement_word(value as int),
{
    proof {
        assert(value >= 0 ==> (value as u16) == value) by (bit_vector);
        assert(value < 0 ==> (value as u16) == value + 0x1_0000) by (bit_vector);
    }
    value as u16
}

/// The bytes of a register write: the address, then the data.
#[derive(Debug, Clone, Copy, PartialEq, Eq)]
pub struct Frame {
    bytes: [u8; 5],
    len: usize,
}

impl View for Frame {
    type V = Seq<u8>;

    closed spec fn view(&self) -> Seq<u8> {
        self.bytes@.take(self.len as int)
    }
}

impl Frame {
    #[verifier::type_invariant]
    spec fn fits(self) -> bool {
        self.len <= 5
    }

    /// Frame a write of `data` to the register at `address`.
    pub fn write(address: u8, data: &[u8]) -> (frame: Frame)
        requires
            data@.len() <= LARGEST_REG_SIZE_BYTES,
        ensures
            frame@ == seq![address] + data@,
    {
        let mut bytes: [u8; 5] = [0; 5];
        bytes[0] = address;
        let mut i: usize = 0;
        while i < data.len()
            invariant
                i <= data@.len() <= 4,
                bytes[0] == address,
                forall|k: int| 0 <= k < i ==> bytes[k + 1] == #[trigger] data@[k],
            decreases data@.len() - i,
        {
            bytes[i + 1] = data[i];
            i = i + 1;
        }
        let frame = Frame { bytes, len: 1 + data.len() };
        assert forall|k: int| 0 < k < frame@.len() implies frame@[k] == data@[k - 1] by {}
        assert(frame@ == seq![address] + data@);
        frame
    }

    /// The bytes to send.
    pub fn as_slice(&self) -> (bytes: &[u8])
        ensures
            bytes@ == self@,
    {
        proof {
            use_type_invariant(self);
        }
        slice_subrange(self.bytes.as_slice(), 0, self.len)
    }
}

} // verus!
