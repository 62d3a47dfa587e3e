//! The two configuration registers, as words with fields.
//!
//! Both are changed by reading the word, replacing a field and writing the
//! word back, so that what one setting does not own stays as it was.
use crate::alert::AlertPinConfig;
use crate::bits;
use crate::bits::{get_field, set_field};
use crate::convert;
use crate::convert::set_channel_bit;
use crate::units::{AdcRange, Channel};
use vstd::prelude::*;

verus! {

/// What the device converts, in `CONFIG1.MODE`.
///
/// Both shutdown encodings are kept apart rather than merged.
#[derive(Debug, Clone, Copy, PartialEq, Eq, Structural)]
pub enum OperatingMode {
    /// Shutdown, encoding 0.
    Shutdown,
    /// Shunt voltage, once per write.
    ShuntTriggered,
    /// Bus voltage, once per write.
    BusTriggered,
    /// Shunt and bus voltage, once per write.
    ShuntAndBusTriggered,
    /// Shutdown, encoding 4.
    ShutdownAlternate,
    /// Shunt voltage, continuously.
    ContinuousShunt,
    /// Bus voltage, continuously.
    ContinuousBus,
    /// Shunt and bus voltage, continuously.
    ContinuousShuntAndBus,
}

impl OperatingMode {
    /// The three-bit code of the setting.
    pub open spec fn code(self) -> u16 {
        match self {
            OperatingMode::Shutdown => 0,
            OperatingMode::ShuntTriggered => 1,
            OperatingMode::BusTriggered => 2,
            OperatingMode::ShuntAndBusTriggered => 3,
            OperatingMode::ShutdownAlternate => 4,
            OperatingMode::ContinuousShunt => 5,
            OperatingMode::ContinuousBus => 6,
            OperatingMode::ContinuousShuntAndBus => 7,
        }
    }

    fn encoding(self) -> (code: u16)
        ensures
            code == self.code(),
            code <= 7,
    {
        match self {
            OperatingMode::Shutdown => 0,
            OperatingMode::ShuntTriggered => 1,
            OperatingMode::BusTriggered => 2,
            OperatingMode::ShuntAndBusTriggered => 3,
            OperatingMode::ShutdownAlternate => 4,
            OperatingMode::ContinuousShunt => 5,
            OperatingMode::ContinuousBus => 6,
            OperatingMode::ContinuousShuntAndBus => 7,
        }
    }

    fn from_encoding(code: u16) -> (setting: OperatingMode)
        requires
            code <= 7,
        ensures
            setting.code() == code,
    {
        match code {
            0 => OperatingMode::Shutdown,
            1 => OperatingMode::ShuntTriggered,
            2 => OperatingMode::BusTriggered,
            3 => OperatingMode::ShuntAndBusTriggered,
            4 => OperatingMode::ShutdownAlternate,
            5 => OperatingMode::ContinuousShunt,
            6 => OperatingMode::ContinuousBus,
            _ => OperatingMode::ContinuousShuntAndBus,
        }
    }
}

/// How many samples are averaged, in `CONFIG1.AVG`.
#[derive(Debug, Clone, Copy, PartialEq, Eq, Structural)]
pub enum Averaging {
    /// 1 sample.
    Samples1,
    /// 4 samples.
    Samples4,
    /// 16 samples.
    Samples16,
    /// 64 samples.
    Samples64,
    /// 128 samples.
    Samples128,
    /// 256 samples.
    Samples256,
    /// 512 samples.
    Samples512,
    /// 1024 samples.
    Samples1024,
}

impl Averaging {
    /// The three-bit code of the setting.
    pub open spec fn code(self) -> u16 {
        match self {
            Averaging::Samples1 => 0,
            Averaging::Samples4 => 1,
            Averaging::Samples16 => 2,
            Averaging::Samples64 => 3,
            Averaging::Samples128 => 4,
            Averaging::Samples256 => 5,
            Averaging::Samples512 => 6,
            Averaging::Samples1024 => 7,
        }
    }

    fn encoding(self) -> (code: u16)
        ensures
            code == self.code(),
            code <= 7,
    {
        match self {
            Averaging::Samples1 => 0,
            Averaging::Samples4 => 1,
            Averaging::Samples16 => 2,
            Averaging::Samples64 => 3,
            Averaging::Samples128 => 4,
            Averaging::Samples256 => 5,
            Averaging::Samples512 => 6,
            Averaging::Samples1024 => 7,
        }
    }

    fn from_encoding(code: u16) -> (setting: Averaging)
        requires
            code <= 7,
        ensures
            setting.code() == code,
    {
        match code {
            0 => Averaging::Samples1,
            1 => Averaging::Samples4,
            2 => Averaging::Samples16,
            3 => Averaging::Samples64,
            4 => Averaging::Samples128,
            5 => Averaging::Samples256,
            6 => Averaging::Samples512,
            _ => Averaging::Samples1024,
        }
    }
}

impl Default for Averaging {
    /// The power-on setting.
    fn default() -> (setting: Averaging)
        ensures
            setting == Averaging::Samples1,
    {
        Averaging::Samples1
    }
}

/// Bus-voltage conversion time, in `CONFIG1.VBUSCT`.
#[derive(Debug, Clone, Copy, PartialEq, Eq, Structural)]
pub enum BusConversionTime {
    /// 140 µs.
    Microseconds140,
    /// 204 µs.
    Microseconds204,
    /// 332 µs.
    Microseconds332,
    /// 588 µs.
    Microseconds588,
    /// 1100 µs.
    Microseconds1100,
    /// 2116 µs.
    Microseconds2116,
    /// 4156 µs.
    Microseconds4156,
    /// 8244 µs.
    Microseconds8244,
}

impl BusConversionTime {
    /// The three-bit code of the setting.
    pub open spec fn code(self) -> u16 {
        match self {
            BusConversionTime::Microseconds140 => 0,
            BusConversionTime::Microseconds204 => 1,
            BusConversionTime::Microseconds332 => 2,
            BusConversionTime::Microseconds588 => 3,
            BusConversionTime::Microseconds1100 => 4,
            BusConversionTime::Microseconds2116 => 5,
            BusConversionTime::Microseconds4156 => 6,
            BusConversionTime::Microseconds8244 => 7,
        }
    }

    fn encoding(self) -> (code: u16)
        ensures
            code == self.code(),
            code <= 7,
    {
        match self {
            BusConversionTime::Microseconds140 => 0,
            BusConversionTime::Microseconds204 => 1,
            BusConversionTime::Microseconds332 => 2,
            BusConversionTime::Microseconds588 => 3,
            BusConversionTime::Microseconds1100 => 4,
            BusConversionTime::Microseconds2116 => 5,
            BusConversionTime::Microseconds4156 => 6,
            BusConversionTime::Microseconds8244 => 7,
        }
    }

    fn from_encoding(code: u16) -> (setting: BusConversionTime)
        requires
            code <= 7,
        ensures
            setting.code() == code,
    {
        match code {
            0 => BusConversionTime::Microseconds140,
            1 => BusConversionTime::Microseconds204,
            2 => BusConversionTime::Microseconds332,
            3 => BusConversionTime::Microseconds588,
            4 => BusConversionTime::Microseconds1100,
            5 => BusConversionTime::Microseconds2116,
            6 => BusConversionTime::Microseconds4156,
            _ => BusConversionTime::Microseconds8244,
        }
    }
}

impl Default for BusConversionTime {
    /// The power-on setting.
    fn default() -> (setting: BusConversionTime)
        ensures
            setting == BusConversionTime::Microseconds1100,
    {
        BusConversionTime::Microseconds1100
    }
}

/// Shunt-voltage conversion time, in `CONFIG1.VSHCT`.
#[derive(Debug, Clone, Copy, PartialEq, Eq, Structural)]
pub enum ShuntConversionTime {
    /// 140 µs.
    Microseconds140,
    /// 204 µs.
    Microseconds204,
    /// 332 µs.
    Microseconds332,
    /// 588 µs.
    Microseconds588,
    /// 1100 µs.
    Microseconds1100,
    /// 2116 µs.
    Microseconds2116,
    /// 4156 µs.
    Microseconds4156,
    /// 8244 µs.
    Microseconds8244,
}

impl ShuntConversionTime {
    /// The three-bit code of the setting.
    pub open spec fn code(self) -> u16 {
        match self {
            ShuntConversionTime::Microseconds140 => 0,
            ShuntConversionTime::Microseconds204 => 1,
            ShuntConversionTime::Microseconds332 => 2,
            ShuntConversionTime::Microseconds588 => 3,
            ShuntConversionTime::Microseconds1100 => 4,
            ShuntConversionTime::Microseconds2116 => 5,
            ShuntConversionTime::Microseconds4156 => 6,
            ShuntConversionTime::Microseconds8244 => 7,
        }
    }

    fn encoding(self) -> (code: u16)
        ensures
            code == self.code(),
            code <= 7,
    {
        match self {
            ShuntConversionTime::Microseconds140 => 0,
            ShuntConversionTime::Microseconds204 => 1,
            ShuntConversionTime::Microseconds332 => 2,
            ShuntConversionTime::Microseconds588 => 3,
            ShuntConversionTime::Microseconds1100 => 4,
            ShuntConversionTime::Microseconds2116 => 5,
            ShuntConversionTime::Microseconds4156 => 6,
            ShuntConversionTime::Microseconds8244 => 7,
        }
    }

    fn from_encoding(code: u16) -> (setting: ShuntConversionTime)
        requires
            code <= 7,
        ensures
            setting.code() == code,
    {
        match code {
            0 => ShuntConversionTime::Microseconds140,
            1 => ShuntConversionTime::Microseconds204,
            2 => ShuntConversionTime::Microseconds332,
            3 => ShuntConversionTime::Microseconds588,
            4 => ShuntConversionTime::Microseconds1100,
            5 => ShuntConversionTime::Microseconds2116,
            6 => ShuntConversionTime::Microseconds4156,
            _ => ShuntConversionTime::Microseconds8244,
        }
    }
}

impl Default for ShuntConversionTime {
    /// The power-on setting.
    fn default() -> (setting: ShuntConversionTime)
        ensures
            setting == ShuntConversionTime::Microseconds1100,
    {
        ShuntConversionTime::Microseconds1100
    }
}

/// The three conversion-timing fields of `CONFIG1`.
#[derive(Debug, Clone, Copy, PartialEq, Eq, Structural)]
pub struct ConversionTiming {
    /// How many samples are averaged.
    pub averaging: Averaging,
    /// Bus-voltage conversion time.
    pub bus_conversion_time: BusConversionTime,
    /// Shunt-voltage conversion time.
    pub shunt_conversion_time: ShuntConversionTime,
}

impl Default for ConversionTiming {
    /// The power-on timing: one sample, 1100 µs bus and shunt conversions.
    fn default() -> (timing: ConversionTiming)
        ensures
            timing == (ConversionTiming {
                averaging: Averaging::Samples1,
                bus_conversion_time: BusConversionTime::Microseconds1100,
                shunt_conversion_time: ShuntConversionTime::Microseconds1100,
            }),
    {
        ConversionTiming {
            averaging: Averaging::Samples1,
            bus_conversion_time: BusConversionTime::Microseconds1100,
            shunt_conversion_time: ShuntConversionTime::Microseconds1100,
        }
    }
}

// ── CONFIG1 ──────────────────────────────────────────────────────────────────

/// `CONFIG1.MODE`, bits 2:0.
pub open spec fn mode_field(word: u16) -> u16 {
    bits::field(word, 0, 7)
}

/// `CONFIG1.VSHCT`, bits 5:3.
pub open spec fn shunt_time_field(word: u16) -> u16 {
    bits::field(word, 3, 7)
}

/// `CONFIG1.VBUSCT`, bits 8:6.
pub open spec fn bus_time_field(word: u16) -> u16 {
    bits::field(word, 6, 7)
}

/// `CONFIG1.AVG`, bits 11:9.
pub open spec fn averaging_field(word: u16) -> u16 {
    bits::field(word, 9, 7)
}

/// `CONFIG1.ACTIVE_CHANNEL`, bits 15:12, in which the lowest is channel 1.
pub open spec fn active_field(word: u16) -> u16 {
    bits::field(word, 12, 15)
}

/// A change to `CONFIG1`.
#[derive(Debug, Clone, Copy, PartialEq, Eq, Structural)]
pub enum Config1Change {
    /// Enable or disable a channel.
    ChannelActive(Channel, bool),
    /// Select the operating mode.
    Mode(OperatingMode),
    /// Replace all three timing fields.
    Timing(ConversionTiming),
    /// Select the averaging.
    Averaging(Averaging),
    /// Select the bus conversion time.
    BusConversionTime(BusConversionTime),
    /// Select the shunt conversion time.
    ShuntConversionTime(ShuntConversionTime),
}

/// The `CONFIG1` word after a change.
pub open spec fn changed_config1(word: u16, change: Config1Change) -> u16 {
    match change {
        Config1Change::ChannelActive(channel, active) => bits::with_field(
            word,
            12,
            15,
            convert::with_channel_bit(active_field(word) as u8, channel, active) as u16,
        ),
        Config1Change::Mode(mode) => bits::with_field(word, 0, 7, mode.code()),
        Config1Change::Timing(timing) => bits::with_field(
            bits::with_field(
                bits::with_field(word, 9, 7, timing.averaging.code()),
                6,
                7,
                timing.bus_conversion_time.code(),
            ),
            3,
            7,
            timing.shunt_conversion_time.code(),
        ),
        Config1Change::Averaging(averaging) => bits::with_field(word, 9, 7, averaging.code()),
        Config1Change::BusConversionTime(time) => bits::with_field(word, 6, 7, time.code()),
        Config1Change::ShuntConversionTime(time) => bits::with_field(word, 3, 7, time.code()),
    }
}

/// A `CONFIG1` word.
#[derive(Debug, Clone, Copy, PartialEq, Eq, Structural)]
pub struct Config1 {
    word: u16,
}

impl View for Config1 {
    type V = u16;

    closed spec fn view(&self) -> u16 {
        self.word
    }
}

impl Config1 {
    /// The register contents as a word.
    pub fn from_word(word: u16) -> (config: Config1)
        ensures
            config@ == word,
    {
        Config1 { word }
    }

    /// The word.
    pub fn word(self) -> (word: u16)
        ensures
            word == self@,
    {
        self.word
    }

    /// The operating mode.
    pub fn mode(self) -> (mode: OperatingMode)
        ensures
            mode.code() == mode_field(self@),
    {
        OperatingMode::from_encoding(get_field(self.word, 0, 7))
    }

    /// How many samples are averaged.
    pub fn averaging(self) -> (averaging: Averaging)
        ensures
            averaging.code() == averaging_field(self@),
    {
        Averaging::from_encoding(get_field(self.word, 9, 7))
    }

    /// The bus-voltage conversion time.
    pub fn bus_conversion_time(self) -> (time: BusConversionTime)
        ensures
            time.code() == bus_time_field(self@),
    {
        BusConversionTime::from_encoding(get_field(self.word, 6, 7))
    }

    /// The shunt-voltage conversion time.
    pub fn shunt_conversion_time(self) -> (time: ShuntConversionTime)
        ensures
            time.code() == shunt_time_field(self@),
    {
        ShuntConversionTime::from_encoding(get_field(self.word, 3, 7))
    }

    /// The three timing fields.
    pub fn conversion_timing(self) -> (timing: ConversionTiming)
        ensures
            timing.averaging.code() == averaging_field(self@),
            timing.bus_conversion_time.code() == bus_time_field(self@),
            timing.shunt_conversion_time.code() == shunt_time_field(self@),
    {
        ConversionTiming {
            averaging: self.averaging(),
            bus_conversion_time: self.bus_conversion_time(),
            shunt_conversion_time: self.shunt_conversion_time(),
        }
    }

    /// Apply a change.
    pub fn changed(self, change: Config1Change) -> (config: Config1)
        ensures
            config@ == changed_config1(self@, change),
    {
        let word: u16 = self.word;
        let updated: u16 = match change {
            Config1Change::ChannelActive(channel, active) => {
                let mask: u8 = get_field(word, 12, 15) as u8;
                set_field(word, 12, 15, set_channel_bit(mask, channel, active) as u16)
            },
            Config1Change::Mode(mode) => set_field(word, 0, 7, mode.encoding()),
            Config1Change::Timing(timing) => {
                let averaged: u16 = set_field(word, 9, 7, timing.averaging.encoding());
                let bus: u16 = set_field(averaged, 6, 7, timing.bus_conversion_time.encoding());
                set_field(bus, 3, 7, timing.shunt_conversion_time.encoding())
            },
            Config1Change::Averaging(averaging) => set_field(word, 9, 7, averaging.encoding()),
            Config1Change::BusConversionTime(time) => set_field(word, 6, 7, time.encoding()),
            Config1Change::ShuntConversionTime(time) => set_field(word, 3, 7, time.encoding()),
        };
        Config1 { word: updated }
    }
}

/// A setting's code identifies it.
pub proof fn law_setting_codes_are_distinct(
    m: OperatingMode,
    n: OperatingMode,
    a: Averaging,
    b: Averaging,
    s: BusConversionTime,
    t: BusConversionTime,
    u: ShuntConversionTime,
    v: ShuntConversionTime,
)
    ensures
        m.code() == n.code() <==> m == n,
        a.code() == b.code() <==> a == b,
        s.code() == t.code() <==> s == t,
        u.code() == v.code() <==> u == v,
{
}

/// The five fields make up the whole `CONFIG1` word.
pub proof fn law_config1_fields_make_the_word(v: u16, w: u16)
    ensures
        v == w <==> {
            &&& mode_field(v) == mode_field(w)
            &&& shunt_time_field(v) == shunt_time_field(w)
            &&& bus_time_field(v) == bus_time_field(w)
            &&& averaging_field(v) == averaging_field(w)
            &&& active_field(v) == active_field(w)
        },
{
    assert(v == w <==> (v >> 0) & 7 == (w >> 0) & 7 && (v >> 3) & 7 == (w >> 3) & 7 && (v >> 6) & 7
        == (w >> 6) & 7 && (v >> 9) & 7 == (w >> 9) & 7 && (v >> 12) & 15 == (w >> 12) & 15)
        by (bit_vector);
}

proof fn lemma_config1_layout()
    ensures
        bits::is_field(0, 7) && bits::is_field(3, 7) && bits::is_field(6, 7) && bits::is_field(9, 7)
            && bits::is_field(12, 15),
        (7u16 << 0) == 0x7 && (7u16 << 3) == 0x38 && (7u16 << 6) == 0x1C0 && (7u16 << 9) == 0xE00
            && (15u16 << 12) == 0xF000,
        forall|a: u16, b: u16| #[trigger]
            (a & b) == 0 <== (a == 0x7 || a == 0x38 || a == 0x1C0 || a == 0xE00 || a == 0xF000) && (b
                == 0x7 || b == 0x38 || b == 0x1C0 || b == 0xE00 || b == 0xF000) && a != b,
{
    assert((7u16 << 0) >> 0 == 7u16 && (7u16 << 3) >> 3 == 7u16 && (7u16 << 6) >> 6 == 7u16 && (7u16
        << 9) >> 9 == 7u16 && (15u16 << 12) >> 12 == 15u16) by (bit_vector);
    assert((7u16 << 0) == 0x7 && (7u16 << 3) == 0x38 && (7u16 << 6) == 0x1C0 && (7u16 << 9) == 0xE00
        && (15u16 << 12) == 0xF000) by (bit_vector);
    assert(forall|a: u16, b: u16| #[trigger]
        (a & b) == 0 <== (a == 0x7 || a == 0x38 || a == 0x1C0 || a == 0xE00 || a == 0xF000) && (b
            == 0x7 || b == 0x38 || b == 0x1C0 || b == 0xE00 || b == 0xF000) && a != b)
        by (bit_vector);
}

/// Replacing one field of `CONFIG1` sets that field and keeps the other four.
proof fn lemma_config1_field_replaced(word: u16, shift: u16, mask: u16, value: u16)
    requires
        (mask == 7 && (shift == 0 || shift == 3 || shift == 6 || shift == 9)) || (mask == 15
            && shift == 12),
        value <= mask,
    ensures
        ({
            let w = bits::with_field(word, shift, mask, value);
            &&& mode_field(w) == if shift == 0 {
                value
            } else {
                mode_field(word)
            }
            &&& shunt_time_field(w) == if shift == 3 {
                value
            } else {
                shunt_time_field(word)
            }
            &&& bus_time_field(w) == if shift == 6 {
                value
            } else {
                bus_time_field(word)
            }
            &&& averaging_field(w) == if shift == 9 {
                value
            } else {
                averaging_field(word)
            }
            &&& active_field(w) == if shift == 12 {
                value
            } else {
                active_field(word)
            }
        }),
{
    lemma_config1_layout();
    bits::lemma_field_replaced(word, shift, mask, value);
    if shift != 0 {
        bits::lemma_field_kept(word, shift, mask, value, 0, 7);
    }
    if shift != 3 {
        bits::lemma_field_kept(word, shift, mask, value, 3, 7);
    }
    if shift != 6 {
        bits::lemma_field_kept(word, shift, mask, value, 6, 7);
    }
    if shift != 9 {
        bits::lemma_field_kept(word, shift, mask, value, 9, 7);
    }
    if shift != 12 {
        bits::lemma_field_kept(word, shift, mask, value, 12, 15);
    }
}

/// Every change to `CONFIG1` sets the fields it names, which then read back,
/// and keeps all others.
pub proof fn law_config1_change_touches_only_its_fields(word: u16, change: Config1Change)
    ensures
        ({
            let w = changed_config1(word, change);
            &&& mode_field(w) == match change {
                Config1Change::Mode(mode) => mode.code(),
                _ => mode_field(word),
            }
            &&& averaging_field(w) == match change {
                Config1Change::Timing(timing) => timing.averaging.code(),
                Config1Change::Averaging(averaging) => averaging.code(),
                _ => averaging_field(word),
            }
            &&& bus_time_field(w) == match change {
                Config1Change::Timing(timing) => timing.bus_conversion_time.code(),
                Config1Change::BusConversionTime(time) => time.code(),
                _ => bus_time_field(word),
            }
            &&& shunt_time_field(w) == match change {
                Config1Change::Timing(timing) => timing.shunt_conversion_time.code(),
                Config1Change::ShuntConversionTime(time) => time.code(),
                _ => shunt_time_field(word),
            }
            &&& active_field(w) == match change {
                Config1Change::ChannelActive(channel, active) => convert::with_channel_bit(
                    active_field(word) as u8,
                    channel,
                    active,
                ) as u16,
                _ => active_field(word),
            }
        }),
{
    match change {
        Config1Change::ChannelActive(channel, active) => {
            assert((word >> 12) & 15 <= 15) by (bit_vector);
            lemma_nibble_stays(active_field(word) as u8, channel, active);
            lemma_config1_field_replaced(
                word,
                12,
                15,
                convert::with_channel_bit(active_field(word) as u8, channel, active) as u16,
            );
        },
        Config1Change::Mode(mode) => lemma_config1_field_replaced(word, 0, 7, mode.code()),
        Config1Change::Timing(timing) => {
            let averaged = bits::with_field(word, 9, 7, timing.averaging.code());
            let bus = bits::with_field(averaged, 6, 7, timing.bus_conversion_time.code());
            lemma_config1_field_replaced(word, 9, 7, timing.averaging.code());
            lemma_config1_field_replaced(averaged, 6, 7, timing.bus_conversion_time.code());
            lemma_config1_field_replaced(bus, 3, 7, timing.shunt_conversion_time.code());
        },
        Config1Change::Averaging(averaging) => lemma_config1_field_replaced(
            word,
            9,
            7,
            averaging.code(),
        ),
        Config1Change::BusConversionTime(time) => lemma_config1_field_replaced(
            word,
            6,
            7,
            time.code(),
        ),
        Config1Change::ShuntConversionTime(time) => lemma_config1_field_replaced(
            word,
            3,
            7,
            time.code(),
        ),
    }
}

/// A four-bit channel mask stays four bits wide.
pub(crate) proof fn lemma_nibble_stays(mask: u8, channel: Channel, set: bool)
    requires
        mask <= 15,
    ensures
        convert::with_channel_bit(mask, channel, set) <= 15,
{
    let b = channel.bit();
    assert((mask | b) <= 15 && (mask & !b) <= 15) by (bit_vector)
        requires
            mask <= 15,
            b <= 8,
    ;
}

// ── CONFIG2 ──────────────────────────────────────────────────────────────────

/// The `CONFIG2` word that resets the device: only `RST`, bit 15, is set.
pub const RESET_WORD: u16 = 0x8000;

/// `CONFIG2.RANGE`, bits 3:0, in which the lowest is channel 1.
pub open spec fn range_field(word: u16) -> u16 {
    bits::field(word, 0, 15)
}

/// `CNVR_MASK`, `ENOF_MASK`, `ALERT_LATCH` and `ALERT_POL`, in `CONFIG2` bits
/// 7:4.
pub open spec fn pin_field(word: u16) -> u16 {
    bits::field(word, 4, 15)
}

/// The ADC range to select for each channel; `None` leaves a channel's as it is.
#[derive(Debug, Clone, Copy, PartialEq, Eq)]
pub struct RangeSelection {
    /// Channel 1.
    pub ch1: Option<AdcRange>,
    /// Channel 2.
    pub ch2: Option<AdcRange>,
    /// Channel 3.
    pub ch3: Option<AdcRange>,
    /// Channel 4.
    pub ch4: Option<AdcRange>,
}

impl RangeSelection {
    /// What is selected for a channel.
    pub open spec fn of(self, channel: Channel) -> Option<AdcRange> {
        match channel {
            Channel::Ch1 => self.ch1,
            Channel::Ch2 => self.ch2,
            Channel::Ch3 => self.ch3,
            Channel::Ch4 => self.ch4,
        }
    }

    /// The selection that names one channel.
    pub open spec fn only(channel: Channel, range: AdcRange) -> RangeSelection {
        RangeSelection {
            ch1: if channel is Ch1 {
                Some(range)
            } else {
                None
            },
            ch2: if channel is Ch2 {
                Some(range)
            } else {
                None
            },
            ch3: if channel is Ch3 {
                Some(range)
            } else {
                None
            },
            ch4: if channel is Ch4 {
                Some(range)
            } else {
                None
            },
        }
    }

    /// Select a range for one channel.
    pub fn one(channel: Channel, range: AdcRange) -> (selection: RangeSelection)
        ensures
            selection == RangeSelection::only(channel, range),
    {
        let mut selection = RangeSelection { ch1: None, ch2: None, ch3: None, ch4: None };
        match channel {
            Channel::Ch1 => selection.ch1 = Some(range),
            Channel::Ch2 => selection.ch2 = Some(range),
            Channel::Ch3 => selection.ch3 = Some(range),
            Channel::Ch4 => selection.ch4 = Some(range),
        }
        selection
    }

    /// Whether a range is selected for a channel.
    pub fn names(&self, channel: Channel) -> (named: bool)
        ensures
            named == self.of(channel) is Some,
    {
        match channel {
            Channel::Ch1 => self.ch1.is_some(),
            Channel::Ch2 => self.ch2.is_some(),
            Channel::Ch3 => self.ch3.is_some(),
            Channel::Ch4 => self.ch4.is_some(),
        }
    }
}

/// A channel mask with one channel's range selected, if there is one to select.
pub open spec fn with_range(mask: u8, channel: Channel, range: Option<AdcRange>) -> u8 {
    match range {
        Some(range) => convert::with_channel_bit(mask, channel, range is Range1),
        None => mask,
    }
}

/// The ranges that a mask holds after a selection.
pub open spec fn with_ranges(mask: u8, selection: RangeSelection) -> u8 {
    with_range(
        with_range(
            with_range(with_range(mask, Channel::Ch1, selection.ch1), Channel::Ch2, selection.ch2),
            Channel::Ch3,
            selection.ch3,
        ),
        Channel::Ch4,
        selection.ch4,
    )
}

/// The `CONFIG2` word after a range selection.
pub open spec fn ranged_config2(word: u16, selection: RangeSelection) -> u16 {
    bits::with_field(word, 0, 15, with_ranges(range_field(word) as u8, selection) as u16)
}

/// The `CONFIG2` word after a change of the ALERT pin configuration.
pub open spec fn pinned_config2(word: u16, pin: AlertPinConfig) -> u16 {
    bits::with_field(word, 4, 15, pin.code() as u16)
}

/// A `CONFIG2` word.
#[derive(Debug, Clone, Copy, PartialEq, Eq, Structural)]
pub struct Config2 {
    word: u16,
}

impl View for Config2 {
    type V = u16;

    closed spec fn view(&self) -> u16 {
        self.word
    }
}

impl Config2 {
    /// The register contents as a word.
    pub fn from_word(word: u16) -> (config: Config2)
        ensures
            config@ == word,
    {
        Config2 { word }
    }

    /// The word.
    pub fn word(self) -> (word: u16)
        ensures
            word == self@,
    {
        self.word
    }

    /// The ALERT pin configuration.
    pub fn alert_pin_config(self) -> (pin: AlertPinConfig)
        ensures
            pin.code() == pin_field(self@),
    {
        AlertPinConfig::from_encoding(get_field(self.word, 4, 15))
    }

    /// Replace the ALERT pin configuration.
    pub fn with_alert_pin_config(self, pin: AlertPinConfig) -> (config: Config2)
        ensures
            config@ == pinned_config2(self@, pin),
    {
        Config2 { word: set_field(self.word, 4, 15, pin.encoding()) }
    }

    /// Select the ADC range of each channel that has one to select.
    pub fn with_ranges(self, selection: RangeSelection) -> (config: Config2)
        ensures
            config@ == ranged_config2(self@, selection),
    {
        let mask: u8 = get_field(self.word, 0, 15) as u8;
        let mask: u8 = select_range(mask, Channel::Ch1, selection.ch1);
        let mask: u8 = select_range(mask, Channel::Ch2, selection.ch2);
        let mask: u8 = select_range(mask, Channel::Ch3, selection.ch3);
        let mask: u8 = select_range(mask, Channel::Ch4, selection.ch4);
        Config2 { word: set_field(self.word, 0, 15, mask as u16) }
    }
}

fn select_range(mask: u8, channel: Channel, range: Option<AdcRange>) -> (selected: u8)
    ensures
        selected == with_range(mask, channel, range),
{
    match range {
        Some(range) => set_channel_bit(mask, channel, range == AdcRange::Range1),
        None => mask,
    }
}

/// A range selection moves the range bits of the channels it names and nothing
/// else; in particular it keeps the ALERT pin configuration.
pub proof fn law_range_selection_touches_only_its_bits(
    word: u16,
    selection: RangeSelection,
    channel: Channel,
)
    ensures
        convert::has_channel_bit(range_field(ranged_config2(word, selection)) as u8, channel) == match
        selection.of(channel) {
            Some(range) => range is Range1,
            None => convert::has_channel_bit(range_field(word) as u8, channel),
        },
        ranged_config2(word, selection) & 0xFFF0 == word & 0xFFF0,
        pin_field(ranged_config2(word, selection)) == pin_field(word),
{
    assert((word >> 0) & 15 <= 15) by (bit_vector);
    assert((15u16 << 0) >> 0 == 15u16 && !(15u16 << 0) == 0xFFF0u16 && (15u16 << 0) & (15u16 << 4)
        == 0) by (bit_vector);
    let m0 = range_field(word) as u8;
    let m1 = with_range(m0, Channel::Ch1, selection.ch1);
    let m2 = with_range(m1, Channel::Ch2, selection.ch2);
    let m3 = with_range(m2, Channel::Ch3, selection.ch3);
    let m4 = with_range(m3, Channel::Ch4, selection.ch4);
    lemma_range_step(m0, Channel::Ch1, selection.ch1, channel);
    lemma_range_step(m1, Channel::Ch2, selection.ch2, channel);
    lemma_range_step(m2, Channel::Ch3, selection.ch3, channel);
    lemma_range_step(m3, Channel::Ch4, selection.ch4, channel);
    bits::lemma_field_replaced(word, 0, 15, m4 as u16);
    bits::lemma_field_kept(word, 0, 15, m4 as u16, 4, 15);
}

proof fn lemma_range_step(mask: u8, channel: Channel, range: Option<AdcRange>, other: Channel)
    requires
        mask <= 15,
    ensures
        with_range(mask, channel, range) <= 15,
        convert::has_channel_bit(with_range(mask, channel, range), other) == if other == channel {
            match range {
                Some(range) => range is Range1,
                None => convert::has_channel_bit(mask, other),
            }
        } else {
            convert::has_channel_bit(mask, other)
        },
{
    if let Some(range) = range {
        convert::law_channel_bit_reads_back(mask, channel, range is Range1, other);
        lemma_nibble_stays(mask, channel, range is Range1);
    }
}

/// A new pin configuration reads back, and every other `CONFIG2` bit, the
/// ranges among them, is kept.
pub proof fn law_pin_config_touches_only_its_bits(word: u16, pin: AlertPinConfig)
    ensures
        pin_field(pinned_config2(word, pin)) == pin.code(),
        pinned_config2(word, pin) & 0xFF0F == word & 0xFF0F,
        range_field(pinned_config2(word, pin)) == range_field(word),
{
    assert((15u16 << 4) >> 4 == 15u16 && !(15u16 << 4) == 0xFF0Fu16 && (15u16 << 4) & (15u16 << 0)
        == 0) by (bit_vector);
    bits::lemma_field_replaced(word, 4, 15, pin.code() as u16);
    bits::lemma_field_kept(word, 4, 15, pin.code() as u16, 0, 15);
}

} // verus!
