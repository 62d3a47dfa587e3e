//! Alert slots, alert conditions and the ALERT pin.
//!
//! The INA4230 has four alert slots. Each slot pairs an `ALERT_CONFIG`
//! register, which selects a condition and the channel to watch, with an
//! `ALERT_LIMIT` register holding the threshold for that condition.
//!
//! A slot is not a channel: `ALERT_CONFIG` has a `CHANNEL` field (datasheet
//! Table 7-8), so slot 2 may watch channel 4.
use crate::units::{BusVoltage, Channel, Power, ShuntVoltage};
use vstd::prelude::*;

verus! {

/// One of the four alert slots.
///
/// Distinct from [`Channel`]: a slot selects which of the four
/// `ALERT_CONFIG`/`ALERT_LIMIT` register pairs is addressed, and each pair
/// names its own target channel.
#[derive(Debug, Clone, Copy, PartialEq, Eq, Structural, PartialOrd, Ord, Hash)]
pub enum AlertSlot {
    /// Slot 1: `ALERT_LIMIT` 0x06, `ALERT_CONFIG` 0x07.
    One,
    /// Slot 2: `ALERT_LIMIT` 0x0E, `ALERT_CONFIG` 0x0F.
    Two,
    /// Slot 3: `ALERT_LIMIT` 0x16, `ALERT_CONFIG` 0x17.
    Three,
    /// Slot 4: `ALERT_LIMIT` 0x1E, `ALERT_CONFIG` 0x1F.
    Four,
}

impl AlertSlot {
    /// Every slot, in index order.
    pub const ALL: [AlertSlot; 4] = [
        AlertSlot::One,
        AlertSlot::Two,
        AlertSlot::Three,
        AlertSlot::Four,
    ];

    /// The zero-based position of the slot.
    pub open spec fn position(self) -> int {
        match self {
            AlertSlot::One => 0,
            AlertSlot::Two => 1,
            AlertSlot::Three => 2,
            AlertSlot::Four => 3,
        }
    }

    /// Zero-based index, usable for array lookup and register striding.
    #[must_use]
    pub fn index(self) -> (i: usize)
        ensures
            i == self.position(),
    {
        match self {
            AlertSlot::One => 0,
            AlertSlot::Two => 1,
            AlertSlot::Three => 2,
            AlertSlot::Four => 3,
        }
    }
}

/// A condition that asserts the ALERT pin, together with its threshold.
///
/// Each variant carries the threshold in the unit that variant implies, so a
/// bus threshold cannot be paired with a shunt condition. The five variants are
/// `ALERT_MASK` encodings 1 to 5 (datasheet Table 7-8); encodings 0, 6 and 7
/// have no effect and stand for a disarmed slot.
#[derive(Debug, Clone, Copy, PartialEq, Eq, Structural)]
pub enum Alert {
    /// Shunt voltage rose above the threshold.
    ShuntOver(ShuntVoltage),
    /// Shunt voltage fell below the threshold.
    ShuntUnder(ShuntVoltage),
    /// Bus voltage rose above the threshold.
    BusOver(BusVoltage),
    /// Bus voltage fell below the threshold.
    BusUnder(BusVoltage),
    /// Power rose above the threshold.
    PowerOver(Power),
}

impl Alert {
    /// The `ALERT_MASK` encoding of the condition (datasheet Table 7-8).
    pub open spec fn code(self) -> int {
        match self {
            Alert::ShuntOver(_) => 1,
            Alert::ShuntUnder(_) => 2,
            Alert::BusOver(_) => 3,
            Alert::BusUnder(_) => 4,
            Alert::PowerOver(_) => 5,
        }
    }

    /// Whether the threshold's scale comes from a channel's calibration.
    pub open spec fn is_scaled(self) -> bool {
        self is ShuntOver || self is ShuntUnder || self is PowerOver
    }

    /// The `ALERT_MASK` encoding of the condition (datasheet Table 7-8).
    #[must_use]
    pub fn mask_encoding(self) -> (code: u8)
        ensures
            code == self.code(),
    {
        match self {
            Alert::ShuntOver(_) => 1,
            Alert::ShuntUnder(_) => 2,
            Alert::BusOver(_) => 3,
            Alert::BusUnder(_) => 4,
            Alert::PowerOver(_) => 5,
        }
    }

    /// Whether encoding the threshold needs the target channel's calibration.
    ///
    /// Shunt thresholds scale with the ADC range and power thresholds with
    /// `CURRENT_LSB`. Bus thresholds have a fixed 1.6 mV LSB.
    #[must_use]
    pub fn needs_calibration(self) -> (needed: bool)
        ensures
            needed == self.is_scaled(),
    {
        match self {
            Alert::ShuntOver(_) | Alert::ShuntUnder(_) | Alert::PowerOver(_) => true,
            Alert::BusOver(_) | Alert::BusUnder(_) => false,
        }
    }
}

/// The `ALERT_CONFIG` word that watches `channel` for `alert`: `CHANNEL` in
/// bits 4:3, `ALERT_MASK` in bits 2:0.
pub open spec fn armed_config(channel: Channel, alert: Alert) -> int {
    8 * channel.position() + alert.code()
}

/// The `ALERT_CONFIG` word of a disarmed slot: `ALERT_MASK` 0 has no effect.
pub const DISARMED_CONFIG: u16 = 0;

/// Whether an `ALERT_CONFIG` word enables a condition: `ALERT_MASK`, in bits
/// 2:0, is none of the encodings 0, 6 and 7.
pub open spec fn is_armed(config: int) -> bool {
    1 <= config % 8 <= 5
}

/// Build the `ALERT_CONFIG` word that watches `channel` for `alert`.
pub fn alert_config(channel: Channel, alert: Alert) -> (config: u16)
    ensures
        config == armed_config(channel, alert),
{
    8 * channel.index() as u16 + alert.mask_encoding() as u16
}

/// An armed slot's word names its channel and its condition, enables that
/// condition, and differs from the disarmed word.
pub proof fn law_alert_config_is_unambiguous(c: Channel, a: Alert, d: Channel, b: Alert)
    ensures
        is_armed(armed_config(c, a)),
        !is_armed(DISARMED_CONFIG as int),
        armed_config(c, a) == armed_config(d, b) <==> c == d && a.code() == b.code(),
        0 <= armed_config(c, a) < 32,
{
}

// ── ALERT pin ────────────────────────────────────────────────────────────────

/// Whether an asserted ALERT pin outlives its condition.
#[derive(Debug, Clone, Copy, PartialEq, Eq, Structural)]
pub enum AlertLatch {
    /// The pin deasserts when the condition clears.
    Transparent,
    /// The pin holds until `FLAGS` is read.
    Latched,
}

/// Which level asserts the ALERT pin.
#[derive(Debug, Clone, Copy, PartialEq, Eq, Structural)]
pub enum AlertPolarity {
    /// Asserted low.
    ActiveLow,
    /// Asserted high.
    ActiveHigh,
}

/// Behaviour of the ALERT pin, in `CONFIG2` bits 7:4.
#[derive(Debug, Clone, Copy, PartialEq, Eq, Structural)]
pub struct AlertPinConfig {
    /// Which level asserts the pin.
    pub polarity: AlertPolarity,
    /// Whether the pin latches.
    pub latch: AlertLatch,
    /// Assert the pin when a conversion completes.
    pub on_conversion_ready: bool,
    /// Assert the pin when an energy accumulator overflows.
    pub on_energy_overflow: bool,
}

impl AlertPinConfig {
    /// The four bits, with conversion-ready highest and polarity lowest.
    pub open spec fn code(self) -> int {
        (if self.on_conversion_ready {
            8int
        } else {
            0
        }) + (if self.on_energy_overflow {
            4int
        } else {
            0
        }) + (if self.latch is Latched {
            2int
        } else {
            0
        }) + (if self.polarity is ActiveHigh {
            1int
        } else {
            0
        })
    }

    /// The four bits, as `CONFIG2` holds them in bits 7:4.
    pub(crate) fn encoding(self) -> (code: u16)
        ensures
            code == self.code(),
    {
        let ready: u16 = if self.on_conversion_ready {
            8
        } else {
            0
        };
        let overflow: u16 = if self.on_energy_overflow {
            4
        } else {
            0
        };
        let latch: u16 = match self.latch {
            AlertLatch::Latched => 2,
            AlertLatch::Transparent => 0,
        };
        let polarity: u16 = match self.polarity {
            AlertPolarity::ActiveHigh => 1,
            AlertPolarity::ActiveLow => 0,
        };
        ready + overflow + latch + polarity
    }

    /// The configuration that four bits stand for.
    pub(crate) fn from_encoding(code: u16) -> (config: AlertPinConfig)
        requires
            code < 16,
        ensures
            config.code() == code,
    {
        AlertPinConfig {
            polarity: if code % 2 == 1 {
                AlertPolarity::ActiveHigh
            } else {
                AlertPolarity::ActiveLow
            },
            latch: if (code / 2) % 2 == 1 {
                AlertLatch::Latched
            } else {
                AlertLatch::Transparent
            },
            on_conversion_ready: code / 8 == 1,
            on_energy_overflow: (code / 4) % 2 == 1,
        }
    }
}

impl Default for AlertPinConfig {
    /// The power-on state: transparent, active low, no extra source.
    fn default() -> (config: AlertPinConfig)
        ensures
            config == (AlertPinConfig {
                polarity: AlertPolarity::ActiveLow,
                latch: AlertLatch::Transparent,
                on_conversion_ready: false,
                on_energy_overflow: false,
            }),
    {
        AlertPinConfig {
            polarity: AlertPolarity::ActiveLow,
            latch: AlertLatch::Transparent,
            on_conversion_ready: false,
            on_energy_overflow: false,
        }
    }
}

/// The sixteen pin configurations have sixteen different four-bit codes, and
/// the default has code zero.
pub proof fn law_pin_config_codes_are_distinct(p: AlertPinConfig, q: AlertPinConfig)
    ensures
        0 <= p.code() < 16,
        p.code() == q.code() <==> p == q,
        p.code() == 0 <==> p.polarity is ActiveLow && p.latch is Transparent
            && !p.on_conversion_ready && !p.on_energy_overflow,
{
}

} // verus!
