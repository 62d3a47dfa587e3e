//! Operations that read one register and decode it.
//!
//! A reading names the register to read and holds what its decoding needs, so
//! that nothing has to be looked up once the bus has answered.
use crate::bus;
use crate::bus::{word_to_signed, Register};
use crate::config::{Config1, Config2};
use crate::convert;
use crate::convert::{
    decode_bus_voltage, decode_current, decode_energy, decode_power, decode_shunt_voltage,
};
use crate::error::Ina4230Error;
use crate::flags::Flags;
use crate::units::{
    AdcRange, BusVoltage, Calibration, Channel, Current, Energy, Power, ShuntVoltage,
};
use vstd::prelude::*;

verus! {

/// Value the manufacturer ID register reads back on a healthy device: `"TI"` in
/// ASCII.
pub const MANUFACTURER_ID: u16 = 0x5449;

/// A register to read and how to decode it.
pub trait Reading: Sized {
    /// What the register decodes to.
    type Value;

    /// The register to read.
    spec fn source(&self) -> Register;

    /// Whether a register holding `raw` decodes to `value`.
    spec fn decodes(&self, raw: int, value: Self::Value) -> bool;

    /// The register to read.
    fn register(&self) -> (register: Register)
        ensures
            register == self.source(),
    ;

    /// Decode the register's contents.
    fn decode(&self, raw: u32) -> (value: Self::Value)
        requires
            self.source().size() == 4 || raw <= 0xFFFF,
        ensures
            self.decodes(raw as int, value),
    ;
}

/// Turn what the bus returned for a reading into its result.
pub fn finish<R: Reading, I2cError>(reading: &R, read: Result<u32, I2cError>) -> (result: Result<
    R::Value,
    Ina4230Error<I2cError>,
>)
    requires
        read matches Ok(raw) ==> reading.source().size() == 4 || raw <= 0xFFFF,
    ensures
        match read {
            Ok(raw) => result matches Ok(value) && reading.decodes(raw as int, value),
            Err(e) => result == Err::<R::Value, Ina4230Error<I2cError>>(Ina4230Error::Bus(e)),
        },
{
    match read {
        Ok(raw) => Ok(reading.decode(raw)),
        Err(e) => Err(Ina4230Error::Bus(e)),
    }
}

/// A reading of a channel's bus voltage.
#[derive(Debug, Clone, Copy, PartialEq, Eq)]
pub struct BusVoltageReading {
    /// The channel to read.
    pub channel: Channel,
}

impl Reading for BusVoltageReading {
    type Value = BusVoltage;

    open spec fn source(&self) -> Register {
        Register::BusVoltage(self.channel)
    }

    open spec fn decodes(&self, raw: int, value: BusVoltage) -> bool {
        value@ == raw * convert::BUS_LSB_UV
    }

    fn register(&self) -> Register {
        Register::BusVoltage(self.channel)
    }

    fn decode(&self, raw: u32) -> BusVoltage {
        decode_bus_voltage(raw as u16)
    }
}

/// A reading of a channel's shunt voltage.
#[derive(Debug, Clone, Copy, PartialEq, Eq)]
pub struct ShuntVoltageReading {
    /// The channel to read.
    pub channel: Channel,
    /// The channel's ADC range.
    pub range: AdcRange,
}

impl Reading for ShuntVoltageReading {
    type Value = ShuntVoltage;

    open spec fn source(&self) -> Register {
        Register::ShuntVoltage(self.channel)
    }

    open spec fn decodes(&self, raw: int, value: ShuntVoltage) -> bool {
        value@ == bus::twos_complement(raw) * self.range.lsb_nv()
    }

    fn register(&self) -> Register {
        Register::ShuntVoltage(self.channel)
    }

    fn decode(&self, raw: u32) -> ShuntVoltage {
        decode_shunt_voltage(word_to_signed(raw as u16), self.range)
    }
}

/// A reading of a channel's calculated current.
#[derive(Debug, Clone, Copy, PartialEq, Eq)]
pub struct CurrentReading {
    /// The channel to read.
    pub channel: Channel,
    /// The channel's calibration.
    pub calibration: Calibration,
}

impl Reading for CurrentReading {
    type Value = Current;

    open spec fn source(&self) -> Register {
        Register::Current(self.channel)
    }

    open spec fn decodes(&self, raw: int, value: Current) -> bool {
        value@ == bus::twos_complement(raw) * self.calibration.lsb_na()
    }

    fn register(&self) -> Register {
        Register::Current(self.channel)
    }

    fn decode(&self, raw: u32) -> Current {
        decode_current(word_to_signed(raw as u16), self.calibration)
    }
}

/// A reading of a channel's calculated power.
#[derive(Debug, Clone, Copy, PartialEq, Eq)]
pub struct PowerReading {
    /// The channel to read.
    pub channel: Channel,
    /// The channel's calibration.
    pub calibration: Calibration,
}

impl Reading for PowerReading {
    type Value = Power;

    open spec fn source(&self) -> Register {
        Register::Power(self.channel)
    }

    open spec fn decodes(&self, raw: int, value: Power) -> bool {
        value@ == raw * convert::power_lsb(self.calibration)
    }

    fn register(&self) -> Register {
        Register::Power(self.channel)
    }

    fn decode(&self, raw: u32) -> Power {
        decode_power(raw as u16, self.calibration)
    }
}

/// A reading of a channel's accumulated energy.
#[derive(Debug, Clone, Copy, PartialEq, Eq)]
pub struct EnergyReading {
    /// The channel to read.
    pub channel: Channel,
    /// The channel's calibration.
    pub calibration: Calibration,
}

impl Reading for EnergyReading {
    type Value = Energy;

    open spec fn source(&self) -> Register {
        Register::Energy(self.channel)
    }

    open spec fn decodes(&self, raw: int, value: Energy) -> bool {
        value@ == raw * convert::power_lsb(self.calibration)
    }

    fn register(&self) -> Register {
        Register::Energy(self.channel)
    }

    fn decode(&self, raw: u32) -> Energy {
        decode_energy(raw, self.calibration)
    }
}

/// A reading of `FLAGS`.
///
/// Performing it clears the conversion-ready flag and any latched alert flags
/// in the device (datasheet Table 7-20).
#[derive(Debug, Clone, Copy, PartialEq, Eq)]
pub struct FlagsReading;

impl Reading for FlagsReading {
    type Value = Flags;

    open spec fn source(&self) -> Register {
        Register::Flags
    }

    open spec fn decodes(&self, raw: int, value: Flags) -> bool {
        value.reports(raw as u16)
    }

    fn register(&self) -> Register {
        Register::Flags
    }

    fn decode(&self, raw: u32) -> Flags {
        Flags::from_word(raw as u16)
    }
}

/// A reading of the manufacturer ID.
#[derive(Debug, Clone, Copy, PartialEq, Eq)]
pub struct ManufacturerIdReading;

impl Reading for ManufacturerIdReading {
    type Value = u16;

    open spec fn source(&self) -> Register {
        Register::ManufacturerId
    }

    open spec fn decodes(&self, raw: int, value: u16) -> bool {
        value == raw
    }

    fn register(&self) -> Register {
        Register::ManufacturerId
    }

    fn decode(&self, raw: u32) -> u16 {
        raw as u16
    }
}

/// A reading of the manufacturer ID, held against the expected value.
#[derive(Debug, Clone, Copy, PartialEq, Eq)]
pub struct PresenceReading;

impl Reading for PresenceReading {
    type Value = bool;

    open spec fn source(&self) -> Register {
        Register::ManufacturerId
    }

    open spec fn decodes(&self, raw: int, value: bool) -> bool {
        value == (raw == MANUFACTURER_ID)
    }

    fn register(&self) -> Register {
        Register::ManufacturerId
    }

    fn decode(&self, raw: u32) -> bool {
        raw as u16 == MANUFACTURER_ID
    }
}

/// A reading of `CONFIG1`.
#[derive(Debug, Clone, Copy, PartialEq, Eq)]
pub struct Config1Reading;

impl Reading for Config1Reading {
    type Value = Config1;

    open spec fn source(&self) -> Register {
        Register::Config1
    }

    open spec fn decodes(&self, raw: int, value: Config1) -> bool {
        value@ == raw
    }

    fn register(&self) -> Register {
        Register::Config1
    }

    fn decode(&self, raw: u32) -> Config1 {
        Config1::from_word(raw as u16)
    }
}

/// A reading of `CONFIG2`.
#[derive(Debug, Clone, Copy, PartialEq, Eq)]
pub struct Config2Reading;

impl Reading for Config2Reading {
    type Value = Config2;

    open spec fn source(&self) -> Register {
        Register::Config2
    }

    open spec fn decodes(&self, raw: int, value: Config2) -> bool {
        value@ == raw
    }

    fn register(&self) -> Register {
        Register::Config2
    }

    fn decode(&self, raw: u32) -> Config2 {
        Config2::from_word(raw as u16)
    }
}

} // verus!
