//! Driver core for the INA4230 48 V quad-channel current, voltage, power and
//! energy monitor.
//!
//! The crate holds everything about the device that can be reasoned about
//! without a bus: the quantities and the calibration ([`units`]), the register
//! conversions ([`convert`]), the register map ([`bus`]) and words
//! ([`config`], [`flags`], [`alert`]), and the driver ([`driver`]), which says
//! which transactions to perform and what to make of the replies.
//!
//! What the readings, words and transactions mean to the device is stated in
//! plain numbers ([`meaning`]).
//!
//! What the driver has recorded is proved to follow its scripts ([`outcome`])
//! and to stay true of the device whatever the bus does, with one exception: a
//! write that arms an alert slot, is acted upon, and is not acknowledged
//! ([`coherence`]).
pub mod alert;
pub mod bits;
pub mod bus;
pub mod coherence;
pub mod config;
pub mod convert;
pub mod driver;
pub mod error;
pub mod flags;
pub mod meaning;
pub mod outcome;
pub mod reading;
pub mod script;
pub mod units;

pub use crate::alert::{Alert, AlertLatch, AlertPinConfig, AlertPolarity, AlertSlot};
pub use crate::config::{
    Averaging, BusConversionTime, ConversionTiming, OperatingMode, ShuntConversionTime,
};
pub use crate::driver::Ina4230;
pub use crate::error::Ina4230Error;
pub use crate::flags::Flags;
pub use crate::units::{
    AdcRange, AddrPinState, Address, AddressPins, BusVoltage, Calibration, CalibrationError,
    Channel, Current, CurrentLsb, Energy, Power, ShuntCal, ShuntResistance, ShuntVoltage,
};
