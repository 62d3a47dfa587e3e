//! Driver errors.
use crate::alert::AlertSlot;
use crate::units::Channel;
use vstd::prelude::*;

verus! {

/// INA4230 driver error.
///
/// Overflow conditions are deliberately not errors. They live in
/// [`Flags`](crate::Flags), which reports every condition at once.
#[derive(Debug, Clone, Copy, PartialEq, Eq)]
#[non_exhaustive]
pub enum Ina4230Error<I2cError> {
    /// An error occurred on the I²C bus.
    Bus(I2cError),
    /// A shunt-voltage, current, power or energy reading, or a shunt or power
    /// alert, was requested on a channel that has not been calibrated.
    ///
    /// Detected before any bus traffic is generated.
    NotCalibrated(Channel),
    /// An alert threshold does not fit `ALERT_LIMIT` at the target channel's
    /// scale.
    ///
    /// The representable range depends on the alert kind: -81.92 mV to
    /// 81.9175 mV or -20.48 mV to 20.479375 mV for shunt thresholds, depending
    /// on [`AdcRange`](crate::AdcRange), 0 to 52.4272 V for bus thresholds, and
    /// 0 to `65535 × 32 × CURRENT_LSB` for power thresholds.
    ///
    /// Detected before any bus traffic is generated.
    LimitOutOfRange(AlertSlot),
}

/// What an error says in terms common to all sensors.
#[derive(Debug, Clone, Copy, PartialEq, Eq, Structural)]
pub enum SensorErrorKind {
    /// The bus that the sensor is attached to failed.
    Peripheral,
    /// The sensor is not ready to be sampled.
    NotReady,
    /// The sensor was given an invalid setting.
    InvalidInput,
}

impl<I2cError> Ina4230Error<I2cError> {
    /// What the error says in terms common to all sensors.
    pub fn kind(&self) -> (kind: SensorErrorKind)
        ensures
            kind == match *self {
                Ina4230Error::Bus(_) => SensorErrorKind::Peripheral,
                Ina4230Error::NotCalibrated(_) => SensorErrorKind::NotReady,
                Ina4230Error::LimitOutOfRange(_) => SensorErrorKind::InvalidInput,
            },
    {
        match self {
            Ina4230Error::Bus(_) => SensorErrorKind::Peripheral,
            Ina4230Error::NotCalibrated(_) => SensorErrorKind::NotReady,
            Ina4230Error::LimitOutOfRange(_) => SensorErrorKind::InvalidInput,
        }
    }
}

} // verus!
