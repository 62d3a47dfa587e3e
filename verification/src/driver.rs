//! The driver: what it knows of the device, and what it asks the bus to do.
//!
//! [`Ina4230`] performs no bus traffic itself. An operation that changes the
//! device is a [`Script`]; one that reads it is a
//! [`Reading`](crate::reading::Reading). Whoever owns the bus alternates
//! [`Ina4230::issue`] and [`Ina4230::complete`] until the script is finished:
//!
//! ```text
//! while let Some(request) = sensor.issue(&script) {
//!     let reply = /* perform the request */;
//!     sensor.complete(&mut script, reply)?;
//! }
//! ```
//!
//! A script is made for the record as it stands; perform or drop it before
//! making the next one.
use crate::alert::{Alert, AlertPinConfig, AlertSlot};
use crate::bus;
use crate::bus::{signed_to_word, Reply, Request};
use crate::config::{
    Averaging, BusConversionTime, Config1Change, ConversionTiming, OperatingMode, RangeSelection,
    ShuntConversionTime,
};
use crate::convert;
use crate::convert::{encode_bus_limit, encode_power_limit, encode_shunt_limit};
use crate::error::Ina4230Error;
use crate::reading::{
    BusVoltageReading, Config1Reading, Config2Reading, CurrentReading, EnergyReading, FlagsReading,
    ManufacturerIdReading, PowerReading, PresenceReading, ShuntVoltageReading,
};
use crate::script;
use crate::script::{Record, Script, Transfer};
use crate::units::{Address, AddressPins, Calibration, Channel};
use vstd::prelude::*;

verus! {

/// Driver state for one INA4230 quad-channel power and energy monitor.
pub struct Ina4230<I2c> {
    i2c: I2c,
    /// The address this instance talks to.
    address: Address,
    /// Per-channel calibration, as programmed through this driver.
    ///
    /// This records the driver's own successful writes. It cannot observe a
    /// power cycle, an EN-pin toggle, a General Call reset, or writes by
    /// another bus controller.
    calibration: [Option<Calibration>; 4],
    /// Per-slot alert configuration, as programmed through this driver, with
    /// the same caveat.
    alerts: [Option<(Channel, Alert)>; 4],
}

// ── What an operation consists of ────────────────────────────────────────────

/// Whether a slot's recorded alert is scaled by a channel's calibration.
pub open spec fn scaled_by(entry: Option<(Channel, Alert)>, channel: Channel) -> bool {
    match entry {
        Some((target, alert)) => target == channel && alert.is_scaled(),
        None => false,
    }
}

/// Disarm one slot if a channel's calibration scales its alert.
pub open spec fn disarm_if_scaled(record: Record, channel: Channel, slot: AlertSlot) -> Seq<
    Transfer,
> {
    if scaled_by(record.alert_of(slot), channel) {
        seq![Transfer::Disarm(slot)]
    } else {
        seq![]
    }
}

/// Disarm, in slot order, every slot whose alert a channel's calibration scales.
pub open spec fn disarm_scaled(record: Record, channel: Channel) -> Seq<Transfer> {
    disarm_if_scaled(record, channel, AlertSlot::One) + disarm_if_scaled(
        record,
        channel,
        AlertSlot::Two,
    ) + disarm_if_scaled(record, channel, AlertSlot::Three) + disarm_if_scaled(
        record,
        channel,
        AlertSlot::Four,
    )
}

/// Calibrate a channel: disarm what it scales, then move its range, then write
/// its `SHUNT_CAL`.
pub open spec fn calibrate_plan(record: Record, channel: Channel, calibration: Calibration) -> Seq<
    Transfer,
> {
    let selection = RangeSelection::only(channel, calibration.range());
    disarm_scaled(record, channel) + seq![
        Transfer::ReadRanges(selection),
        Transfer::WriteRanges(selection),
        Transfer::Calibrate(channel, calibration),
    ]
}

/// The range selection for all four channels.
pub open spec fn all_ranges(calibrations: Seq<Calibration>) -> RangeSelection {
    RangeSelection {
        ch1: Some(calibrations[0].range()),
        ch2: Some(calibrations[1].range()),
        ch3: Some(calibrations[2].range()),
        ch4: Some(calibrations[3].range()),
    }
}

/// Disarm, in channel order, every slot whose alert some channel scales.
pub open spec fn disarm_all_scaled(record: Record) -> Seq<Transfer> {
    disarm_scaled(record, Channel::Ch1) + disarm_scaled(record, Channel::Ch2) + disarm_scaled(
        record,
        Channel::Ch3,
    ) + disarm_scaled(record, Channel::Ch4)
}

/// Move all four ranges with one write, then write each `SHUNT_CAL` in turn.
pub open spec fn calibrate_each_plan(calibrations: Seq<Calibration>) -> Seq<Transfer> {
    seq![
        Transfer::ReadRanges(all_ranges(calibrations)),
        Transfer::WriteRanges(all_ranges(calibrations)),
        Transfer::Calibrate(Channel::Ch1, calibrations[0]),
        Transfer::Calibrate(Channel::Ch2, calibrations[1]),
        Transfer::Calibrate(Channel::Ch3, calibrations[2]),
        Transfer::Calibrate(Channel::Ch4, calibrations[3]),
    ]
}

/// Calibrate all channels: disarm what any of them scales, then move the ranges
/// and calibrate each.
pub open spec fn calibrate_all_plan(record: Record, calibrations: Seq<Calibration>) -> Seq<
    Transfer,
> {
    disarm_all_scaled(record) + calibrate_each_plan(calibrations)
}

/// Program a slot: disarm it if it is armed, so that the new threshold never
/// stands against the old condition; then load the threshold; then arm it.
pub open spec fn set_alert_plan(
    record: Record,
    slot: AlertSlot,
    channel: Channel,
    alert: Alert,
    limit: u16,
) -> Seq<Transfer> {
    (if record.alert_of(slot) is Some {
        seq![Transfer::Disarm(slot)]
    } else {
        seq![]
    }) + seq![Transfer::LoadLimit(slot, limit), Transfer::Arm(slot, channel, alert)]
}

/// The `ALERT_LIMIT` word of an alert at a calibration, if it is representable.
/// A bus alert needs no calibration.
pub open spec fn limit_word(alert: Alert, calibration: Calibration) -> Option<u16> {
    match alert {
        Alert::ShuntOver(v) | Alert::ShuntUnder(v) => match convert::shunt_limit_code(
            v@,
            calibration.range(),
        ) {
            Some(code) => Some(bus::twos_complement_word(code as int) as u16),
            None => None,
        },
        Alert::BusOver(v) | Alert::BusUnder(v) => convert::bus_limit_code(v@),
        Alert::PowerOver(p) => convert::power_limit_code(p@, calibration),
    }
}

/// The threshold word for an alert, or why there is none: first a missing
/// calibration, then a threshold that does not fit.
pub open spec fn encoded_alert<I2cError>(
    record: Record,
    slot: AlertSlot,
    channel: Channel,
    alert: Alert,
) -> Result<u16, Ina4230Error<I2cError>> {
    if alert.is_scaled() && record.calibration_of(channel) is None {
        Err(Ina4230Error::NotCalibrated(channel))
    } else {
        match limit_word(alert, record.calibration_of(channel).unwrap()) {
            Some(limit) => Ok(limit),
            None => Err(Ina4230Error::LimitOutOfRange(slot)),
        }
    }
}

impl<I2c> Ina4230<I2c> {
    /// Value the manufacturer ID register reads back on a healthy device.
    pub const MANUFACTURER_ID: u16 = crate::reading::MANUFACTURER_ID;

    /// What the driver has recorded of its own writes.
    pub closed spec fn record(self) -> Record {
        Record { calibration: self.calibration@, alerts: self.alerts@ }
    }

    /// The bus handle.
    pub closed spec fn bus(self) -> I2c {
        self.i2c
    }

    /// The address this instance talks to.
    pub closed spec fn bus_address(self) -> Address {
        self.address
    }

    /// A driver's record always has four channels and four slots.
    pub proof fn law_record_is_well_formed(&self)
        ensures
            self.record().well_formed(),
    {
    }

    /// Create a driver instance.
    ///
    /// `pins` describes how A0 and A1 are strapped on the board.
    pub fn new(i2c: I2c, pins: AddressPins) -> (sensor: Ina4230<I2c>)
        ensures
            sensor.bus() == i2c,
            sensor.bus_address()@ == pins.selected(),
            sensor.record() == (Record {
                calibration: script::nothing(),
                alerts: script::nothing(),
            }),
            sensor.record().well_formed(),
    {
        let sensor = Ina4230 {
            i2c,
            address: Address::from_pins(pins),
            calibration: [None; 4],
            alerts: [None; 4],
        };
        assert(sensor.calibration@ =~= script::nothing::<Calibration>());
        assert(sensor.alerts@ =~= script::nothing::<(Channel, Alert)>());
        sensor
    }

    /// The I²C address this instance talks to.
    #[must_use]
    pub fn address(&self) -> (address: Address)
        ensures
            address == self.bus_address(),
    {
        self.address
    }

    /// The underlying I²C bus.
    pub fn bus_mut(&mut self) -> (i2c: &mut I2c)
        ensures
            *i2c == old(self).bus(),
            final(self).bus() == *final(i2c),
            final(self).bus_address() == old(self).bus_address(),
            final(self).record() == old(self).record(),
    {
        &mut self.i2c
    }

    /// Release the underlying I²C bus.
    pub fn release(self) -> (i2c: I2c)
        ensures
            i2c == self.bus(),
    {
        self.i2c
    }

    // ── Performing a script ──────────────────────────────────────────────────

    /// The next transaction of a script, or `None` when it is finished.
    ///
    /// What the transaction puts in doubt is forgotten here, before it goes out.
    pub fn issue(&mut self, script: &Script) -> (request: Option<Request>)
        ensures
            match request {
                Some(request) => {
                    &&& script@.len() > 0
                    &&& request == script@[0].wanted(script.last_read())
                    &&& final(self).record() == script::issued(old(self).record(), script@[0])
                },
                None => script@.len() == 0 && final(self).record() == old(self).record(),
            },
            final(self).bus() == old(self).bus(),
            final(self).bus_address() == old(self).bus_address(),
    {
        let transfer = match script.current() {
            Some(transfer) => transfer,
            None => return None,
        };
        match transfer {
            Transfer::Reset => {
                self.calibration = [None; 4];
                assert(self.calibration@ =~= script::nothing::<Calibration>());
            },
            Transfer::ReadRanges(selection) => {
                self.forget(selection);
            },
            _ => {},
        }
        Some(transfer.request(script.word()))
    }

    fn forget(&mut self, selection: RangeSelection)
        ensures
            final(self).calibration@ == script::forgotten(old(self).calibration@, selection),
            final(self).alerts == old(self).alerts,
            final(self).i2c == old(self).i2c,
            final(self).address == old(self).address,
    {
        if selection.ch1.is_some() {
            self.calibration[0] = None;
        }
        if selection.ch2.is_some() {
            self.calibration[1] = None;
        }
        if selection.ch3.is_some() {
            self.calibration[2] = None;
        }
        if selection.ch4.is_some() {
            self.calibration[3] = None;
        }
        assert(self.calibration@ =~= script::forgotten(old(self).calibration@, selection));
    }

    /// Take the reply to the transaction that was last issued.
    ///
    /// # Errors
    ///
    /// Returns [`Ina4230Error::Bus`] if the transaction failed; nothing that the
    /// script still had to do is then done.
    pub fn complete<I2cError>(
        &mut self,
        script: &mut Script,
        reply: Reply<I2cError>,
    ) -> (result: Result<(), Ina4230Error<I2cError>>)
        requires
            old(script)@.len() > 0,
            reply.answers(old(script)@[0].wanted(old(script).last_read())),
        ensures
            match reply {
                Reply::Failed(e) => {
                    &&& result == Err::<(), Ina4230Error<I2cError>>(Ina4230Error::Bus(e))
                    &&& final(self).record() == old(self).record()
                    &&& final(script)@ == Seq::<Transfer>::empty()
                },
                _ => {
                    &&& result == Ok::<(), Ina4230Error<I2cError>>(())
                    &&& final(self).record() == script::landed(
                        old(self).record(),
                        old(script)@[0],
                    )
                    &&& final(script)@ == old(script)@.drop_first()
                },
            },
            final(script).last_read() == match reply {
                Reply::Data(raw) => raw as u16,
                _ => old(script).last_read(),
            },
            final(self).bus() == old(self).bus(),
            final(self).bus_address() == old(self).bus_address(),
    {
        match reply {
            Reply::Failed(e) => {
                script.abandon();
                return Err(Ina4230Error::Bus(e));
            },
            Reply::Data(raw) => script.keep(raw as u16),
            Reply::Written => {},
        }
        if let Some(transfer) = script.current() {
            match transfer {
                Transfer::Disarm(slot) => {
                    self.alerts[slot.index()] = None;
                },
                Transfer::Arm(slot, channel, alert) => {
                    self.alerts[slot.index()] = Some((channel, alert));
                },
                Transfer::Reset => {
                    self.alerts = [None; 4];
                    assert(self.alerts@ =~= script::nothing::<(Channel, Alert)>());
                },
                Transfer::Calibrate(channel, calibration) => {
                    self.calibration[channel.index()] = Some(calibration);
                },
                _ => {},
            }
        }
        script.advance();
        Ok(())
    }

    // ── Device management ────────────────────────────────────────────────────

    /// Issue a full device reset (`CONFIG2.RST = 1`).
    ///
    /// All registers return to power-on defaults. The calibrations are
    /// forgotten before the write and the alerts only once it succeeds: after a
    /// failure the device may or may not have reset, a stale calibration would
    /// scale readings that the device no longer produces, and a forgotten alert
    /// would let a later [`Ina4230::calibrate`] move a range under a live
    /// threshold.
    pub fn reset(&self) -> (script: Script)
        ensures
            script@ == seq![Transfer::Reset],
    {
        let mut script = Script::new();
        script.push(Transfer::Reset);
        assert(script@ =~= seq![Transfer::Reset]);
        script
    }

    /// Read the manufacturer ID register.
    pub fn manufacturer_id(&self) -> (reading: ManufacturerIdReading)
        ensures
            reading == ManufacturerIdReading,
    {
        ManufacturerIdReading
    }

    /// Check that the manufacturer ID reads back the expected value.
    pub fn is_present(&self) -> (reading: PresenceReading)
        ensures
            reading == PresenceReading,
    {
        PresenceReading
    }

    /// Read the `FLAGS` register.
    ///
    /// Reading it clears the conversion-ready flag and any latched alert flags
    /// in the device, so each snapshot is the only record of what it reports.
    pub fn read_flags(&self) -> (reading: FlagsReading)
        ensures
            reading == FlagsReading,
    {
        FlagsReading
    }

    /// Read `CONFIG1`, for the operating mode and the conversion timing.
    pub fn read_config1(&self) -> (reading: Config1Reading)
        ensures
            reading == Config1Reading,
    {
        Config1Reading
    }

    /// Read `CONFIG2`, for the ALERT pin configuration.
    pub fn read_config2(&self) -> (reading: Config2Reading)
        ensures
            reading == Config2Reading,
    {
        Config2Reading
    }

    /// Change `CONFIG1`.
    ///
    /// The word is written even if the change leaves it as it was: a write
    /// retriggers a triggered mode.
    fn change_config1(&self, change: Config1Change) -> (script: Script)
        ensures
            script@ == seq![Transfer::ReadConfig1, Transfer::WriteConfig1(change)],
    {
        let mut script = Script::new();
        script.push(Transfer::ReadConfig1);
        script.push(Transfer::WriteConfig1(change));
        assert(script@ =~= seq![Transfer::ReadConfig1, Transfer::WriteConfig1(change)]);
        script
    }

    /// Enable or disable a channel in `CONFIG1.ACTIVE_CHANNEL`.
    ///
    /// Disabled channels are skipped in the round-robin conversion cycle.
    pub fn set_channel_active(&self, channel: Channel, active: bool) -> (script: Script)
        ensures
            script@ == seq![
                Transfer::ReadConfig1,
                Transfer::WriteConfig1(Config1Change::ChannelActive(channel, active)),
            ],
    {
        self.change_config1(Config1Change::ChannelActive(channel, active))
    }

    /// Select the operating mode.
    pub fn set_mode(&self, mode: OperatingMode) -> (script: Script)
        ensures
            script@ == seq![
                Transfer::ReadConfig1,
                Transfer::WriteConfig1(Config1Change::Mode(mode)),
            ],
    {
        self.change_config1(Config1Change::Mode(mode))
    }

    /// Select the averaging and both conversion times.
    pub fn set_conversion_timing(&self, timing: ConversionTiming) -> (script: Script)
        ensures
            script@ == seq![
                Transfer::ReadConfig1,
                Transfer::WriteConfig1(Config1Change::Timing(timing)),
            ],
    {
        self.change_config1(Config1Change::Timing(timing))
    }

    /// Select the averaging.
    pub fn set_averaging(&self, averaging: Averaging) -> (script: Script)
        ensures
            script@ == seq![
                Transfer::ReadConfig1,
                Transfer::WriteConfig1(Config1Change::Averaging(averaging)),
            ],
    {
        self.change_config1(Config1Change::Averaging(averaging))
    }

    /// Select the bus conversion time.
    pub fn set_bus_conversion_time(&self, time: BusConversionTime) -> (script: Script)
        ensures
            script@ == seq![
                Transfer::ReadConfig1,
                Transfer::WriteConfig1(Config1Change::BusConversionTime(time)),
            ],
    {
        self.change_config1(Config1Change::BusConversionTime(time))
    }

    /// Select the shunt conversion time.
    pub fn set_shunt_conversion_time(&self, time: ShuntConversionTime) -> (script: Script)
        ensures
            script@ == seq![
                Transfer::ReadConfig1,
                Transfer::WriteConfig1(Config1Change::ShuntConversionTime(time)),
            ],
    {
        self.change_config1(Config1Change::ShuntConversionTime(time))
    }

    /// Configure the ALERT pin.
    pub fn set_alert_pin_config(&self, pin: AlertPinConfig) -> (script: Script)
        ensures
            script@ == seq![Transfer::ReadPinConfig, Transfer::WritePinConfig(pin)],
    {
        let mut script = Script::new();
        script.push(Transfer::ReadPinConfig);
        script.push(Transfer::WritePinConfig(pin));
        assert(script@ =~= seq![Transfer::ReadPinConfig, Transfer::WritePinConfig(pin)]);
        script
    }

    // ── Calibration ──────────────────────────────────────────────────────────

    /// Program the calibration for a single channel.
    ///
    /// Every slot holding a shunt or power threshold for `channel` is disarmed
    /// first, so that no threshold is ever enforced against a scale it was not
    /// programmed for. Arm them again afterwards. Bus thresholds do not depend
    /// on any calibration and stay armed.
    ///
    /// The channel's recorded calibration is forgotten before `CONFIG2` is
    /// touched and recorded again once both registers are written, so a partial
    /// update surfaces as [`Ina4230Error::NotCalibrated`].
    pub fn calibrate(&self, channel: Channel, calibration: Calibration) -> (script: Script)
        ensures
            script@ == calibrate_plan(self.record(), channel, calibration),
    {
        let mut script = Script::new();
        self.disarm_scaled_alerts(channel, &mut script);
        let selection = RangeSelection::one(channel, calibration.adc_range());
        script.push(Transfer::ReadRanges(selection));
        script.push(Transfer::WriteRanges(selection));
        script.push(Transfer::Calibrate(channel, calibration));
        assert(script@ =~= calibrate_plan(self.record(), channel, calibration));
        script
    }

    /// Program the calibration for all four channels, ordered `[Ch1, Ch2, Ch3,
    /// Ch4]`, with a single write of `CONFIG2`.
    ///
    /// Every shunt and power threshold in every slot is disarmed first. All
    /// recorded calibrations are forgotten before `CONFIG2` is touched, and each
    /// is recorded again once its own `SHUNT_CAL` is written.
    pub fn calibrate_all(&self, calibrations: [Calibration; 4]) -> (script: Script)
        ensures
            script@ == calibrate_all_plan(self.record(), calibrations@),
    {
        let mut script = self.disarm_all_scaled_alerts();
        calibrate_each(calibrations, &mut script);
        script
    }

    /// The calibration recorded for `channel`, if any.
    ///
    /// This reflects only successful writes made through this instance.
    #[must_use]
    pub fn calibration(&self, channel: Channel) -> (calibration: Option<Calibration>)
        ensures
            calibration == self.record().calibration_of(channel),
    {
        self.calibration[channel.index()]
    }

    /// The calibration for a channel, or the error that it has none.
    fn require_calibration<I2cError>(&self, channel: Channel) -> (result: Result<
        Calibration,
        Ina4230Error<I2cError>,
    >)
        ensures
            match self.record().calibration_of(channel) {
                Some(calibration) => result == Ok::<Calibration, Ina4230Error<I2cError>>(
                    calibration,
                ),
                None => result == Err::<Calibration, Ina4230Error<I2cError>>(
                    Ina4230Error::NotCalibrated(channel),
                ),
            },
    {
        match self.calibration[channel.index()] {
            Some(calibration) => Ok(calibration),
            None => Err(Ina4230Error::NotCalibrated(channel)),
        }
    }

    // ── Alerts ───────────────────────────────────────────────────────────────

    /// The alert recorded for `slot`; `None` means that the slot is disarmed.
    ///
    /// This reflects only successful writes made through this instance.
    #[must_use]
    pub fn alert(&self, slot: AlertSlot) -> (alert: Option<(Channel, Alert)>)
        ensures
            alert == self.record().alert_of(slot),
    {
        self.alerts[slot.index()]
    }

    /// Arm `slot` to watch `channel` for `alert`.
    ///
    /// A slot that is already armed is disarmed first, so that the new
    /// threshold never stands against the old condition and channel.
    ///
    /// # Errors
    ///
    /// Returns [`Ina4230Error::NotCalibrated`] if `alert` is a shunt or power
    /// condition and `channel` has no calibration, and
    /// [`Ina4230Error::LimitOutOfRange`] if the threshold does not fit
    /// `ALERT_LIMIT` at that scale. Both come before any bus traffic.
    pub fn set_alert<I2cError>(&self, slot: AlertSlot, channel: Channel, alert: Alert) -> (result:
        Result<Script, Ina4230Error<I2cError>>)
        ensures
            match encoded_alert::<I2cError>(self.record(), slot, channel, alert) {
                Ok(limit) => result matches Ok(script) && script@ == set_alert_plan(
                    self.record(),
                    slot,
                    channel,
                    alert,
                    limit,
                ),
                Err(e) => result == Err::<Script, Ina4230Error<I2cError>>(e),
            },
    {
        let limit: u16 = match self.encode_alert(slot, channel, alert) {
            Ok(limit) => limit,
            Err(e) => return Err(e),
        };
        let mut script = Script::new();
        if self.alerts[slot.index()].is_some() {
            script.push(Transfer::Disarm(slot));
        }
        script.push(Transfer::LoadLimit(slot, limit));
        script.push(Transfer::Arm(slot, channel, alert));
        assert(script@ =~= set_alert_plan(self.record(), slot, channel, alert, limit));
        Ok(script)
    }

    /// Disarm `slot`.
    ///
    /// `ALERT_LIMIT` is left alone; it has no effect while the mask is clear.
    pub fn clear_alert(&self, slot: AlertSlot) -> (script: Script)
        ensures
            script@ == seq![Transfer::Disarm(slot)],
    {
        let mut script = Script::new();
        script.push(Transfer::Disarm(slot));
        assert(script@ =~= seq![Transfer::Disarm(slot)]);
        script
    }

    /// Disarm every slot whose threshold is scaled by `channel`'s calibration.
    fn disarm_scaled_alerts(&self, channel: Channel, script: &mut Script)
        requires
            old(script).used() + disarm_scaled(self.record(), channel).len()
                <= script::SCRIPT_CAPACITY,
        ensures
            final(script)@ == old(script)@ + disarm_scaled(self.record(), channel),
            final(script).used() == old(script).used() + disarm_scaled(
                self.record(),
                channel,
            ).len(),
            final(script).last_read() == old(script).last_read(),
    {
        self.disarm_scaled_alert(channel, AlertSlot::One, script);
        self.disarm_scaled_alert(channel, AlertSlot::Two, script);
        self.disarm_scaled_alert(channel, AlertSlot::Three, script);
        self.disarm_scaled_alert(channel, AlertSlot::Four, script);
        assert(script@ =~= old(script)@ + disarm_scaled(self.record(), channel));
    }

    /// Disarm every slot whose threshold is scaled by some calibration.
    fn disarm_all_scaled_alerts(&self) -> (script: Script)
        ensures
            script@ == disarm_all_scaled(self.record()),
            script.used() <= 4,
    {
        proof {
            lemma_few_scaled(self.record());
        }
        let mut script = Script::new();
        self.disarm_scaled_alerts(Channel::Ch1, &mut script);
        self.disarm_scaled_alerts(Channel::Ch2, &mut script);
        self.disarm_scaled_alerts(Channel::Ch3, &mut script);
        self.disarm_scaled_alerts(Channel::Ch4, &mut script);
        assert(script@ =~= disarm_all_scaled(self.record()));
        script
    }

    fn disarm_scaled_alert(&self, channel: Channel, slot: AlertSlot, script: &mut Script)
        requires
            old(script).used() + disarm_if_scaled(self.record(), channel, slot).len()
                <= script::SCRIPT_CAPACITY,
        ensures
            final(script)@ == old(script)@ + disarm_if_scaled(self.record(), channel, slot),
            final(script).used() == old(script).used() + disarm_if_scaled(
                self.record(),
                channel,
                slot,
            ).len(),
            final(script).last_read() == old(script).last_read(),
    {
        if let Some((target, alert)) = self.alerts[slot.index()] {
            if target == channel && alert.needs_calibration() {
                script.push(Transfer::Disarm(slot));
            }
        }
        assert(script@ =~= old(script)@ + disarm_if_scaled(self.record(), channel, slot));
    }

    /// Encode an alert threshold.
    fn encode_alert<I2cError>(&self, slot: AlertSlot, channel: Channel, alert: Alert) -> (result:
        Result<u16, Ina4230Error<I2cError>>)
        ensures
            result == encoded_alert::<I2cError>(self.record(), slot, channel, alert),
    {
        let encoded: Option<u16> = match alert {
            Alert::ShuntOver(v) | Alert::ShuntUnder(v) => {
                let calibration = match self.require_calibration(channel) {
                    Ok(calibration) => calibration,
                    Err(e) => return Err(e),
                };
                match encode_shunt_limit(v, calibration.adc_range()) {
                    Some(code) => Some(signed_to_word(code)),
                    None => None,
                }
            },
            Alert::BusOver(v) | Alert::BusUnder(v) => encode_bus_limit(v),
            Alert::PowerOver(p) => {
                let calibration = match self.require_calibration(channel) {
                    Ok(calibration) => calibration,
                    Err(e) => return Err(e),
                };
                encode_power_limit(p, calibration)
            },
        };
        match encoded {
            Some(limit) => Ok(limit),
            None => Err(Ina4230Error::LimitOutOfRange(slot)),
        }
    }

    // ── Measurements ─────────────────────────────────────────────────────────

    /// Read the bus voltage for the given channel.
    pub fn bus_voltage(&self, channel: Channel) -> (reading: BusVoltageReading)
        ensures
            reading == (BusVoltageReading { channel }),
    {
        BusVoltageReading { channel }
    }

    /// Read the shunt voltage for the given channel.
    ///
    /// The scale depends on the channel's ADC range, so this needs the channel
    /// to have been calibrated.
    pub fn shunt_voltage<I2cError>(&self, channel: Channel) -> (result: Result<
        ShuntVoltageReading,
        Ina4230Error<I2cError>,
    >)
        ensures
            match self.record().calibration_of(channel) {
                Some(calibration) => result == Ok::<ShuntVoltageReading, Ina4230Error<I2cError>>(
                    ShuntVoltageReading { channel, range: calibration.range() },
                ),
                None => result == Err::<ShuntVoltageReading, Ina4230Error<I2cError>>(
                    Ina4230Error::NotCalibrated(channel),
                ),
            },
    {
        match self.require_calibration(channel) {
            Ok(calibration) => Ok(ShuntVoltageReading { channel, range: calibration.adc_range() }),
            Err(e) => Err(e),
        }
    }

    /// Read the calculated current for the given channel, which must have been
    /// calibrated.
    pub fn current<I2cError>(&self, channel: Channel) -> (result: Result<
        CurrentReading,
        Ina4230Error<I2cError>,
    >)
        ensures
            match self.record().calibration_of(channel) {
                Some(calibration) => result == Ok::<CurrentReading, Ina4230Error<I2cError>>(
                    CurrentReading { channel, calibration },
                ),
                None => result == Err::<CurrentReading, Ina4230Error<I2cError>>(
                    Ina4230Error::NotCalibrated(channel),
                ),
            },
    {
        match self.require_calibration(channel) {
            Ok(calibration) => Ok(CurrentReading { channel, calibration }),
            Err(e) => Err(e),
        }
    }

    /// Read the calculated power for the given channel, which must have been
    /// calibrated.
    pub fn power<I2cError>(&self, channel: Channel) -> (result: Result<
        PowerReading,
        Ina4230Error<I2cError>,
    >)
        ensures
            match self.record().calibration_of(channel) {
                Some(calibration) => result == Ok::<PowerReading, Ina4230Error<I2cError>>(
                    PowerReading { channel, calibration },
                ),
                None => result == Err::<PowerReading, Ina4230Error<I2cError>>(
                    Ina4230Error::NotCalibrated(channel),
                ),
            },
    {
        match self.require_calibration(channel) {
            Ok(calibration) => Ok(PowerReading { channel, calibration }),
            Err(e) => Err(e),
        }
    }

    /// Read the accumulated energy for the given channel, which must have been
    /// calibrated.
    pub fn energy<I2cError>(&self, channel: Channel) -> (result: Result<
        EnergyReading,
        Ina4230Error<I2cError>,
    >)
        ensures
            match self.record().calibration_of(channel) {
                Some(calibration) => result == Ok::<EnergyReading, Ina4230Error<I2cError>>(
                    EnergyReading { channel, calibration },
                ),
                None => result == Err::<EnergyReading, Ina4230Error<I2cError>>(
                    Ina4230Error::NotCalibrated(channel),
                ),
            },
    {
        match self.require_calibration(channel) {
            Ok(calibration) => Ok(EnergyReading { channel, calibration }),
            Err(e) => Err(e),
        }
    }
}

/// Move all four ranges and write each `SHUNT_CAL`.
fn calibrate_each(calibrations: [Calibration; 4], script: &mut Script)
    requires
        old(script).used() <= 4,
    ensures
        final(script)@ == old(script)@ + calibrate_each_plan(calibrations@),
{
    let selection = RangeSelection {
        ch1: Some(calibrations[0].adc_range()),
        ch2: Some(calibrations[1].adc_range()),
        ch3: Some(calibrations[2].adc_range()),
        ch4: Some(calibrations[3].adc_range()),
    };
    script.push(Transfer::ReadRanges(selection));
    script.push(Transfer::WriteRanges(selection));
    script.push(Transfer::Calibrate(Channel::Ch1, calibrations[0]));
    script.push(Transfer::Calibrate(Channel::Ch2, calibrations[1]));
    script.push(Transfer::Calibrate(Channel::Ch3, calibrations[2]));
    script.push(Transfer::Calibrate(Channel::Ch4, calibrations[3]));
    assert(script@ =~= old(script)@ + calibrate_each_plan(calibrations@));
}

/// Each slot watches one channel, so at most four are disarmed in all.
proof fn lemma_few_scaled(record: Record)
    ensures
        disarm_all_scaled(record).len() <= 4,
{
    assert forall|slot: AlertSlot|
        disarm_if_scaled(record, Channel::Ch1, slot).len() + disarm_if_scaled(
            record,
            Channel::Ch2,
            slot,
        ).len() + disarm_if_scaled(record, Channel::Ch3, slot).len() + disarm_if_scaled(
            record,
            Channel::Ch4,
            slot,
        ).len() <= 1 by {}
}

} // verus!
