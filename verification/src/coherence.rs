//! The driver's record against the device it describes.
//!
//! The laws here are stated over a model of the registers that the record
//! speaks of. They say that whatever the bus does, a recorded calibration is
//! the one the device has, and that a slot the device enforces is one the driver
//! has recorded, with a threshold that still means what was asked for.
//!
//! There is one exception. If the device acts on the write that arms a slot and
//! the driver does not see it acknowledged, the device enforces a slot that the
//! driver has not recorded. Nothing else is then in doubt, and disarming that
//! slot settles it.
//!
//! The model assumes that no one else writes the device. A transaction that is
//! not acknowledged may or may not have been acted upon.
use crate::alert;
use crate::alert::{Alert, AlertPinConfig, AlertSlot};
use crate::bits;
use crate::bus::{Register, Request};
use crate::config;
use crate::config::{Config1Change, RangeSelection};
use crate::convert;
use crate::driver;
use crate::error::Ina4230Error;
use crate::meaning;
use crate::outcome;
use crate::script;
use crate::script::{Record, Transfer};
use crate::units::{AdcRange, Calibration, Channel};
use vstd::prelude::*;

verus! {

/// The registers of the device that the record speaks of.
#[verifier::ext_equal]
pub struct Device {
    /// `CONFIG2`.
    pub config2: u16,
    /// `SHUNT_CAL` of each channel, by position.
    pub shunt_cal: Seq<u16>,
    /// `ALERT_LIMIT` of each slot, by position.
    pub alert_limit: Seq<u16>,
    /// `ALERT_CONFIG` of each slot, by position.
    pub alert_config: Seq<u16>,
}

/// The device after power-on, and after a reset.
pub open spec fn power_on() -> Device {
    Device {
        config2: 0,
        shunt_cal: seq![0, 0, 0, 0],
        alert_limit: seq![0, 0, 0, 0],
        alert_config: seq![0, 0, 0, 0],
    }
}

/// The `CONFIG2` bits that stay as they are written: `RST` and `ACC_RST` clear
/// themselves.
pub open spec fn retained(word: u16) -> u16 {
    word & 0x70FF
}

impl Device {
    /// Whether there are four channels and slots, and the self-clearing bits of
    /// `CONFIG2` are clear.
    pub open spec fn well_formed(self) -> bool {
        &&& self.config2 == retained(self.config2)
        &&& self.shunt_cal.len() == 4
        &&& self.alert_limit.len() == 4
        &&& self.alert_config.len() == 4
    }

    /// The range that a channel measures on.
    pub open spec fn range(self, channel: Channel) -> AdcRange {
        if convert::has_channel_bit(config::range_field(self.config2) as u8, channel) {
            AdcRange::Range1
        } else {
            AdcRange::Range0
        }
    }

    /// Whether a channel measures with a valid calibration's range and
    /// `SHUNT_CAL`.
    pub open spec fn applies(self, channel: Channel, calibration: Calibration) -> bool {
        &&& calibration.valid()
        &&& self.shunt_cal[channel.position()] == calibration.cal_word()
        &&& self.range(channel) == calibration.range()
    }

    /// Whether a channel measures with a calibration, which is the recorded one
    /// where there is one.
    pub open spec fn scales(
        self,
        channel: Channel,
        calibration: Calibration,
        recorded: Option<Calibration>,
    ) -> bool {
        &&& self.applies(channel, calibration)
        &&& recorded is Some ==> recorded == Some(calibration)
    }

    /// Whether a slot raises alerts.
    pub open spec fn enforces(self, slot: AlertSlot) -> bool {
        alert::is_armed(self.alert_config[slot.position()] as int)
    }

    /// Whether a slot's `ALERT_LIMIT`, read on the scale that a channel measures
    /// on, is within half a count of an alert's threshold.
    pub open spec fn holds_threshold(
        self,
        slot: AlertSlot,
        channel: Channel,
        alert: Alert,
        calibration: Calibration,
    ) -> bool {
        let word = self.alert_limit[slot.position()] as int;
        match alert {
            Alert::ShuntOver(v) | Alert::ShuntUnder(v) => {
                let lsb = if self.range(channel) is Range1 {
                    625int
                } else {
                    2_500
                };
                let count = if word < 0x8000 {
                    word
                } else {
                    word - 0x1_0000
                };
                -lsb <= 2 * (count * lsb - v@) <= lsb
            },
            Alert::BusOver(v) | Alert::BusUnder(v) => -1_600 <= 2 * (1_600 * word - v@) <= 1_600,
            Alert::PowerOver(p) => {
                let lsb = 32 * calibration.lsb_na();
                -lsb <= 2 * (word * lsb - p@) <= lsb
            },
        }
    }

    /// Whether a slot watches a channel for an alert, with the threshold that
    /// the alert asks for at the scale the channel measures on. Where the
    /// channel's calibration is recorded, that is the scale.
    pub open spec fn watches(
        self,
        slot: AlertSlot,
        channel: Channel,
        alert: Alert,
        recorded: Option<Calibration>,
    ) -> bool {
        &&& self.alert_config[slot.position()] == alert::armed_config(channel, alert)
        &&& exists|calibration: Calibration|
            {
                &&& alert.is_scaled() ==> self.scales(channel, calibration, recorded)
                &&& #[trigger] driver::limit_word(alert, calibration) == Some(
                    self.alert_limit[slot.position()],
                )
                &&& self.holds_threshold(slot, channel, alert, calibration)
            }
    }

    /// The device after it has acted on a transaction.
    pub open spec fn acting_on(self, request: Request) -> Device {
        match request {
            Request::Write { register, word } => match register {
                Register::Config2 => if bits::bit(word, 15) {
                    power_on()
                } else {
                    Device { config2: retained(word), ..self }
                },
                Register::Calibration(channel) => Device {
                    shunt_cal: self.shunt_cal.update(channel.position(), word),
                    ..self
                },
                Register::AlertLimit(slot) => Device {
                    alert_limit: self.alert_limit.update(slot.position(), word),
                    ..self
                },
                Register::AlertConfig(slot) => Device {
                    alert_config: self.alert_config.update(slot.position(), word),
                    ..self
                },
                _ => self,
            },
            Request::Read { .. } => self,
        }
    }
}

/// Whether a channel's recorded calibration, if there is one, is in force.
pub open spec fn calibration_holds(record: Record, device: Device, channel: Channel) -> bool {
    match record.calibration_of(channel) {
        Some(calibration) => device.applies(channel, calibration),
        None => true,
    }
}

/// Whether a slot, if it raises alerts, is recorded and watches for exactly what
/// is recorded.
pub open spec fn slot_holds(record: Record, device: Device, slot: AlertSlot) -> bool {
    device.enforces(slot) ==> match record.alert_of(slot) {
        Some((channel, alert)) => device.watches(
            slot,
            channel,
            alert,
            record.calibration_of(channel),
        ),
        None => false,
    }
}

/// Whether the record is true of the device: each recorded calibration is in
/// force, and each slot that raises alerts is recorded and watches for exactly
/// what is recorded.
pub open spec fn coherent(record: Record, device: Device) -> bool {
    &&& record.well_formed()
    &&& device.well_formed()
    &&& forall|channel: Channel| #[trigger] calibration_holds(record, device, channel)
    &&& forall|slot: AlertSlot| #[trigger] slot_holds(record, device, slot)
}

/// Whether the record is true of the device but for one slot.
pub open spec fn coherent_except(record: Record, device: Device, slot: AlertSlot) -> bool {
    &&& record.well_formed()
    &&& device.well_formed()
    &&& forall|channel: Channel| #[trigger] calibration_holds(record, device, channel)
    &&& forall|other: AlertSlot| other != slot ==> #[trigger] slot_holds(record, device, other)
}

// ── Running a plan against the device ────────────────────────────────────────

/// What became of a transaction.
pub struct Fate {
    /// The device acted on it.
    pub acted: bool,
    /// The driver saw it acknowledged.
    pub acknowledged: bool,
}

/// Whether a transaction can have a fate: an acknowledged one was acted upon.
pub open spec fn possible(fate: Fate) -> bool {
    fate.acknowledged ==> fate.acted
}

/// The record, the device, and the last word read.
pub struct World {
    /// What the driver has recorded.
    pub record: Record,
    /// What the device holds.
    pub device: Device,
    /// The last word read by the script.
    pub word: u16,
}

/// The world after a transaction has met its fate.
pub open spec fn step(world: World, transfer: Transfer, fate: Fate) -> World {
    let issued = script::issued(world.record, transfer);
    let request = transfer.wanted(world.word);
    World {
        record: if fate.acknowledged {
            script::landed(issued, transfer)
        } else {
            issued
        },
        device: if fate.acted {
            world.device.acting_on(request)
        } else {
            world.device
        },
        word: match request {
            Request::Read { register: Register::Config2 } if fate.acknowledged =>
                world.device.config2,
            _ => world.word,
        },
    }
}

/// The world after a plan has been carried as far as the fates let it: to its
/// end, up to the first transaction that is not acknowledged, or until it is
/// abandoned.
pub open spec fn run(world: World, plan: Seq<Transfer>, fates: Seq<Fate>) -> World
    decreases plan.len(),
{
    if plan.len() == 0 || fates.len() == 0 {
        world
    } else if fates[0].acknowledged {
        run(step(world, plan[0], fates[0]), plan.drop_first(), fates.drop_first())
    } else {
        step(world, plan[0], fates[0])
    }
}

/// Whether every fate is possible.
pub open spec fn all_possible(fates: Seq<Fate>) -> bool {
    forall|i: int| 0 <= i < fates.len() ==> possible(#[trigger] fates[i])
}

/// Whether every transaction of a plan is acknowledged.
pub open spec fn all_acknowledged(plan: Seq<Transfer>, fates: Seq<Fate>) -> bool {
    &&& plan.len() <= fates.len()
    &&& forall|i: int| 0 <= i < plan.len() ==> (#[trigger] fates[i]).acknowledged
}

proof fn lemma_rest_possible(fates: Seq<Fate>)
    requires
        all_possible(fates),
        fates.len() > 0,
    ensures
        possible(fates[0]),
        all_possible(fates.drop_first()),
{
    assert forall|i: int| 0 <= i < fates.drop_first().len() implies possible(
        #[trigger] fates.drop_first()[i],
    ) by {
        assert(fates.drop_first()[i] == fates[i + 1]);
    }
}

// ── Single transactions ──────────────────────────────────────────────────────

/// A device that differs only in one slot's registers still watches the others.
proof fn lemma_other_slots_watch(
    before: Device,
    after: Device,
    slot: AlertSlot,
    channel: Channel,
    alert: Alert,
    earlier: Option<Calibration>,
    recorded: Option<Calibration>,
)
    requires
        before.watches(slot, channel, alert, earlier),
        recorded is Some ==> recorded == earlier,
        after.config2 == before.config2,
        after.shunt_cal == before.shunt_cal,
        after.alert_config[slot.position()] == before.alert_config[slot.position()],
        after.alert_limit[slot.position()] == before.alert_limit[slot.position()],
    ensures
        after.watches(slot, channel, alert, recorded),
{
    let calibration = choose|calibration: Calibration|
        {
            &&& alert.is_scaled() ==> before.scales(channel, calibration, earlier)
            &&& #[trigger] driver::limit_word(alert, calibration) == Some(
                before.alert_limit[slot.position()],
            )
            &&& before.holds_threshold(slot, channel, alert, calibration)
        };
    assert(after.holds_threshold(slot, channel, alert, calibration));
    assert(alert.is_scaled() ==> after.scales(channel, calibration, recorded));
    assert(driver::limit_word(alert, calibration) == Some(after.alert_limit[slot.position()]));
}

/// A device that differs only in registers that do not scale an alert still
/// watches for it.
proof fn lemma_still_watches(
    before: Device,
    after: Device,
    slot: AlertSlot,
    channel: Channel,
    alert: Alert,
    earlier: Option<Calibration>,
    recorded: Option<Calibration>,
)
    requires
        before.watches(slot, channel, alert, earlier),
        alert.is_scaled() && recorded is Some ==> recorded == earlier,
        after.alert_config == before.alert_config,
        after.alert_limit == before.alert_limit,
        alert.is_scaled() ==> after.range(channel) == before.range(channel)
            && after.shunt_cal[channel.position()] == before.shunt_cal[channel.position()],
    ensures
        after.watches(slot, channel, alert, recorded),
{
    let calibration = choose|calibration: Calibration|
        {
            &&& alert.is_scaled() ==> before.scales(channel, calibration, earlier)
            &&& #[trigger] driver::limit_word(alert, calibration) == Some(
                before.alert_limit[slot.position()],
            )
            &&& before.holds_threshold(slot, channel, alert, calibration)
        };
    assert(after.holds_threshold(slot, channel, alert, calibration));
    assert(alert.is_scaled() ==> after.scales(channel, calibration, recorded));
    assert(driver::limit_word(alert, calibration) == Some(after.alert_limit[slot.position()]));
}

proof fn lemma_step_disarm(world: World, slot: AlertSlot, fate: Fate)
    requires
        coherent_except(world.record, world.device, slot),
        possible(fate),
    ensures
        ({
            let next = step(world, Transfer::Disarm(slot), fate);
            &&& coherent_except(next.record, next.device, slot)
            &&& fate.acknowledged || coherent(world.record, world.device) ==> coherent(
                next.record,
                next.device,
            )
            &&& fate.acknowledged ==> next.record == (Record {
                alerts: world.record.alerts.update(slot.position(), None),
                ..world.record
            })
            &&& fate.acknowledged ==> !next.device.enforces(slot)
        }),
{
    let next = step(world, Transfer::Disarm(slot), fate);
    assert forall|channel: Channel| #[trigger] calibration_holds(
        next.record,
        next.device,
        channel,
    ) by {
        assert(calibration_holds(world.record, world.device, channel));
        assert(next.record.calibration_of(channel) == world.record.calibration_of(channel));
    }
    assert forall|other: AlertSlot| other != slot implies #[trigger] slot_holds(
        next.record,
        next.device,
        other,
    ) by {
        assert(slot_holds(world.record, world.device, other));
        if next.device.enforces(other) {
            let (channel, alert) = world.record.alert_of(other)->Some_0;
            lemma_other_slots_watch(
                world.device,
                next.device,
                other,
                channel,
                alert,
                world.record.calibration_of(channel),
                next.record.calibration_of(channel),
            );
        }
    }
    if fate.acted {
        assert(slot_holds(next.record, next.device, slot));
    }
    if !fate.acknowledged {
        assert(slot_holds(world.record, world.device, slot) ==> slot_holds(
            next.record,
            next.device,
            slot,
        ));
    }
}

proof fn lemma_step_load_limit(world: World, slot: AlertSlot, limit: u16, fate: Fate)
    requires
        coherent(world.record, world.device),
        world.record.alert_of(slot) is None,
        possible(fate),
    ensures
        ({
            let next = step(world, Transfer::LoadLimit(slot, limit), fate);
            &&& coherent(next.record, next.device)
            &&& next.record == world.record
            &&& fate.acknowledged ==> next.device.alert_limit[slot.position()] == limit
        }),
{
    let next = step(world, Transfer::LoadLimit(slot, limit), fate);
    assert(slot_holds(world.record, world.device, slot));
    assert forall|other: AlertSlot| #[trigger] slot_holds(
        next.record,
        next.device,
        other,
    ) by {
        assert(slot_holds(world.record, world.device, other));
        if next.device.enforces(other) {
            assert(other != slot);
            let (channel, alert) = world.record.alert_of(other)->Some_0;
            lemma_other_slots_watch(
                world.device,
                next.device,
                other,
                channel,
                alert,
                world.record.calibration_of(channel),
                next.record.calibration_of(channel),
            );
        }
    }
    assert forall|channel: Channel| #[trigger] calibration_holds(
        next.record,
        next.device,
        channel,
    ) by {
        assert(calibration_holds(world.record, world.device, channel));
        assert(next.record.calibration_of(channel) == world.record.calibration_of(channel));
    }
}

proof fn lemma_step_arm<I2cError>(
    world: World,
    slot: AlertSlot,
    channel: Channel,
    alert: Alert,
    fate: Fate,
)
    requires
        coherent(world.record, world.device),
        world.record.alert_of(slot) is None,
        driver::encoded_alert::<I2cError>(world.record, slot, channel, alert) == Ok::<
            u16,
            Ina4230Error<I2cError>,
        >(world.device.alert_limit[slot.position()]),
        possible(fate),
        fate.acted ==> fate.acknowledged,
    ensures
        ({
            let next = step(world, Transfer::Arm(slot, channel, alert), fate);
            &&& coherent(next.record, next.device)
            &&& fate.acknowledged ==> next.device.enforces(slot) && next.record.alert_of(slot)
                == Some((channel, alert))
        }),
{
    let next = step(world, Transfer::Arm(slot, channel, alert), fate);
    alert::law_alert_config_is_unambiguous(channel, alert, channel, alert);
    assert(slot_holds(world.record, world.device, slot));
    assert forall|other: AlertSlot| #[trigger] slot_holds(
        next.record,
        next.device,
        other,
    ) by {
        assert(slot_holds(world.record, world.device, other));
        if next.device.enforces(other) {
            if other == slot {
                assert(fate.acknowledged);
                let calibration = world.record.calibration_of(channel).unwrap();
                assert(calibration_holds(world.record, world.device, channel));
                meaning::law_threshold_word_means_the_threshold::<I2cError>(
                    world.record,
                    slot,
                    channel,
                    alert,
                    world.device.alert_limit[slot.position()],
                );
                assert(next.device.holds_threshold(slot, channel, alert, calibration));
                assert(alert.is_scaled() ==> world.record.calibration_of(channel) is Some);
                assert(alert.is_scaled() ==> next.device.scales(
                    channel,
                    calibration,
                    next.record.calibration_of(channel),
                ));
                assert(driver::limit_word(alert, calibration) == Some(
                    next.device.alert_limit[slot.position()],
                ));
            } else {
                let (c, a) = world.record.alert_of(other)->Some_0;
                lemma_other_slots_watch(
                    world.device,
                    next.device,
                    other,
                    c,
                    a,
                    world.record.calibration_of(c),
                    next.record.calibration_of(c),
                );
            }
        }
    }
    assert forall|c: Channel| #[trigger] calibration_holds(
        next.record,
        next.device,
        c,
    ) by {
        assert(calibration_holds(world.record, world.device, c));
        assert(next.record.calibration_of(c) == world.record.calibration_of(c));
    }
}

proof fn lemma_power_on()
    ensures
        power_on().well_formed(),
        forall|slot: AlertSlot| !(#[trigger] power_on().enforces(slot)),
{
    assert(0u16 & 0x70FF == 0) by (bit_vector);
}

proof fn lemma_step_reset(world: World, fate: Fate)
    requires
        coherent(world.record, world.device),
        possible(fate),
    ensures
        ({
            let next = step(world, Transfer::Reset, fate);
            coherent(next.record, next.device)
        }),
{
    let next = step(world, Transfer::Reset, fate);
    assert((0x8000u16 >> 15) & 1 == 1) by (bit_vector);
    lemma_power_on();
    assert forall|channel: Channel| #[trigger] calibration_holds(
        next.record,
        next.device,
        channel,
    ) by {
        assert(next.record.calibration_of(channel) is None);
    }
    assert forall|slot: AlertSlot| #[trigger] slot_holds(
        next.record,
        next.device,
        slot,
    ) by {
        assert(slot_holds(world.record, world.device, slot));
        if next.device.enforces(slot) {
            assert(!fate.acted);
        }
    }
}

/// Whether no recorded alert is scaled by a channel that a selection names.
spec fn scale_is_free(record: Record, selection: RangeSelection) -> bool {
    forall|slot: AlertSlot, channel: Channel|
        selection.of(channel) is Some ==> !(#[trigger] driver::scaled_by(
            record.alert_of(slot),
            channel,
        ))
}

/// Whether the channels that a selection names count as uncalibrated.
spec fn none_calibrated(record: Record, selection: RangeSelection) -> bool {
    forall|channel: Channel|
        selection.of(channel) is Some ==> #[trigger] record.calibration_of(channel) is None
}

proof fn lemma_step_read_ranges(world: World, selection: RangeSelection, fate: Fate)
    requires
        coherent(world.record, world.device),
        possible(fate),
    ensures
        ({
            let next = step(world, Transfer::ReadRanges(selection), fate);
            &&& coherent(next.record, next.device)
            &&& next.record.alerts == world.record.alerts
            &&& next.device == world.device
            &&& none_calibrated(next.record, selection)
            &&& fate.acknowledged ==> next.word == next.device.config2
        }),
{
    let next = step(world, Transfer::ReadRanges(selection), fate);
    assert forall|channel: Channel| #[trigger] calibration_holds(
        next.record,
        next.device,
        channel,
    ) by {
        assert(calibration_holds(world.record, world.device, channel));
        assert(next.record.calibration_of(channel) is Some ==> next.record.calibration_of(channel)
            == world.record.calibration_of(channel));
    }
    assert forall|slot: AlertSlot| #[trigger] slot_holds(
        next.record,
        next.device,
        slot,
    ) by {
        assert(slot_holds(world.record, world.device, slot));
        if next.device.enforces(slot) {
            assert(next.record.alert_of(slot) == world.record.alert_of(slot));
        }
    }
}

/// Writing back `CONFIG2` as it was read, with ranges selected, moves only the
/// selected ranges.
proof fn lemma_ranges_written(device: Device, selection: RangeSelection)
    requires
        device.well_formed(),
    ensures
        ({
            let word = config::ranged_config2(device.config2, selection);
            let next = device.acting_on(Request::Write { register: Register::Config2, word });
            &&& next == (Device { config2: next.config2, ..device })
            &&& next.well_formed()
            &&& forall|channel: Channel| #[trigger]
                next.range(channel) == match selection.of(channel) {
                    Some(range) => range,
                    None => device.range(channel),
                }
        }),
{
    let old_word = device.config2;
    let word = config::ranged_config2(old_word, selection);
    config::law_range_selection_touches_only_its_bits(old_word, selection, Channel::Ch1);
    assert(word & 0x8000 == 0 && (word >> 15) & 1 != 1 && word & 0x70FF == word) by (bit_vector)
        requires
            word & 0xFFF0 == old_word & 0xFFF0,
            old_word == old_word & 0x70FF,
    ;
    let next = device.acting_on(Request::Write { register: Register::Config2, word });
    assert forall|channel: Channel| #[trigger]
        next.range(channel) == match selection.of(channel) {
            Some(range) => range,
            None => device.range(channel),
        } by {
        config::law_range_selection_touches_only_its_bits(old_word, selection, channel);
    }
}

proof fn lemma_step_write_ranges(world: World, selection: RangeSelection, fate: Fate)
    requires
        coherent(world.record, world.device),
        possible(fate),
        world.word == world.device.config2,
        scale_is_free(world.record, selection),
        none_calibrated(world.record, selection),
    ensures
        ({
            let next = step(world, Transfer::WriteRanges(selection), fate);
            &&& coherent(next.record, next.device)
            &&& next.record == world.record
            &&& fate.acknowledged ==> forall|channel: Channel|
                selection.of(channel) is Some ==> #[trigger] next.device.range(channel)
                    == selection.of(channel)->Some_0
        }),
{
    let next = step(world, Transfer::WriteRanges(selection), fate);
    lemma_ranges_written(world.device, selection);
    assert forall|channel: Channel| #[trigger] calibration_holds(
        next.record,
        next.device,
        channel,
    ) by {
        assert(calibration_holds(world.record, world.device, channel));
        if world.record.calibration_of(channel) is Some {
            assert(selection.of(channel) is None);
            assert(next.device.range(channel) == world.device.range(channel));
        }
    }
    assert forall|slot: AlertSlot| #[trigger] slot_holds(
        next.record,
        next.device,
        slot,
    ) by {
        assert(slot_holds(world.record, world.device, slot));
        if next.device.enforces(slot) {
            let (channel, alert) = world.record.alert_of(slot)->Some_0;
            if alert.is_scaled() {
                assert(driver::scaled_by(world.record.alert_of(slot), channel));
                assert(selection.of(channel) is None);
                assert(next.device.range(channel) == world.device.range(channel));
            }
            lemma_still_watches(
                world.device,
                next.device,
                slot,
                channel,
                alert,
                world.record.calibration_of(channel),
                next.record.calibration_of(channel),
            );
        }
    }
}

proof fn lemma_step_calibrate(
    world: World,
    channel: Channel,
    calibration: Calibration,
    fate: Fate,
)
    requires
        coherent(world.record, world.device),
        possible(fate),
        calibration.valid(),
        world.record.calibration_of(channel) is None,
        world.device.range(channel) == calibration.range(),
        forall|slot: AlertSlot| !(#[trigger] driver::scaled_by(world.record.alert_of(slot), channel)),
    ensures
        ({
            let next = step(world, Transfer::Calibrate(channel, calibration), fate);
            &&& coherent(next.record, next.device)
            &&& next.record.alerts == world.record.alerts
            &&& next.device.config2 == world.device.config2
            &&& fate.acknowledged ==> next.record.calibration == world.record.calibration.update(
                channel.position(),
                Some(calibration),
            )
        }),
{
    let next = step(world, Transfer::Calibrate(channel, calibration), fate);
    assert forall|c: Channel| #[trigger] calibration_holds(
        next.record,
        next.device,
        c,
    ) by {
        assert(calibration_holds(world.record, world.device, c));
        assert(next.device.range(c) == world.device.range(c));
        if c != channel {
            assert(next.record.calibration_of(c) == world.record.calibration_of(c));
        }
    }
    assert forall|slot: AlertSlot| #[trigger] slot_holds(
        next.record,
        next.device,
        slot,
    ) by {
        assert(slot_holds(world.record, world.device, slot));
        if next.device.enforces(slot) {
            let (c, alert) = world.record.alert_of(slot)->Some_0;
            if alert.is_scaled() {
                assert(driver::scaled_by(world.record.alert_of(slot), c));
                assert(next.device.range(c) == world.device.range(c));
            }
            lemma_still_watches(
                world.device,
                next.device,
                slot,
                c,
                alert,
                world.record.calibration_of(c),
                next.record.calibration_of(c),
            );
        }
    }
}

// ── Whole operations ─────────────────────────────────────────────────────────

/// Whether a plan only calibrates channels, each at most once, and with ranges
/// that a selection has selected.
spec fn only_calibrates(plan: Seq<Transfer>, selection: RangeSelection) -> bool {
    &&& forall|i: int|
        0 <= i < plan.len() ==> match #[trigger] plan[i] {
            Transfer::Calibrate(channel, calibration) => calibration.valid() && selection.of(
                channel,
            ) == Some(calibration.range()),
            _ => false,
        }
    &&& forall|i: int, j: int|
        0 <= i < j < plan.len() ==> (#[trigger] plan[i])->Calibrate_0 != (
        #[trigger] plan[j])->Calibrate_0
}

proof fn lemma_run_calibrations(
    world: World,
    plan: Seq<Transfer>,
    selection: RangeSelection,
    fates: Seq<Fate>,
)
    requires
        coherent(world.record, world.device),
        all_possible(fates),
        only_calibrates(plan, selection),
        scale_is_free(world.record, selection),
        forall|i: int|
            0 <= i < plan.len() ==> world.record.calibration_of(
                (#[trigger] plan[i])->Calibrate_0,
            ) is None,
        forall|channel: Channel|
            selection.of(channel) is Some ==> #[trigger] world.device.range(channel)
                == selection.of(channel)->Some_0,
    ensures
        coherent(run(world, plan, fates).record, run(world, plan, fates).device),
    decreases plan.len(),
{
    if plan.len() > 0 && fates.len() > 0 {
        lemma_rest_possible(fates);
        let transfer = plan[0];
        let channel = transfer->Calibrate_0;
        let calibration = transfer->Calibrate_1;
        assert(transfer == Transfer::Calibrate(channel, calibration));
        assert(world.device.range(channel) == calibration.range());
        assert forall|slot: AlertSlot| !(#[trigger] driver::scaled_by(
            world.record.alert_of(slot),
            channel,
        )) by {}
        lemma_step_calibrate(world, channel, calibration, fates[0]);
        if fates[0].acknowledged {
            let next = step(world, transfer, fates[0]);
            let rest = plan.drop_first();
            assert forall|i: int| 0 <= i < rest.len() implies match #[trigger] rest[i] {
                Transfer::Calibrate(channel, calibration) => calibration.valid() && selection.of(
                    channel,
                ) == Some(calibration.range()),
                _ => false,
            } by {
                assert(rest[i] == plan[i + 1]);
            }
            assert forall|i: int, j: int| 0 <= i < j < rest.len() implies (
            #[trigger] rest[i])->Calibrate_0 != (#[trigger] rest[j])->Calibrate_0 by {
                assert(rest[i] == plan[i + 1] && rest[j] == plan[j + 1]);
            }
            assert forall|i: int| 0 <= i < rest.len() implies next.record.calibration_of(
                (#[trigger] rest[i])->Calibrate_0,
            ) is None by {
                assert(rest[i] == plan[i + 1]);
                assert(plan[0]->Calibrate_0 != plan[i + 1]->Calibrate_0);
            }
            assert forall|c: Channel| selection.of(c) is Some implies #[trigger] next.device.range(c)
                == selection.of(c)->Some_0 by {
                assert(next.device.range(c) == world.device.range(c));
            }
            assert forall|slot: AlertSlot, c: Channel| selection.of(c) is Some implies !(
            #[trigger] driver::scaled_by(next.record.alert_of(slot), c)) by {
                assert(next.record.alert_of(slot) == world.record.alert_of(slot));
            }
            lemma_run_calibrations(next, rest, selection, fates.drop_first());
        }
    }
}

/// Moving ranges is safe when nothing they scale is armed.
proof fn lemma_run_move(
    world: World,
    selection: RangeSelection,
    calibrations: Seq<Transfer>,
    fates: Seq<Fate>,
)
    requires
        coherent(world.record, world.device),
        all_possible(fates),
        scale_is_free(world.record, selection),
        only_calibrates(calibrations, selection),
    ensures
        ({
            let plan = seq![Transfer::ReadRanges(selection), Transfer::WriteRanges(selection)]
                + calibrations;
            coherent(run(world, plan, fates).record, run(world, plan, fates).device)
        }),
{
    let plan = seq![Transfer::ReadRanges(selection), Transfer::WriteRanges(selection)]
        + calibrations;
    let rest = plan.drop_first();
    assert(plan[0] == Transfer::ReadRanges(selection));
    assert(rest[0] == Transfer::WriteRanges(selection));
    assert(rest.drop_first() =~= calibrations);
    if fates.len() > 0 {
        lemma_rest_possible(fates);
        lemma_step_read_ranges(world, selection, fates[0]);
        if fates[0].acknowledged {
            let read = step(world, plan[0], fates[0]);
            let later = fates.drop_first();
            assert(run(world, plan, fates) == run(read, rest, later));
            if later.len() > 0 {
                lemma_rest_possible(later);
                assert forall|slot: AlertSlot, channel: Channel| selection.of(
                    channel,
                ) is Some implies !(#[trigger] driver::scaled_by(
                    read.record.alert_of(slot),
                    channel,
                )) by {
                    assert(read.record.alert_of(slot) == world.record.alert_of(slot));
                }
                lemma_step_write_ranges(read, selection, later[0]);
                if later[0].acknowledged {
                    let moved = step(read, rest[0], later[0]);
                    assert(run(read, rest, later) == run(
                        moved,
                        calibrations,
                        later.drop_first(),
                    ));
                    assert forall|i: int| 0 <= i < calibrations.len() implies moved.record.calibration_of(
                        (#[trigger] calibrations[i])->Calibrate_0,
                    ) is None by {
                        assert(selection.of(calibrations[i]->Calibrate_0) is Some);
                    }
                    lemma_run_calibrations(moved, calibrations, selection, later.drop_first());
                }
            }
        }
    }
}

/// Moving ranges is safe once everything they scale is disarmed.
proof fn lemma_run_range_change(
    world: World,
    disarms: Seq<Transfer>,
    selection: RangeSelection,
    tail: Seq<Transfer>,
    calibrations: Seq<Transfer>,
    fates: Seq<Fate>,
)
    requires
        coherent(world.record, world.device),
        all_possible(fates),
        outcome::only_disarms(disarms),
        forall|slot: AlertSlot, channel: Channel|
            selection.of(channel) is Some && #[trigger] driver::scaled_by(
                world.record.alert_of(slot),
                channel,
            ) ==> disarms.contains(Transfer::Disarm(slot)),
        only_calibrates(calibrations, selection),
        tail == seq![Transfer::ReadRanges(selection), Transfer::WriteRanges(selection)]
            + calibrations,
    ensures
        coherent(
            run(world, disarms + tail, fates).record,
            run(world, disarms + tail, fates).device,
        ),
    decreases disarms.len(),
{
    let plan = disarms + tail;
    if disarms.len() > 0 {
        if fates.len() > 0 {
            lemma_rest_possible(fates);
            assert(disarms[0] is Disarm);
            let slot = disarms[0]->Disarm_0;
            assert(plan[0] == disarms[0]);
            lemma_step_disarm(world, slot, fates[0]);
            if fates[0].acknowledged {
                let next = step(world, plan[0], fates[0]);
                let fewer = disarms.drop_first();
                assert(plan.drop_first() =~= fewer + tail);
                assert forall|i: int| 0 <= i < fewer.len() implies #[trigger] fewer[i] is Disarm by {
                    assert(fewer[i] == disarms[i + 1]);
                }
                assert forall|other: AlertSlot, channel: Channel|
                    selection.of(channel) is Some && #[trigger] driver::scaled_by(
                        next.record.alert_of(other),
                        channel,
                    ) implies fewer.contains(Transfer::Disarm(other)) by {
                    assert(other != slot);
                    assert(next.record.alert_of(other) == world.record.alert_of(other));
                    let i = disarms.index_of(Transfer::Disarm(other));
                    assert(disarms.contains(Transfer::Disarm(other)));
                    assert(disarms[i] == Transfer::Disarm(other));
                    assert(fewer[i - 1] == Transfer::Disarm(other));
                }
                lemma_run_range_change(
                    next,
                    fewer,
                    selection,
                    tail,
                    calibrations,
                    fates.drop_first(),
                );
            }
        }
    } else {
        assert(plan =~= tail);
        assert forall|slot: AlertSlot, channel: Channel| selection.of(channel) is Some implies !(
        #[trigger] driver::scaled_by(world.record.alert_of(slot), channel)) by {
            if driver::scaled_by(world.record.alert_of(slot), channel) {
                assert(disarms.contains(Transfer::Disarm(slot)));
            }
        }
        lemma_run_move(world, selection, calibrations, fates);
    }
}

/// A run leaves the record that belongs to how far it got: all transactions
/// acknowledged, the first `n` and no more tried, or the first `n` and the next
/// one not acknowledged.
pub proof fn law_a_run_follows_its_plan(
    world: World,
    plan: Seq<Transfer>,
    fates: Seq<Fate>,
    n: int,
)
    requires
        0 <= n <= plan.len(),
        n <= fates.len(),
        forall|i: int| 0 <= i < n ==> (#[trigger] fates[i]).acknowledged,
    ensures
        n == plan.len() ==> run(world, plan, fates).record == outcome::completed(
            world.record,
            plan,
        ),
        n == fates.len() ==> run(world, plan, fates).record == outcome::after(
            world.record,
            plan,
            n,
        ),
        n < plan.len() && n < fates.len() && !fates[n].acknowledged ==> run(
            world,
            plan,
            fates,
        ).record == outcome::stopped(world.record, plan, n),
    decreases n,
{
    if n > 0 {
        let first = seq![plan[0]];
        let rest = plan.drop_first();
        let later = fates.drop_first();
        let next = step(world, plan[0], fates[0]);
        assert(plan =~= first + rest);
        assert(fates[0].acknowledged);
        assert forall|i: int| 0 <= i < n - 1 implies (#[trigger] later[i]).acknowledged by {
            assert(later[i] == fates[i + 1]);
        }
        law_a_run_follows_its_plan(next, rest, later, n - 1);
        reveal_with_fuel(outcome::after, 2);
        assert(outcome::completed(world.record, first) == next.record);
        outcome::lemma_after_suffix(world.record, first, rest, n - 1);
    }
}

/// A fresh driver is true of a device that has just been powered on or reset.
pub proof fn law_a_fresh_record_is_true_after_power_on()
    ensures
        coherent(
            Record { calibration: script::nothing(), alerts: script::nothing() },
            power_on(),
        ),
{
    lemma_power_on();
    let record = Record { calibration: script::nothing(), alerts: script::nothing() };
    assert forall|channel: Channel| #[trigger] calibration_holds(
        record,
        power_on(),
        channel,
    ) by {
        assert(record.calibration_of(channel) is None);
    }
}

/// However a calibration ends, the record stays true of the device; so no
/// threshold is ever enforced at a scale it was not programmed for.
pub proof fn law_calibrate_keeps_the_record_true(
    world: World,
    channel: Channel,
    calibration: Calibration,
    fates: Seq<Fate>,
)
    requires
        coherent(world.record, world.device),
        calibration.valid(),
        all_possible(fates),
    ensures
        ({
            let plan = driver::calibrate_plan(world.record, channel, calibration);
            coherent(run(world, plan, fates).record, run(world, plan, fates).device)
        }),
{
    let selection = RangeSelection::only(channel, calibration.range());
    let disarms = driver::disarm_scaled(world.record, channel);
    let calibrations = seq![Transfer::Calibrate(channel, calibration)];
    outcome::lemma_disarm_scaled(world.record, channel);
    assert forall|slot: AlertSlot, c: Channel|
        selection.of(c) is Some && #[trigger] driver::scaled_by(
            world.record.alert_of(slot),
            c,
        ) implies disarms.contains(Transfer::Disarm(slot)) by {
        assert(c == channel);
    }
    let tail = seq![
        Transfer::ReadRanges(selection),
        Transfer::WriteRanges(selection),
        Transfer::Calibrate(channel, calibration),
    ];
    assert(tail =~= seq![Transfer::ReadRanges(selection), Transfer::WriteRanges(selection)]
        + calibrations);
    lemma_run_range_change(world, disarms, selection, tail, calibrations, fates);
}

/// Once every transaction of a calibration is acknowledged, the channel is
/// recorded as calibrated and the device measures with that calibration.
pub proof fn law_calibrate_takes_effect(
    world: World,
    channel: Channel,
    calibration: Calibration,
    fates: Seq<Fate>,
)
    requires
        coherent(world.record, world.device),
        calibration.valid(),
        all_possible(fates),
        all_acknowledged(
            driver::calibrate_plan(world.record, channel, calibration),
            fates,
        ),
    ensures
        ({
            let plan = driver::calibrate_plan(world.record, channel, calibration);
            let end = run(world, plan, fates);
            &&& end.record == outcome::completed(world.record, plan)
            &&& end.record.calibration_of(channel) == Some(calibration)
            &&& end.device.applies(channel, calibration)
        }),
{
    let plan = driver::calibrate_plan(world.record, channel, calibration);
    law_calibrate_keeps_the_record_true(world, channel, calibration, fates);
    law_a_run_follows_its_plan(world, plan, fates, plan.len() as int);
    outcome::law_calibrate_completed(world.record, channel, calibration);
    let end = run(world, plan, fates);
    assert(calibration_holds(end.record, end.device, channel));
}

/// However a calibration of all channels ends, the record stays true of the
/// device.
pub proof fn law_calibrate_all_keeps_the_record_true(
    world: World,
    calibrations: Seq<Calibration>,
    fates: Seq<Fate>,
)
    requires
        coherent(world.record, world.device),
        calibrations.len() == 4,
        forall|i: int| 0 <= i < 4 ==> (#[trigger] calibrations[i]).valid(),
        all_possible(fates),
    ensures
        ({
            let plan = driver::calibrate_all_plan(world.record, calibrations);
            coherent(run(world, plan, fates).record, run(world, plan, fates).device)
        }),
{
    let selection = driver::all_ranges(calibrations);
    let disarms = driver::disarm_all_scaled(world.record);
    let each = seq![
        Transfer::Calibrate(Channel::Ch1, calibrations[0]),
        Transfer::Calibrate(Channel::Ch2, calibrations[1]),
        Transfer::Calibrate(Channel::Ch3, calibrations[2]),
        Transfer::Calibrate(Channel::Ch4, calibrations[3]),
    ];
    outcome::lemma_disarm_all_scaled(world.record);
    assert forall|slot: AlertSlot, c: Channel|
        selection.of(c) is Some && #[trigger] driver::scaled_by(
            world.record.alert_of(slot),
            c,
        ) implies disarms.contains(Transfer::Disarm(slot)) by {
        assert(world.record.alert_of(slot) is Some);
    }
    assert(only_calibrates(each, selection)) by {
        assert(calibrations[0].valid() && calibrations[1].valid() && calibrations[2].valid()
            && calibrations[3].valid());
    }
    let tail = driver::calibrate_each_plan(calibrations);
    assert(tail =~= seq![Transfer::ReadRanges(selection), Transfer::WriteRanges(selection)] + each);
    assert(driver::calibrate_all_plan(world.record, calibrations) == disarms + tail);
    lemma_run_range_change(world, disarms, selection, tail, each, fates);
}

/// Once every transaction of a calibration of all channels is acknowledged, each
/// channel is recorded as calibrated and the device measures with its
/// calibration.
pub proof fn law_calibrate_all_takes_effect(
    world: World,
    calibrations: Seq<Calibration>,
    fates: Seq<Fate>,
)
    requires
        coherent(world.record, world.device),
        calibrations.len() == 4,
        forall|i: int| 0 <= i < 4 ==> (#[trigger] calibrations[i]).valid(),
        all_possible(fates),
        all_acknowledged(driver::calibrate_all_plan(world.record, calibrations), fates),
    ensures
        ({
            let plan = driver::calibrate_all_plan(world.record, calibrations);
            let end = run(world, plan, fates);
            &&& end.record == outcome::completed(world.record, plan)
            &&& forall|channel: Channel|
                {
                    let calibration = calibrations[channel.position()];
                    &&& #[trigger] end.record.calibration_of(channel) == Some(calibration)
                    &&& end.device.applies(channel, calibration)
                }
        }),
{
    let plan = driver::calibrate_all_plan(world.record, calibrations);
    let end = run(world, plan, fates);
    law_calibrate_all_keeps_the_record_true(world, calibrations, fates);
    law_a_run_follows_its_plan(world, plan, fates, plan.len() as int);
    outcome::law_calibrate_all_completed(world.record, calibrations);
    assert forall|channel: Channel|
        {
            let calibration = calibrations[channel.position()];
            &&& #[trigger] end.record.calibration_of(channel) == Some(calibration)
            &&& end.device.applies(channel, calibration)
        } by {
        assert(calibration_holds(end.record, end.device, channel));
    }
}

/// Whether a plan's arming write, should it come to that, is acted upon only if
/// it is acknowledged.
pub open spec fn arming_is_certain(plan: Seq<Transfer>, fates: Seq<Fate>) -> bool {
    forall|i: int|
        0 <= i < plan.len() && i < fates.len() && #[trigger] plan[i] is Arm ==> (fates[i].acted
            ==> fates[i].acknowledged)
}

/// However arming a slot ends, the record stays true of the device, unless the
/// device acts on the last write, the one that arms the slot, without the
/// driver seeing it acknowledged.
pub proof fn law_set_alert_keeps_the_record_true<I2cError>(
    world: World,
    slot: AlertSlot,
    channel: Channel,
    alert: Alert,
    limit: u16,
    fates: Seq<Fate>,
)
    requires
        coherent(world.record, world.device),
        driver::encoded_alert::<I2cError>(world.record, slot, channel, alert) == Ok::<
            u16,
            Ina4230Error<I2cError>,
        >(limit),
        all_possible(fates),
        arming_is_certain(
            driver::set_alert_plan(world.record, slot, channel, alert, limit),
            fates,
        ),
    ensures
        ({
            let plan = driver::set_alert_plan(world.record, slot, channel, alert, limit);
            coherent(run(world, plan, fates).record, run(world, plan, fates).device)
        }),
{
    let plan = driver::set_alert_plan(world.record, slot, channel, alert, limit);
    let arming = seq![Transfer::LoadLimit(slot, limit), Transfer::Arm(slot, channel, alert)];
    if fates.len() > 0 {
        lemma_rest_possible(fates);
        if world.record.alert_of(slot) is Some {
            assert(plan[0] == Transfer::Disarm(slot));
            lemma_step_disarm(world, slot, fates[0]);
            if fates[0].acknowledged {
                let next = step(world, plan[0], fates[0]);
                let later = fates.drop_first();
                assert(plan.drop_first() =~= arming);
                assert(plan[2] is Arm);
                assert(later.len() > 1 ==> later[1] == fates[2]);
                lemma_run_arming::<I2cError>(next, slot, channel, alert, limit, later);
            }
        } else {
            assert(plan =~= arming);
            assert(plan[1] is Arm);
            lemma_run_arming::<I2cError>(world, slot, channel, alert, limit, fates);
        }
    }
}

/// Once every transaction of arming a slot is acknowledged, the alert is
/// recorded, and the device enforces the slot and watches for that alert with
/// the threshold it asks for.
pub proof fn law_set_alert_takes_effect<I2cError>(
    world: World,
    slot: AlertSlot,
    channel: Channel,
    alert: Alert,
    limit: u16,
    fates: Seq<Fate>,
)
    requires
        coherent(world.record, world.device),
        driver::encoded_alert::<I2cError>(world.record, slot, channel, alert) == Ok::<
            u16,
            Ina4230Error<I2cError>,
        >(limit),
        all_possible(fates),
        all_acknowledged(
            driver::set_alert_plan(world.record, slot, channel, alert, limit),
            fates,
        ),
    ensures
        ({
            let plan = driver::set_alert_plan(world.record, slot, channel, alert, limit);
            let end = run(world, plan, fates);
            &&& end.record == outcome::completed(world.record, plan)
            &&& end.record.alert_of(slot) == Some((channel, alert))
            &&& end.device.enforces(slot)
            &&& end.device.alert_limit[slot.position()] == limit
            &&& end.device.watches(
                slot,
                channel,
                alert,
                end.record.calibration_of(channel),
            )
        }),
{
    let plan = driver::set_alert_plan(world.record, slot, channel, alert, limit);
    let arming = seq![Transfer::LoadLimit(slot, limit), Transfer::Arm(slot, channel, alert)];
    assert forall|i: int|
        0 <= i < plan.len() && i < fates.len() && #[trigger] plan[i] is Arm implies (fates[i].acted
        ==> fates[i].acknowledged) by {
        assert(fates[i].acknowledged);
    }
    law_set_alert_keeps_the_record_true::<I2cError>(world, slot, channel, alert, limit, fates);
    law_a_run_follows_its_plan(world, plan, fates, plan.len() as int);
    outcome::law_set_alert_completed(world.record, slot, channel, alert, limit);
    let end = run(world, plan, fates);
    assert(slot_holds(end.record, end.device, slot));
    lemma_rest_possible(fates);
    if world.record.alert_of(slot) is Some {
        assert(plan[0] == Transfer::Disarm(slot));
        assert(fates[0].acknowledged && fates[1].acknowledged && fates[2].acknowledged);
        let later = fates.drop_first();
        assert(later[0] == fates[1] && later[1] == fates[2]);
        lemma_step_disarm(world, slot, fates[0]);
        assert(plan.drop_first() =~= arming);
        lemma_run_arming::<I2cError>(
            step(world, plan[0], fates[0]),
            slot,
            channel,
            alert,
            limit,
            later,
        );
    } else {
        assert(plan =~= arming);
        assert(fates[0].acknowledged && fates[1].acknowledged);
        lemma_run_arming::<I2cError>(world, slot, channel, alert, limit, fates);
    }
}

/// The device does not depend on whether the last transaction of a plan, once
/// acted upon, is acknowledged.
proof fn lemma_last_acknowledgement(world: World, plan: Seq<Transfer>, fates: Seq<Fate>)
    requires
        0 < plan.len() <= fates.len(),
        forall|i: int| 0 <= i < plan.len() - 1 ==> (#[trigger] fates[i]).acknowledged,
        fates[plan.len() - 1].acted,
    ensures
        run(world, plan, fates).device == run(
            world,
            plan,
            fates.update(plan.len() - 1, Fate { acted: true, acknowledged: true }),
        ).device,
    decreases plan.len(),
{
    let seen = Fate { acted: true, acknowledged: true };
    let last = plan.len() - 1;
    let other = fates.update(last, seen);
    let rest = plan.drop_first();
    if last == 0 {
        let next = step(world, plan[0], seen);
        assert(run(next, rest, other.drop_first()) == next);
        let same = step(world, plan[0], fates[0]);
        assert(run(same, rest, fates.drop_first()) == same);
    } else {
        let later = fates.drop_first();
        assert(fates[0].acknowledged && other[0] == fates[0]);
        assert forall|i: int| 0 <= i < rest.len() - 1 implies (
        #[trigger] later[i]).acknowledged by {
            assert(later[i] == fates[i + 1]);
        }
        assert(other.drop_first() =~= later.update(last - 1, seen));
        lemma_last_acknowledgement(step(world, plan[0], fates[0]), rest, later);
    }
}

/// If the device acts on the write that arms a slot and the driver does not see
/// it acknowledged, the one thing missing from the record is that slot's alert:
/// the device enforces exactly what was asked for, the record that adds this
/// alert is true, and so every calibration and every other slot stays true.
pub proof fn law_an_unseen_arming_is_all_that_is_missing<I2cError>(
    world: World,
    slot: AlertSlot,
    channel: Channel,
    alert: Alert,
    limit: u16,
    fates: Seq<Fate>,
)
    requires
        coherent(world.record, world.device),
        driver::encoded_alert::<I2cError>(world.record, slot, channel, alert) == Ok::<
            u16,
            Ina4230Error<I2cError>,
        >(limit),
        all_possible(fates),
        ({
            let last = driver::set_alert_plan(world.record, slot, channel, alert, limit).len() - 1;
            &&& last < fates.len()
            &&& forall|i: int| 0 <= i < last ==> (#[trigger] fates[i]).acknowledged
            &&& fates[last].acted && !fates[last].acknowledged
        }),
    ensures
        ({
            let plan = driver::set_alert_plan(world.record, slot, channel, alert, limit);
            let end = run(world, plan, fates);
            &&& end.record == (Record {
                alerts: world.record.alerts.update(slot.position(), None),
                ..world.record
            })
            &&& end.device.enforces(slot)
            &&& end.device.alert_limit[slot.position()] == limit
            &&& end.device.watches(
                slot,
                channel,
                alert,
                end.record.calibration_of(channel),
            )
            &&& coherent(
                Record {
                    alerts: end.record.alerts.update(slot.position(), Some((channel, alert))),
                    ..end.record
                },
                end.device,
            )
            &&& coherent_except(end.record, end.device, slot)
        }),
{
    let plan = driver::set_alert_plan(world.record, slot, channel, alert, limit);
    let last = plan.len() - 1;
    let seen = fates.update(last, Fate { acted: true, acknowledged: true });
    let end = run(world, plan, fates);
    let known = run(world, plan, seen);
    assert forall|i: int| 0 <= i < seen.len() implies possible(#[trigger] seen[i]) by {
        assert(possible(fates[i]));
    }
    assert forall|i: int| 0 <= i < plan.len() implies (#[trigger] seen[i]).acknowledged by {
        if i < last {
            assert(fates[i].acknowledged);
        }
    }
    lemma_last_acknowledgement(world, plan, fates);
    law_set_alert_takes_effect::<I2cError>(world, slot, channel, alert, limit, seen);
    law_set_alert_keeps_the_record_true::<I2cError>(world, slot, channel, alert, limit, seen);
    outcome::law_set_alert_completed(world.record, slot, channel, alert, limit);
    law_a_run_follows_its_plan(world, plan, fates, last);
    outcome::law_set_alert_stopped(world.record, slot, channel, alert, limit, last);
    let bare = world.record.alerts.update(slot.position(), None);
    assert(end.record.alerts =~= bare) by {
        if last == 0 || world.record.alert_of(slot) is None {
            assert(world.record.alerts =~= bare);
        }
    }
    assert(bare.update(slot.position(), Some((channel, alert))) =~= known.record.alerts);
    assert forall|c: Channel| #[trigger] calibration_holds(end.record, end.device, c) by {
        assert(calibration_holds(known.record, known.device, c));
    }
    assert forall|other: AlertSlot| other != slot implies #[trigger] slot_holds(
        end.record,
        end.device,
        other,
    ) by {
        assert(slot_holds(known.record, known.device, other));
        assert(end.record.alert_of(other) == known.record.alert_of(other));
    }
}

proof fn lemma_run_arming<I2cError>(
    world: World,
    slot: AlertSlot,
    channel: Channel,
    alert: Alert,
    limit: u16,
    fates: Seq<Fate>,
)
    requires
        coherent(world.record, world.device),
        world.record.alert_of(slot) is None,
        driver::encoded_alert::<I2cError>(world.record, slot, channel, alert) == Ok::<
            u16,
            Ina4230Error<I2cError>,
        >(limit),
        all_possible(fates),
        fates.len() > 1 ==> (fates[1].acted ==> fates[1].acknowledged),
    ensures
        ({
            let plan = seq![Transfer::LoadLimit(slot, limit), Transfer::Arm(slot, channel, alert)];
            let end = run(world, plan, fates);
            &&& coherent(end.record, end.device)
            &&& fates.len() > 1 && fates[0].acknowledged && fates[1].acknowledged
                ==> end.device.enforces(slot) && end.device.alert_limit[slot.position()] == limit
        }),
{
    let plan = seq![Transfer::LoadLimit(slot, limit), Transfer::Arm(slot, channel, alert)];
    if fates.len() > 0 {
        lemma_rest_possible(fates);
        lemma_step_load_limit(world, slot, limit, fates[0]);
        if fates[0].acknowledged {
            let loaded = step(world, plan[0], fates[0]);
            let later = fates.drop_first();
            assert(plan.drop_first() =~= seq![Transfer::Arm(slot, channel, alert)]);
            if later.len() > 0 {
                lemma_rest_possible(later);
                lemma_step_arm::<I2cError>(loaded, slot, channel, alert, later[0]);
                let armed = step(loaded, plan[1], later[0]);
                assert(plan.drop_first().drop_first() =~= Seq::<Transfer>::empty());
                assert(run(
                    armed,
                    plan.drop_first().drop_first(),
                    later.drop_first(),
                ) == armed);
                assert(run(loaded, plan.drop_first(), later) == armed);
            } else {
                assert(run(loaded, plan.drop_first(), later) == loaded);
            }
        }
    }
}

/// However disarming a slot ends, the record stays true of the device; once it
/// is acknowledged, the device no longer enforces the slot.
pub proof fn law_clear_alert_keeps_the_record_true(world: World, slot: AlertSlot, fate: Fate)
    requires
        coherent(world.record, world.device),
        possible(fate),
    ensures
        ({
            let end = run(world, seq![Transfer::Disarm(slot)], seq![fate]);
            &&& coherent(end.record, end.device)
            &&& fate.acknowledged ==> !end.device.enforces(slot)
        }),
{
    lemma_step_disarm(world, slot, fate);
    lemma_run_one(world, Transfer::Disarm(slot), fate);
}

/// Disarming a slot whose record is in doubt settles it: however it ends,
/// everything else stays true, and once it is acknowledged the whole record is
/// true.
pub proof fn law_clear_alert_settles_the_slot(world: World, slot: AlertSlot, fate: Fate)
    requires
        coherent_except(world.record, world.device, slot),
        possible(fate),
    ensures
        ({
            let end = run(world, seq![Transfer::Disarm(slot)], seq![fate]);
            &&& coherent_except(end.record, end.device, slot)
            &&& fate.acknowledged ==> coherent(end.record, end.device) && !end.device.enforces(slot)
        }),
{
    lemma_step_disarm(world, slot, fate);
    lemma_run_one(world, Transfer::Disarm(slot), fate);
}

/// However a reset ends, the record stays true of the device.
pub proof fn law_reset_keeps_the_record_true(world: World, fate: Fate)
    requires
        coherent(world.record, world.device),
        possible(fate),
    ensures
        ({
            let end = run(world, seq![Transfer::Reset], seq![fate]);
            coherent(end.record, end.device)
        }),
{
    lemma_step_reset(world, fate);
    lemma_run_one(world, Transfer::Reset, fate);
}

/// An acknowledged reset makes the record true, whatever it was before: nothing
/// is recorded, and the device is as it was after power-on.
pub proof fn law_reset_makes_the_record_true(world: World, fate: Fate)
    requires
        possible(fate),
        fate.acknowledged,
    ensures
        ({
            let end = run(world, seq![Transfer::Reset], seq![fate]);
            &&& end.record == (Record {
                calibration: script::nothing(),
                alerts: script::nothing(),
            })
            &&& end.device == power_on()
            &&& coherent(end.record, end.device)
        }),
{
    assert((0x8000u16 >> 15) & 1 == 1) by (bit_vector);
    lemma_run_one(world, Transfer::Reset, fate);
    law_a_fresh_record_is_true_after_power_on();
}

proof fn lemma_run_one(world: World, transfer: Transfer, fate: Fate)
    ensures
        run(world, seq![transfer], seq![fate]) == step(world, transfer, fate),
{
    assert(seq![transfer].drop_first() =~= Seq::<Transfer>::empty());
    let next = step(world, transfer, fate);
    assert(run(next, Seq::<Transfer>::empty(), seq![fate].drop_first()) == next);
}

/// However a change of `CONFIG1` or of the ALERT pin configuration ends, the
/// record stays true of the device: no range moves.
pub proof fn law_configuration_keeps_the_record_true(
    world: World,
    change: Config1Change,
    pin: AlertPinConfig,
    fates: Seq<Fate>,
)
    requires
        coherent(world.record, world.device),
        all_possible(fates),
    ensures
        ({
            let end = run(
                world,
                seq![Transfer::ReadConfig1, Transfer::WriteConfig1(change)],
                fates,
            );
            coherent(end.record, end.device)
        }),
        ({
            let end = run(
                world,
                seq![Transfer::ReadPinConfig, Transfer::WritePinConfig(pin)],
                fates,
            );
            coherent(end.record, end.device)
        }),
{
    reveal_with_fuel(run, 3);
    let device = world.device;
    lemma_pin_written(device, pin);
    let word = config::pinned_config2(device.config2, pin);
    let next = device.acting_on(Request::Write { register: Register::Config2, word });
    assert(coherent(world.record, next)) by {
        assert forall|channel: Channel| #[trigger] calibration_holds(
            world.record,
            next,
            channel,
        ) by {
            assert(calibration_holds(world.record, device, channel));
            assert(next.range(channel) == device.range(channel));
        }
        assert forall|slot: AlertSlot| #[trigger] slot_holds(
            world.record,
            next,
            slot,
        ) by {
            assert(slot_holds(world.record, device, slot));
            if next.enforces(slot) {
                let (channel, alert) = world.record.alert_of(slot)->Some_0;
                assert(next.range(channel) == device.range(channel));
                lemma_still_watches(
                    device,
                    next,
                    slot,
                    channel,
                    alert,
                    world.record.calibration_of(channel),
                    world.record.calibration_of(channel),
                );
            }
        }
    }
    let config1 = seq![Transfer::ReadConfig1, Transfer::WriteConfig1(change)];
    assert(config1.drop_first() =~= seq![Transfer::WriteConfig1(change)]);
    let pins = seq![Transfer::ReadPinConfig, Transfer::WritePinConfig(pin)];
    assert(pins.drop_first() =~= seq![Transfer::WritePinConfig(pin)]);
}

/// Once both transactions of an ALERT pin configuration are acknowledged, the
/// device has it.
pub proof fn law_alert_pin_config_takes_effect(
    world: World,
    pin: AlertPinConfig,
    fates: Seq<Fate>,
)
    requires
        world.device.well_formed(),
        all_possible(fates),
        all_acknowledged(seq![Transfer::ReadPinConfig, Transfer::WritePinConfig(pin)], fates),
    ensures
        ({
            let end = run(
                world,
                seq![Transfer::ReadPinConfig, Transfer::WritePinConfig(pin)],
                fates,
            );
            config::pin_field(end.device.config2) == pin.code()
        }),
{
    reveal_with_fuel(run, 3);
    let device = world.device;
    let plan = seq![Transfer::ReadPinConfig, Transfer::WritePinConfig(pin)];
    assert(plan.drop_first() =~= seq![Transfer::WritePinConfig(pin)]);
    assert(fates[0].acknowledged && fates[1].acknowledged);
    assert(possible(fates[1]));
    lemma_pin_written(device, pin);
    config::law_pin_config_touches_only_its_bits(device.config2, pin);
}

/// Writing back `CONFIG2` as it was read, with the pin configured, moves no
/// range.
proof fn lemma_pin_written(device: Device, pin: AlertPinConfig)
    requires
        device.well_formed(),
    ensures
        ({
            let word = config::pinned_config2(device.config2, pin);
            let next = device.acting_on(Request::Write { register: Register::Config2, word });
            &&& next == (Device { config2: word, ..device })
            &&& next.well_formed()
            &&& forall|channel: Channel| #[trigger] next.range(channel) == device.range(channel)
        }),
{
    let old_word = device.config2;
    let word = config::pinned_config2(old_word, pin);
    config::law_pin_config_touches_only_its_bits(old_word, pin);
    assert((word >> 15) & 1 != 1 && word & 0x70FF == word) by (bit_vector)
        requires
            word & 0xFF0F == old_word & 0xFF0F,
            old_word == old_word & 0x70FF,
    ;
}

} // verus!
