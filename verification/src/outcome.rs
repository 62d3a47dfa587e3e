//! What a script leaves in the driver's record, however far it gets.
//!
//! A script ends in one of two ways: all its transactions succeed, or the first
//! `n` succeed and the next one is issued and not acknowledged. The second way
//! covers a bus error as well as an operation that is abandoned while a
//! transaction is out.
use crate::alert::{Alert, AlertPinConfig, AlertSlot};
use crate::bus::{Register, Request};
use crate::config::{Config1Change, RangeSelection};
use crate::driver;
use crate::script;
use crate::script::{Record, Transfer};
use crate::units::{Calibration, Channel};
use vstd::prelude::*;

verus! {

/// The record after the first `n` transactions of a plan have succeeded.
pub open spec fn after(record: Record, plan: Seq<Transfer>, n: int) -> Record
    decreases n,
{
    if n <= 0 {
        record
    } else {
        let transfer = plan[n - 1];
        script::landed(script::issued(after(record, plan, n - 1), transfer), transfer)
    }
}

/// The record after all transactions of a plan have succeeded.
pub open spec fn completed(record: Record, plan: Seq<Transfer>) -> Record {
    after(record, plan, plan.len() as int)
}

/// The record after the first `n` transactions have succeeded and the next one
/// was issued and not acknowledged.
pub open spec fn stopped(record: Record, plan: Seq<Transfer>, n: int) -> Record {
    script::issued(after(record, plan, n), plan[n])
}

/// Alternating `issue` and `complete` walks through a plan: if the first `n`
/// transactions have been performed, a further acknowledged one leaves the
/// record that belongs to `n + 1`, and a failed one leaves the stopped record.
pub proof fn law_performing_a_script_follows_its_plan(
    record: Record,
    plan: Seq<Transfer>,
    n: int,
)
    requires
        0 <= n < plan.len(),
    ensures
        script::landed(stopped(record, plan, n), plan[n]) == after(record, plan, n + 1),
        plan.skip(n)[0] == plan[n],
        plan.skip(n).drop_first() == plan.skip(n + 1),
{
    assert(plan.skip(n).drop_first() =~= plan.skip(n + 1));
}

// ── Running a plan in two parts ──────────────────────────────────────────────

proof fn lemma_after_prefix(record: Record, first: Seq<Transfer>, second: Seq<Transfer>, n: int)
    requires
        0 <= n <= first.len(),
    ensures
        after(record, first + second, n) == after(record, first, n),
    decreases n,
{
    if n > 0 {
        lemma_after_prefix(record, first, second, n - 1);
        assert((first + second)[n - 1] == first[n - 1]);
    }
}

pub(crate) proof fn lemma_after_suffix(record: Record, first: Seq<Transfer>, second: Seq<Transfer>, n: int)
    requires
        0 <= n <= second.len(),
    ensures
        after(record, first + second, first.len() + n) == after(completed(record, first), second, n),
    decreases n,
{
    if n == 0 {
        lemma_after_prefix(record, first, second, first.len() as int);
    } else {
        lemma_after_suffix(record, first, second, n - 1);
        assert((first + second)[first.len() + n - 1] == second[n - 1]);
    }
}

/// Whether a plan only disarms slots.
pub open spec fn only_disarms(plan: Seq<Transfer>) -> bool {
    forall|i: int| 0 <= i < plan.len() ==> #[trigger] plan[i] is Disarm
}

/// The alerts with those of the slots that the first `n` transactions disarm
/// taken out.
pub open spec fn without(
    alerts: Seq<Option<(Channel, Alert)>>,
    plan: Seq<Transfer>,
    n: int,
) -> Seq<Option<(Channel, Alert)>> {
    Seq::new(
        alerts.len(),
        |k: int|
            if exists|i: int|
                0 <= i < n && #[trigger] plan[i] is Disarm && plan[i]->Disarm_0.position() == k {
                None
            } else {
                alerts[k]
            },
    )
}

proof fn lemma_after_disarms(record: Record, plan: Seq<Transfer>, n: int)
    requires
        record.well_formed(),
        only_disarms(plan),
        0 <= n <= plan.len(),
    ensures
        after(record, plan, n).calibration == record.calibration,
        after(record, plan, n).alerts == without(record.alerts, plan, n),
    decreases n,
{
    if n == 0 {
        assert(after(record, plan, 0).alerts =~= without(record.alerts, plan, 0));
    } else {
        lemma_after_disarms(record, plan, n - 1);
        assert(plan[n - 1] is Disarm);
        let before = without(record.alerts, plan, n - 1);
        let slot = plan[n - 1]->Disarm_0;
        assert forall|k: int| 0 <= k < 4 implies #[trigger] without(record.alerts, plan, n)[k]
            == before.update(slot.position(), None)[k] by {
            if k != slot.position() {
                if exists|i: int|
                    0 <= i < n && #[trigger] plan[i] is Disarm && plan[i]->Disarm_0.position()
                        == k {
                    let i = choose|i: int|
                        0 <= i < n && #[trigger] plan[i] is Disarm && plan[i]->Disarm_0.position()
                            == k;
                    assert(i < n - 1);
                }
            }
        }
        assert(after(record, plan, n).alerts =~= without(record.alerts, plan, n));
    }
}

// ── Calibration ──────────────────────────────────────────────────────────────

/// The alerts without those that a channel's calibration scales.
pub open spec fn unscaled(
    alerts: Seq<Option<(Channel, Alert)>>,
    channel: Channel,
) -> Seq<Option<(Channel, Alert)>> {
    Seq::new(
        alerts.len(),
        |k: int|
            if driver::scaled_by(alerts[k], channel) {
                None
            } else {
                alerts[k]
            },
    )
}

/// The alerts without those that any calibration scales.
pub open spec fn absolute(alerts: Seq<Option<(Channel, Alert)>>) -> Seq<
    Option<(Channel, Alert)>,
> {
    Seq::new(
        alerts.len(),
        |k: int|
            match alerts[k] {
                Some((_, alert)) if alert.is_scaled() => None,
                entry => entry,
            },
    )
}

/// The slot at a position.
spec fn slot_at(k: int) -> AlertSlot {
    if k == 0 {
        AlertSlot::One
    } else if k == 1 {
        AlertSlot::Two
    } else if k == 2 {
        AlertSlot::Three
    } else {
        AlertSlot::Four
    }
}

/// The slots that a channel's recalibration disarms are those it scales.
pub(crate) proof fn lemma_disarm_scaled(record: Record, channel: Channel)
    requires
        record.well_formed(),
    ensures
        only_disarms(driver::disarm_scaled(record, channel)),
        forall|slot: AlertSlot|
            driver::disarm_scaled(record, channel).contains(Transfer::Disarm(slot)) <==> (
            #[trigger] driver::scaled_by(record.alert_of(slot), channel)),
{
    let plan = driver::disarm_scaled(record, channel);
    let a = driver::disarm_if_scaled(record, channel, AlertSlot::One);
    let b = driver::disarm_if_scaled(record, channel, AlertSlot::Two);
    let c = driver::disarm_if_scaled(record, channel, AlertSlot::Three);
    let d = driver::disarm_if_scaled(record, channel, AlertSlot::Four);
    assert forall|i: int| 0 <= i < plan.len() implies #[trigger] plan[i] is Disarm
        && driver::scaled_by(record.alert_of(plan[i]->Disarm_0), channel) by {
        if i < a.len() {
            assert(plan[i] == a[i]);
        } else if i < a.len() + b.len() {
            assert(plan[i] == b[i - a.len()]);
        } else if i < a.len() + b.len() + c.len() {
            assert(plan[i] == c[i - a.len() - b.len()]);
        } else {
            assert(plan[i] == d[i - a.len() - b.len() - c.len()]);
        }
    }
    assert forall|slot: AlertSlot| #[trigger]
        driver::scaled_by(record.alert_of(slot), channel) implies plan.contains(
        Transfer::Disarm(slot),
    ) by {
        let i: int = match slot {
            AlertSlot::One => 0,
            AlertSlot::Two => a.len() as int,
            AlertSlot::Three => (a.len() + b.len()) as int,
            AlertSlot::Four => (a.len() + b.len() + c.len()) as int,
        };
        assert(plan[i] == Transfer::Disarm(slot));
    }
}

/// A plan that disarms exactly the scaled slots leaves the unscaled alerts.
proof fn lemma_without_is_unscaled(record: Record, channel: Channel)
    requires
        record.well_formed(),
    ensures
        ({
            let plan = driver::disarm_scaled(record, channel);
            without(record.alerts, plan, plan.len() as int) == unscaled(record.alerts, channel)
        }),
{
    let plan = driver::disarm_scaled(record, channel);
    lemma_disarm_scaled(record, channel);
    assert forall|k: int| 0 <= k < 4 implies #[trigger] without(
        record.alerts,
        plan,
        plan.len() as int,
    )[k] == unscaled(record.alerts, channel)[k] by {
        let slot = slot_at(k);
        assert(record.alert_of(slot) == record.alerts[k]);
        if driver::scaled_by(record.alert_of(slot), channel) {
            assert(plan.contains(Transfer::Disarm(slot)));
            let i = plan.index_of(Transfer::Disarm(slot));
            assert(plan[i] is Disarm && plan[i]->Disarm_0.position() == k);
        } else if exists|i: int|
            0 <= i < plan.len() && #[trigger] plan[i] is Disarm && plan[i]->Disarm_0.position()
                == k {
            let i = choose|i: int|
                0 <= i < plan.len() && #[trigger] plan[i] is Disarm && plan[i]->Disarm_0.position()
                    == k;
            assert(plan[i]->Disarm_0 == slot);
            assert(plan.contains(Transfer::Disarm(slot)));
        }
    }
    assert(without(record.alerts, plan, plan.len() as int) =~= unscaled(record.alerts, channel));
}

/// Whether a plan disarms no slot twice.
spec fn disarms_once(plan: Seq<Transfer>) -> bool {
    forall|i: int, j: int|
        0 <= i < j < plan.len() ==> (#[trigger] plan[i])->Disarm_0 != (
        #[trigger] plan[j])->Disarm_0
}

proof fn lemma_disarms_once(record: Record, channel: Channel)
    ensures
        disarms_once(driver::disarm_scaled(record, channel)),
{
}

/// Disarms that have not succeeded leave their slots recorded.
proof fn lemma_untried_stay(record: Record, disarms: Seq<Transfer>, tail: Seq<Transfer>, n: int)
    requires
        record.well_formed(),
        only_disarms(disarms),
        disarms_once(disarms),
        0 <= n <= disarms.len(),
    ensures
        forall|m: int|
            n <= m < disarms.len() ==> (#[trigger] (disarms + tail)[m]) is Disarm && without(
                record.alerts,
                disarms,
                n,
            )[(disarms + tail)[m]->Disarm_0.position()] == record.alert_of(
                (disarms + tail)[m]->Disarm_0,
            ),
{
    let plan = disarms + tail;
    assert forall|m: int| n <= m < disarms.len() implies (#[trigger] plan[m]) is Disarm && without(
        record.alerts,
        disarms,
        n,
    )[plan[m]->Disarm_0.position()] == record.alert_of(plan[m]->Disarm_0) by {
        assert(plan[m] == disarms[m]);
        let slot = disarms[m]->Disarm_0;
        if exists|i: int|
            0 <= i < n && #[trigger] disarms[i] is Disarm && disarms[i]->Disarm_0.position()
                == slot.position() {
            let i = choose|i: int|
                0 <= i < n && #[trigger] disarms[i] is Disarm && disarms[i]->Disarm_0.position()
                    == slot.position();
            assert(disarms[i]->Disarm_0 == slot);
            assert(disarms[i]->Disarm_0 != disarms[m]->Disarm_0);
        }
    }
}

/// A calibration that succeeds records the channel's calibration, disarms the
/// slots it scales, and changes nothing else.
pub proof fn law_calibrate_completed(record: Record, channel: Channel, calibration: Calibration)
    requires
        record.well_formed(),
    ensures
        completed(record, driver::calibrate_plan(record, channel, calibration)) == (Record {
            calibration: record.calibration.update(channel.position(), Some(calibration)),
            alerts: unscaled(record.alerts, channel),
        }),
{
    let disarm = driver::disarm_scaled(record, channel);
    let selection = RangeSelection::only(channel, calibration.range());
    let tail = seq![
        Transfer::ReadRanges(selection),
        Transfer::WriteRanges(selection),
        Transfer::Calibrate(channel, calibration),
    ];
    lemma_after_suffix(record, disarm, tail, 3);
    lemma_disarm_scaled(record, channel);
    lemma_after_disarms(record, disarm, disarm.len() as int);
    lemma_without_is_unscaled(record, channel);
    reveal_with_fuel(after, 4);
    assert(script::forgotten(record.calibration, selection).update(
        channel.position(),
        Some(calibration),
    ) =~= record.calibration.update(channel.position(), Some(calibration)));
}

/// A calibration that stops leaves every other channel's calibration and every
/// alert that the channel does not scale. As long as it is still disarming, the
/// channel's own calibration stays recorded, so does every alert whose disarm
/// has not succeeded, and `CONFIG2` has not been touched;
/// from the first `CONFIG2` transaction on, the channel counts as uncalibrated
/// and none of its scaled alerts is armed.
pub proof fn law_calibrate_stopped(
    record: Record,
    channel: Channel,
    calibration: Calibration,
    n: int,
)
    requires
        record.well_formed(),
        0 <= n < driver::calibrate_plan(record, channel, calibration).len(),
    ensures
        ({
            let plan = driver::calibrate_plan(record, channel, calibration);
            let disarms = driver::disarm_scaled(record, channel);
            let end = stopped(record, plan, n);
            &&& n < disarms.len() ==> plan[n] is Disarm && end.calibration == record.calibration
                && end.alerts == without(record.alerts, disarms, n)
            &&& forall|m: int|
                n <= m < disarms.len() ==> (#[trigger] plan[m]) is Disarm && end.alert_of(
                    plan[m]->Disarm_0,
                ) == record.alert_of(plan[m]->Disarm_0)
            &&& n >= disarms.len() ==> end.calibration == record.calibration.update(
                channel.position(),
                None,
            ) && end.alerts == unscaled(record.alerts, channel)
        }),
{
    let plan = driver::calibrate_plan(record, channel, calibration);
    let disarm = driver::disarm_scaled(record, channel);
    let selection = RangeSelection::only(channel, calibration.range());
    let tail = seq![
        Transfer::ReadRanges(selection),
        Transfer::WriteRanges(selection),
        Transfer::Calibrate(channel, calibration),
    ];
    lemma_disarm_scaled(record, channel);
    if n < disarm.len() {
        lemma_after_prefix(record, disarm, tail, n);
        lemma_after_disarms(record, disarm, n);
        assert(plan[n] == disarm[n]);
        lemma_disarms_once(record, channel);
        lemma_untried_stay(record, disarm, tail, n);
    } else {
        let m = n - disarm.len();
        lemma_after_suffix(record, disarm, tail, m);
        lemma_after_disarms(record, disarm, disarm.len() as int);
        lemma_without_is_unscaled(record, channel);
        assert(plan[n] == tail[m]);
        let start = completed(record, disarm);
        assert(script::forgotten(record.calibration, selection) =~= record.calibration.update(
            channel.position(),
            None,
        ));
        assert(after(start, tail, 0) == start);
        assert(after(start, tail, 1) == script::issued(start, tail[0]));
        assert(after(start, tail, 2) == after(start, tail, 1));
    }
}

/// Calibrating a channel that scales no armed slot takes three transactions.
pub proof fn law_calibrate_without_alerts_costs_nothing_extra(
    record: Record,
    channel: Channel,
    calibration: Calibration,
)
    requires
        record.well_formed(),
        forall|slot: AlertSlot| !(#[trigger] driver::scaled_by(record.alert_of(slot), channel)),
    ensures
        driver::calibrate_plan(record, channel, calibration).len() == 3,
{
}

/// Every scaled slot is disarmed before all channels are calibrated.
pub(crate) proof fn lemma_disarm_all_scaled(record: Record)
    requires
        record.well_formed(),
    ensures
        only_disarms(driver::disarm_all_scaled(record)),
        forall|slot: AlertSlot|
            driver::disarm_all_scaled(record).contains(Transfer::Disarm(slot)) <==> (
            #[trigger] record.alert_of(slot) is Some && record.alert_of(slot)->Some_0.1.is_scaled()),
{
    let plan = driver::disarm_all_scaled(record);
    let a = driver::disarm_scaled(record, Channel::Ch1);
    let b = driver::disarm_scaled(record, Channel::Ch2);
    let c = driver::disarm_scaled(record, Channel::Ch3);
    let d = driver::disarm_scaled(record, Channel::Ch4);
    lemma_disarm_scaled(record, Channel::Ch1);
    lemma_disarm_scaled(record, Channel::Ch2);
    lemma_disarm_scaled(record, Channel::Ch3);
    lemma_disarm_scaled(record, Channel::Ch4);
    assert forall|i: int| 0 <= i < plan.len() implies #[trigger] plan[i] is Disarm && record.alert_of(
        plan[i]->Disarm_0,
    ) is Some && record.alert_of(plan[i]->Disarm_0)->Some_0.1.is_scaled() by {
        if i < a.len() {
            assert(plan[i] == a[i]);
            lemma_disarmed_is_scaled(record, Channel::Ch1, i);
        } else if i < a.len() + b.len() {
            assert(plan[i] == b[i - a.len()]);
            lemma_disarmed_is_scaled(record, Channel::Ch2, i - a.len());
        } else if i < a.len() + b.len() + c.len() {
            assert(plan[i] == c[i - a.len() - b.len()]);
            lemma_disarmed_is_scaled(record, Channel::Ch3, i - a.len() - b.len());
        } else {
            assert(plan[i] == d[i - a.len() - b.len() - c.len()]);
            lemma_disarmed_is_scaled(record, Channel::Ch4, i - a.len() - b.len() - c.len());
        }
    }
    assert forall|slot: AlertSlot| #[trigger]
        record.alert_of(slot) is Some
            && record.alert_of(slot)->Some_0.1.is_scaled() implies plan.contains(
        Transfer::Disarm(slot),
    ) by {
        let channel = record.alert_of(slot)->Some_0.0;
        let disarm = Transfer::Disarm(slot);
        assert(driver::scaled_by(record.alert_of(slot), channel));
        match channel {
            Channel::Ch1 => {
                let i = a.index_of(disarm);
                assert(plan[i] == disarm);
            },
            Channel::Ch2 => {
                let i = b.index_of(disarm);
                assert(plan[a.len() + i] == disarm);
            },
            Channel::Ch3 => {
                let i = c.index_of(disarm);
                assert(plan[a.len() + b.len() + i] == disarm);
            },
            Channel::Ch4 => {
                let i = d.index_of(disarm);
                assert(plan[a.len() + b.len() + c.len() + i] == disarm);
            },
        }
    }
}

proof fn lemma_disarmed_is_scaled(record: Record, channel: Channel, i: int)
    requires
        record.well_formed(),
        0 <= i < driver::disarm_scaled(record, channel).len(),
    ensures
        ({
            let transfer = driver::disarm_scaled(record, channel)[i];
            transfer is Disarm && driver::scaled_by(record.alert_of(transfer->Disarm_0), channel)
        }),
{
    let plan = driver::disarm_scaled(record, channel);
    lemma_disarm_scaled(record, channel);
    assert(plan[i] is Disarm);
    let slot = plan[i]->Disarm_0;
    assert(plan.contains(Transfer::Disarm(slot)));
    assert(driver::scaled_by(record.alert_of(slot), channel));
}

proof fn lemma_all_disarms_once(record: Record)
    requires
        record.well_formed(),
    ensures
        disarms_once(driver::disarm_all_scaled(record)),
{
    let plan = driver::disarm_all_scaled(record);
    assert forall|i: int, j: int| 0 <= i < j < plan.len() implies (#[trigger] plan[i])->Disarm_0
        != (#[trigger] plan[j])->Disarm_0 by {
        let (p, x) = lemma_disarm_origin(record, i);
        let (q, y) = lemma_disarm_origin(record, j);
        lemma_disarms_once(record, p);
        lemma_disarmed_is_scaled(record, p, x);
        lemma_disarmed_is_scaled(record, q, y);
    }
}

/// Where a channel's own disarms start among those of all channels.
spec fn part_start(record: Record, channel: Channel) -> int {
    let a = driver::disarm_scaled(record, Channel::Ch1).len() as int;
    let b = driver::disarm_scaled(record, Channel::Ch2).len() as int;
    let c = driver::disarm_scaled(record, Channel::Ch3).len() as int;
    match channel {
        Channel::Ch1 => 0,
        Channel::Ch2 => a,
        Channel::Ch3 => a + b,
        Channel::Ch4 => a + b + c,
    }
}

/// Which channel's plan a disarm comes from, and its place there.
proof fn lemma_disarm_origin(record: Record, i: int) -> (origin: (Channel, int))
    requires
        0 <= i < driver::disarm_all_scaled(record).len(),
    ensures
        ({
            let (channel, k) = origin;
            let part = driver::disarm_scaled(record, channel);
            &&& 0 <= k < part.len()
            &&& part[k] == driver::disarm_all_scaled(record)[i]
            &&& k == i - part_start(record, channel)
        }),
{
    let a = driver::disarm_scaled(record, Channel::Ch1);
    let b = driver::disarm_scaled(record, Channel::Ch2);
    let c = driver::disarm_scaled(record, Channel::Ch3);
    if i < a.len() {
        (Channel::Ch1, i)
    } else if i < a.len() + b.len() {
        (Channel::Ch2, i - a.len())
    } else if i < a.len() + b.len() + c.len() {
        (Channel::Ch3, i - a.len() - b.len())
    } else {
        (Channel::Ch4, i - a.len() - b.len() - c.len())
    }
}

/// A plan that disarms every scaled slot leaves the absolute alerts.
proof fn lemma_without_is_absolute(record: Record)
    requires
        record.well_formed(),
    ensures
        ({
            let plan = driver::disarm_all_scaled(record);
            without(record.alerts, plan, plan.len() as int) == absolute(record.alerts)
        }),
{
    let plan = driver::disarm_all_scaled(record);
    lemma_disarm_all_scaled(record);
    assert forall|k: int| 0 <= k < 4 implies #[trigger] without(
        record.alerts,
        plan,
        plan.len() as int,
    )[k] == absolute(record.alerts)[k] by {
        let slot = slot_at(k);
        assert(record.alert_of(slot) == record.alerts[k]);
        if record.alert_of(slot) is Some && record.alert_of(slot)->Some_0.1.is_scaled() {
            assert(plan.contains(Transfer::Disarm(slot)));
            let i = plan.index_of(Transfer::Disarm(slot));
            assert(plan[i] is Disarm && plan[i]->Disarm_0.position() == k);
        } else if exists|i: int|
            0 <= i < plan.len() && #[trigger] plan[i] is Disarm && plan[i]->Disarm_0.position()
                == k {
            let i = choose|i: int|
                0 <= i < plan.len() && #[trigger] plan[i] is Disarm && plan[i]->Disarm_0.position()
                    == k;
            assert(plan[i]->Disarm_0 == slot);
            assert(plan.contains(Transfer::Disarm(slot)));
        }
    }
    assert(without(record.alerts, plan, plan.len() as int) =~= absolute(record.alerts));
}

/// The first `k` channels calibrated and the others not.
pub open spec fn first_calibrated(calibrations: Seq<Calibration>, k: int) -> Seq<
    Option<Calibration>,
> {
    Seq::new(
        4,
        |i: int|
            if i < k {
                Some(calibrations[i])
            } else {
                None
            },
    )
}

proof fn lemma_after_all_tail(record: Record, calibrations: Seq<Calibration>, m: int)
    requires
        record.well_formed(),
        calibrations.len() == 4,
        1 <= m <= 6,
    ensures
        after(record, driver::calibrate_each_plan(calibrations), m) == (Record {
            calibration: first_calibrated(calibrations, m - 2),
            alerts: record.alerts,
        }),
    decreases m,
{
    let tail = driver::calibrate_each_plan(calibrations);
    if m == 1 {
        assert(after(record, tail, 0) == record);
        assert(script::forgotten(record.calibration, driver::all_ranges(calibrations))
            =~= first_calibrated(calibrations, -1));
    } else {
        lemma_after_all_tail(record, calibrations, m - 1);
        if m == 2 {
            assert(first_calibrated(calibrations, -1) =~= first_calibrated(calibrations, 0));
        } else {
            assert(first_calibrated(calibrations, m - 3).update(m - 3, Some(calibrations[m - 3]))
                =~= first_calibrated(calibrations, m - 2));
        }
    }
}

proof fn lemma_stopped_in_all_tail(record: Record, calibrations: Seq<Calibration>, m: int)
    requires
        record.well_formed(),
        calibrations.len() == 4,
        0 <= m < 6,
    ensures
        stopped(record, driver::calibrate_each_plan(calibrations), m) == (Record {
            calibration: first_calibrated(calibrations, m - 2),
            alerts: record.alerts,
        }),
{
    let tail = driver::calibrate_each_plan(calibrations);
    if m == 0 {
        assert(after(record, tail, 0) == record);
        assert(script::forgotten(record.calibration, driver::all_ranges(calibrations))
            =~= first_calibrated(calibrations, -2));
    } else {
        lemma_after_all_tail(record, calibrations, m);
        assert(script::forgotten(
            first_calibrated(calibrations, -1),
            driver::all_ranges(calibrations),
        ) =~= first_calibrated(calibrations, -1));
    }
}

/// A calibration of all channels that succeeds records all four and disarms
/// every shunt and power alert; bus alerts stay.
pub proof fn law_calibrate_all_completed(record: Record, calibrations: Seq<Calibration>)
    requires
        record.well_formed(),
        calibrations.len() == 4,
    ensures
        completed(record, driver::calibrate_all_plan(record, calibrations)) == (Record {
            calibration: first_calibrated(calibrations, 4),
            alerts: absolute(record.alerts),
        }),
{
    let disarm = driver::disarm_all_scaled(record);
    let tail = driver::calibrate_each_plan(calibrations);
    lemma_disarm_all_scaled(record);
    lemma_after_suffix(record, disarm, tail, 6);
    lemma_after_disarms(record, disarm, disarm.len() as int);
    lemma_without_is_absolute(record);
    lemma_after_all_tail(completed(record, disarm), calibrations, 6);
}

/// A calibration of all channels that stops while disarming keeps every
/// calibration, and every alert whose disarm has not succeeded. From the first `CONFIG2` transaction on, exactly the channels
/// whose own `SHUNT_CAL` was acknowledged count as calibrated, and no shunt or
/// power alert is armed.
pub proof fn law_calibrate_all_stopped(record: Record, calibrations: Seq<Calibration>, n: int)
    requires
        record.well_formed(),
        calibrations.len() == 4,
        0 <= n < driver::calibrate_all_plan(record, calibrations).len(),
    ensures
        ({
            let plan = driver::calibrate_all_plan(record, calibrations);
            let disarms = driver::disarm_all_scaled(record);
            let end = stopped(record, plan, n);
            &&& n < disarms.len() ==> plan[n] is Disarm && end.calibration == record.calibration
                && end.alerts == without(record.alerts, disarms, n)
            &&& forall|m: int|
                n <= m < disarms.len() ==> (#[trigger] plan[m]) is Disarm && end.alert_of(
                    plan[m]->Disarm_0,
                ) == record.alert_of(plan[m]->Disarm_0)
            &&& n >= disarms.len() ==> end.calibration == first_calibrated(
                calibrations,
                n - disarms.len() - 2,
            ) && end.alerts == absolute(record.alerts)
        }),
{
    let plan = driver::calibrate_all_plan(record, calibrations);
    let disarm = driver::disarm_all_scaled(record);
    let tail = driver::calibrate_each_plan(calibrations);
    lemma_disarm_all_scaled(record);
    if n < disarm.len() {
        lemma_after_prefix(record, disarm, tail, n);
        lemma_after_disarms(record, disarm, n);
        assert(plan[n] == disarm[n]);
        lemma_all_disarms_once(record);
        lemma_untried_stay(record, disarm, tail, n);
    } else {
        let m = n - disarm.len();
        let start = completed(record, disarm);
        lemma_after_suffix(record, disarm, tail, m);
        lemma_after_disarms(record, disarm, disarm.len() as int);
        lemma_without_is_absolute(record);
        assert(plan[n] == tail[m]);
        lemma_stopped_in_all_tail(start, calibrations, m);
    }
}

/// Whether a transaction writes `CONFIG2`.
pub open spec fn writes_config2(transfer: Transfer) -> bool {
    match transfer.wanted(0) {
        Request::Write { register, .. } => register == Register::Config2,
        _ => false,
    }
}

/// A calibration of all channels writes `CONFIG2` once, after all disarming and
/// before any `SHUNT_CAL`.
pub proof fn law_calibrate_all_writes_config2_once(
    record: Record,
    calibrations: Seq<Calibration>,
    n: int,
)
    requires
        record.well_formed(),
        calibrations.len() == 4,
        0 <= n < driver::calibrate_all_plan(record, calibrations).len(),
    ensures
        writes_config2(driver::calibrate_all_plan(record, calibrations)[n]) <==> n
            == driver::disarm_all_scaled(record).len() + 1,
{
    let plan = driver::calibrate_all_plan(record, calibrations);
    let disarm = driver::disarm_all_scaled(record);
    let tail = driver::calibrate_each_plan(calibrations);
    lemma_disarm_all_scaled(record);
    if n < disarm.len() {
        assert(plan[n] == disarm[n]);
    } else {
        assert(plan[n] == tail[n - disarm.len()]);
    }
}

// ── Alerts ───────────────────────────────────────────────────────────────────

/// Arming a slot, when it succeeds, records the alert there and changes nothing
/// else. A disarmed slot costs two transactions, an armed one a third, which
/// disarms it first.
pub proof fn law_set_alert_completed(
    record: Record,
    slot: AlertSlot,
    channel: Channel,
    alert: Alert,
    limit: u16,
)
    requires
        record.well_formed(),
    ensures
        ({
            let plan = driver::set_alert_plan(record, slot, channel, alert, limit);
            &&& completed(record, plan) == (Record {
                alerts: record.alerts.update(slot.position(), Some((channel, alert))),
                ..record
            })
            &&& record.alert_of(slot) is None ==> plan.len() == 2
            &&& record.alert_of(slot) is Some ==> plan.len() == 3 && plan[0] == Transfer::Disarm(
                slot,
            )
        }),
{
    let plan = driver::set_alert_plan(record, slot, channel, alert, limit);
    reveal_with_fuel(after, 4);
    assert(completed(record, plan).alerts =~= record.alerts.update(
        slot.position(),
        Some((channel, alert)),
    ));
}

/// Arming a slot that stops leaves all calibrations and all other slots. The
/// slot itself is recorded as it was if the first transaction of an armed slot
/// stopped, and as disarmed in every other case; so when the new threshold goes
/// out, the slot counts as disarmed.
pub proof fn law_set_alert_stopped(
    record: Record,
    slot: AlertSlot,
    channel: Channel,
    alert: Alert,
    limit: u16,
    n: int,
)
    requires
        record.well_formed(),
        0 <= n < driver::set_alert_plan(record, slot, channel, alert, limit).len(),
    ensures
        ({
            let plan = driver::set_alert_plan(record, slot, channel, alert, limit);
            let end = stopped(record, plan, n);
            &&& n == 0 ==> end == record
            &&& n > 0 ==> end == (Record {
                alerts: record.alerts.update(slot.position(), None),
                ..record
            })
            &&& plan[n] is LoadLimit || plan[n] is Arm ==> end.alert_of(slot) is None
        }),
{
    let plan = driver::set_alert_plan(record, slot, channel, alert, limit);
    reveal_with_fuel(after, 4);
    if n > 0 {
        assert(stopped(record, plan, n).alerts =~= record.alerts.update(slot.position(), None));
    }
}

/// Disarming a slot forgets its alert once the write succeeds, not before, and
/// changes nothing else.
pub proof fn law_clear_alert_outcome(record: Record, slot: AlertSlot)
    ensures
        completed(record, seq![Transfer::Disarm(slot)]) == (Record {
            alerts: record.alerts.update(slot.position(), None),
            ..record
        }),
        stopped(record, seq![Transfer::Disarm(slot)], 0) == record,
{
    reveal_with_fuel(after, 2);
}

// ── Reset and configuration ──────────────────────────────────────────────────

/// A reset that succeeds leaves nothing recorded. One that fails leaves every
/// channel uncalibrated and every alert still recorded.
pub proof fn law_reset_outcome(record: Record)
    ensures
        completed(record, seq![Transfer::Reset]) == (Record {
            calibration: script::nothing(),
            alerts: script::nothing(),
        }),
        stopped(record, seq![Transfer::Reset], 0) == (Record {
            calibration: script::nothing(),
            alerts: record.alerts,
        }),
{
    reveal_with_fuel(after, 2);
}

/// Changing `CONFIG1` (a channel enable, the operating mode, shutdown among
/// them, or the conversion timing) never touches the record, and neither does
/// configuring the ALERT pin.
pub proof fn law_configuration_keeps_the_record(
    record: Record,
    change: Config1Change,
    pin: AlertPinConfig,
    n: int,
)
    requires
        0 <= n < 2,
    ensures
        ({
            let plan = seq![Transfer::ReadConfig1, Transfer::WriteConfig1(change)];
            completed(record, plan) == record && stopped(record, plan, n) == record
        }),
        ({
            let plan = seq![Transfer::ReadPinConfig, Transfer::WritePinConfig(pin)];
            completed(record, plan) == record && stopped(record, plan, n) == record
        }),
{
    reveal_with_fuel(after, 3);
}

} // verus!
