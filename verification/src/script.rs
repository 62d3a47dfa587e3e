//! Operations that change the device, as sequences of bus transactions.
//!
//! A [`Script`] lists the transactions still to perform. The driver issues the
//! first of them, is told how it went, and drops it from the script; a failure
//! ends the script. What each transaction means for the driver's record of the
//! device is stated by [`issued`] and [`landed`].
use crate::alert;
use crate::alert::{alert_config, Alert, AlertPinConfig, AlertSlot, DISARMED_CONFIG};
use crate::bus::{Register, Request};
use crate::config;
use crate::config::{Config1, Config1Change, Config2, RangeSelection, RESET_WORD};
use crate::units::{Calibration, Channel};
use vstd::prelude::*;

verus! {

/// One bus transaction of an operation.
#[derive(Debug, Clone, Copy, PartialEq, Eq)]
pub enum Transfer {
    /// Clear a slot's `ALERT_MASK`.
    Disarm(AlertSlot),
    /// Load a slot's threshold.
    LoadLimit(AlertSlot, u16),
    /// Make a slot watch a channel for a condition.
    Arm(AlertSlot, Channel, Alert),
    /// Reset the device.
    Reset,
    /// Read `CONFIG2` in order to select ranges.
    ReadRanges(RangeSelection),
    /// Write `CONFIG2`, as it was read, with ranges selected.
    WriteRanges(RangeSelection),
    /// Write a channel's `SHUNT_CAL`.
    Calibrate(Channel, Calibration),
    /// Read `CONFIG2` in order to configure the ALERT pin.
    ReadPinConfig,
    /// Write `CONFIG2`, as it was read, with the ALERT pin configured.
    WritePinConfig(AlertPinConfig),
    /// Read `CONFIG1` in order to change it.
    ReadConfig1,
    /// Write `CONFIG1`, as it was read, with a change.
    WriteConfig1(Config1Change),
}

impl Transfer {
    /// The transaction to perform, where `word` is the last word read.
    pub open spec fn wanted(self, word: u16) -> Request {
        match self {
            Transfer::Disarm(slot) => Request::Write {
                register: Register::AlertConfig(slot),
                word: DISARMED_CONFIG,
            },
            Transfer::LoadLimit(slot, limit) => Request::Write {
                register: Register::AlertLimit(slot),
                word: limit,
            },
            Transfer::Arm(slot, channel, alert) => Request::Write {
                register: Register::AlertConfig(slot),
                word: alert::armed_config(channel, alert) as u16,
            },
            Transfer::Reset => Request::Write { register: Register::Config2, word: RESET_WORD },
            Transfer::ReadRanges(_) | Transfer::ReadPinConfig => Request::Read {
                register: Register::Config2,
            },
            Transfer::WriteRanges(selection) => Request::Write {
                register: Register::Config2,
                word: config::ranged_config2(word, selection),
            },
            Transfer::Calibrate(channel, calibration) => Request::Write {
                register: Register::Calibration(channel),
                word: calibration.cal_word() as u16,
            },
            Transfer::WritePinConfig(pin) => Request::Write {
                register: Register::Config2,
                word: config::pinned_config2(word, pin),
            },
            Transfer::ReadConfig1 => Request::Read { register: Register::Config1 },
            Transfer::WriteConfig1(change) => Request::Write {
                register: Register::Config1,
                word: config::changed_config1(word, change),
            },
        }
    }

    /// The transaction to perform, where `word` is the last word read.
    pub fn request(self, word: u16) -> (request: Request)
        ensures
            request == self.wanted(word),
    {
        match self {
            Transfer::Disarm(slot) => Request::Write {
                register: Register::AlertConfig(slot),
                word: DISARMED_CONFIG,
            },
            Transfer::LoadLimit(slot, limit) => Request::Write {
                register: Register::AlertLimit(slot),
                word: limit,
            },
            Transfer::Arm(slot, channel, alert) => Request::Write {
                register: Register::AlertConfig(slot),
                word: alert_config(channel, alert),
            },
            Transfer::Reset => Request::Write { register: Register::Config2, word: RESET_WORD },
            Transfer::ReadRanges(_) | Transfer::ReadPinConfig => Request::Read {
                register: Register::Config2,
            },
            Transfer::WriteRanges(selection) => Request::Write {
                register: Register::Config2,
                word: Config2::from_word(word).with_ranges(selection).word(),
            },
            Transfer::Calibrate(channel, calibration) => Request::Write {
                register: Register::Calibration(channel),
                word: calibration.shunt_cal().as_u16(),
            },
            Transfer::WritePinConfig(pin) => Request::Write {
                register: Register::Config2,
                word: Config2::from_word(word).with_alert_pin_config(pin).word(),
            },
            Transfer::ReadConfig1 => Request::Read { register: Register::Config1 },
            Transfer::WriteConfig1(change) => Request::Write {
                register: Register::Config1,
                word: Config1::from_word(word).changed(change).word(),
            },
        }
    }
}

// ── The driver's record ──────────────────────────────────────────────────────

/// What the driver has recorded of its own writes.
#[verifier::ext_equal]
pub struct Record {
    /// The calibration of each channel, by position.
    pub calibration: Seq<Option<Calibration>>,
    /// The alert of each slot, by position.
    pub alerts: Seq<Option<(Channel, Alert)>>,
}

impl Record {
    /// Whether the record has its four channels and four slots.
    pub open spec fn well_formed(self) -> bool {
        self.calibration.len() == 4 && self.alerts.len() == 4
    }

    /// The calibration recorded for a channel.
    pub open spec fn calibration_of(self, channel: Channel) -> Option<Calibration> {
        self.calibration[channel.position()]
    }

    /// The alert recorded for a slot.
    pub open spec fn alert_of(self, slot: AlertSlot) -> Option<(Channel, Alert)> {
        self.alerts[slot.position()]
    }
}

/// Four entries, all of them empty.
pub open spec fn nothing<T>() -> Seq<Option<T>> {
    seq![None, None, None, None]
}

/// The channel calibrations without those that a range selection names.
pub open spec fn forgotten(
    calibration: Seq<Option<Calibration>>,
    selection: RangeSelection,
) -> Seq<Option<Calibration>> {
    seq![
        if selection.ch1 is Some {
            None
        } else {
            calibration[0]
        },
        if selection.ch2 is Some {
            None
        } else {
            calibration[1]
        },
        if selection.ch3 is Some {
            None
        } else {
            calibration[2]
        },
        if selection.ch4 is Some {
            None
        } else {
            calibration[3]
        },
    ]
}

/// The record once a transaction is about to go out.
///
/// What the device holds is uncertain from then on, so a calibration that the
/// transaction is about to put in doubt is forgotten first: the record never
/// outlives the device's calibration.
pub open spec fn issued(record: Record, transfer: Transfer) -> Record {
    match transfer {
        Transfer::Reset => Record { calibration: nothing(), ..record },
        Transfer::ReadRanges(selection) => Record {
            calibration: forgotten(record.calibration, selection),
            ..record
        },
        _ => record,
    }
}

/// The record once a transaction has succeeded.
pub open spec fn landed(record: Record, transfer: Transfer) -> Record {
    match transfer {
        Transfer::Disarm(slot) => Record {
            alerts: record.alerts.update(slot.position(), None),
            ..record
        },
        Transfer::Arm(slot, channel, alert) => Record {
            alerts: record.alerts.update(slot.position(), Some((channel, alert))),
            ..record
        },
        Transfer::Reset => Record { alerts: nothing(), ..record },
        Transfer::Calibrate(channel, calibration) => Record {
            calibration: record.calibration.update(channel.position(), Some(calibration)),
            ..record
        },
        _ => record,
    }
}

// ── Scripts ──────────────────────────────────────────────────────────────────

/// The longest script: four slots disarmed, a range selection, four channels
/// calibrated.
pub const SCRIPT_CAPACITY: usize = 10;

/// The transactions that an operation still has to perform, in order.
#[derive(Debug, Clone, Copy, PartialEq, Eq)]
pub struct Script {
    transfers: [Transfer; 10],
    next: usize,
    end: usize,
    word: u16,
}

impl View for Script {
    type V = Seq<Transfer>;

    closed spec fn view(&self) -> Seq<Transfer> {
        self.transfers@.subrange(self.next as int, self.end as int)
    }
}

impl Script {
    #[verifier::type_invariant]
    spec fn inv(self) -> bool {
        self.next <= self.end <= SCRIPT_CAPACITY
    }

    /// The last word read.
    pub closed spec fn last_read(self) -> u16 {
        self.word
    }

    /// How many transactions the script was given, performed ones included.
    pub closed spec fn used(self) -> int {
        self.end as int
    }

    /// A script with nothing to do.
    pub(crate) fn new() -> (script: Script)
        ensures
            script@ == Seq::<Transfer>::empty(),
            script.used() == 0,
    {
        Script { transfers: [Transfer::Reset; 10], next: 0, end: 0, word: 0 }
    }

    /// Append a transaction.
    pub(crate) fn push(&mut self, transfer: Transfer)
        requires
            old(self).used() < SCRIPT_CAPACITY,
        ensures
            final(self)@ == old(self)@.push(transfer),
            final(self).used() == old(self).used() + 1,
            final(self).last_read() == old(self).last_read(),
    {
        proof {
            use_type_invariant(&*self);
        }
        let mut transfers = self.transfers;
        transfers[self.end] = transfer;
        *self = Script { transfers, next: self.next, end: self.end + 1, word: self.word };
        assert(self@ == old(self)@.push(transfer));
    }

    /// Whether nothing is left to do.
    pub fn is_finished(&self) -> (finished: bool)
        ensures
            finished == (self@.len() == 0),
    {
        proof {
            use_type_invariant(self);
        }
        self.next == self.end
    }

    /// The transaction to perform next.
    pub fn current(&self) -> (transfer: Option<Transfer>)
        ensures
            transfer == if self@.len() == 0 {
                None
            } else {
                Some(self@[0])
            },
    {
        proof {
            use_type_invariant(self);
        }
        if self.next < self.end {
            Some(self.transfers[self.next])
        } else {
            None
        }
    }

    /// The last word read.
    pub(crate) fn word(&self) -> (word: u16)
        ensures
            word == self.last_read(),
    {
        self.word
    }

    /// Keep a word that was read.
    pub(crate) fn keep(&mut self, word: u16)
        ensures
            final(self)@ == old(self)@,
            final(self).used() == old(self).used(),
            final(self).last_read() == word,
    {
        proof {
            use_type_invariant(&*self);
        }
        *self = Script { transfers: self.transfers, next: self.next, end: self.end, word };
    }

    /// Drop the transaction that was performed.
    pub(crate) fn advance(&mut self)
        requires
            old(self)@.len() > 0,
        ensures
            final(self)@ == old(self)@.drop_first(),
            final(self).used() == old(self).used(),
            final(self).last_read() == old(self).last_read(),
    {
        proof {
            use_type_invariant(&*self);
        }
        *self = Script {
            transfers: self.transfers,
            next: self.next + 1,
            end: self.end,
            word: self.word,
        };
        assert(self@ == old(self)@.drop_first());
    }

    /// Give up what is left to do.
    pub(crate) fn abandon(&mut self)
        ensures
            final(self)@ == Seq::<Transfer>::empty(),
            final(self).used() == old(self).used(),
            final(self).last_read() == old(self).last_read(),
    {
        proof {
            use_type_invariant(&*self);
        }
        *self = Script {
            transfers: self.transfers,
            next: self.end,
            end: self.end,
            word: self.word,
        };
        assert(self@ == Seq::<Transfer>::empty());
    }
}

} // verus!
