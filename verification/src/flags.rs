//! The `FLAGS` register.
use crate::alert::AlertSlot;
use crate::bits;
use crate::bits::test_bit;
use crate::units::Channel;
use vstd::prelude::*;

verus! {

/// A snapshot of the `FLAGS` register.
///
/// Every condition the register can report is preserved here. That matters
/// because reading `FLAGS` clears the conversion-ready and latched alert bits
/// (datasheet Table 7-20), so a discarded flag is lost for good.
#[derive(Debug, Clone, Copy, PartialEq, Eq)]
pub struct Flags {
    conversion_ready: bool,
    math_overflow: bool,
    energy_overflow: [bool; 4],
    limit_alerts: [bool; 4],
}

impl Flags {
    /// All conversions and averaging are complete.
    pub closed spec fn ready(self) -> bool {
        self.conversion_ready
    }

    /// An arithmetic operation overflowed.
    pub closed spec fn overflowed(self) -> bool {
        self.math_overflow
    }

    /// The energy overflow flags, by channel.
    pub closed spec fn energy(self) -> Seq<bool> {
        self.energy_overflow@
    }

    /// The alert limit flags, by slot.
    pub closed spec fn limits(self) -> Seq<bool> {
        self.limit_alerts@
    }

    /// What a `FLAGS` word reports: `OVF` in bit 6, `CVRF` in bit 7, the four
    /// channels' energy overflows from bit 8, the four slots' limit alerts from
    /// bit 12.
    pub open spec fn reports(self, word: u16) -> bool {
        &&& self.overflowed() == bits::bit(word, 6)
        &&& self.ready() == bits::bit(word, 7)
        &&& self.energy() == seq![
            bits::bit(word, 8),
            bits::bit(word, 9),
            bits::bit(word, 10),
            bits::bit(word, 11),
        ]
        &&& self.limits() == seq![
            bits::bit(word, 12),
            bits::bit(word, 13),
            bits::bit(word, 14),
            bits::bit(word, 15),
        ]
    }

    /// Decode a `FLAGS` word.
    #[must_use]
    pub fn from_word(word: u16) -> (flags: Flags)
        ensures
            flags.reports(word),
    {
        Flags {
            conversion_ready: test_bit(word, 7),
            math_overflow: test_bit(word, 6),
            energy_overflow: [
                test_bit(word, 8),
                test_bit(word, 9),
                test_bit(word, 10),
                test_bit(word, 11),
            ],
            limit_alerts: [
                test_bit(word, 12),
                test_bit(word, 13),
                test_bit(word, 14),
                test_bit(word, 15),
            ],
        }
    }

    /// All conversions and averaging are complete.
    #[must_use]
    pub fn conversion_ready(self) -> (set: bool)
        ensures
            set == self.ready(),
    {
        self.conversion_ready
    }

    /// An arithmetic operation overflowed; current and power data may be
    /// invalid.
    #[must_use]
    pub fn math_overflow(self) -> (set: bool)
        ensures
            set == self.overflowed(),
    {
        self.math_overflow
    }

    /// The energy accumulator for `channel` has overflowed.
    ///
    /// The bit is not read-to-clear. The recovery available here is a reset of
    /// the device, after which every channel must be calibrated again.
    #[must_use]
    pub fn energy_overflow(self, channel: Channel) -> (set: bool)
        ensures
            set == self.energy()[channel.position()],
    {
        self.energy_overflow[channel.index()]
    }

    /// Any channel's energy accumulator has overflowed.
    #[must_use]
    pub fn any_energy_overflow(self) -> (any: bool)
        ensures
            any == exists|channel: Channel| #[trigger] self.energy()[channel.position()],
    {
        let mut i: usize = 0;
        while i < 4
            invariant
                i <= 4,
                forall|channel: Channel|
                    channel.position() < i ==> !#[trigger] self.energy_overflow@[channel.position()],
            decreases 4 - i,
        {
            let channel = Channel::ALL[i];
            assert(channel.position() == i);
            if self.energy_overflow[i] {
                assert(self.energy()[channel.position()]);
                return true;
            }
            assert forall|other: Channel| other.position() < i + 1 implies !#[trigger] self.energy_overflow@[other.position()] by {
                if other.position() == i {
                    assert(other == channel);
                }
            }
            i = i + 1;
        }
        false
    }

    /// Whether `slot`'s alert limit has been exceeded.
    ///
    /// The channel this refers to is whichever one the slot's `ALERT_CONFIG`
    /// selects (datasheet Table 7-8), not one derived from the slot number.
    #[must_use]
    pub fn limit_alert(self, slot: AlertSlot) -> (set: bool)
        ensures
            set == self.limits()[slot.position()],
    {
        self.limit_alerts[slot.index()]
    }

    /// The four alert limit flags, ordered `[LIMIT1, LIMIT2, LIMIT3, LIMIT4]`.
    ///
    /// The device compares the limit against every conversion, not against the
    /// averaged result (datasheet 6.3.5), so with averaging enabled a flag can
    /// report an excursion that no reading shows.
    #[must_use]
    pub fn limit_alerts(self) -> (set: [bool; 4])
        ensures
            set@ == self.limits(),
    {
        self.limit_alerts
    }
}

impl Default for Flags {
    /// No condition is reported.
    fn default() -> (flags: Flags)
        ensures
            flags.reports(0),
    {
        Flags::from_word(0)
    }
}

/// A snapshot loses nothing: it reports two words alike exactly when they agree
/// on every condition bit, 6 to 15.
pub proof fn law_flags_keep_every_condition(flags: Flags, v: u16, w: u16)
    requires
        flags.reports(v),
    ensures
        flags.reports(w) <==> v & 0xFFC0 == w & 0xFFC0,
{
    assert(v & 0xFFC0 == w & 0xFFC0 <==> {
        &&& ((v >> 6) & 1 == 1) == ((w >> 6) & 1 == 1)
        &&& ((v >> 7) & 1 == 1) == ((w >> 7) & 1 == 1)
        &&& ((v >> 8) & 1 == 1) == ((w >> 8) & 1 == 1)
        &&& ((v >> 9) & 1 == 1) == ((w >> 9) & 1 == 1)
        &&& ((v >> 10) & 1 == 1) == ((w >> 10) & 1 == 1)
        &&& ((v >> 11) & 1 == 1) == ((w >> 11) & 1 == 1)
        &&& ((v >> 12) & 1 == 1) == ((w >> 12) & 1 == 1)
        &&& ((v >> 13) & 1 == 1) == ((w >> 13) & 1 == 1)
        &&& ((v >> 14) & 1 == 1) == ((w >> 14) & 1 == 1)
        &&& ((v >> 15) & 1 == 1) == ((w >> 15) & 1 == 1)
    }) by (bit_vector);
    if flags.reports(w) {
        let e = flags.energy();
        let l = flags.limits();
        assert(e[0] == bits::bit(w, 8) && e[1] == bits::bit(w, 9) && e[2] == bits::bit(w, 10)
            && e[3] == bits::bit(w, 11));
        assert(l[0] == bits::bit(w, 12) && l[1] == bits::bit(w, 13) && l[2] == bits::bit(w, 14)
            && l[3] == bits::bit(w, 15));
    }
}

} // verus!
