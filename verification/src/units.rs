//! Physical quantities, device selectors and validated calibration inputs.
//!
//! Measurements are newtypes over integers, in whichever unit keeps the
//! conversion from the raw register exact. A [`Calibration`] is checked once,
//! when it is built; nothing downstream checks it again.
use crate::convert;
use crate::convert::div_round_nearest_u64;
use vstd::arithmetic::div_mod;
use vstd::prelude::*;

verus! {

/// One of the four measurement channels.
#[derive(Debug, Clone, Copy, PartialEq, Eq, Structural, PartialOrd, Ord, Hash)]
pub enum Channel {
    /// Channel 1.
    Ch1,
    /// Channel 2.
    Ch2,
    /// Channel 3.
    Ch3,
    /// Channel 4.
    Ch4,
}

impl Channel {
    /// Every channel, in index order.
    pub const ALL: [Channel; 4] = [Channel::Ch1, Channel::Ch2, Channel::Ch3, Channel::Ch4];

    /// The zero-based position of the channel.
    pub open spec fn position(self) -> int {
        match self {
            Channel::Ch1 => 0,
            Channel::Ch2 => 1,
            Channel::Ch3 => 2,
            Channel::Ch4 => 3,
        }
    }

    /// The channel's bit in a four-bit channel mask, in which bit 0 is channel 1.
    pub open spec fn bit(self) -> u8 {
        match self {
            Channel::Ch1 => 1,
            Channel::Ch2 => 2,
            Channel::Ch3 => 4,
            Channel::Ch4 => 8,
        }
    }

    /// Zero-based index, usable for array lookup and register striding.
    pub fn index(self) -> (i: usize)
        ensures
            i == self.position(),
    {
        match self {
            Channel::Ch1 => 0,
            Channel::Ch2 => 1,
            Channel::Ch3 => 2,
            Channel::Ch4 => 3,
        }
    }

    /// The channel's bit in a four-bit channel mask.
    pub fn mask(self) -> (m: u8)
        ensures
            m == self.bit(),
    {
        match self {
            Channel::Ch1 => 1,
            Channel::Ch2 => 2,
            Channel::Ch3 => 4,
            Channel::Ch4 => 8,
        }
    }
}

// ── Address strapping ────────────────────────────────────────────────────────

/// What an address pin is strapped to.
#[derive(Debug, Clone, Copy, PartialEq, Eq, Structural, Hash)]
pub enum AddrPinState {
    /// Strapped to ground.
    Gnd,
    /// Strapped to the supply.
    Vs,
    /// Strapped to SDA.
    Sda,
    /// Strapped to SCL.
    Scl,
}

impl AddrPinState {
    /// The two-bit code of the strapping (datasheet Table 6-1).
    pub open spec fn code(self) -> int {
        match self {
            AddrPinState::Gnd => 0,
            AddrPinState::Vs => 1,
            AddrPinState::Sda => 2,
            AddrPinState::Scl => 3,
        }
    }

    fn encoding(self) -> (c: u8)
        ensures
            c == self.code(),
    {
        match self {
            AddrPinState::Gnd => 0,
            AddrPinState::Vs => 1,
            AddrPinState::Sda => 2,
            AddrPinState::Scl => 3,
        }
    }
}

/// How the two address pins are strapped.
///
/// The fields are named because both have the same type, and a transposed pair
/// yields a valid-looking but wrong address.
#[derive(Debug, Clone, Copy, PartialEq, Eq, Structural, Hash)]
pub struct AddressPins {
    /// The A0 pin.
    pub a0: AddrPinState,
    /// The A1 pin.
    pub a1: AddrPinState,
}

impl AddressPins {
    /// The seven-bit address that the strapping selects: `0x40`, with A1 in
    /// bits 3:2 and A0 in bits 1:0 (datasheet Table 6-1).
    pub open spec fn selected(self) -> int {
        0x40 + 4 * self.a1.code() + self.a0.code()
    }
}

/// A seven-bit bus address, as selected by the pin strapping.
#[derive(Debug, Clone, Copy, PartialEq, Eq, Structural, Hash)]
pub struct Address {
    value: u8,
}

impl View for Address {
    type V = int;

    closed spec fn view(&self) -> int {
        self.value as int
    }
}

impl Address {
    /// The address that a strapping selects.
    pub fn from_pins(pins: AddressPins) -> (a: Address)
        ensures
            a@ == pins.selected(),
    {
        Address { value: 0x40 + 4 * pins.a1.encoding() + pins.a0.encoding() }
    }

    /// The address as a number.
    pub fn as_u8(self) -> (v: u8)
        ensures
            v == self@,
    {
        self.value
    }
}

/// The sixteen strappings select sixteen different addresses, `0x40` to `0x4F`.
pub proof fn law_strappings_select_distinct_addresses(p: AddressPins, q: AddressPins)
    ensures
        0x40 <= p.selected() <= 0x4F,
        p.selected() == q.selected() <==> p == q,
{
}

/// Transposing the two pins changes the address unless both are strapped alike.
pub proof fn law_address_pin_order_matters(a0: AddrPinState, a1: AddrPinState)
    ensures
        (AddressPins { a0, a1 }).selected() == (AddressPins { a0: a1, a1: a0 }).selected() <==> a0
            == a1,
{
}

// ── ADC range ────────────────────────────────────────────────────────────────

/// Full-scale range of a channel's shunt measurement.
#[derive(Debug, Clone, Copy, PartialEq, Eq, Structural, Hash)]
pub enum AdcRange {
    /// ±81.92 mV full scale, 2.5 µV per count.
    Range0,
    /// ±20.48 mV full scale, 625 nV per count.
    Range1,
}

impl AdcRange {
    /// The shunt-voltage value of one count, in nanovolts.
    pub open spec fn lsb_nv(self) -> int {
        match self {
            AdcRange::Range0 => 2_500,
            AdcRange::Range1 => 625,
        }
    }

    /// The shunt-voltage value of one count, in nanovolts.
    pub fn shunt_lsb_nv(self) -> (lsb: i32)
        ensures
            lsb == self.lsb_nv(),
    {
        match self {
            AdcRange::Range0 => 2_500,
            AdcRange::Range1 => 625,
        }
    }
}

impl Default for AdcRange {
    fn default() -> (range: AdcRange)
        ensures
            range == AdcRange::Range0,
    {
        AdcRange::Range0
    }
}

// ── Calibration ──────────────────────────────────────────────────────────────

/// Why a calibration input was rejected.
#[derive(Debug, Clone, Copy, PartialEq, Eq, Structural, Hash)]
pub enum CalibrationError {
    /// The current resolution is zero.
    ZeroCurrentLsb,
    /// The current resolution exceeds [`CURRENT_LSB_MAX_NA`].
    CurrentLsbTooLarge,
    /// The shunt resistance is zero.
    ZeroShuntResistance,
    /// `SHUNT_CAL` does not fit its 15-bit field.
    ShuntCalOverflow,
    /// `SHUNT_CAL` rounds to zero, with which the device reports zero current
    /// indefinitely (datasheet §8.1.2).
    ShuntCalUnderflow,
}

/// Largest accepted current resolution, in nanoamps per count.
///
/// It is the largest one at which a full 32-bit energy accumulator still
/// decodes into a `u64` of nanojoules.
pub const CURRENT_LSB_MAX_NA: u32 = 134_217_728;

/// `SHUNT_CAL` numerator for a current resolution in nanoamps and a shunt in
/// microohms: 0.00512 over nano times micro (datasheet Equation 1).
pub const SHUNT_CAL_NUMERATOR: u64 = 5_120_000_000_000;

/// Largest value of the 15-bit `SHUNT_CAL` field.
pub const SHUNT_CAL_MAX: u16 = 0x7FFF;

/// Current resolution, in nanoamps per count; never zero and never above
/// [`CURRENT_LSB_MAX_NA`].
#[derive(Debug, Clone, Copy, PartialEq, Eq, Structural, Hash)]
pub struct CurrentLsb {
    nanoamps: u32,
}

impl View for CurrentLsb {
    type V = int;

    closed spec fn view(&self) -> int {
        self.nanoamps as int
    }
}

/// What a current resolution of `na` nanoamps per count is rejected for.
pub open spec fn current_lsb_fault(na: int) -> Option<CalibrationError> {
    if na == 0 {
        Some(CalibrationError::ZeroCurrentLsb)
    } else if na > CURRENT_LSB_MAX_NA {
        Some(CalibrationError::CurrentLsbTooLarge)
    } else {
        None
    }
}

/// The smallest whole number of nanoamps per count that is at least
/// `max_current / 2^15` (datasheet Equation 2).
pub open spec fn min_current_lsb(max_current: int) -> int {
    (max_current + 32_767) / 32_768
}

/// The minimum resolution is the smallest at which `2^15` counts reach the
/// maximum current.
pub proof fn law_min_current_lsb_is_the_floor(max_current: int)
    requires
        max_current > 0,
    ensures
        32_768 * min_current_lsb(max_current) >= max_current,
        32_768 * (min_current_lsb(max_current) - 1) < max_current,
        min_current_lsb(max_current) >= 1,
{
}

impl CurrentLsb {
    #[verifier::type_invariant]
    spec fn bounded(self) -> bool {
        1 <= self.nanoamps <= CURRENT_LSB_MAX_NA
    }

    /// A current resolution in nanoamps per count.
    pub fn from_nanoamps(nanoamps: u32) -> (r: Result<CurrentLsb, CalibrationError>)
        ensures
            match r {
                Ok(lsb) => current_lsb_fault(nanoamps as int) is None && lsb@ == nanoamps,
                Err(e) => current_lsb_fault(nanoamps as int) == Some(e),
            },
    {
        if nanoamps == 0 {
            return Err(CalibrationError::ZeroCurrentLsb);
        }
        if nanoamps > CURRENT_LSB_MAX_NA {
            return Err(CalibrationError::CurrentLsbTooLarge);
        }
        Ok(CurrentLsb { nanoamps })
    }

    /// The minimum resolution for measuring up to `max_nanoamps` (datasheet
    /// Equation 2), rounded up to a whole nanoamp.
    ///
    /// This is a floor, not a recommendation.
    pub fn min_for_max_current(max_nanoamps: u64) -> (r: Result<CurrentLsb, CalibrationError>)
        ensures
            match r {
                Ok(lsb) => current_lsb_fault(min_current_lsb(max_nanoamps as int)) is None && lsb@
                    == min_current_lsb(max_nanoamps as int),
                Err(e) => current_lsb_fault(min_current_lsb(max_nanoamps as int)) == Some(e),
            },
    {
        let whole: u64 = max_nanoamps / 32_768;
        let minimum: u64 = if max_nanoamps % 32_768 == 0 {
            whole
        } else {
            whole + 1
        };
        if minimum > CURRENT_LSB_MAX_NA as u64 {
            return Err(CalibrationError::CurrentLsbTooLarge);
        }
        CurrentLsb::from_nanoamps(minimum as u32)
    }

    /// The resolution in nanoamps per count.
    pub fn as_nanoamps(self) -> (na: u32)
        ensures
            na == self@,
            1 <= na <= CURRENT_LSB_MAX_NA,
    {
        proof {
            use_type_invariant(&self);
        }
        self.nanoamps
    }
}

/// Resistance of a channel's shunt, in microohms; never zero.
#[derive(Debug, Clone, Copy, PartialEq, Eq, Structural, Hash)]
pub struct ShuntResistance {
    microohms: u32,
}

impl View for ShuntResistance {
    type V = int;

    closed spec fn view(&self) -> int {
        self.microohms as int
    }
}

impl ShuntResistance {
    #[verifier::type_invariant]
    spec fn nonzero(self) -> bool {
        self.microohms != 0
    }

    /// A shunt resistance in microohms.
    pub fn from_microohms(microohms: u32) -> (r: Result<ShuntResistance, CalibrationError>)
        ensures
            match r {
                Ok(shunt) => microohms != 0 && shunt@ == microohms,
                Err(e) => microohms == 0 && e == CalibrationError::ZeroShuntResistance,
            },
    {
        if microohms == 0 {
            return Err(CalibrationError::ZeroShuntResistance);
        }
        Ok(ShuntResistance { microohms })
    }

    /// The resistance in microohms.
    pub fn as_microohms(self) -> (uohm: u32)
        ensures
            uohm == self@,
            uohm != 0,
    {
        proof {
            use_type_invariant(&self);
        }
        self.microohms
    }
}

/// A `SHUNT_CAL` register value; never zero, and within its 15-bit field.
#[derive(Debug, Clone, Copy, PartialEq, Eq, Structural, Hash)]
pub struct ShuntCal {
    value: u16,
}

impl View for ShuntCal {
    type V = int;

    closed spec fn view(&self) -> int {
        self.value as int
    }
}

impl ShuntCal {
    #[verifier::type_invariant]
    spec fn in_field(self) -> bool {
        1 <= self.value <= SHUNT_CAL_MAX
    }

    /// The register value.
    pub fn as_u16(self) -> (v: u16)
        ensures
            v == self@,
            1 <= v <= SHUNT_CAL_MAX,
    {
        proof {
            use_type_invariant(&self);
        }
        self.value
    }
}

/// The `SHUNT_CAL` value for a resolution of `na` nanoamps per count and a
/// shunt of `uohm` microohms: Equation 1, divided by 4 on
/// [`AdcRange::Range1`], rounded to nearest.
pub open spec fn shunt_cal_for(na: int, uohm: int, range: AdcRange) -> int {
    match range {
        AdcRange::Range0 => convert::nearest(5_120_000_000_000, na * uohm),
        AdcRange::Range1 => convert::nearest(5_120_000_000_000, 4 * (na * uohm)),
    }
}

/// What such a `SHUNT_CAL` value is rejected for.
pub open spec fn shunt_cal_fault(value: int) -> Option<CalibrationError> {
    if value == 0 {
        Some(CalibrationError::ShuntCalUnderflow)
    } else if value > SHUNT_CAL_MAX {
        Some(CalibrationError::ShuntCalOverflow)
    } else {
        None
    }
}

/// Selecting [`AdcRange::Range1`] divides `SHUNT_CAL` by 4: exactly where the
/// `Range0` quotient is a multiple of 4, and to within the rounding otherwise.
pub proof fn law_range1_divides_shunt_cal_by_four(na: int, uohm: int)
    requires
        na > 0,
        uohm > 0,
    ensures
        ({
            let coarse = shunt_cal_for(na, uohm, AdcRange::Range0);
            let fine = shunt_cal_for(na, uohm, AdcRange::Range1);
            &&& -2 <= 4 * fine - coarse <= 2
            &&& 5_120_000_000_000int % (4 * (na * uohm)) == 0 ==> coarse == 4 * fine
        }),
{
    let n: int = 5_120_000_000_000;
    let d = na * uohm;
    assert(d > 0) by (nonlinear_arith)
        requires
            na > 0,
            uohm > 0,
            d == na * uohm,
    ;
    let coarse = convert::nearest(n, d);
    let fine = convert::nearest(n, 4 * d);
    convert::law_nearest_is_nearest(n, d);
    convert::law_nearest_is_nearest(n, 4 * d);
    assert((4 * d) * fine == 4 * (d * fine)) by (nonlinear_arith);
    assert(-2 <= 4 * fine - coarse <= 2) by (nonlinear_arith)
        requires
            d > 0,
            -d <= 2 * (n - d * coarse) <= d,
            -4 * d <= 2 * (n - 4 * (d * fine)) <= 4 * d,
    ;
    if n % (4 * d) == 0 {
        let q = n / (4 * d);
        div_mod::lemma_fundamental_div_mod(n, 4 * d);
        assert(n == q * (4 * d) && n == (4 * q) * d) by (nonlinear_arith)
            requires
                n == (4 * d) * q,
        ;
        convert::lemma_nearest_exact(q, 4 * d);
        convert::lemma_nearest_exact(4 * q, d);
    }
}

/// A channel's validated calibration.
#[derive(Debug, Clone, Copy, PartialEq, Eq, Structural, Hash)]
pub struct Calibration {
    current_lsb: CurrentLsb,
    shunt_resistance: ShuntResistance,
    shunt_cal: ShuntCal,
    adc_range: AdcRange,
}

impl Calibration {
    /// The current resolution, in nanoamps per count.
    pub closed spec fn lsb_na(self) -> int {
        self.current_lsb@
    }

    /// The shunt resistance, in microohms.
    pub closed spec fn shunt_uohm(self) -> int {
        self.shunt_resistance@
    }

    /// The `SHUNT_CAL` register value.
    pub closed spec fn cal_word(self) -> int {
        self.shunt_cal@
    }

    /// The ADC range.
    pub closed spec fn range(self) -> AdcRange {
        self.adc_range
    }

    /// What holds of every calibration that can be built.
    pub open spec fn valid(self) -> bool {
        &&& 1 <= self.lsb_na() <= CURRENT_LSB_MAX_NA
        &&& 1 <= self.shunt_uohm() <= u32::MAX
        &&& 1 <= self.cal_word() <= SHUNT_CAL_MAX
        &&& self.cal_word() == shunt_cal_for(self.lsb_na(), self.shunt_uohm(), self.range())
    }

    #[verifier::type_invariant]
    spec fn inv(self) -> bool {
        self.valid()
    }

    /// Check the three inputs against each other and derive `SHUNT_CAL`.
    ///
    /// Nothing is clamped: a `SHUNT_CAL` that does not fit its field, or that
    /// rounds to zero, is an error.
    pub fn new(
        current_lsb: CurrentLsb,
        shunt_resistance: ShuntResistance,
        adc_range: AdcRange,
    ) -> (r: Result<Calibration, CalibrationError>)
        ensures
            match r {
                Ok(cal) => {
                    &&& shunt_cal_fault(
                        shunt_cal_for(current_lsb@, shunt_resistance@, adc_range),
                    ) is None
                    &&& cal.lsb_na() == current_lsb@
                    &&& cal.shunt_uohm() == shunt_resistance@
                    &&& cal.range() == adc_range
                    &&& cal.valid()
                },
                Err(e) => shunt_cal_fault(
                    shunt_cal_for(current_lsb@, shunt_resistance@, adc_range),
                ) == Some(e),
            },
    {
        let na: u64 = current_lsb.as_nanoamps() as u64;
        let uohm: u64 = shunt_resistance.as_microohms() as u64;
        let divisor: u64 = match adc_range {
            AdcRange::Range0 => 1,
            AdcRange::Range1 => 4,
        };
        proof {
            assert(1 <= na * uohm <= 0x800_0000 * 0xFFFF_FFFF) by (nonlinear_arith)
                requires
                    1 <= na <= 0x800_0000,
                    1 <= uohm <= 0xFFFF_FFFF,
            ;
            assert(na * uohm * divisor == divisor * (na * uohm)) by (nonlinear_arith);
        }
        let value: u64 = div_round_nearest_u64(SHUNT_CAL_NUMERATOR, na * uohm * divisor);
        if value == 0 {
            return Err(CalibrationError::ShuntCalUnderflow);
        }
        if value > SHUNT_CAL_MAX as u64 {
            return Err(CalibrationError::ShuntCalOverflow);
        }
        let shunt_cal = ShuntCal { value: value as u16 };
        Ok(Calibration { current_lsb, shunt_resistance, shunt_cal, adc_range })
    }

    /// The current resolution.
    pub fn current_lsb(self) -> (lsb: CurrentLsb)
        ensures
            lsb@ == self.lsb_na(),
    {
        self.current_lsb
    }

    /// The shunt resistance.
    pub fn shunt_resistance(self) -> (shunt: ShuntResistance)
        ensures
            shunt@ == self.shunt_uohm(),
    {
        self.shunt_resistance
    }

    /// The `SHUNT_CAL` register value.
    pub fn shunt_cal(self) -> (value: ShuntCal)
        ensures
            value@ == self.cal_word(),
            self.valid(),
    {
        proof {
            use_type_invariant(&self);
        }
        self.shunt_cal
    }

    /// The ADC range.
    pub fn adc_range(self) -> (range: AdcRange)
        ensures
            range == self.range(),
    {
        self.adc_range
    }
}

// ── Quantities ───────────────────────────────────────────────────────────────

/// Integer division that truncates toward zero, for a positive divisor.
pub open spec fn truncated(n: int, d: int) -> int {
    if n >= 0 {
        n / d
    } else {
        -((-n) / d)
    }
}

/// Shunt voltage, in nanovolts.
#[derive(Debug, Clone, Copy, PartialEq, Eq, Structural, PartialOrd, Ord, Hash)]
pub struct ShuntVoltage {
    nanovolts: i32,
}

impl View for ShuntVoltage {
    type V = int;

    closed spec fn view(&self) -> int {
        self.nanovolts as int
    }
}

impl ShuntVoltage {
    /// A value in nanovolts.
    ///
    /// Values outside the device's measurable range are accepted here and
    /// rejected when a threshold is encoded against a specific calibration.
    pub fn from_nanovolts(nanovolts: i32) -> (q: ShuntVoltage)
        ensures
            q@ == nanovolts,
    {
        ShuntVoltage { nanovolts }
    }

    /// The value in nanovolts, without loss.
    pub fn as_nanovolts(self) -> (v: i32)
        ensures
            v == self@,
    {
        self.nanovolts
    }
}

/// Bus voltage, in microvolts.
#[derive(Debug, Clone, Copy, PartialEq, Eq, Structural, PartialOrd, Ord, Hash)]
pub struct BusVoltage {
    microvolts: u32,
}

impl View for BusVoltage {
    type V = int;

    closed spec fn view(&self) -> int {
        self.microvolts as int
    }
}

impl BusVoltage {
    /// A value in microvolts.
    ///
    /// Values outside the device's measurable range are accepted here and
    /// rejected when a threshold is encoded.
    pub fn from_microvolts(microvolts: u32) -> (q: BusVoltage)
        ensures
            q@ == microvolts,
    {
        BusVoltage { microvolts }
    }

    /// The value in microvolts, without loss.
    pub fn as_microvolts(self) -> (v: u32)
        ensures
            v == self@,
    {
        self.microvolts
    }
}

/// Current, in nanoamps.
#[derive(Debug, Clone, Copy, PartialEq, Eq, Structural, PartialOrd, Ord, Hash)]
pub struct Current {
    nanoamps: i64,
}

impl View for Current {
    type V = int;

    closed spec fn view(&self) -> int {
        self.nanoamps as int
    }
}

impl Current {
    /// A value in nanoamps.
    ///
    /// Values outside the device's measurable range are accepted.
    pub fn from_nanoamps(nanoamps: i64) -> (q: Current)
        ensures
            q@ == nanoamps,
    {
        Current { nanoamps }
    }

    /// The value in nanoamps, without loss.
    pub fn as_nanoamps(self) -> (v: i64)
        ensures
            v == self@,
    {
        self.nanoamps
    }

    /// The value in microamps, truncated toward zero.
    pub fn as_microamps(self) -> (v: i64)
        ensures
            v == truncated(self@, 1_000),
    {
        self.nanoamps / 1_000
    }
}

/// Power, in nanowatts.
#[derive(Debug, Clone, Copy, PartialEq, Eq, Structural, PartialOrd, Ord, Hash)]
pub struct Power {
    nanowatts: u64,
}

impl View for Power {
    type V = int;

    closed spec fn view(&self) -> int {
        self.nanowatts as int
    }
}

impl Power {
    /// A value in nanowatts.
    ///
    /// Values outside the device's measurable range are accepted here and
    /// rejected when a threshold is encoded against a specific calibration.
    pub fn from_nanowatts(nanowatts: u64) -> (q: Power)
        ensures
            q@ == nanowatts,
    {
        Power { nanowatts }
    }

    /// The value in nanowatts, without loss.
    pub fn as_nanowatts(self) -> (v: u64)
        ensures
            v == self@,
    {
        self.nanowatts
    }

    /// The value in microwatts, truncated toward zero.
    pub fn as_microwatts(self) -> (v: u64)
        ensures
            v == truncated(self@, 1_000),
    {
        self.nanowatts / 1_000
    }
}

/// Energy, in nanojoules.
#[derive(Debug, Clone, Copy, PartialEq, Eq, Structural, PartialOrd, Ord, Hash)]
pub struct Energy {
    nanojoules: u64,
}

impl View for Energy {
    type V = int;

    closed spec fn view(&self) -> int {
        self.nanojoules as int
    }
}

impl Energy {
    /// A value in nanojoules.
    ///
    /// Values outside the device's measurable range are accepted.
    pub fn from_nanojoules(nanojoules: u64) -> (q: Energy)
        ensures
            q@ == nanojoules,
    {
        Energy { nanojoules }
    }

    /// The value in nanojoules, without loss.
    pub fn as_nanojoules(self) -> (v: u64)
        ensures
            v == self@,
    {
        self.nanojoules
    }

    /// The value in microjoules, truncated toward zero.
    pub fn as_microjoules(self) -> (v: u64)
        ensures
            v == truncated(self@, 1_000),
    {
        self.nanojoules / 1_000
    }
}

/// A bus voltage is never negative.
pub proof fn law_bus_voltage_is_not_negative(v: BusVoltage)
    ensures
        0 <= v@ <= u32::MAX,
{
}

/// A power is never negative.
pub proof fn law_power_is_not_negative(p: Power)
    ensures
        0 <= p@ <= u64::MAX,
{
}

} // verus!
