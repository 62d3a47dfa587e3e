//! What the operations mean, in plain numbers.
//!
//! The laws here hold the readings, the register words and the transactions
//! against the device: the addresses on the bus, the weight of each bit, the
//! value of each count, and the physics that a calibration stands for. They
//! name no conversion or layout function on the side of the device.
use crate::alert;
use crate::alert::{Alert, AlertPinConfig, AlertSlot};
use crate::bits;
use crate::bus;
use crate::bus::{Register, Request};
use crate::coherence;
use crate::coherence::Device;
use crate::config;
use crate::config::{
    Averaging, BusConversionTime, Config1, Config1Change, Config2, OperatingMode, RangeSelection,
    ShuntConversionTime,
};
use crate::convert;
use crate::driver;
use crate::error::Ina4230Error;
use crate::flags::Flags;
use crate::outcome;
use crate::reading::{
    BusVoltageReading, Config1Reading, Config2Reading, CurrentReading, EnergyReading, FlagsReading,
    ManufacturerIdReading, PowerReading, PresenceReading, Reading, ShuntVoltageReading,
};
use crate::script;
use crate::script::{Record, Transfer};
use crate::units;
use crate::units::{
    AdcRange, AddrPinState, AddressPins, BusVoltage, Calibration, CalibrationError, Channel,
    Current, Energy, Power, ShuntVoltage,
};
use vstd::prelude::*;

verus! {

// ── Measurements ─────────────────────────────────────────────────────────────

/// A bus-voltage reading reads the channel's own register, is zero at zero, and
/// grows by 1.6 mV with each count over the whole unsigned 16-bit register.
/// Over the 15 bits of a threshold it is what the encoding undoes.
pub proof fn law_bus_voltage_reading(
    r: BusVoltageReading,
    raw: int,
    v: BusVoltage,
    again: BusVoltage,
    next: BusVoltage,
)
    requires
        0 <= raw <= 0xFFFF,
        r.decodes(raw, v),
    ensures
        raw == 0 ==> v@ == 0,
        r.decodes(raw, again) ==> again@ == v@,
        raw < 0xFFFF && r.decodes(raw + 1, next) ==> next@ == v@ + 1_600,
        raw <= 0x7FFF ==> convert::bus_limit_code(v@) == Some(raw as u16),
        raw > 0x7FFF ==> convert::bus_limit_code(v@) is None,
        r.source().location() == match r.channel {
            Channel::Ch1 => 0x01int,
            Channel::Ch2 => 0x09,
            Channel::Ch3 => 0x11,
            Channel::Ch4 => 0x19,
        },
        r.source().size() == 2,
{
    convert::law_bus_limit_round_trips(raw as u16);
}

/// A shunt-voltage reading reads the channel's own register as a signed 16-bit
/// number. It is zero at zero; one count, up or down, is 2.5 µV on
/// [`AdcRange::Range0`] and 625 nV on [`AdcRange::Range1`]; and encoding the
/// value at the reading's own range gives the count back.
pub proof fn law_shunt_voltage_reading(
    r: ShuntVoltageReading,
    raw: int,
    v: ShuntVoltage,
    again: ShuntVoltage,
    next: ShuntVoltage,
)
    requires
        0 <= raw <= 0xFFFF,
        r.decodes(raw, v),
    ensures
        raw == 0 ==> v@ == 0,
        r.decodes(raw, again) ==> again@ == v@,
        raw < 0xFFFF && raw != 0x7FFF && r.decodes(raw + 1, next) ==> next@ == v@ + (
        if r.range is Range1 {
            625int
        } else {
            2_500
        }),
        raw == 0xFFFF ==> v@ == if r.range is Range1 {
            -625int
        } else {
            -2_500
        },
        raw < 0x8000 ==> convert::shunt_limit_code(v@, r.range) == Some(raw as i16),
        raw >= 0x8000 ==> convert::shunt_limit_code(v@, r.range) == Some((raw - 0x1_0000) as i16),
        r.source().location() == match r.channel {
            Channel::Ch1 => 0x00int,
            Channel::Ch2 => 0x08,
            Channel::Ch3 => 0x10,
            Channel::Ch4 => 0x18,
        },
        r.source().size() == 2,
{
    convert::law_shunt_limit_round_trips(bus::twos_complement(raw) as i16, r.range);
    match r.range {
        AdcRange::Range0 => {},
        AdcRange::Range1 => {},
    }
}

/// A current reading reads the channel's own register as a signed 16-bit
/// number. It is zero at zero, and one count, up or down, is `CURRENT_LSB`.
pub proof fn law_current_reading(
    r: CurrentReading,
    raw: int,
    v: Current,
    again: Current,
    next: Current,
)
    requires
        0 <= raw <= 0xFFFF,
        r.decodes(raw, v),
    ensures
        raw == 0 ==> v@ == 0,
        r.decodes(raw, again) ==> again@ == v@,
        raw < 0xFFFF && raw != 0x7FFF && r.decodes(raw + 1, next) ==> next@ == v@
            + r.calibration.lsb_na(),
        raw == 0xFFFF ==> v@ == -r.calibration.lsb_na(),
        r.source().location() == match r.channel {
            Channel::Ch1 => 0x02int,
            Channel::Ch2 => 0x0A,
            Channel::Ch3 => 0x12,
            Channel::Ch4 => 0x1A,
        },
        r.source().size() == 2,
{
    let lsb = r.calibration.lsb_na();
    let s = bus::twos_complement(raw);
    assert((s + 1) * lsb == s * lsb + lsb && 0 * lsb == 0 && -1 * lsb == -lsb) by (nonlinear_arith);
}

/// A power reading reads the channel's own register as an unsigned 16-bit
/// number. It is zero at zero, one count is 32 times `CURRENT_LSB`, and encoding
/// the value at the reading's own calibration gives the count back.
pub proof fn law_power_reading(
    r: PowerReading,
    raw: int,
    v: Power,
    again: Power,
    next: Power,
)
    requires
        0 <= raw <= 0xFFFF,
        r.calibration.valid(),
        r.decodes(raw, v),
    ensures
        raw == 0 ==> v@ == 0,
        r.decodes(raw, again) ==> again@ == v@,
        raw < 0xFFFF && r.decodes(raw + 1, next) ==> next@ == v@ + 32 * r.calibration.lsb_na(),
        convert::power_limit_code(v@, r.calibration) == Some(raw as u16),
        r.source().location() == match r.channel {
            Channel::Ch1 => 0x03int,
            Channel::Ch2 => 0x0B,
            Channel::Ch3 => 0x13,
            Channel::Ch4 => 0x1B,
        },
        r.source().size() == 2,
{
    let lsb = 32 * r.calibration.lsb_na();
    convert::law_power_limit_round_trips(raw as u16, r.calibration);
    assert((raw + 1) * lsb == raw * lsb + lsb && 0 * lsb == 0) by (nonlinear_arith);
}

/// An energy reading reads the channel's own register as an unsigned 32-bit
/// number. It is zero at zero and grows by 32 times `CURRENT_LSB` with each
/// count of the whole accumulator, so two different counts never decode alike.
pub proof fn law_energy_reading(
    r: EnergyReading,
    raw: int,
    v: Energy,
    again: Energy,
    next: Energy,
    other: int,
)
    requires
        0 <= raw <= 0xFFFF_FFFF,
        r.calibration.valid(),
        r.decodes(raw, v),
    ensures
        raw == 0 ==> v@ == 0,
        r.decodes(raw, again) ==> again@ == v@,
        raw < 0xFFFF_FFFF && r.decodes(raw + 1, next) ==> next@ == v@ + 32
            * r.calibration.lsb_na(),
        0 <= other <= 0xFFFF_FFFF && r.decodes(other, v) ==> other == raw,
        r.source().location() == match r.channel {
            Channel::Ch1 => 0x04int,
            Channel::Ch2 => 0x0C,
            Channel::Ch3 => 0x14,
            Channel::Ch4 => 0x1C,
        },
        r.source().size() == 4,
{
    let lsb = 32 * r.calibration.lsb_na();
    assert((raw + 1) * lsb == raw * lsb + lsb && 0 * lsb == 0) by (nonlinear_arith);
    if r.decodes(other, v) {
        assert(other == raw) by (nonlinear_arith)
            requires
                lsb > 0,
                other * lsb == raw * lsb,
        ;
    }
}

/// A shunt voltage read with a true record is worth what the device measures: a
/// count is 625 nV where `CONFIG2` holds the channel's range bit and 2.5 µV
/// where it does not.
pub proof fn law_shunt_voltage_is_read_at_the_device_range(
    record: Record,
    device: Device,
    r: ShuntVoltageReading,
    calibration: Calibration,
    raw: int,
    v: ShuntVoltage,
)
    requires
        coherence::coherent(record, device),
        record.calibration_of(r.channel) == Some(calibration),
        r.range == calibration.range(),
        0 <= raw <= 0xFFFF,
        r.decodes(raw, v),
    ensures
        ({
            let word = device.config2 as int;
            let bit = match r.channel {
                Channel::Ch1 => word % 2,
                Channel::Ch2 => (word / 2) % 2,
                Channel::Ch3 => (word / 4) % 2,
                Channel::Ch4 => (word / 8) % 2,
            };
            let count = if raw < 0x8000 {
                raw
            } else {
                raw - 0x1_0000
            };
            v@ == if bit == 1 {
                625 * count
            } else {
                2_500 * count
            }
        }),
{
    assert(coherence::calibration_holds(record, device, r.channel));
    lemma_channel_fields(device.config2);
    match r.range {
        AdcRange::Range0 => {},
        AdcRange::Range1 => {},
    }
}

// ── Calibration ──────────────────────────────────────────────────────────────

/// Every calibration satisfies Equation 1 to within half a unit: `SHUNT_CAL` is
/// 0.00512 over `CURRENT_LSB` times the shunt, and a quarter of that on
/// [`AdcRange::Range1`].
pub proof fn law_calibration_satisfies_equation_1(cal: Calibration)
    requires
        cal.valid(),
    ensures
        ({
            let product = cal.lsb_na() * cal.shunt_uohm();
            let off = match cal.range() {
                AdcRange::Range0 => 5_120_000_000_000 - cal.cal_word() * product,
                AdcRange::Range1 => 5_120_000_000_000 - cal.cal_word() * (4 * product),
            };
            match cal.range() {
                AdcRange::Range0 => -product <= 2 * off <= product,
                AdcRange::Range1 => -4 * product <= 2 * off <= 4 * product,
            }
        }),
        1 <= cal.cal_word() <= 0x7FFF,
        1 <= cal.lsb_na() <= 0x800_0000,
        1 <= cal.shunt_uohm() <= 0xFFFF_FFFF,
{
    let product = cal.lsb_na() * cal.shunt_uohm();
    let word = cal.cal_word();
    assert(product > 0) by (nonlinear_arith)
        requires
            cal.lsb_na() > 0,
            cal.shunt_uohm() > 0,
            product == cal.lsb_na() * cal.shunt_uohm(),
    ;
    match cal.range() {
        AdcRange::Range0 => {
            convert::law_nearest_is_nearest(5_120_000_000_000, product);
            assert(product * word == word * product) by (nonlinear_arith);
        },
        AdcRange::Range1 => {
            convert::law_nearest_is_nearest(5_120_000_000_000, 4 * product);
            assert((4 * product) * word == word * (4 * product)) by (nonlinear_arith);
        },
    }
}

/// What `SHUNT_CAL` is for: the device multiplies each count of shunt voltage by
/// `SHUNT_CAL / 2048`, and what it then reports, in counts of `CURRENT_LSB`, is
/// the current that this voltage drives through the shunt, to within the
/// rounding of `SHUNT_CAL`.
pub proof fn law_calibration_reports_the_current_through_the_shunt(cal: Calibration)
    requires
        cal.valid(),
    ensures
        ({
            let count_nv = if cal.range() is Range1 {
                625int
            } else {
                2_500
            };
            let product = cal.lsb_na() * cal.shunt_uohm();
            -product <= 2 * (2_048 * 1_000_000 * count_nv - cal.cal_word() * product) <= product
        }),
{
    law_calibration_satisfies_equation_1(cal);
    let product = cal.lsb_na() * cal.shunt_uohm();
    let word = cal.cal_word();
    assert(word * (4 * product) == 4 * (word * product)) by (nonlinear_arith);
}

/// A recorded calibration is in force: the device holds a `SHUNT_CAL` with which
/// it reports the current through the shunt at the range it measures on.
pub proof fn law_recorded_calibration_is_the_devices(
    record: Record,
    device: Device,
    channel: Channel,
    calibration: Calibration,
)
    requires
        coherence::coherent(record, device),
        record.calibration_of(channel) == Some(calibration),
    ensures
        ({
            let word = device.config2 as int;
            let bit = match channel {
                Channel::Ch1 => word % 2,
                Channel::Ch2 => (word / 2) % 2,
                Channel::Ch3 => (word / 4) % 2,
                Channel::Ch4 => (word / 8) % 2,
            };
            let shunt_cal = match channel {
                Channel::Ch1 => device.shunt_cal[0],
                Channel::Ch2 => device.shunt_cal[1],
                Channel::Ch3 => device.shunt_cal[2],
                Channel::Ch4 => device.shunt_cal[3],
            };
            let count_nv = if bit == 1 {
                625int
            } else {
                2_500
            };
            let product = calibration.lsb_na() * calibration.shunt_uohm();
            -product <= 2 * (2_048 * 1_000_000 * count_nv - shunt_cal * product) <= product
        }),
{
    assert(coherence::calibration_holds(record, device, channel));
    law_calibration_reports_the_current_through_the_shunt(calibration);
    lemma_channel_fields(device.config2);
}

/// A calibration is refused exactly where `SHUNT_CAL` would round to zero, or to
/// more than its 15 bits hold.
pub proof fn law_calibration_refusals(na: int, uohm: int, range: AdcRange)
    requires
        na > 0,
        uohm > 0,
    ensures
        ({
            let d = if range is Range1 {
                4 * (na * uohm)
            } else {
                na * uohm
            };
            units::shunt_cal_fault(units::shunt_cal_for(na, uohm, range)) == if 10_240_000_000_000
                < d {
                Some(CalibrationError::ShuntCalUnderflow)
            } else if 10_240_000_000_000 >= 65_535 * d {
                Some(CalibrationError::ShuntCalOverflow)
            } else {
                None
            }
        }),
{
    let product = na * uohm;
    assert(product > 0) by (nonlinear_arith)
        requires
            na > 0,
            uohm > 0,
            product == na * uohm,
    ;
    let d = if range is Range1 {
        4 * product
    } else {
        product
    };
    let n: int = 5_120_000_000_000;
    let q = convert::nearest(n, d);
    convert::law_nearest_is_nearest(n, d);
    assert(q == 0 <==> 2 * n < d) by (nonlinear_arith)
        requires
            d > 0,
            n > 0,
            q >= 0,
            -d < 2 * (d * q - n) <= d,
    ;
    assert(q > 32_767 <==> 2 * n >= 65_535 * d) by (nonlinear_arith)
        requires
            d > 0,
            -d < 2 * (d * q - n) <= d,
    ;
}

/// A current resolution is accepted exactly where a full 32-bit energy
/// accumulator fits 64 bits, and is not zero.
pub proof fn law_current_lsb_refusals(na: int)
    requires
        na >= 0,
    ensures
        units::current_lsb_fault(na) == if na == 0 {
            Some(CalibrationError::ZeroCurrentLsb)
        } else if 32 * (0xFFFF_FFFF * na) > 0xFFFF_FFFF_FFFF_FFFF {
            Some(CalibrationError::CurrentLsbTooLarge)
        } else {
            None
        },
{
}

/// On either range the counts span the documented full scale: 32768 of them are
/// 81.92 mV or 20.48 mV.
pub proof fn law_range_full_scale(range: AdcRange)
    ensures
        32_768 * range.lsb_nv() == match range {
            AdcRange::Range0 => 81_920_000int,
            AdcRange::Range1 => 20_480_000,
        },
{
}

/// A truncated quotient has the dividend's sign or is zero, and its magnitude is
/// the largest whole number of divisors that fit.
pub proof fn law_truncation_is_toward_zero(n: int, d: int)
    requires
        d > 0,
    ensures
        n >= 0 ==> units::truncated(n, d) >= 0 && d * units::truncated(n, d) <= n < d * (
        units::truncated(n, d) + 1),
        n <= 0 ==> units::truncated(n, d) <= 0 && d * (units::truncated(n, d) - 1) < n <= d
            * units::truncated(n, d),
{
    let m = if n >= 0 {
        n
    } else {
        -n
    };
    let q = m / d;
    vstd::arithmetic::div_mod::lemma_fundamental_div_mod(m, d);
    assert(q >= 0) by (nonlinear_arith)
        requires
            d > 0,
            m >= 0,
            m == d * q + m % d,
            0 <= m % d < d,
    ;
    assert(d * (q + 1) == d * q + d && d * (-q) == -(d * q) && d * (-q - 1) == -(d * q) - d)
        by (nonlinear_arith);
    if n == 0 {
        assert(q == 0) by (nonlinear_arith)
            requires
                d > 0,
                q >= 0,
                d * q <= 0,
        ;
    }
}

// ── Addresses and registers ──────────────────────────────────────────────────

/// Both pins on ground select `0x40`. Moving A0 from ground to the supply, to
/// SDA and to SCL adds one each time, and moving A1 adds four.
pub proof fn law_strapping_steps(a0: AddrPinState, a1: AddrPinState)
    ensures
        (AddressPins { a0: AddrPinState::Gnd, a1: AddrPinState::Gnd }).selected() == 0x40,
        ({
            let ground = (AddressPins { a0: AddrPinState::Gnd, a1 }).selected();
            &&& (AddressPins { a0: AddrPinState::Vs, a1 }).selected() == ground + 1
            &&& (AddressPins { a0: AddrPinState::Sda, a1 }).selected() == ground + 2
            &&& (AddressPins { a0: AddrPinState::Scl, a1 }).selected() == ground + 3
        }),
        ({
            let ground = (AddressPins { a0, a1: AddrPinState::Gnd }).selected();
            &&& (AddressPins { a0, a1: AddrPinState::Vs }).selected() == ground + 4
            &&& (AddressPins { a0, a1: AddrPinState::Sda }).selected() == ground + 8
            &&& (AddressPins { a0, a1: AddrPinState::Scl }).selected() == ground + 12
        }),
{
}

/// The register map: four banks of eight, each with a channel's measurements and
/// `SHUNT_CAL` and then a slot's two registers; behind them the shared ones.
/// Only an energy register is wider than two bytes.
pub proof fn law_register_map(register: Register)
    ensures
        register.location() == match register {
            Register::ShuntVoltage(Channel::Ch1) => 0x00int,
            Register::BusVoltage(Channel::Ch1) => 0x01,
            Register::Current(Channel::Ch1) => 0x02,
            Register::Power(Channel::Ch1) => 0x03,
            Register::Energy(Channel::Ch1) => 0x04,
            Register::Calibration(Channel::Ch1) => 0x05,
            Register::AlertLimit(AlertSlot::One) => 0x06,
            Register::AlertConfig(AlertSlot::One) => 0x07,
            Register::ShuntVoltage(Channel::Ch2) => 0x08,
            Register::BusVoltage(Channel::Ch2) => 0x09,
            Register::Current(Channel::Ch2) => 0x0A,
            Register::Power(Channel::Ch2) => 0x0B,
            Register::Energy(Channel::Ch2) => 0x0C,
            Register::Calibration(Channel::Ch2) => 0x0D,
            Register::AlertLimit(AlertSlot::Two) => 0x0E,
            Register::AlertConfig(AlertSlot::Two) => 0x0F,
            Register::ShuntVoltage(Channel::Ch3) => 0x10,
            Register::BusVoltage(Channel::Ch3) => 0x11,
            Register::Current(Channel::Ch3) => 0x12,
            Register::Power(Channel::Ch3) => 0x13,
            Register::Energy(Channel::Ch3) => 0x14,
            Register::Calibration(Channel::Ch3) => 0x15,
            Register::AlertLimit(AlertSlot::Three) => 0x16,
            Register::AlertConfig(AlertSlot::Three) => 0x17,
            Register::ShuntVoltage(Channel::Ch4) => 0x18,
            Register::BusVoltage(Channel::Ch4) => 0x19,
            Register::Current(Channel::Ch4) => 0x1A,
            Register::Power(Channel::Ch4) => 0x1B,
            Register::Energy(Channel::Ch4) => 0x1C,
            Register::Calibration(Channel::Ch4) => 0x1D,
            Register::AlertLimit(AlertSlot::Four) => 0x1E,
            Register::AlertConfig(AlertSlot::Four) => 0x1F,
            Register::Config1 => 0x20,
            Register::Config2 => 0x21,
            Register::Flags => 0x22,
            Register::ManufacturerId => 0x7E,
        },
        register.size() == match register {
            Register::Energy(_) => 4int,
            _ => 2,
        },
{
}

/// The channels and the slots are listed in order, each once.
pub proof fn law_lists_are_in_order(channel: Channel, slot: AlertSlot)
    ensures
        channel == match channel {
            Channel::Ch1 => Channel::ALL[0],
            Channel::Ch2 => Channel::ALL[1],
            Channel::Ch3 => Channel::ALL[2],
            Channel::Ch4 => Channel::ALL[3],
        },
        slot == match slot {
            AlertSlot::One => AlertSlot::ALL[0],
            AlertSlot::Two => AlertSlot::ALL[1],
            AlertSlot::Three => AlertSlot::ALL[2],
            AlertSlot::Four => AlertSlot::ALL[3],
        },
{
}

/// Bytes are read most significant first: no bytes spell zero, and each further
/// byte multiplies by 256 and adds itself. The two bytes of a word spell that
/// word.
pub proof fn law_bytes_spell_their_number(
    bytes: Seq<u8>,
    a: u8,
    b: u8,
    c: u8,
    d: u8,
    word: u16,
)
    ensures
        bus::big_endian(Seq::<u8>::empty()) == 0,
        bus::big_endian(bytes.push(a)) == 0x100 * bus::big_endian(bytes) + a,
        bus::big_endian(seq![a, b]) == 0x100 * a + b,
        bus::big_endian(seq![a, b, c, d]) == 0x100_0000 * a + 0x1_0000 * b + 0x100 * c + d,
        bus::big_endian(seq![(word / 256) as u8, (word % 256) as u8]) == word,
{
    reveal_with_fuel(bus::big_endian, 5);
    assert(bytes.push(a).drop_last() =~= bytes);
    assert(seq![a, b].drop_last() =~= seq![a]);
    assert(seq![a].drop_last() =~= Seq::<u8>::empty());
    assert(seq![a, b, c, d].drop_last() =~= seq![a, b, c]);
    assert(seq![a, b, c].drop_last() =~= seq![a, b]);
    let (h, l) = ((word / 256) as u8, (word % 256) as u8);
    assert(seq![h, l].drop_last() =~= seq![h]);
    assert(seq![h].drop_last() =~= Seq::<u8>::empty());
}

/// A word read as signed lies in the signed 16-bit range and differs from the
/// word by nothing or by `0x10000`; writing it as a word gives it back, for
/// every word and for every signed number.
pub proof fn law_twos_complement(word: int, value: int)
    requires
        0 <= word <= 0xFFFF,
        -0x8000 <= value <= 0x7FFF,
    ensures
        -0x8000 <= bus::twos_complement(word) <= 0x7FFF,
        bus::twos_complement(word) == word || bus::twos_complement(word) == word - 0x1_0000,
        0 <= bus::twos_complement_word(value) <= 0xFFFF,
        bus::twos_complement_word(bus::twos_complement(word)) == word,
        bus::twos_complement(bus::twos_complement_word(value)) == value,
{
}

// ── Bits of the words ────────────────────────────────────────────────────────

proof fn lemma_fields(w: u16)
    ensures
        bits::field(w, 0, 7) == w % 8,
        bits::field(w, 3, 7) == (w / 8) % 8,
        bits::field(w, 6, 7) == (w / 64) % 8,
        bits::field(w, 9, 7) == (w / 512) % 8,
        bits::field(w, 12, 15) == w / 4096,
        bits::field(w, 0, 15) == w % 16,
        bits::field(w, 4, 15) == (w / 16) % 16,
{
    assert((w >> 0) & 7 == w % 8 && (w >> 3) & 7 == (w / 8) % 8 && (w >> 6) & 7 == (w / 64) % 8 && (w
        >> 9) & 7 == (w / 512) % 8 && (w >> 12) & 15 == w / 4096 && (w >> 0) & 15 == w % 16 && (w
        >> 4) & 15 == (w / 16) % 16) by (bit_vector);
}

proof fn lemma_channel_bits(m: u8)
    ensures
        convert::has_channel_bit(m, Channel::Ch1) == (m % 2 == 1),
        convert::has_channel_bit(m, Channel::Ch2) == ((m / 2) % 2 == 1),
        convert::has_channel_bit(m, Channel::Ch3) == ((m / 4) % 2 == 1),
        convert::has_channel_bit(m, Channel::Ch4) == ((m / 8) % 2 == 1),
{
    assert((m & 1 != 0) == (m % 2 == 1) && (m & 2 != 0) == ((m / 2) % 2 == 1) && (m & 4 != 0) == ((m
        / 4) % 2 == 1) && (m & 8 != 0) == ((m / 8) % 2 == 1)) by (bit_vector);
}

/// Bits 3:0 and bits 15:12 of a word are channel masks.
proof fn lemma_channel_fields(w: u16)
    ensures
        ({
            let m = bits::field(w, 0, 15) as u8;
            &&& convert::has_channel_bit(m, Channel::Ch1) == (w % 2 == 1)
            &&& convert::has_channel_bit(m, Channel::Ch2) == ((w / 2) % 2 == 1)
            &&& convert::has_channel_bit(m, Channel::Ch3) == ((w / 4) % 2 == 1)
            &&& convert::has_channel_bit(m, Channel::Ch4) == ((w / 8) % 2 == 1)
        }),
        ({
            let m = bits::field(w, 12, 15) as u8;
            &&& convert::has_channel_bit(m, Channel::Ch1) == ((w / 0x1000) % 2 == 1)
            &&& convert::has_channel_bit(m, Channel::Ch2) == ((w / 0x2000) % 2 == 1)
            &&& convert::has_channel_bit(m, Channel::Ch3) == ((w / 0x4000) % 2 == 1)
            &&& convert::has_channel_bit(m, Channel::Ch4) == ((w / 0x8000) % 2 == 1)
        }),
{
    assert(((((w >> 0) & 15) as u8) & 1 != 0) == (w % 2 == 1) && ((((w >> 0) & 15) as u8) & 2 != 0)
        == ((w / 2) % 2 == 1) && ((((w >> 0) & 15) as u8) & 4 != 0) == ((w / 4) % 2 == 1) && ((((w
        >> 0) & 15) as u8) & 8 != 0) == ((w / 8) % 2 == 1)) by (bit_vector);
    assert(((((w >> 12) & 15) as u8) & 1 != 0) == ((w / 0x1000) % 2 == 1) && ((((w >> 12) & 15) as u8)
        & 2 != 0) == ((w / 0x2000) % 2 == 1) && ((((w >> 12) & 15) as u8) & 4 != 0) == ((w / 0x4000)
        % 2 == 1) && ((((w >> 12) & 15) as u8) & 8 != 0) == ((w / 0x8000) % 2 == 1))
        by (bit_vector);
}

/// In a channel mask the channels weigh 1, 2, 4 and 8. Setting or clearing one
/// changes the mask by its weight or not at all.
pub proof fn law_channel_mask_weights(mask: u8, channel: Channel, set: bool)
    ensures
        ({
            let weight = match channel {
                Channel::Ch1 => 1int,
                Channel::Ch2 => 2,
                Channel::Ch3 => 4,
                Channel::Ch4 => 8,
            };
            let held = (mask as int / weight) % 2 == 1;
            &&& convert::has_channel_bit(mask, channel) == held
            &&& convert::with_channel_bit(mask, channel, set) == mask + if set == held {
                0
            } else if set {
                weight
            } else {
                -weight
            }
        }),
{
    lemma_channel_bits(mask);
    assert((mask | 1) == mask + 1 - mask % 2 && (mask & !1) == mask - mask % 2 && (mask | 2) == mask
        + 2 - 2 * ((mask / 2) % 2) && (mask & !2) == mask - 2 * ((mask / 2) % 2) && (mask | 4)
        == mask + 4 - 4 * ((mask / 4) % 2) && (mask & !4) == mask - 4 * ((mask / 4) % 2) && (mask
        | 8) == mask + 8 - 8 * ((mask / 8) % 2) && (mask & !8) == mask - 8 * ((mask / 8) % 2))
        by (bit_vector);
}

/// A flags reading reads `FLAGS`, and each condition is one bit of the word:
/// `OVF` weighs `0x40` and `CVRF` `0x80`; the energy overflows of the channels
/// weigh `0x100` to `0x800`, and the limit alerts of the slots `0x1000` to
/// `0x8000`.
pub proof fn law_flags_reading(
    r: FlagsReading,
    raw: int,
    flags: Flags,
    channel: Channel,
    slot: AlertSlot,
)
    requires
        0 <= raw <= 0xFFFF,
        r.decodes(raw, flags),
    ensures
        r.source().location() == 0x22,
        flags.overflowed() == ((raw / 0x40) % 2 == 1),
        flags.ready() == ((raw / 0x80) % 2 == 1),
        flags.energy().len() == 4,
        flags.energy()[channel.position()] == match channel {
            Channel::Ch1 => (raw / 0x100) % 2 == 1,
            Channel::Ch2 => (raw / 0x200) % 2 == 1,
            Channel::Ch3 => (raw / 0x400) % 2 == 1,
            Channel::Ch4 => (raw / 0x800) % 2 == 1,
        },
        flags.limits().len() == 4,
        flags.limits()[slot.position()] == match slot {
            AlertSlot::One => (raw / 0x1000) % 2 == 1,
            AlertSlot::Two => (raw / 0x2000) % 2 == 1,
            AlertSlot::Three => (raw / 0x4000) % 2 == 1,
            AlertSlot::Four => (raw / 0x8000) % 2 == 1,
        },
{
    let w = raw as u16;
    assert(((w >> 6) & 1 == 1) == ((w / 0x40) % 2 == 1) && ((w >> 7) & 1 == 1) == ((w / 0x80) % 2
        == 1) && ((w >> 8) & 1 == 1) == ((w / 0x100) % 2 == 1) && ((w >> 9) & 1 == 1) == ((w
        / 0x200) % 2 == 1) && ((w >> 10) & 1 == 1) == ((w / 0x400) % 2 == 1) && ((w >> 11) & 1
        == 1) == ((w / 0x800) % 2 == 1) && ((w >> 12) & 1 == 1) == ((w / 0x1000) % 2 == 1) && ((w
        >> 13) & 1 == 1) == ((w / 0x2000) % 2 == 1) && ((w >> 14) & 1 == 1) == ((w / 0x4000) % 2
        == 1) && ((w >> 15) & 1 == 1) == ((w / 0x8000) % 2 == 1)) by (bit_vector);
}

/// The manufacturer ID is the whole word of its register; a device is present
/// exactly where that word spells `"TI"`.
pub proof fn law_identification(
    id: ManufacturerIdReading,
    presence: PresenceReading,
    raw: int,
    value: u16,
    present: bool,
)
    requires
        0 <= raw <= 0xFFFF,
        id.decodes(raw, value),
        presence.decodes(raw, present),
    ensures
        id.source().location() == 0x7E,
        presence.source().location() == 0x7E,
        value == raw,
        present <==> raw == 0x54 * 0x100 + 0x49,
{
}

/// The configuration registers are read as they stand, from `0x20` and `0x21`.
pub proof fn law_configuration_readings(
    first: Config1Reading,
    second: Config2Reading,
    raw: int,
    one: Config1,
    two: Config2,
)
    requires
        0 <= raw <= 0xFFFF,
        first.decodes(raw, one),
        second.decodes(raw, two),
    ensures
        first.source().location() == 0x20,
        second.source().location() == 0x21,
        one@ == raw,
        two@ == raw,
{
}

/// `CONFIG1` from its lowest bit: three bits each of mode, shunt conversion time,
/// bus conversion time and averaging, and four of channel enables.
pub proof fn law_config1_layout(word: u16)
    ensures
        word == config::mode_field(word) + 0x8 * config::shunt_time_field(word) + 0x40
            * config::bus_time_field(word) + 0x200 * config::averaging_field(word) + 0x1000
            * config::active_field(word),
        config::mode_field(word) < 8,
        config::shunt_time_field(word) < 8,
        config::bus_time_field(word) < 8,
        config::averaging_field(word) < 8,
        config::active_field(word) < 16,
{
    assert(word == ((word >> 0) & 7) + 0x8 * ((word >> 3) & 7) + 0x40 * ((word >> 6) & 7) + 0x200 * ((
    word >> 9) & 7) + 0x1000 * ((word >> 12) & 15) && (word >> 0) & 7 < 8 && (word >> 3) & 7 < 8 && (
    word >> 6) & 7 < 8 && (word >> 9) & 7 < 8 && (word >> 12) & 15 < 16) by (bit_vector);
}

/// A change to `CONFIG1`, digit by digit of the word: each setting lands in its
/// own three bits, a channel enable in its own bit, and all others stay.
pub proof fn law_config1_change_in_digits(word: u16, change: Config1Change, channel: Channel)
    ensures
        ({
            let w = config::changed_config1(word, change) as int;
            let old_word = word as int;
            let place = match channel {
                Channel::Ch1 => 0x1000int,
                Channel::Ch2 => 0x2000,
                Channel::Ch3 => 0x4000,
                Channel::Ch4 => 0x8000,
            };
            &&& w % 8 == match change {
                Config1Change::Mode(mode) => mode.code() as int,
                _ => old_word % 8,
            }
            &&& (w / 8) % 8 == match change {
                Config1Change::Timing(timing) => timing.shunt_conversion_time.code() as int,
                Config1Change::ShuntConversionTime(time) => time.code() as int,
                _ => (old_word / 8) % 8,
            }
            &&& (w / 64) % 8 == match change {
                Config1Change::Timing(timing) => timing.bus_conversion_time.code() as int,
                Config1Change::BusConversionTime(time) => time.code() as int,
                _ => (old_word / 64) % 8,
            }
            &&& (w / 512) % 8 == match change {
                Config1Change::Timing(timing) => timing.averaging.code() as int,
                Config1Change::Averaging(averaging) => averaging.code() as int,
                _ => (old_word / 512) % 8,
            }
            &&& (w / place) % 2 == match change {
                Config1Change::ChannelActive(target, active) => if target == channel {
                    if active {
                        1
                    } else {
                        0
                    }
                } else {
                    (old_word / place) % 2
                },
                _ => (old_word / place) % 2,
            }
        }),
{
    let w = config::changed_config1(word, change);
    config::law_config1_change_touches_only_its_fields(word, change);
    lemma_fields(word);
    lemma_fields(w);
    lemma_channel_fields(word);
    lemma_channel_fields(w);
    if let Config1Change::ChannelActive(target, active) = change {
        let mask = config::active_field(word) as u8;
        convert::law_channel_bit_reads_back(mask, target, active, channel);
        config::lemma_nibble_stays(mask, target, active);
    }
}

/// A mode's three bits say what it does: the first whether it converts shunt
/// voltages, the second whether it converts bus voltages, the third whether it
/// does so continuously; both shutdowns convert nothing.
pub proof fn law_mode_codes(mode: OperatingMode)
    ensures
        mode.code() < 8,
        mode.code() % 2 == 1 <==> mode is ShuntTriggered || mode is ShuntAndBusTriggered
            || mode is ContinuousShunt || mode is ContinuousShuntAndBus,
        (mode.code() / 2) % 2 == 1 <==> mode is BusTriggered || mode is ShuntAndBusTriggered
            || mode is ContinuousBus || mode is ContinuousShuntAndBus,
        mode.code() / 4 == 1 <==> mode is ShutdownAlternate || mode is ContinuousShunt
            || mode is ContinuousBus || mode is ContinuousShuntAndBus,
{
}

/// Longer averaging and longer conversion have higher codes, without gaps: the
/// codes are the ranks of the settings, from zero.
pub proof fn law_timing_codes_are_ranks(
    averaging: Averaging,
    bus_time: BusConversionTime,
    shunt_time: ShuntConversionTime,
)
    ensures
        match averaging {
            Averaging::Samples1 => 1int,
            Averaging::Samples4 => 4,
            Averaging::Samples16 => 16,
            Averaging::Samples64 => 64,
            Averaging::Samples128 => 128,
            Averaging::Samples256 => 256,
            Averaging::Samples512 => 512,
            Averaging::Samples1024 => 1024,
        } == seq![1int, 4, 16, 64, 128, 256, 512, 1024][averaging.code() as int],
        match bus_time {
            BusConversionTime::Microseconds140 => 140int,
            BusConversionTime::Microseconds204 => 204,
            BusConversionTime::Microseconds332 => 332,
            BusConversionTime::Microseconds588 => 588,
            BusConversionTime::Microseconds1100 => 1100,
            BusConversionTime::Microseconds2116 => 2116,
            BusConversionTime::Microseconds4156 => 4156,
            BusConversionTime::Microseconds8244 => 8244,
        } == seq![140int, 204, 332, 588, 1100, 2116, 4156, 8244][bus_time.code() as int],
        match shunt_time {
            ShuntConversionTime::Microseconds140 => 140int,
            ShuntConversionTime::Microseconds204 => 204,
            ShuntConversionTime::Microseconds332 => 332,
            ShuntConversionTime::Microseconds588 => 588,
            ShuntConversionTime::Microseconds1100 => 1100,
            ShuntConversionTime::Microseconds2116 => 2116,
            ShuntConversionTime::Microseconds4156 => 4156,
            ShuntConversionTime::Microseconds8244 => 8244,
        } == seq![140int, 204, 332, 588, 1100, 2116, 4156, 8244][shunt_time.code() as int],
        averaging.code() < 8 && bus_time.code() < 8 && shunt_time.code() < 8,
{
}

/// The ALERT pin's four bits, from the lowest: active high, latched, asserted by
/// an energy overflow, asserted by a completed conversion.
pub proof fn law_pin_code_bits(pin: AlertPinConfig)
    ensures
        pin.code() % 2 == 1 <==> pin.polarity is ActiveHigh,
        (pin.code() / 2) % 2 == 1 <==> pin.latch is Latched,
        (pin.code() / 4) % 2 == 1 <==> pin.on_energy_overflow,
        pin.code() / 8 == 1 <==> pin.on_conversion_ready,
{
}

/// A change of the ALERT pin configuration replaces the second hexadecimal digit
/// of `CONFIG2` and keeps the others.
pub proof fn law_pin_config_in_digits(word: u16, pin: AlertPinConfig)
    ensures
        ({
            let w = config::pinned_config2(word, pin) as int;
            &&& w % 16 == word as int % 16
            &&& (w / 16) % 16 == pin.code()
            &&& w / 256 == word as int / 256
        }),
        config::pin_field(word) == (word as int / 16) % 16,
{
    let w = config::pinned_config2(word, pin);
    config::law_pin_config_touches_only_its_bits(word, pin);
    lemma_fields(word);
    lemma_fields(w);
    assert(w / 256 == word / 256) by (bit_vector)
        requires
            w & 0xFF0F == word & 0xFF0F,
    ;
}

/// A range selection replaces range bits in the lowest hexadecimal digit of
/// `CONFIG2`, in which the channels weigh 1, 2, 4 and 8: a selected channel's bit
/// is set exactly for [`AdcRange::Range1`], and everything else is kept.
pub proof fn law_range_selection_in_digits(
    word: u16,
    selection: RangeSelection,
    channel: Channel,
)
    ensures
        ({
            let w = config::ranged_config2(word, selection) as int;
            let (bit, before) = match channel {
                Channel::Ch1 => (w % 2, word as int % 2),
                Channel::Ch2 => ((w / 2) % 2, (word as int / 2) % 2),
                Channel::Ch3 => ((w / 4) % 2, (word as int / 4) % 2),
                Channel::Ch4 => ((w / 8) % 2, (word as int / 8) % 2),
            };
            let selected = match channel {
                Channel::Ch1 => selection.ch1,
                Channel::Ch2 => selection.ch2,
                Channel::Ch3 => selection.ch3,
                Channel::Ch4 => selection.ch4,
            };
            &&& bit == match selected {
                Some(AdcRange::Range0) => 0,
                Some(AdcRange::Range1) => 1,
                None => before,
            }
            &&& w / 16 == word as int / 16
        }),
{
    let w = config::ranged_config2(word, selection);
    config::law_range_selection_touches_only_its_bits(word, selection, channel);
    lemma_channel_fields(word);
    lemma_channel_fields(w);
    assert(w / 16 == word / 16) by (bit_vector)
        requires
            w & 0xFFF0 == word & 0xFFF0,
    ;
}

// ── Alerts ───────────────────────────────────────────────────────────────────

/// Exactly the shunt and power conditions take their scale from a calibration.
/// The word that arms a slot holds the condition's number, 1 to 5, below the
/// channel's, 0 to 3.
pub proof fn law_alert_conditions(channel: Channel, alert: Alert)
    ensures
        alert.is_scaled() <==> !(alert is BusOver || alert is BusUnder),
        alert::armed_config(channel, alert) == match channel {
            Channel::Ch1 => 0x00int,
            Channel::Ch2 => 0x08,
            Channel::Ch3 => 0x10,
            Channel::Ch4 => 0x18,
        } + match alert {
            Alert::ShuntOver(_) => 1int,
            Alert::ShuntUnder(_) => 2,
            Alert::BusOver(_) => 3,
            Alert::BusUnder(_) => 4,
            Alert::PowerOver(_) => 5,
        },
{
}

/// The quotient in [`convert::nearest`], on either side of half a divisor.
proof fn lemma_nearest_sides(n: int, d: int)
    requires
        d > 0,
    ensures
        n >= 0 ==> -d < 2 * (convert::nearest(n, d) * d - n) <= d,
        n < 0 ==> -d <= 2 * (convert::nearest(n, d) * d - n) < d,
{
    let q = convert::nearest(n, d);
    convert::law_nearest_is_nearest(n, d);
    assert(q * d == d * q) by (nonlinear_arith);
    assert(q >= 0 ==> d * q >= 0) by (nonlinear_arith)
        requires
            d > 0,
    ;
    assert(q <= 0 ==> d * q <= 0) by (nonlinear_arith)
        requires
            d > 0,
    ;
}

/// The word that is loaded for a threshold means that threshold at the scale on
/// which the channel is measured: read as a signed number of 2.5 µV or 625 nV, by
/// the recorded range, for a shunt threshold; as a number of 1.6 mV below `2^15`
/// for a bus threshold; as a number of 32 times the recorded `CURRENT_LSB` for a
/// power threshold. It is off by at most half a count, and a tie moves away from
/// zero.
pub proof fn law_threshold_word_means_the_threshold<I2cError>(
    record: Record,
    slot: AlertSlot,
    channel: Channel,
    alert: Alert,
    word: u16,
)
    requires
        record.calibration_of(channel) is Some ==> record.calibration_of(channel)->Some_0.valid(),
        driver::encoded_alert::<I2cError>(record, slot, channel, alert) == Ok::<
            u16,
            Ina4230Error<I2cError>,
        >(word),
    ensures
        match alert {
            Alert::ShuntOver(v) | Alert::ShuntUnder(v) => {
                let lsb = if record.calibration_of(channel)->Some_0.range() is Range1 {
                    625int
                } else {
                    2_500
                };
                let count = if word < 0x8000 {
                    word as int
                } else {
                    word - 0x1_0000
                };
                &&& record.calibration_of(channel) is Some
                &&& v@ >= 0 ==> -lsb < 2 * (count * lsb - v@) <= lsb
                &&& v@ < 0 ==> -lsb <= 2 * (count * lsb - v@) < lsb
            },
            Alert::BusOver(v) | Alert::BusUnder(v) => {
                &&& word <= 0x7FFF
                &&& -1_600 < 2 * (1_600 * word - v@) <= 1_600
            },
            Alert::PowerOver(p) => {
                let lsb = 32 * record.calibration_of(channel)->Some_0.lsb_na();
                &&& record.calibration_of(channel) is Some
                &&& -lsb < 2 * (word * lsb - p@) <= lsb
            },
        },
{
    let calibration = record.calibration_of(channel)->Some_0;
    match alert {
        Alert::ShuntOver(v) | Alert::ShuntUnder(v) => {
            convert::law_shunt_limit_accepts(v@, calibration.range());
            lemma_nearest_sides(v@, calibration.range().lsb_nv());
        },
        Alert::BusOver(v) | Alert::BusUnder(v) => {
            units::law_bus_voltage_is_not_negative(v);
            convert::law_bus_limit_accepts(v@);
            lemma_nearest_sides(v@, 1_600);
        },
        Alert::PowerOver(p) => {
            units::law_power_is_not_negative(p);
            convert::law_power_limit_accepts(p@, calibration);
            lemma_nearest_sides(p@, convert::power_lsb(calibration));
        },
    }
}

/// A threshold is accepted exactly where the device can hold it: a bus threshold
/// up to 52.4272 V; on a calibrated channel, a shunt threshold from -81.92 mV to
/// 81.9175 mV or from -20.48 mV to 20.479375 mV, by the channel's own range, and a
/// power threshold up to 65535 times 32 times its `CURRENT_LSB`. A missing
/// calibration is reported first, for the channel, and a threshold that does not
/// fit for the slot.
pub proof fn law_threshold_acceptance<I2cError>(
    record: Record,
    slot: AlertSlot,
    channel: Channel,
    alert: Alert,
)
    ensures
        ({
            let result = driver::encoded_alert::<I2cError>(record, slot, channel, alert);
            let calibration = record.calibration_of(channel);
            let missing = match alert {
                Alert::BusOver(_) | Alert::BusUnder(_) => false,
                _ => calibration is None,
            };
            let fits = match alert {
                Alert::BusOver(v) | Alert::BusUnder(v) => v@ <= 52_427_200,
                Alert::ShuntOver(v) | Alert::ShuntUnder(v) => match calibration->Some_0.range() {
                    AdcRange::Range0 => -81_920_000 <= v@ <= 81_917_500,
                    AdcRange::Range1 => -20_480_000 <= v@ <= 20_479_375,
                },
                Alert::PowerOver(p) => p@ <= 65_535 * (32 * calibration->Some_0.lsb_na()),
            };
            match result {
                Ok(_) => !missing && fits,
                Err(Ina4230Error::NotCalibrated(c)) => missing && c == channel,
                Err(Ina4230Error::LimitOutOfRange(s)) => !missing && !fits && s == slot,
                Err(Ina4230Error::Bus(_)) => false,
            }
        }),
{
}

/// A threshold that one channel's calibration scales loads the same word whatever
/// the other channels hold, and a bus threshold the same word on every record.
pub proof fn law_threshold_word_depends_on_its_channel_only<I2cError>(
    record: Record,
    other: Record,
    slot: AlertSlot,
    channel: Channel,
    alert: Alert,
)
    requires
        alert is BusOver || alert is BusUnder || record.calibration_of(channel)
            == other.calibration_of(channel),
    ensures
        driver::encoded_alert::<I2cError>(record, slot, channel, alert) == driver::encoded_alert::<
            I2cError,
        >(other, slot, channel, alert),
{
}

/// A slot that watches for what is recorded holds a threshold within half a count
/// of the one asked for, on the scale of the device: 625 nV or 2.5 µV by the
/// channel's bit in `CONFIG2`, 1.6 mV, or 32 times the recorded `CURRENT_LSB`.
/// The low three bits of its `ALERT_CONFIG` are the condition's number and the
/// bits above them the channel's.
pub proof fn law_enforced_threshold_is_the_recorded_one(
    record: Record,
    device: Device,
    slot: AlertSlot,
    channel: Channel,
    alert: Alert,
)
    requires
        coherence::coherent(record, device),
        device.enforces(slot),
        record.alert_of(slot) == Some((channel, alert)),
    ensures
        ({
            let k = match slot {
                AlertSlot::One => 0int,
                AlertSlot::Two => 1,
                AlertSlot::Three => 2,
                AlertSlot::Four => 3,
            };
            let ranges = device.config2 as int;
            let bit = match channel {
                Channel::Ch1 => ranges % 2,
                Channel::Ch2 => (ranges / 2) % 2,
                Channel::Ch3 => (ranges / 4) % 2,
                Channel::Ch4 => (ranges / 8) % 2,
            };
            let word = device.alert_limit[k] as int;
            let count = if word < 0x8000 {
                word
            } else {
                word - 0x1_0000
            };
            let lsb = if bit == 1 {
                625int
            } else {
                2_500
            };
            &&& match alert {
                Alert::ShuntOver(v) | Alert::ShuntUnder(v) => -lsb <= 2 * (count * lsb - v@) <= lsb,
                Alert::BusOver(v) | Alert::BusUnder(v) => -1_600 <= 2 * (1_600 * word - v@)
                    <= 1_600,
                Alert::PowerOver(p) => match record.calibration_of(channel) {
                    Some(calibration) => -32 * calibration.lsb_na() <= 2 * (word * (32
                        * calibration.lsb_na()) - p@) <= 32 * calibration.lsb_na(),
                    None => true,
                },
            }
            &&& device.alert_config[k] / 8 == match channel {
                Channel::Ch1 => 0int,
                Channel::Ch2 => 1,
                Channel::Ch3 => 2,
                Channel::Ch4 => 3,
            }
            &&& device.alert_config[k] % 8 == match alert {
                Alert::ShuntOver(_) => 1int,
                Alert::ShuntUnder(_) => 2,
                Alert::BusOver(_) => 3,
                Alert::BusUnder(_) => 4,
                Alert::PowerOver(_) => 5,
            }
        }),
{
    assert(coherence::slot_holds(record, device, slot));
    lemma_channel_fields(device.config2);
}

// ── Transactions ─────────────────────────────────────────────────────────────

/// Arming a slot sends, in this order: if the slot is armed, zero to its
/// `ALERT_CONFIG`; the threshold to its `ALERT_LIMIT`; and to its `ALERT_CONFIG`
/// the condition's number, 1 to 5, below the channel's, 0 to 3.
pub proof fn law_set_alert_transactions(
    record: Record,
    slot: AlertSlot,
    channel: Channel,
    alert: Alert,
    limit: u16,
    read: u16,
)
    ensures
        ({
            let plan = driver::set_alert_plan(record, slot, channel, alert, limit);
            let n = plan.len() as int;
            let (limit_at, config_at) = match slot {
                AlertSlot::One => (0x06int, 0x07int),
                AlertSlot::Two => (0x0E, 0x0F),
                AlertSlot::Three => (0x16, 0x17),
                AlertSlot::Four => (0x1E, 0x1F),
            };
            &&& n == if record.alert_of(slot) is Some {
                3int
            } else {
                2
            }
            &&& n == 3 ==> (plan[0].wanted(read) matches Request::Write { register, word }
                && register.location() == config_at && word == 0)
            &&& plan[n - 2].wanted(read) matches Request::Write { register, word }
                && register.location() == limit_at && word == limit
            &&& plan[n - 1].wanted(read) matches Request::Write { register, word }
                && register.location() == config_at && word / 8 == match channel {
                Channel::Ch1 => 0int,
                Channel::Ch2 => 1,
                Channel::Ch3 => 2,
                Channel::Ch4 => 3,
            } && word % 8 == match alert {
                Alert::ShuntOver(_) => 1int,
                Alert::ShuntUnder(_) => 2,
                Alert::BusOver(_) => 3,
                Alert::BusUnder(_) => 4,
                Alert::PowerOver(_) => 5,
            }
        }),
{
}

/// Disarming a slot sends zero to its `ALERT_CONFIG`.
pub proof fn law_disarm_transaction(slot: AlertSlot, read: u16)
    ensures
        Transfer::Disarm(slot).wanted(read) matches Request::Write { register, word }
            && register.location() == match slot {
            AlertSlot::One => 0x07int,
            AlertSlot::Two => 0x0F,
            AlertSlot::Three => 0x17,
            AlertSlot::Four => 0x1F,
        } && word == 0,
{
}

/// A reset sends `0x8000` to `CONFIG2`.
pub proof fn law_reset_transaction(read: u16)
    ensures
        Transfer::Reset.wanted(read) matches Request::Write { register, word }
            && register.location() == 0x21 && word == 0x8000,
{
}

/// A change of `CONFIG1` reads it and writes it back changed.
pub proof fn law_config1_transactions(change: Config1Change, read: u16)
    ensures
        Transfer::ReadConfig1.wanted(read) matches Request::Read { register }
            && register.location() == 0x20,
        Transfer::WriteConfig1(change).wanted(read) matches Request::Write { register, word }
            && register.location() == 0x20 && word == config::changed_config1(read, change),
{
}

/// A change of the ALERT pin configuration reads `CONFIG2` and writes it back with
/// nothing but its second hexadecimal digit replaced.
pub proof fn law_pin_config_transactions(pin: AlertPinConfig, read: u16)
    ensures
        Transfer::ReadPinConfig.wanted(read) matches Request::Read { register }
            && register.location() == 0x21,
        Transfer::WritePinConfig(pin).wanted(read) matches Request::Write { register, word }
            && register.location() == 0x21 && word as int % 16 == read as int % 16 && (word as int
            / 16) % 16 == pin.code() && word as int / 256 == read as int / 256,
{
    law_pin_config_in_digits(read, pin);
}

/// Calibrating a channel ends with three transactions: `CONFIG2` is read; it is
/// written back with the channel's own range bit set exactly for
/// [`AdcRange::Range1`] and nothing else changed; and `SHUNT_CAL` goes to the
/// channel's own register. Everything before them disarms a slot, and a slot is
/// disarmed exactly if it is armed for a shunt or power condition of this
/// channel.
pub proof fn law_calibrate_transactions(
    record: Record,
    channel: Channel,
    calibration: Calibration,
    read: u16,
    other: Channel,
    slot: AlertSlot,
)
    requires
        record.well_formed(),
        calibration.valid(),
    ensures
        ({
            let plan = driver::calibrate_plan(record, channel, calibration);
            let n = plan.len() as int;
            &&& n >= 3
            &&& plan[n - 3].wanted(read) matches Request::Read { register }
                && register.location() == 0x21
            &&& plan[n - 2].wanted(read) matches Request::Write { register, word }
                && register.location() == 0x21 && word as int / 16 == read as int / 16 && ({
                let (bit, before) = match other {
                    Channel::Ch1 => (word as int % 2, read as int % 2),
                    Channel::Ch2 => ((word as int / 2) % 2, (read as int / 2) % 2),
                    Channel::Ch3 => ((word as int / 4) % 2, (read as int / 4) % 2),
                    Channel::Ch4 => ((word as int / 8) % 2, (read as int / 8) % 2),
                };
                bit == if other != channel {
                    before
                } else if calibration.range() is Range1 {
                    1
                } else {
                    0
                }
            })
            &&& plan[n - 1].wanted(read) matches Request::Write { register, word }
                && register.location() == match channel {
                Channel::Ch1 => 0x05int,
                Channel::Ch2 => 0x0D,
                Channel::Ch3 => 0x15,
                Channel::Ch4 => 0x1D,
            } && word == calibration.cal_word()
            &&& forall|i: int| 0 <= i < n - 3 ==> (#[trigger] plan[i]) is Disarm
            &&& (exists|i: int| 0 <= i < n - 3 && #[trigger] plan[i] == Transfer::Disarm(slot)) <==> (
            record.alert_of(slot) matches Some((target, alert)) && target == channel && !(
            alert is BusOver || alert is BusUnder))
        }),
{
    let plan = driver::calibrate_plan(record, channel, calibration);
    let disarms = driver::disarm_scaled(record, channel);
    let n = plan.len() as int;
    outcome::lemma_disarm_scaled(record, channel);
    law_range_selection_in_digits(
        read,
        RangeSelection::only(channel, calibration.range()),
        other,
    );
    assert(disarms.len() == n - 3);
    assert forall|i: int| 0 <= i < n - 3 implies (#[trigger] plan[i]) is Disarm by {
        assert(plan[i] == disarms[i]);
    }
    assert(driver::scaled_by(record.alert_of(slot), channel) <==> disarms.contains(
        Transfer::Disarm(slot),
    ));
    if disarms.contains(Transfer::Disarm(slot)) {
        let i = disarms.index_of(Transfer::Disarm(slot));
        assert(plan[i] == Transfer::Disarm(slot));
    }
    if exists|i: int| 0 <= i < n - 3 && #[trigger] plan[i] == Transfer::Disarm(slot) {
        let i = choose|i: int| 0 <= i < n - 3 && #[trigger] plan[i] == Transfer::Disarm(slot);
        assert(disarms[i] == Transfer::Disarm(slot));
    }
}

/// Calibrating all channels ends with six transactions: `CONFIG2` is read; it is
/// written back with each channel's range bit set exactly for
/// [`AdcRange::Range1`] and nothing else changed; and each channel's `SHUNT_CAL`
/// goes to its own register, in channel order. Everything before them disarms a
/// slot, and a slot is disarmed exactly if it is armed for a shunt or power
/// condition.
pub proof fn law_calibrate_all_transactions(
    record: Record,
    calibrations: Seq<Calibration>,
    read: u16,
    channel: Channel,
    slot: AlertSlot,
)
    requires
        record.well_formed(),
        calibrations.len() == 4,
        forall|i: int| 0 <= i < 4 ==> (#[trigger] calibrations[i]).valid(),
    ensures
        ({
            let plan = driver::calibrate_all_plan(record, calibrations);
            let n = plan.len() as int;
            let (k, calibration_at) = match channel {
                Channel::Ch1 => (0int, 0x05int),
                Channel::Ch2 => (1, 0x0D),
                Channel::Ch3 => (2, 0x15),
                Channel::Ch4 => (3, 0x1D),
            };
            &&& n >= 6
            &&& plan[n - 6].wanted(read) matches Request::Read { register }
                && register.location() == 0x21
            &&& plan[n - 5].wanted(read) matches Request::Write { register, word }
                && register.location() == 0x21 && word as int / 16 == read as int / 16 && ({
                let bit = match channel {
                    Channel::Ch1 => word as int % 2,
                    Channel::Ch2 => (word as int / 2) % 2,
                    Channel::Ch3 => (word as int / 4) % 2,
                    Channel::Ch4 => (word as int / 8) % 2,
                };
                bit == if calibrations[k].range() is Range1 {
                    1int
                } else {
                    0
                }
            })
            &&& plan[n - 4 + k].wanted(read) matches Request::Write { register, word }
                && register.location() == calibration_at && word == calibrations[k].cal_word()
            &&& forall|i: int| 0 <= i < n - 6 ==> (#[trigger] plan[i]) is Disarm
            &&& (exists|i: int| 0 <= i < n - 6 && #[trigger] plan[i] == Transfer::Disarm(slot)) <==> (
            record.alert_of(slot) matches Some((_, alert)) && !(alert is BusOver
                || alert is BusUnder))
        }),
{
    let plan = driver::calibrate_all_plan(record, calibrations);
    let disarms = driver::disarm_all_scaled(record);
    let tail = driver::calibrate_each_plan(calibrations);
    let n = plan.len() as int;
    outcome::lemma_disarm_all_scaled(record);
    law_range_selection_in_digits(read, driver::all_ranges(calibrations), channel);
    assert(disarms.len() == n - 6);
    assert(plan[n - 6] == tail[0] && plan[n - 5] == tail[1] && plan[n - 4] == tail[2] && plan[n - 3]
        == tail[3] && plan[n - 2] == tail[4] && plan[n - 1] == tail[5]);
    assert(calibrations[0].valid() && calibrations[1].valid() && calibrations[2].valid()
        && calibrations[3].valid());
    assert forall|i: int| 0 <= i < n - 6 implies (#[trigger] plan[i]) is Disarm by {
        assert(plan[i] == disarms[i]);
    }
    assert(record.alert_of(slot) is Some && record.alert_of(slot)->Some_0.1.is_scaled()
        <==> disarms.contains(Transfer::Disarm(slot)));
    if disarms.contains(Transfer::Disarm(slot)) {
        let i = disarms.index_of(Transfer::Disarm(slot));
        assert(plan[i] == Transfer::Disarm(slot));
    }
    if exists|i: int| 0 <= i < n - 6 && #[trigger] plan[i] == Transfer::Disarm(slot) {
        let i = choose|i: int| 0 <= i < n - 6 && #[trigger] plan[i] == Transfer::Disarm(slot);
        assert(disarms[i] == Transfer::Disarm(slot));
    }
}

// ── The record ───────────────────────────────────────────────────────────────

/// A record with nothing in it has no calibration for any channel and no alert in
/// any slot.
pub proof fn law_nothing_is_recorded(channel: Channel, slot: AlertSlot)
    ensures
        ({
            let record = Record { calibration: script::nothing(), alerts: script::nothing() };
            &&& record.well_formed()
            &&& record.calibration_of(channel) is None
            &&& record.alert_of(slot) is None
        }),
{
}

/// A calibration that succeeds is the one then recorded for its channel, and no
/// other channel's changes. Its shunt and power alerts are gone; bus alerts and
/// the alerts of other channels stay.
pub proof fn law_calibrate_is_recorded_for_its_channel(
    record: Record,
    channel: Channel,
    calibration: Calibration,
    other: Channel,
    slot: AlertSlot,
)
    requires
        record.well_formed(),
    ensures
        ({
            let plan = driver::calibrate_plan(record, channel, calibration);
            let end = outcome::completed(record, plan);
            &&& end.calibration_of(other) == if other == channel {
                Some(calibration)
            } else {
                record.calibration_of(other)
            }
            &&& end.alert_of(slot) == match record.alert_of(slot) {
                Some((target, alert)) => if target != channel || alert is BusOver
                    || alert is BusUnder {
                    Some((target, alert))
                } else {
                    None
                },
                None => None,
            }
        }),
{
    outcome::law_calibrate_completed(record, channel, calibration);
}

/// Calibrating all channels, when it succeeds, records each channel's own
/// calibration and leaves only bus alerts.
pub proof fn law_calibrate_all_is_recorded_in_channel_order(
    record: Record,
    calibrations: Seq<Calibration>,
    channel: Channel,
    slot: AlertSlot,
)
    requires
        record.well_formed(),
        calibrations.len() == 4,
    ensures
        ({
            let plan = driver::calibrate_all_plan(record, calibrations);
            let end = outcome::completed(record, plan);
            &&& end.calibration_of(channel) == Some(
                match channel {
                    Channel::Ch1 => calibrations[0],
                    Channel::Ch2 => calibrations[1],
                    Channel::Ch3 => calibrations[2],
                    Channel::Ch4 => calibrations[3],
                },
            )
            &&& end.alert_of(slot) == match record.alert_of(slot) {
                Some((target, alert)) => if alert is BusOver || alert is BusUnder {
                    Some((target, alert))
                } else {
                    None
                },
                None => None,
            }
        }),
{
    outcome::law_calibrate_all_completed(record, calibrations);
}

/// An alert that is armed is the one then recorded for its slot, and no other
/// slot and no calibration changes; disarming the slot leaves nothing there.
pub proof fn law_alerts_are_recorded_for_their_slot(
    record: Record,
    slot: AlertSlot,
    channel: Channel,
    alert: Alert,
    limit: u16,
    other: AlertSlot,
    target: Channel,
)
    requires
        record.well_formed(),
    ensures
        ({
            let plan = driver::set_alert_plan(record, slot, channel, alert, limit);
            let end = outcome::completed(record, plan);
            &&& end.alert_of(other) == if other == slot {
                Some((channel, alert))
            } else {
                record.alert_of(other)
            }
            &&& end.calibration_of(target) == record.calibration_of(target)
        }),
        ({
            let end = outcome::completed(record, seq![Transfer::Disarm(slot)]);
            &&& end.alert_of(other) == if other == slot {
                None
            } else {
                record.alert_of(other)
            }
            &&& end.calibration_of(target) == record.calibration_of(target)
        }),
{
    outcome::law_set_alert_completed(record, slot, channel, alert, limit);
    outcome::law_clear_alert_outcome(record, slot);
}

} // verus!
