//! Conversions between raw register values and physical quantities.
//!
//! Every decode function is total: whatever the register holds, it has a
//! value. The encode functions are not, because a threshold may not be
//! representable in a 16-bit register at the channel's scale; they return an
//! [`Option`].
use crate::units::{AdcRange, BusVoltage, Calibration, Channel, Current, Energy, Power, ShuntVoltage};
use vstd::arithmetic::div_mod;
use vstd::prelude::*;

verus! {

/// The absolute value of an integer.
pub open spec fn magnitude(n: int) -> int {
    if n < 0 {
        -n
    } else {
        n
    }
}

/// `n / d` rounded to the nearest integer, with halves rounding up, for a
/// dividend that is not negative and a positive divisor.
pub open spec fn half_up(n: int, d: int) -> int {
    if 2 * (n % d) >= d {
        n / d + 1
    } else {
        n / d
    }
}

/// `n / d` rounded to the nearest integer, with halves away from zero, for a
/// positive divisor.
pub open spec fn nearest(n: int, d: int) -> int {
    if n >= 0 {
        half_up(n, d)
    } else {
        -half_up(-n, d)
    }
}

/// The quotient in [`half_up`] is the only one between these two bounds.
proof fn lemma_half_up(m: int, e: int, q: int)
    requires
        m >= 0,
        e > 0,
    ensures
        half_up(m, e) == q <==> 2 * (e * q) <= 2 * m + e < 2 * (e * q) + 2 * e,
{
    let u = half_up(m, e);
    div_mod::lemma_fundamental_div_mod(m, e);
    assert(e * (m / e + 1) == e * (m / e) + e) by (nonlinear_arith);
    assert(2 * (e * u) <= 2 * m + e < 2 * (e * u) + 2 * e);
    if 2 * (e * q) <= 2 * m + e < 2 * (e * q) + 2 * e {
        assert(u == q) by (nonlinear_arith)
            requires
                e > 0,
                e * q < e * u + e,
                e * u < e * q + e,
        ;
    }
}

/// Truncating division of `m + e / 2` by `e` rounds `m / e` to nearest.
proof fn lemma_half_added(m: int, e: int)
    requires
        m >= 0,
        e > 0,
    ensures
        (m + e / 2) / e == half_up(m, e),
{
    div_mod::lemma_fundamental_div_mod(m + e / 2, e);
    lemma_half_up(m, e, (m + e / 2) / e);
}

/// Negating the divisor negates the quotient.
proof fn lemma_negated_divisor(x: int, d: int)
    requires
        d > 0,
    ensures
        x / (-d) == -(x / d),
{
    div_mod::lemma_fundamental_div_mod(x, d);
    assert(x / (-d) == -(x / d)) by (nonlinear_arith)
        requires
            d > 0,
            x == d * (x / d) + x % d,
            0 <= x % d < d,
    ;
}

/// Divide, rounding to nearest, with halves rounding away from zero.
pub(crate) fn div_round_nearest_i64(n: i64, d: i64) -> (q: i64)
    requires
        d != 0,
        magnitude(n as int) + magnitude(d as int) / 2 <= i64::MAX,
    ensures
        q == if d > 0 {
            nearest(n as int, d as int)
        } else {
            nearest(-n, -d)
        },
{
    proof {
        let (m, e) = (magnitude(n as int), magnitude(d as int));
        lemma_half_added(m, e);
        lemma_negated_divisor(m + e / 2, e);
        lemma_half_up(0, e, 0);
    }
    if (n < 0) == (d < 0) {
        (n + d / 2) / d
    } else {
        (n - d / 2) / d
    }
}

/// Unsigned counterpart of [`div_round_nearest_i64`].
///
/// Written with an explicit remainder, because `n + d / 2` overflows for
/// dividends near `u64::MAX`.
pub(crate) fn div_round_nearest_u64(n: u64, d: u64) -> (q: u64)
    requires
        0 < d <= 0x8000_0000_0000_0000,
    ensures
        q == nearest(n as int, d as int),
{
    let q: u64 = n / d;
    let r: u64 = n % d;
    proof {
        div_mod::lemma_fundamental_div_mod(n as int, d as int);
        assert(d > 1 ==> q < u64::MAX) by (nonlinear_arith)
            requires
                d * q <= n <= u64::MAX,
        ;
    }
    if r * 2 >= d {
        q + 1
    } else {
        q
    }
}

// ── Decoding ─────────────────────────────────────────────────────────────────

/// Bus voltage value of one count, in microvolts (1.6 mV, datasheet §7.1.7).
pub const BUS_LSB_UV: u32 = 1_600;

/// Multiplier relating the `POWER` and `ENERGY` resolution to `CURRENT_LSB`
/// (datasheet Equations 4 and 5).
pub const POWER_LSB_MULTIPLIER: u64 = 32;

/// Highest `ALERT_LIMIT` code for a bus-voltage threshold.
///
/// Datasheet §7.1.5 specifies bus limits as unsigned 15-bit: `32767 × 1.6 mV =
/// 52.4272 V` is exactly the bus measurement range in §8.1.1, so reserved bit
/// 15 covers codes that the ADC never produces.
pub const BUS_LIMIT_MAX: u64 = 0x7FFF;

/// The value of one `POWER` or `ENERGY` count, in nanowatts or nanojoules.
pub open spec fn power_lsb(cal: Calibration) -> int {
    POWER_LSB_MULTIPLIER * cal.lsb_na()
}

/// Decode a `SHUNT_VOLTAGE` register value.
#[must_use]
pub fn decode_shunt_voltage(raw: i16, range: AdcRange) -> (v: ShuntVoltage)
    ensures
        v@ == raw * range.lsb_nv(),
{
    let lsb: i32 = range.shunt_lsb_nv();
    assert(-82_000_000 <= raw * lsb <= 82_000_000) by (nonlinear_arith)
        requires
            -32768 <= raw <= 32767,
            0 < lsb <= 2500,
    ;
    ShuntVoltage::from_nanovolts(raw as i32 * lsb)
}

/// Decode a `BUS_VOLTAGE` register value.
///
/// The register is always positive (datasheet Table 7-13), so the raw value is
/// read unsigned.
#[must_use]
pub fn decode_bus_voltage(raw: u16) -> (v: BusVoltage)
    ensures
        v@ == raw * BUS_LSB_UV,
{
    BusVoltage::from_microvolts(raw as u32 * BUS_LSB_UV)
}

/// Decode a `CURRENT` register value (datasheet Equation 3).
#[must_use]
pub fn decode_current(raw: i16, cal: Calibration) -> (i: Current)
    ensures
        i@ == raw * cal.lsb_na(),
{
    let lsb: u32 = cal.current_lsb().as_nanoamps();
    assert(-0x1000_0000_0000 <= raw * lsb <= 0x1000_0000_0000) by (nonlinear_arith)
        requires
            -32768 <= raw <= 32767,
            0 < lsb <= 0x800_0000,
    ;
    Current::from_nanoamps(raw as i64 * lsb as i64)
}

/// Decode a `POWER` register value (datasheet Equation 4).
#[must_use]
pub fn decode_power(raw: u16, cal: Calibration) -> (p: Power)
    ensures
        p@ == raw * power_lsb(cal),
{
    Power::from_nanowatts(scale_by_power_lsb(raw as u32, cal))
}

/// Decode an `ENERGY` register value (datasheet Equation 5), an unsigned
/// 32-bit accumulator (datasheet Table 7-18).
#[must_use]
pub fn decode_energy(raw: u32, cal: Calibration) -> (e: Energy)
    ensures
        e@ == raw * power_lsb(cal),
{
    Energy::from_nanojoules(scale_by_power_lsb(raw, cal))
}

fn scale_by_power_lsb(raw: u32, cal: Calibration) -> (v: u64)
    ensures
        v == raw * power_lsb(cal),
{
    let lsb: u32 = cal.current_lsb().as_nanoamps();
    assert(raw * 32 * lsb == raw * (32 * lsb)) by (nonlinear_arith);
    assert(0 <= raw * 32 * lsb <= u64::MAX) by (nonlinear_arith)
        requires
            0 <= raw <= 0xFFFF_FFFF,
            0 < lsb <= 0x800_0000,
    ;
    raw as u64 * POWER_LSB_MULTIPLIER * lsb as u64
}

// ── Channel masks ────────────────────────────────────────────────────────────

/// Set or clear a channel's bit in a four-bit channel mask.
///
/// Used for both `CONFIG1.ACTIVE_CHANNEL` and `CONFIG2.RANGE`, which share a
/// layout in which bit 0 is channel 1.
#[must_use]
pub fn set_channel_bit(mask: u8, channel: Channel, set: bool) -> (m: u8)
    ensures
        m == with_channel_bit(mask, channel, set),
{
    if set {
        mask | channel.mask()
    } else {
        mask & !channel.mask()
    }
}

/// A channel mask with one channel's bit set or cleared.
pub open spec fn with_channel_bit(mask: u8, channel: Channel, set: bool) -> u8 {
    if set {
        mask | channel.bit()
    } else {
        mask & !channel.bit()
    }
}

/// Test a channel's bit in a four-bit channel mask.
#[must_use]
pub fn channel_bit(mask: u8, channel: Channel) -> (b: bool)
    ensures
        b == has_channel_bit(mask, channel),
{
    mask & channel.mask() != 0
}

/// Whether a channel mask holds a channel.
pub open spec fn has_channel_bit(mask: u8, channel: Channel) -> bool {
    mask & channel.bit() != 0
}

/// Setting or clearing a channel's bit is what a test of it then sees; a test
/// of any other channel, and the bits above the four, see no change.
pub proof fn law_channel_bit_reads_back(mask: u8, channel: Channel, set: bool, other: Channel)
    ensures
        has_channel_bit(with_channel_bit(mask, channel, set), channel) == set,
        other != channel ==> has_channel_bit(with_channel_bit(mask, channel, set), other)
            == has_channel_bit(mask, other),
        with_channel_bit(mask, channel, set) & 0xF0 == mask & 0xF0,
{
    let (b, c) = (channel.bit(), other.bit());
    assert((mask | b) & b != 0 && (mask & !b) & b == 0) by (bit_vector)
        requires
            b == 1 || b == 2 || b == 4 || b == 8,
    ;
    assert((mask | b) & 0xF0 == mask & 0xF0 && (mask & !b) & 0xF0 == mask & 0xF0) by (bit_vector)
        requires
            b == 1 || b == 2 || b == 4 || b == 8,
    ;
    if other != channel {
        assert((mask | b) & c == mask & c && (mask & !b) & c == mask & c) by (bit_vector)
            requires
                b == 1 || b == 2 || b == 4 || b == 8,
                c == 1 || c == 2 || c == 4 || c == 8,
                b != c,
        ;
    }
}

// ── Encoding ─────────────────────────────────────────────────────────────────

/// The `ALERT_LIMIT` code of a shunt threshold of `nv` nanovolts: the nearest
/// code, for a threshold that the signed 16-bit register covers at `range`.
pub open spec fn shunt_limit_code(nv: int, range: AdcRange) -> Option<i16> {
    match range {
        AdcRange::Range0 => if -81_920_000 <= nv <= 81_917_500 {
            Some(nearest(nv, 2_500) as i16)
        } else {
            None
        },
        AdcRange::Range1 => if -20_480_000 <= nv <= 20_479_375 {
            Some(nearest(nv, 625) as i16)
        } else {
            None
        },
    }
}

/// The `ALERT_LIMIT` code of a bus threshold of `uv` microvolts: the nearest
/// code, for a threshold that the unsigned 15-bit field covers.
pub open spec fn bus_limit_code(uv: int) -> Option<u16> {
    if uv <= 52_427_200 {
        Some(nearest(uv, 1_600) as u16)
    } else {
        None
    }
}

/// The `ALERT_LIMIT` code of a power threshold of `nw` nanowatts: the nearest
/// code, for a threshold that the unsigned 16-bit register covers.
pub open spec fn power_limit_code(nw: int, cal: Calibration) -> Option<u16> {
    if nw <= 65_535 * power_lsb(cal) {
        Some(nearest(nw, power_lsb(cal)) as u16)
    } else {
        None
    }
}

/// A quotient rounded to nearest lies within half a unit of the exact one.
proof fn lemma_nearest_bounds(n: int, d: int)
    requires
        n >= 0,
        d > 0,
    ensures
        2 * (d * nearest(n, d)) <= 2 * n + d < 2 * (d * nearest(n, d)) + 2 * d,
        0 <= nearest(n, d) <= n,
{
    let q = nearest(n, d);
    lemma_half_up(n, d, q);
    assert(0 <= q) by (nonlinear_arith)
        requires
            d > 0,
            n >= 0,
            2 * n + d < 2 * (d * q) + 2 * d,
    ;
    assert(q <= n) by (nonlinear_arith)
        requires
            d > 0,
            n >= 0,
            2 * (d * q) <= 2 * n + d,
    ;
}

/// A dividend of at most `k` divisors rounds to at most `k`.
proof fn lemma_nearest_at_most(n: int, d: int, k: int)
    requires
        0 <= n <= k * d,
        d > 0,
    ensures
        0 <= nearest(n, d) <= k,
{
    let q = nearest(n, d);
    lemma_nearest_bounds(n, d);
    assert(q <= k) by (nonlinear_arith)
        requires
            n <= k * d,
            d > 0,
            2 * (d * q) <= 2 * n + d,
    ;
}

/// Encode a shunt-voltage threshold for `ALERT_LIMIT`, rounding to nearest.
///
/// The inverse of [`decode_shunt_voltage`]. Returns [`None`] if the threshold
/// does not fit the signed 16-bit register at `range`: -81.92 mV to 81.9175 mV
/// on [`AdcRange::Range0`], -20.48 mV to 20.479375 mV on [`AdcRange::Range1`].
#[must_use]
pub fn encode_shunt_limit(v: ShuntVoltage, range: AdcRange) -> (code: Option<i16>)
    ensures
        code == shunt_limit_code(v@, range),
{
    let nv: i64 = v.as_nanovolts() as i64;
    let lsb: i64 = range.shunt_lsb_nv() as i64;
    if nv < i16::MIN as i64 * lsb || nv > i16::MAX as i64 * lsb {
        return None;
    }
    Some(div_round_nearest_i64(nv, lsb) as i16)
}

/// Encode a bus-voltage threshold for `ALERT_LIMIT`, rounding to nearest.
///
/// The inverse of [`decode_bus_voltage`]. Returns [`None`] above 52.4272 V.
/// Needs no calibration: the bus LSB is a fixed 1.6 mV.
#[must_use]
pub fn encode_bus_limit(v: BusVoltage) -> (code: Option<u16>)
    ensures
        code == bus_limit_code(v@),
{
    let uv: u64 = v.as_microvolts() as u64;
    if uv > BUS_LIMIT_MAX * BUS_LSB_UV as u64 {
        return None;
    }
    Some(div_round_nearest_u64(uv, BUS_LSB_UV as u64) as u16)
}

/// Encode a power threshold for `ALERT_LIMIT`, rounding to nearest.
///
/// The inverse of [`decode_power`]. Returns [`None`] above `65535 × 32 ×
/// CURRENT_LSB`. The scale comes from the target channel's calibration, so the
/// same threshold may be representable on one channel and not on another.
#[must_use]
pub fn encode_power_limit(p: Power, cal: Calibration) -> (code: Option<u16>)
    ensures
        code == power_limit_code(p@, cal),
{
    let nw: u64 = p.as_nanowatts();
    let lsb: u64 = POWER_LSB_MULTIPLIER * cal.current_lsb().as_nanoamps() as u64;
    if nw > u16::MAX as u64 * lsb {
        return None;
    }
    Some(div_round_nearest_u64(nw, lsb) as u16)
}

// ── Laws of the conversions ──────────────────────────────────────────────────

/// Rounding to nearest is off by at most half a divisor, and a tie moves away
/// from zero; the result has the sign of the exact quotient, or is zero.
pub proof fn law_nearest_is_nearest(n: int, d: int)
    requires
        d > 0,
    ensures
        2 * magnitude(n - d * nearest(n, d)) <= d,
        2 * magnitude(n - d * nearest(n, d)) == d ==> magnitude(d * nearest(n, d)) > magnitude(n),
        n >= 0 ==> nearest(n, d) >= 0,
        n <= 0 ==> nearest(n, d) <= 0,
{
    let m = magnitude(n);
    lemma_nearest_bounds(m, d);
    let q = nearest(m, d);
    assert(d * (-q) == -(d * q)) by (nonlinear_arith);
    assert(d * q >= 0) by (nonlinear_arith)
        requires
            d > 0,
            q >= 0,
    ;
}

/// An exact multiple of the divisor is not rounded.
pub(crate) proof fn lemma_nearest_exact(q: int, d: int)
    requires
        d > 0,
    ensures
        nearest(q * d, d) == q,
{
    let m = magnitude(q);
    assert(magnitude(q * d) == m * d && (q < 0 <==> q * d < 0)) by (nonlinear_arith)
        requires
            d > 0,
            m == if q < 0 {
                -q
            } else {
                q
            },
    ;
    assert(d * m == m * d && m * d >= 0) by (nonlinear_arith)
        requires
            d > 0,
            m >= 0,
    ;
    lemma_half_up(m * d, d, m);
}

/// Encoding a decoded shunt voltage gives back the register value, whatever it
/// was, on either range.
pub proof fn law_shunt_limit_round_trips(raw: i16, range: AdcRange)
    ensures
        shunt_limit_code(raw * range.lsb_nv(), range) == Some(raw),
{
    lemma_nearest_exact(raw as int, range.lsb_nv());
}

/// Encoding a decoded bus voltage gives back every 15-bit register value and
/// rejects the others.
pub proof fn law_bus_limit_round_trips(raw: u16)
    ensures
        raw <= BUS_LIMIT_MAX ==> bus_limit_code(raw * BUS_LSB_UV) == Some(raw),
        raw > BUS_LIMIT_MAX ==> bus_limit_code(raw * BUS_LSB_UV) is None,
{
    lemma_nearest_exact(raw as int, BUS_LSB_UV as int);
}

/// Encoding a decoded power gives back the register value, at every
/// calibration.
pub proof fn law_power_limit_round_trips(raw: u16, cal: Calibration)
    requires
        cal.valid(),
    ensures
        power_limit_code(raw * power_lsb(cal), cal) == Some(raw),
{
    let d = power_lsb(cal);
    lemma_nearest_exact(raw as int, d);
    assert(raw * d <= 65_535 * d) by (nonlinear_arith)
        requires
            d > 0,
    ;
}

/// An accepted shunt threshold decodes to within half a count of itself.
pub proof fn law_shunt_limit_within_half_lsb(nv: int, range: AdcRange, raw: i16)
    requires
        shunt_limit_code(nv, range) == Some(raw),
    ensures
        2 * magnitude(nv - raw * range.lsb_nv()) <= range.lsb_nv(),
{
    law_shunt_limit_accepts(nv, range);
    law_nearest_is_nearest(nv, range.lsb_nv());
    assert(raw * range.lsb_nv() == range.lsb_nv() * raw) by (nonlinear_arith);
}

/// An accepted bus threshold decodes to within half a count of itself.
pub proof fn law_bus_limit_within_half_lsb(uv: int, raw: u16)
    requires
        uv >= 0,
        bus_limit_code(uv) == Some(raw),
    ensures
        2 * magnitude(uv - raw * BUS_LSB_UV) <= BUS_LSB_UV,
{
    law_bus_limit_accepts(uv);
    law_nearest_is_nearest(uv, BUS_LSB_UV as int);
}

/// An accepted power threshold decodes to within half a count of itself.
pub proof fn law_power_limit_within_half_lsb(nw: int, cal: Calibration, raw: u16)
    requires
        nw >= 0,
        cal.valid(),
        power_limit_code(nw, cal) == Some(raw),
    ensures
        2 * magnitude(nw - raw * power_lsb(cal)) <= power_lsb(cal),
{
    law_power_limit_accepts(nw, cal);
    law_nearest_is_nearest(nw, power_lsb(cal));
    assert(raw * power_lsb(cal) == power_lsb(cal) * raw) by (nonlinear_arith);
}

/// A shunt threshold is accepted exactly from what the lowest code stands for
/// to what the highest stands for, and its code is then the nearest one.
pub proof fn law_shunt_limit_accepts(nv: int, range: AdcRange)
    ensures
        shunt_limit_code(nv, range) is Some <==> i16::MIN * range.lsb_nv() <= nv <= i16::MAX
            * range.lsb_nv(),
        shunt_limit_code(nv, range) matches Some(code) ==> code == nearest(nv, range.lsb_nv()),
{
    let d = range.lsb_nv();
    if 0 <= nv <= 32_767 * d {
        lemma_nearest_at_most(nv, d, 32_767);
    } else if -32_768 * d <= nv < 0 {
        lemma_nearest_at_most(-nv, d, 32_768);
    }
}

/// A bus threshold is accepted exactly up to 52.4272 V, what the highest 15-bit
/// code stands for, and its code is then the nearest one.
pub proof fn law_bus_limit_accepts(uv: int)
    requires
        uv >= 0,
    ensures
        bus_limit_code(uv) is Some <==> uv <= BUS_LIMIT_MAX * BUS_LSB_UV,
        bus_limit_code(uv) matches Some(code) ==> code == nearest(uv, BUS_LSB_UV as int) && code
            <= BUS_LIMIT_MAX,
{
    if uv <= 52_427_200 {
        lemma_nearest_at_most(uv, 1_600, 32_767);
    }
}

/// A power threshold is accepted exactly up to `65535 × 32 × CURRENT_LSB`, what
/// the highest code stands for, and its code is then the nearest one.
pub proof fn law_power_limit_accepts(nw: int, cal: Calibration)
    requires
        nw >= 0,
        cal.valid(),
    ensures
        power_limit_code(nw, cal) is Some <==> nw <= u16::MAX * power_lsb(cal),
        power_limit_code(nw, cal) matches Some(code) ==> code == nearest(nw, power_lsb(cal)),
{
    if nw <= 65_535 * power_lsb(cal) {
        lemma_nearest_at_most(nw, power_lsb(cal), 65_535);
    }
}

} // verus!
