//! The conversions, the register words and the validated inputs, without a bus.

use ina4230::alert::alert_config;
use ina4230::bus::{
    signed_to_word, value_of_bytes, word_to_bytes, word_to_signed, Frame, Register, Reply, Request,
};
use ina4230::config::{Config1, Config1Change, Config2, RangeSelection};
use ina4230::convert;
use ina4230::error::SensorErrorKind;
use ina4230::script::Transfer;
use ina4230::{
    AdcRange, AddrPinState, Address, AddressPins, Alert, AlertPinConfig, AlertSlot, Averaging,
    BusConversionTime, BusVoltage, Calibration, CalibrationError, Channel, ConversionTiming, Current,
    CurrentLsb, Energy, Flags, Ina4230, Ina4230Error, OperatingMode, Power, ShuntConversionTime,
    ShuntResistance, ShuntVoltage,
};

fn cal(na: u32, uohm: u32, range: AdcRange) -> Result<Calibration, CalibrationError> {
    Calibration::new(
        CurrentLsb::from_nanoamps(na).unwrap(),
        ShuntResistance::from_microohms(uohm).unwrap(),
        range,
    )
}

fn example_cal() -> Calibration {
    cal(500_000, 8_000, AdcRange::Range0).unwrap()
}

// ── Quantities ───────────────────────────────────────────────────────────────

#[test]
fn measurement_types_are_constructible_by_callers() {
    assert_eq!(ShuntVoltage::from_nanovolts(-80_000_000).as_nanovolts(), -80_000_000);
    assert_eq!(BusVoltage::from_microvolts(12_000_000).as_microvolts(), 12_000_000);
    assert_eq!(Current::from_nanoamps(6_000_000_000).as_nanoamps(), 6_000_000_000);
    assert_eq!(Power::from_nanowatts(72_000_000_000).as_nanowatts(), 72_000_000_000);
    assert_eq!(Energy::from_nanojoules(259_200_000_000_000).as_nanojoules(), 259_200_000_000_000);
}

#[test]
fn coarse_accessors_truncate_toward_zero() {
    assert_eq!(Current::from_nanoamps(1_999).as_microamps(), 1);
    assert_eq!(Current::from_nanoamps(-1_999).as_microamps(), -1);
    assert_eq!(Current::from_nanoamps(i64::MIN).as_microamps(), -9_223_372_036_854_775);
    assert_eq!(Power::from_nanowatts(1_999).as_microwatts(), 1);
    assert_eq!(Energy::from_nanojoules(999).as_microjoules(), 0);
}

// ── Addresses ────────────────────────────────────────────────────────────────

#[test]
fn addresses_follow_the_strapping_table() {
    let states = [AddrPinState::Gnd, AddrPinState::Vs, AddrPinState::Sda, AddrPinState::Scl];
    let mut expected = 0x40;
    for a1 in states {
        for a0 in states {
            assert_eq!(Address::from_pins(AddressPins { a0, a1 }).as_u8(), expected);
            expected += 1;
        }
    }
    assert_eq!(expected, 0x50);
}

#[test]
fn address_pin_order_is_not_symmetric() {
    let one = AddressPins { a0: AddrPinState::Gnd, a1: AddrPinState::Sda };
    let other = AddressPins { a0: AddrPinState::Sda, a1: AddrPinState::Gnd };
    assert_eq!(Address::from_pins(one).as_u8(), 0x48);
    assert_eq!(Address::from_pins(other).as_u8(), 0x42);
}

// ── Calibration ──────────────────────────────────────────────────────────────

#[test]
fn calibration_matches_the_datasheet_worked_example() {
    let c = example_cal();
    assert_eq!(c.shunt_cal().as_u16(), 1280);
    assert_eq!(c.current_lsb().as_nanoamps(), 500_000);
    assert_eq!(c.shunt_resistance().as_microohms(), 8_000);
    assert_eq!(c.adc_range(), AdcRange::Range0);
    let c = cal(500_000, 8_000, AdcRange::Range1).unwrap();
    assert_eq!(c.shunt_cal().as_u16(), 320);
    assert_eq!(AdcRange::default(), AdcRange::Range0);
}

#[test]
fn shunt_cal_rounds_to_nearest() {
    // 5.12e12 / 3e12 = 1.7067
    assert_eq!(cal(3_000, 1_000_000_000, AdcRange::Range0).unwrap().shunt_cal().as_u16(), 2);
    // 5.12e12 / 4e12 = 1.28
    assert_eq!(cal(4_000, 1_000_000_000, AdcRange::Range0).unwrap().shunt_cal().as_u16(), 1);
    // 5.12e12 / 1.024e13 is exactly one half, which rounds away from zero
    assert_eq!(cal(10_240, 1_000_000_000, AdcRange::Range0).unwrap().shunt_cal().as_u16(), 1);
}

#[test]
fn shunt_cal_is_rejected_rather_than_clamped() {
    assert_eq!(
        cal(10_241, 1_000_000_000, AdcRange::Range0),
        Err(CalibrationError::ShuntCalUnderflow)
    );
    assert_eq!(cal(1, 1, AdcRange::Range0), Err(CalibrationError::ShuntCalOverflow));
    // 5.12e12 / 156_250_000 = 32768, one too many
    assert_eq!(cal(156_250, 1_000, AdcRange::Range0), Err(CalibrationError::ShuntCalOverflow));
    assert_eq!(cal(156_254, 1_000, AdcRange::Range0).unwrap().shunt_cal().as_u16(), 0x7FFF);
    assert_eq!(cal(156_250, 1_000, AdcRange::Range1).unwrap().shunt_cal().as_u16(), 0x2000);
}

#[test]
fn calibration_inputs_are_validated() {
    assert_eq!(CurrentLsb::from_nanoamps(0), Err(CalibrationError::ZeroCurrentLsb));
    assert_eq!(CurrentLsb::from_nanoamps(134_217_728).unwrap().as_nanoamps(), 134_217_728);
    assert_eq!(CurrentLsb::from_nanoamps(134_217_729), Err(CalibrationError::CurrentLsbTooLarge));
    assert_eq!(ShuntResistance::from_microohms(0), Err(CalibrationError::ZeroShuntResistance));
}

#[test]
fn minimum_current_resolution_rounds_up() {
    assert_eq!(CurrentLsb::min_for_max_current(10_000_000_000).unwrap().as_nanoamps(), 305_176);
    assert_eq!(CurrentLsb::min_for_max_current(32_768).unwrap().as_nanoamps(), 1);
    assert_eq!(CurrentLsb::min_for_max_current(32_769).unwrap().as_nanoamps(), 2);
    assert_eq!(CurrentLsb::min_for_max_current(0), Err(CalibrationError::ZeroCurrentLsb));
    assert_eq!(CurrentLsb::min_for_max_current(u64::MAX), Err(CalibrationError::CurrentLsbTooLarge));
}

// ── Decoding ─────────────────────────────────────────────────────────────────

#[test]
fn decoding_matches_the_datasheet_vectors() {
    let c = example_cal();
    assert_eq!(convert::decode_shunt_voltage(19_200, AdcRange::Range0).as_nanovolts(), 48_000_000);
    assert_eq!(convert::decode_bus_voltage(7_500).as_microvolts(), 12_000_000);
    assert_eq!(convert::decode_current(12_000, c).as_nanoamps(), 6_000_000_000);
    assert_eq!(convert::decode_power(4_500, c).as_nanowatts(), 72_000_000_000);
    assert_eq!(convert::decode_energy(16_200_000, c).as_nanojoules(), 259_200_000_000_000);
}

#[test]
fn decoding_is_total() {
    let widest = cal(134_217_728, 1, AdcRange::Range1).unwrap();
    assert_eq!(convert::decode_energy(u32::MAX, widest).as_nanojoules(), 18_446_744_069_414_584_320);
    assert_eq!(convert::decode_power(u16::MAX, widest).as_nanowatts(), 281_470_681_743_360);
    assert_eq!(convert::decode_current(i16::MIN, widest).as_nanoamps(), -4_398_046_511_104);
    assert_eq!(convert::decode_bus_voltage(u16::MAX).as_microvolts(), 104_856_000);
    assert_eq!(convert::decode_shunt_voltage(i16::MIN, AdcRange::Range0).as_nanovolts(), -81_920_000);
    assert_eq!(convert::decode_shunt_voltage(i16::MIN, AdcRange::Range1).as_nanovolts(), -20_480_000);
}

// ── Channel masks ────────────────────────────────────────────────────────────

#[test]
fn channel_bits_are_independent() {
    for mask in 0..=255u8 {
        for ch in Channel::ALL {
            for set in [false, true] {
                let updated = convert::set_channel_bit(mask, ch, set);
                assert_eq!(convert::channel_bit(updated, ch), set);
                assert_eq!(updated & !ch.mask(), mask & !ch.mask());
            }
        }
    }
    assert_eq!(convert::set_channel_bit(0b1111, Channel::Ch3, false), 0b1011);
}

#[test]
fn channels_and_slots_are_ordered() {
    for (i, ch) in Channel::ALL.into_iter().enumerate() {
        assert_eq!(ch.index(), i);
        assert_eq!(ch.mask(), 1 << i);
    }
}

#[test]
fn alert_slot_indexes_are_zero_based_and_ordered() {
    assert_eq!(AlertSlot::ALL.len(), 4);
    for (i, slot) in AlertSlot::ALL.into_iter().enumerate() {
        assert_eq!(slot.index(), i);
    }
    assert_eq!(AlertSlot::One.index(), 0);
    assert_eq!(AlertSlot::Four.index(), 3);
}

// ── Limit encoding ───────────────────────────────────────────────────────────

#[test]
fn shunt_limit_matches_the_datasheet_worked_example() {
    // Datasheet 7.1.6: -80 mV / 2.5 uV = 32000, two's complement 0x8300.
    let v = ShuntVoltage::from_nanovolts(-80_000_000);
    let raw = convert::encode_shunt_limit(v, AdcRange::Range0).unwrap();
    assert_eq!(raw, -32_000);
    assert_eq!(signed_to_word(raw), 0x8300);
}

#[test]
fn shunt_limit_round_trips_every_representable_code() {
    for range in [AdcRange::Range0, AdcRange::Range1] {
        for raw in i16::MIN..=i16::MAX {
            let decoded = convert::decode_shunt_voltage(raw, range);
            assert_eq!(convert::encode_shunt_limit(decoded, range), Some(raw));
        }
    }
}

#[test]
fn shunt_limit_rejects_values_beyond_full_scale() {
    let enc = |nv, range| convert::encode_shunt_limit(ShuntVoltage::from_nanovolts(nv), range);
    assert!(enc(81_920_000, AdcRange::Range0).is_none());
    assert!(enc(-81_922_501, AdcRange::Range0).is_none());
    assert!(enc(40_000_000, AdcRange::Range1).is_none());
    // either end, and one nanovolt beyond it
    assert_eq!(enc(81_917_500, AdcRange::Range0), Some(i16::MAX));
    assert_eq!(enc(81_917_501, AdcRange::Range0), None);
    assert_eq!(enc(-81_920_000, AdcRange::Range0), Some(i16::MIN));
    assert_eq!(enc(-81_920_001, AdcRange::Range0), None);
    assert_eq!(enc(20_479_375, AdcRange::Range1), Some(i16::MAX));
    assert_eq!(enc(20_479_376, AdcRange::Range1), None);
    assert_eq!(enc(-20_480_000, AdcRange::Range1), Some(i16::MIN));
    assert_eq!(enc(-20_480_001, AdcRange::Range1), None);
    assert_eq!(enc(i32::MIN, AdcRange::Range1), None);
    assert_eq!(enc(i32::MAX, AdcRange::Range1), None);
}

#[test]
fn shunt_limit_rounds_to_nearest_away_from_zero() {
    let enc = |nv| convert::encode_shunt_limit(ShuntVoltage::from_nanovolts(nv), AdcRange::Range0);
    assert_eq!(enc(2_500), Some(1));
    assert_eq!(enc(3_749), Some(1));
    assert_eq!(enc(3_750), Some(2));
    assert_eq!(enc(-3_750), Some(-2));
    assert_eq!(enc(-3_749), Some(-1));
}

#[test]
fn bus_limit_round_trips_every_representable_code() {
    for raw in 0..=0x7FFFu16 {
        let decoded = convert::decode_bus_voltage(raw);
        assert_eq!(convert::encode_bus_limit(decoded), Some(raw));
    }
    assert_eq!(convert::encode_bus_limit(convert::decode_bus_voltage(0x8000)), None);
}

#[test]
fn bus_limit_full_scale_is_the_adc_range() {
    let enc = |uv| convert::encode_bus_limit(BusVoltage::from_microvolts(uv));
    assert_eq!(enc(52_427_200), Some(0x7FFF));
    assert_eq!(enc(52_427_201), None);
    assert!(enc(52_428_000).is_none());
    assert!(enc(52_428_001).is_none());
    assert!(enc(u32::MAX).is_none());
}

#[test]
fn bus_limit_rounds_to_nearest() {
    let enc = |uv| convert::encode_bus_limit(BusVoltage::from_microvolts(uv));
    assert_eq!(enc(1_600), Some(1));
    assert_eq!(enc(2_399), Some(1));
    assert_eq!(enc(2_400), Some(2));
}

#[test]
fn power_limit_round_trips_every_representable_code() {
    let c = example_cal();
    for raw in 0..=u16::MAX {
        let decoded = convert::decode_power(raw, c);
        assert_eq!(convert::encode_power_limit(decoded, c), Some(raw));
    }
}

#[test]
fn power_limit_rejects_values_beyond_full_scale() {
    let c = example_cal();
    let enc = |nw| convert::encode_power_limit(Power::from_nanowatts(nw), c);
    let full_scale = 65_535u64 * 32 * 500_000;
    assert_eq!(enc(full_scale), Some(65_535));
    assert_eq!(enc(full_scale - 8_000_001), Some(65_534));
    assert_eq!(enc(full_scale + 1), None);
    assert_eq!(enc(full_scale * 2), None);
    assert_eq!(enc(u64::MAX), None);
}

// ── Alerts ───────────────────────────────────────────────────────────────────

#[test]
fn alert_variants_map_onto_the_datasheet_encodings() {
    let v = ShuntVoltage::from_nanovolts(1_000_000);
    let b = BusVoltage::from_microvolts(12_000_000);
    let p = Power::from_nanowatts(1_000_000_000);
    assert_eq!(Alert::ShuntOver(v).mask_encoding(), 1);
    assert_eq!(Alert::ShuntUnder(v).mask_encoding(), 2);
    assert_eq!(Alert::BusOver(b).mask_encoding(), 3);
    assert_eq!(Alert::BusUnder(b).mask_encoding(), 4);
    assert_eq!(Alert::PowerOver(p).mask_encoding(), 5);
    assert_eq!(alert_config(Channel::Ch4, Alert::PowerOver(p)), 0b11_101);
}

#[test]
fn only_shunt_and_power_alerts_need_calibration() {
    let v = ShuntVoltage::from_nanovolts(1_000_000);
    let b = BusVoltage::from_microvolts(12_000_000);
    let p = Power::from_nanowatts(1_000_000_000);
    assert!(Alert::ShuntOver(v).needs_calibration());
    assert!(Alert::ShuntUnder(v).needs_calibration());
    assert!(Alert::PowerOver(p).needs_calibration());
    assert!(!Alert::BusOver(b).needs_calibration());
    assert!(!Alert::BusUnder(b).needs_calibration());
}

// ── Register words ───────────────────────────────────────────────────────────

#[test]
fn config1_changes_touch_only_their_field() {
    for word in [0xF127u16, 0xA78C, 0x0000, 0xFFFF] {
        let config = Config1::from_word(word);
        let mode = config.changed(Config1Change::Mode(OperatingMode::ContinuousShunt));
        assert_eq!(mode.mode(), OperatingMode::ContinuousShunt);
        assert_eq!(mode.word() & !0x0007, word & !0x0007);
        let averaging = config.changed(Config1Change::Averaging(Averaging::Samples128));
        assert_eq!(averaging.averaging(), Averaging::Samples128);
        assert_eq!(averaging.word() & !0x0E00, word & !0x0E00);
        let bus = config.changed(Config1Change::BusConversionTime(BusConversionTime::Microseconds588));
        assert_eq!(bus.bus_conversion_time(), BusConversionTime::Microseconds588);
        assert_eq!(bus.word() & !0x01C0, word & !0x01C0);
        let shunt =
            config.changed(Config1Change::ShuntConversionTime(ShuntConversionTime::Microseconds4156));
        assert_eq!(shunt.shunt_conversion_time(), ShuntConversionTime::Microseconds4156);
        assert_eq!(shunt.word() & !0x0038, word & !0x0038);
        let active = config.changed(Config1Change::ChannelActive(Channel::Ch2, true));
        assert_eq!(active.word(), word | 0x2000);
        let timing = config.changed(Config1Change::Timing(ConversionTiming::default()));
        assert_eq!(timing.conversion_timing(), ConversionTiming::default());
        assert_eq!(timing.word(), (word & 0xF007) | 0x0120);
    }
    assert_eq!(Averaging::default(), Averaging::Samples1);
    assert_eq!(BusConversionTime::default(), BusConversionTime::Microseconds1100);
    assert_eq!(ShuntConversionTime::default(), ShuntConversionTime::Microseconds1100);
}

#[test]
fn config2_changes_touch_only_their_field() {
    let all = RangeSelection {
        ch1: Some(AdcRange::Range1),
        ch2: Some(AdcRange::Range0),
        ch3: None,
        ch4: Some(AdcRange::Range1),
    };
    assert_eq!(Config2::from_word(0x00F6).with_ranges(all).word(), 0x00FD);
    let one = RangeSelection::one(Channel::Ch3, AdcRange::Range1);
    assert!(one.names(Channel::Ch3) && !one.names(Channel::Ch1));
    assert_eq!(Config2::from_word(0x7000).with_ranges(one).word(), 0x7004);
    let pin = Config2::from_word(0x00A5).alert_pin_config();
    assert!(pin.on_conversion_ready && !pin.on_energy_overflow);
    assert_eq!(Config2::from_word(0xFFFF).with_alert_pin_config(AlertPinConfig::default()).word(), 0xFF0F);
}

#[test]
fn flags_report_each_bit_alone() {
    let none = Flags::default();
    assert!(!none.conversion_ready() && !none.math_overflow() && !none.any_energy_overflow());
    assert_eq!(none.limit_alerts(), [false; 4]);
    assert!(Flags::from_word(1 << 6).math_overflow());
    assert!(Flags::from_word(1 << 7).conversion_ready());
    for (i, ch) in Channel::ALL.into_iter().enumerate() {
        let flags = Flags::from_word(1 << (8 + i));
        assert!(flags.any_energy_overflow());
        for other in Channel::ALL {
            assert_eq!(flags.energy_overflow(other), other == ch);
        }
    }
    for (i, slot) in AlertSlot::ALL.into_iter().enumerate() {
        let flags = Flags::from_word(1 << (12 + i));
        for other in AlertSlot::ALL {
            assert_eq!(flags.limit_alert(other), other == slot);
        }
    }
    assert_eq!(Flags::from_word(0x003F), none);
    assert_ne!(Flags::from_word(0x0040), none);
}

#[test]
fn register_addresses_follow_the_map() {
    assert_eq!(Register::ShuntVoltage(Channel::Ch1).address(), 0x00);
    assert_eq!(Register::BusVoltage(Channel::Ch2).address(), 0x09);
    assert_eq!(Register::Current(Channel::Ch3).address(), 0x12);
    assert_eq!(Register::Power(Channel::Ch4).address(), 0x1B);
    assert_eq!(Register::Energy(Channel::Ch4).address(), 0x1C);
    assert_eq!(Register::Calibration(Channel::Ch2).address(), 0x0D);
    assert_eq!(Register::AlertLimit(AlertSlot::Three).address(), 0x16);
    assert_eq!(Register::AlertConfig(AlertSlot::Four).address(), 0x1F);
    assert_eq!(Register::Config1.address(), 0x20);
    assert_eq!(Register::Config2.address(), 0x21);
    assert_eq!(Register::Flags.address(), 0x22);
    assert_eq!(Register::ManufacturerId.address(), 0x7E);
    assert_eq!(Register::Energy(Channel::Ch1).width(), 4);
    assert_eq!(Register::Power(Channel::Ch1).width(), 2);
}

#[test]
fn bytes_are_most_significant_first() {
    assert_eq!(word_to_bytes(0x1D4C), [0x1D, 0x4C]);
    assert_eq!(value_of_bytes(&[0x00, 0xF7, 0x31, 0x40]), 16_200_000);
    assert_eq!(value_of_bytes(&[0xFF, 0xFF, 0xFF, 0xFF]), u32::MAX);
    assert_eq!(value_of_bytes(&[0x54, 0x49]), 0x5449);
    assert_eq!(value_of_bytes(&[]), 0);
    for word in 0..=u16::MAX {
        assert_eq!(value_of_bytes(&word_to_bytes(word)), word as u32);
        assert_eq!(signed_to_word(word_to_signed(word)), word);
    }
    assert_eq!(word_to_signed(0x8000), i16::MIN);
    assert_eq!(Frame::write(0x06, &[0x1D, 0x4C]).as_slice(), &[0x06, 0x1D, 0x4C]);
    assert_eq!(Frame::write(0x14, &[1, 2, 3, 4]).as_slice(), &[0x14, 1, 2, 3, 4]);
    assert_eq!(Frame::write(0x7E, &[]).as_slice(), &[0x7E]);
}

// ── Errors and scripts ───────────────────────────────────────────────────────

#[test]
fn errors_have_a_kind() {
    assert_eq!(Ina4230Error::Bus(7u8).kind(), SensorErrorKind::Peripheral);
    assert_eq!(
        Ina4230Error::<u8>::NotCalibrated(Channel::Ch1).kind(),
        SensorErrorKind::NotReady
    );
    assert_eq!(
        Ina4230Error::<u8>::LimitOutOfRange(AlertSlot::One).kind(),
        SensorErrorKind::InvalidInput
    );
}

#[test]
fn a_script_ends_with_a_failure() {
    let pins = AddressPins { a0: AddrPinState::Gnd, a1: AddrPinState::Gnd };
    let mut sensor = Ina4230::new((), pins);
    let mut script = sensor.set_mode(OperatingMode::BusTriggered);
    assert!(!script.is_finished());
    assert_eq!(script.current(), Some(Transfer::ReadConfig1));
    assert_eq!(sensor.issue(&script), Some(Request::Read { register: Register::Config1 }));
    let failed = sensor.complete(&mut script, Reply::Failed("no answer"));
    assert_eq!(failed, Err(Ina4230Error::Bus("no answer")));
    assert!(script.is_finished());
    assert_eq!(sensor.issue(&script), None);
    assert_eq!(script.current(), None);
}

#[test]
fn refused_alerts_say_why() {
    let pins = AddressPins { a0: AddrPinState::Gnd, a1: AddrPinState::Gnd };
    let sensor = Ina4230::new((), pins);
    let shunt = Alert::ShuntUnder(ShuntVoltage::from_nanovolts(i32::MAX));
    let bus = Alert::BusUnder(BusVoltage::from_microvolts(u32::MAX));
    // a missing calibration comes before a threshold that does not fit
    assert_eq!(
        sensor.set_alert::<u8>(AlertSlot::Two, Channel::Ch3, shunt),
        Err(Ina4230Error::NotCalibrated(Channel::Ch3))
    );
    assert_eq!(
        sensor.set_alert::<u8>(AlertSlot::Two, Channel::Ch3, bus),
        Err(Ina4230Error::LimitOutOfRange(AlertSlot::Two))
    );
}

#[test]
fn an_unacknowledged_arming_is_settled_by_a_disarm() {
    let pins = AddressPins { a0: AddrPinState::Gnd, a1: AddrPinState::Gnd };
    let mut sensor = Ina4230::new((), pins);
    let alert = Alert::BusOver(BusVoltage::from_microvolts(12_000_000));
    let mut script = sensor.set_alert::<u8>(AlertSlot::Two, Channel::Ch3, alert).unwrap();
    assert_eq!(
        sensor.issue(&script),
        Some(Request::Write { register: Register::AlertLimit(AlertSlot::Two), word: 7_500 })
    );
    assert_eq!(sensor.complete(&mut script, Reply::<u8>::Written), Ok(()));
    let arming = alert_config(Channel::Ch3, alert);
    assert_eq!(
        sensor.issue(&script),
        Some(Request::Write { register: Register::AlertConfig(AlertSlot::Two), word: arming })
    );
    assert_eq!(sensor.complete(&mut script, Reply::Failed(7u8)), Err(Ina4230Error::Bus(7)));
    assert_eq!(sensor.alert(AlertSlot::Two), None);

    // disarming goes to the device although nothing is recorded
    let mut script = sensor.clear_alert(AlertSlot::Two);
    assert_eq!(
        sensor.issue(&script),
        Some(Request::Write { register: Register::AlertConfig(AlertSlot::Two), word: 0 })
    );
    assert_eq!(sensor.complete(&mut script, Reply::<u8>::Written), Ok(()));
    assert!(script.is_finished());
    assert_eq!(sensor.alert(AlertSlot::Two), None);
}

#[test]
fn a_failed_disarm_leaves_its_slot_and_the_later_ones_recorded() {
    let pins = AddressPins { a0: AddrPinState::Gnd, a1: AddrPinState::Gnd };
    let mut sensor = Ina4230::new((), pins);
    let c = example_cal();
    let acknowledge = |sensor: &mut Ina4230<()>, mut script: ina4230::script::Script| {
        while let Some(request) = sensor.issue(&script) {
            let reply = match request {
                Request::Write { .. } => Reply::<u8>::Written,
                Request::Read { .. } => Reply::Data(0),
            };
            assert_eq!(sensor.complete(&mut script, reply), Ok(()));
        }
    };
    let script = sensor.calibrate(Channel::Ch1, c);
    acknowledge(&mut sensor, script);
    let alert = Alert::ShuntOver(ShuntVoltage::from_nanovolts(1_000_000));
    for slot in [AlertSlot::One, AlertSlot::Two, AlertSlot::Three] {
        let script = sensor.set_alert::<u8>(slot, Channel::Ch1, alert).unwrap();
        acknowledge(&mut sensor, script);
    }

    let mut script = sensor.calibrate_all([c, c, c, c]);
    assert!(sensor.issue(&script).is_some());
    assert_eq!(sensor.complete(&mut script, Reply::<u8>::Written), Ok(()));
    assert!(sensor.issue(&script).is_some());
    assert_eq!(sensor.complete(&mut script, Reply::Failed(7u8)), Err(Ina4230Error::Bus(7)));
    assert_eq!(sensor.alert(AlertSlot::One), None);
    assert_eq!(sensor.alert(AlertSlot::Two), Some((Channel::Ch1, alert)));
    assert_eq!(sensor.alert(AlertSlot::Three), Some((Channel::Ch1, alert)));
    assert_eq!(sensor.calibration(Channel::Ch1), Some(c));
}
