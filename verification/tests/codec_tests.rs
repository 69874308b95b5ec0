//! Tests of the pure bit-packed encodings: no transport involved.

use p50x::{
    device_status_from_byte, device_status_to_byte, functions_decode, functions_encode,
    lok_command_bytes, lok_config_decode, lok_status_decode, s88_param_encode, sensor_decode,
    str_to_bool, turnout_command_bytes, turnout_group_decode, turnout_status_decode, P50XReply,
    XLokOptions, XProtocol,
};

#[test]
fn it_works() {
    assert_eq!(2 + 2, 4);
}

#[test]
fn device_status_round_trip_all_bytes() {
    for b in 0u8..=0x7f {
        let status = device_status_from_byte(b);
        assert_eq!(device_status_to_byte(&status), b);
    }
}

#[test]
fn device_status_unpacks_each_bit() {
    let status = device_status_from_byte(0x42);
    assert!(!status.stop_pressed);
    assert!(status.go_pressed);
    assert!(!status.hot);
    assert!(!status.power);
    assert!(!status.halt);
    assert!(!status.external_central_unit);
    assert!(status.voltage_regulation);
}

#[test]
fn lok_bytes_forward_with_functions() {
    let options = XLokOptions {
        emergency_stop: false,
        force: false,
        light: true,
        functions: Some([true, false, true, false]),
    };
    assert_eq!(lok_command_bytes(10, &options), (0x0a, 0x9a));
}

#[test]
fn lok_bytes_reverse_emergency() {
    let options =
        XLokOptions { emergency_stop: true, force: true, light: false, functions: None };
    assert_eq!(lok_command_bytes(-50, &options), (0x01, 0x40));
}

#[test]
fn lok_bytes_reverse_sets_direction_bit() {
    let options =
        XLokOptions { emergency_stop: false, force: false, light: false, functions: None };
    assert_eq!(lok_command_bytes(-10, &options), (0x0a, 0x20));
}

#[test]
fn lok_status_decode_reverse_and_functions() {
    let status = lok_status_decode(0x0a, 0x35, 0x0b);
    assert_eq!(status.speed, -10);
    assert_eq!(status.real_speed, -11);
    assert!(!status.options.emergency_stop);
    assert!(!status.options.force);
    assert!(status.options.light);
    assert_eq!(status.options.functions, Some([true, false, true, false]));
}

#[test]
fn lok_status_emergency_is_speed_one() {
    let status = lok_status_decode(0x01, 0x00, 0x00);
    assert_eq!(status.speed, 1);
    assert!(status.options.emergency_stop);
}

#[test]
fn lok_status_reencode_palindromic_nibble() {
    // Bit 7 set, function nibble palindromic (bits 0 and 3, bits 1 and 2
    // agree), speed byte below 0x80 with the reverse bit clear: decoding
    // then re-encoding gives the config byte back with bit 6 cleared.
    let config = 0x99u8;
    let status = lok_status_decode(5, config, 7);
    let reencoded = lok_command_bytes(status.speed, &status.options);
    assert_eq!(reencoded.1, config & 0xbf);
    assert_eq!(reencoded.0, 5);
}

#[test]
fn lok_status_reencode_reverse_case() {
    // Reverse bit set, palindromic function nibble, speed byte in
    // 1..=0x80.
    let config = 0xafu8;
    let status = lok_status_decode(0x50, config, 0x10);
    let reencoded = lok_command_bytes(status.speed, &status.options);
    assert_eq!(reencoded.1, config & 0xbf);
}

#[test]
fn lok_config_decode_sentinel_and_protocol() {
    let config = lok_config_decode(2, 28, 0xffff);
    assert_eq!(config.protocol, XProtocol::DCC);
    assert_eq!(config.speed_steps, 28);
    assert_eq!(config.virtual_address, None);

    let config = lok_config_decode(9, 14, 0x0123);
    assert_eq!(config.protocol, XProtocol::Motorola);
    assert_eq!(config.virtual_address, Some(0x0123));
}

#[test]
fn turnout_bytes_pack_address_and_flags() {
    let options = p50x::XTurnoutOptions { status: true, reserve: false, no_command: false };
    let (lo, packed) = turnout_command_bytes(0x7ff, true, &options);
    assert_eq!(lo, 0xff);
    assert_eq!(packed, 0x07 | 0x80 | 0x40);

    let options = p50x::XTurnoutOptions { status: false, reserve: true, no_command: true };
    let (lo, packed) = turnout_command_bytes(0x234, false, &options);
    assert_eq!(lo, 0x34);
    assert_eq!(packed, 0x02 | 0x20 | 0x10);
}

#[test]
fn turnout_status_decode_bits() {
    let status = turnout_status_decode(0x0f);
    assert!(status.reserved);
    assert!(status.state);
    assert_eq!(status.protocol, XProtocol::FMZ);

    assert_eq!(turnout_status_decode(0x00).protocol, XProtocol::Motorola);
    assert_eq!(turnout_status_decode(0x01).protocol, XProtocol::DCC);
    assert_eq!(turnout_status_decode(0x08).protocol, XProtocol::Selectrix);
    assert!(!turnout_status_decode(0x00).reserved);
    assert!(!turnout_status_decode(0x00).state);
}

#[test]
fn sensor_bitmap_bits_in_order() {
    let contacts = sensor_decode(0xa001);
    for i in 0..16usize {
        assert_eq!(contacts[i], (0xa001u16 >> i) & 1 != 0);
    }
    assert!(contacts[0]);
    assert!(contacts[13]);
    assert!(contacts[15]);
    assert!(!contacts[1]);
}

#[test]
fn reply_table_full() {
    assert_eq!(P50XReply::from_byte(0x00), P50XReply::Okay);
    assert_eq!(P50XReply::from_byte(0x01), P50XReply::BadCommand);
    assert_eq!(P50XReply::from_byte(0x02), P50XReply::BadParameter);
    assert_eq!(P50XReply::from_byte(0x06), P50XReply::PowerOff);
    assert_eq!(P50XReply::from_byte(0x08), P50XReply::NoLokCommandSpace);
    assert_eq!(P50XReply::from_byte(0x09), P50XReply::FullTurnoutCommandStack);
    assert_eq!(P50XReply::from_byte(0x0a), P50XReply::NoData);
    assert_eq!(P50XReply::from_byte(0x0b), P50XReply::NoSlot);
    assert_eq!(P50XReply::from_byte(0x0c), P50XReply::BadLokParameter);
    assert_eq!(P50XReply::from_byte(0x0d), P50XReply::LokBusy);
    assert_eq!(P50XReply::from_byte(0x0e), P50XReply::BadTurnoutParameter);
    assert_eq!(P50XReply::from_byte(0x0f), P50XReply::BadSpecialOptionValue);
    assert_eq!(P50XReply::from_byte(0x10), P50XReply::NoI2CCommandSpace);
    assert_eq!(P50XReply::from_byte(0x40), P50XReply::LowTurnoutCommandStackSpace);
    assert_eq!(P50XReply::from_byte(0x41), P50XReply::LokHalt);
    assert_eq!(P50XReply::from_byte(0x42), P50XReply::LokPowerOff);
    assert_eq!(P50XReply::from_byte(0x80), P50XReply::Busy);
    assert_eq!(P50XReply::from_byte(0x55), P50XReply::Unknown);
    assert_eq!(P50XReply::from_byte(0x03), P50XReply::Unknown);
}

#[test]
fn functions_mask_round_trip() {
    let functions = [true, false, false, true, true, false, true, false];
    let mask = functions_encode(&functions);
    assert_eq!(mask, 0b0101_1001);
    assert_eq!(functions_decode(mask), functions);
}

#[test]
fn turnout_group_decode_pairs() {
    let group = turnout_group_decode(0b1000_0001, 0b0000_0010);
    assert_eq!(group[0], (true, false));
    assert_eq!(group[1], (false, true));
    assert_eq!(group[7], (true, false));
    for i in 2..7usize {
        assert_eq!(group[i], (false, false));
    }
}

#[test]
fn s88_param_packs_nibble_and_reset() {
    assert_eq!(s88_param_encode(0x35, false), 0x05);
    assert_eq!(s88_param_encode(0x05, true), 0x85);
    assert_eq!(s88_param_encode(0x00, true), 0x80);
}

#[test]
fn str_to_bool_accepts_truthy_words() {
    assert!(str_to_bool("true"));
    assert!(str_to_bool("TRUE"));
    assert!(str_to_bool("TrUe"));
    assert!(str_to_bool("t"));
    assert!(str_to_bool("T"));
    assert!(str_to_bool("1"));
    assert!(str_to_bool("one"));
    assert!(str_to_bool("ONE"));
    assert!(str_to_bool("yes"));
    assert!(str_to_bool("Yes"));
    assert!(str_to_bool("y"));
}

#[test]
fn str_to_bool_rejects_everything_else() {
    assert!(!str_to_bool("false"));
    assert!(!str_to_bool("0"));
    assert!(!str_to_bool("no"));
    assert!(!str_to_bool(""));
    assert!(!str_to_bool("truex"));
    assert!(!str_to_bool("2"));
}

#[test]
fn reply_descriptions() {
    assert_eq!(P50XReply::Okay.describe(), "Ok");
    assert_eq!(P50XReply::LokBusy.describe(), "Locomotive already controlled by another device");
    assert_eq!(P50XReply::Unknown.describe(), "Unknown error");
}
