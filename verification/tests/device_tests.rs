//! End-to-end command tests against the scripted in-memory transport.

use p50x::{
    Device, Error, MockTransport, P50XBinary, P50XReply, TransportError, XLokOptions,
    XTurnoutOptions,
};

/// The three handshake reply bytes every successful `open` consumes.
fn handshake(extra: &[u8]) -> Vec<u8> {
    let mut script = vec![0x00u8, 0x00, 0x00];
    script.extend_from_slice(extra);
    script
}

#[test]
fn open_succeeds_on_both_probes() {
    let device = Device::open(MockTransport::new(handshake(&[]))).unwrap();
    assert_eq!(*device.transport().written(), vec![0x58u8, 0xc4, 0xc4]);
    assert_eq!(device.transport().remaining(), 0);
}

#[test]
fn open_fails_on_bad_first_probe() {
    let (err, mock) = Device::open(MockTransport::new(vec![0x01u8])).err().unwrap();
    assert_eq!(err, Error::UnknownDevice);
    // Only the first probe went out before the wrong answer.
    assert_eq!(*mock.written(), vec![0x58u8, 0xc4]);
}

#[test]
fn open_fails_on_bad_second_probe() {
    let (err, mock) = Device::open(MockTransport::new(vec![0x00u8, 0x00, 0x07])).err().unwrap();
    assert_eq!(err, Error::UnknownDevice);
    assert_eq!(*mock.written(), vec![0x58u8, 0xc4, 0xc4]);
}

#[test]
fn open_fails_on_silent_transport() {
    let (err, _mock) = Device::open(MockTransport::new(Vec::new())).err().unwrap();
    assert_eq!(err, Error::Transport(TransportError::Timeout));
}

#[test]
fn xpower_on_denied_is_false_not_error() {
    let mut device = Device::open(MockTransport::new(handshake(&[0x06]))).unwrap();
    assert_eq!(device.xpower_on().unwrap(), false);
    assert_eq!(*device.transport().written(), vec![0x58u8, 0xc4, 0xc4, 0x58, 0xa7]);
}

#[test]
fn xpower_on_ok_is_true() {
    let mut device = Device::open(MockTransport::new(handshake(&[0x00]))).unwrap();
    assert_eq!(device.xpower_on().unwrap(), true);
}

#[test]
fn xpower_off_sends_frame() {
    let mut device = Device::open(MockTransport::new(handshake(&[0x00]))).unwrap();
    device.xpower_off().unwrap();
    assert_eq!(*device.transport().written(), vec![0x58u8, 0xc4, 0xc4, 0x58, 0xa6]);
}

#[test]
fn xhalt_sends_frame() {
    let mut device = Device::open(MockTransport::new(handshake(&[0x00]))).unwrap();
    device.xhalt().unwrap();
    assert_eq!(*device.transport().written(), vec![0x58u8, 0xc4, 0xc4, 0x58, 0xa5]);
}

#[test]
fn xlok_forward_with_functions() {
    let mut device = Device::open(MockTransport::new(handshake(&[0x00]))).unwrap();
    let options = XLokOptions {
        emergency_stop: false,
        force: false,
        light: true,
        functions: Some([true, false, true, false]),
    };
    device.xlok(3, 10, options).unwrap();
    assert_eq!(
        *device.transport().written(),
        vec![0x58u8, 0xc4, 0xc4, 0x58, 0x80, 0x03, 0x00, 0x0a, 0x9a]
    );
}

#[test]
fn xlok_reverse_emergency() {
    let mut device = Device::open(MockTransport::new(handshake(&[0x00]))).unwrap();
    let options =
        XLokOptions { emergency_stop: true, force: true, light: false, functions: None };
    device.xlok(1, -50, options).unwrap();
    assert_eq!(
        *device.transport().written(),
        vec![0x58u8, 0xc4, 0xc4, 0x58, 0x80, 0x01, 0x00, 0x01, 0x40]
    );
}

#[test]
fn xversion_reads_chunked_stream() {
    let mut device =
        Device::open(MockTransport::new(handshake(&[0x02, 0xaa, 0xbb, 0x01, 0xcc, 0x00])))
            .unwrap();
    let version = device.xversion().unwrap();
    assert_eq!(version, vec![0x02u8, 0xaa, 0xbb, 0x01, 0xcc, 0x00]);
    assert_eq!(*device.transport().written(), vec![0x58u8, 0xc4, 0xc4, 0x58, 0xa0]);
}

#[test]
fn read_ahead_preserves_surplus_bytes() {
    // The transport answers the xnop reply byte and one more byte in a
    // single delivery; the surplus must satisfy the next read without
    // touching the transport again.
    let mut device = Device::open(MockTransport::new(handshake(&[0x00, 0x42]))).unwrap();
    device.xnop().unwrap();
    assert_eq!(device.transport().remaining(), 0);
    let next = device.recv(1).unwrap();
    assert_eq!(next, vec![0x42u8]);
}

#[test]
fn xstatus_unpacks_reply_byte() {
    let mut device = Device::open(MockTransport::new(handshake(&[0x42]))).unwrap();
    let status = device.xstatus().unwrap();
    assert!(status.go_pressed);
    assert!(status.voltage_regulation);
    assert!(!status.power);
    assert_eq!(*device.transport().written(), vec![0x58u8, 0xc4, 0xc4, 0x58, 0xa2]);
}

#[test]
fn xso_get_present_and_absent() {
    let mut device = Device::open(MockTransport::new(handshake(&[0x00, 0x2a, 0x02]))).unwrap();
    assert_eq!(device.xso_get(0x0102).unwrap(), Some(0x2a));
    assert_eq!(device.xso_get(0x0102).unwrap(), None);
    assert_eq!(
        *device.transport().written(),
        vec![0x58u8, 0xc4, 0xc4, 0x58, 0xa4, 0x02, 0x01, 0x58, 0xa4, 0x02, 0x01]
    );
}

#[test]
fn xso_set_sends_operands() {
    let mut device = Device::open(MockTransport::new(handshake(&[0x00]))).unwrap();
    device.xso_set(0x0102, 0x2a).unwrap();
    assert_eq!(
        *device.transport().written(),
        vec![0x58u8, 0xc4, 0xc4, 0x58, 0xa3, 0x02, 0x01, 0x2a]
    );
}

#[test]
fn xso_set_rejected_value_is_error() {
    let mut device = Device::open(MockTransport::new(handshake(&[0x0f]))).unwrap();
    let err = device.xso_set(1, 2).err().unwrap();
    assert_eq!(err, Error::ProtocolReply(P50XReply::BadSpecialOptionValue));
}

#[test]
fn xp50xch_changes_prefix_for_later_commands() {
    let mut device = Device::open(MockTransport::new(handshake(&[0x00, 0x00]))).unwrap();
    device.xp50xch(0x59).unwrap();
    device.xnop().unwrap();
    assert_eq!(
        *device.transport().written(),
        vec![0x58u8, 0xc4, 0xc4, 0x58, 0xa1, 0x59, 0x59, 0xc4]
    );
}

#[test]
fn unknown_reply_byte_is_unknown_response() {
    let mut device = Device::open(MockTransport::new(handshake(&[0x55]))).unwrap();
    let err = device.xnop().err().unwrap();
    assert_eq!(err, Error::UnknownResponse(vec![0x55]));
}

#[test]
fn known_bad_reply_is_protocol_reply() {
    let mut device = Device::open(MockTransport::new(handshake(&[0x0c]))).unwrap();
    let options = XLokOptions::default();
    let err = device.xlok(9999, 5, options).err().unwrap();
    assert_eq!(err, Error::ProtocolReply(P50XReply::BadLokParameter));
}

#[test]
fn timeout_surfaces_as_transport_error() {
    let mut device = Device::open(MockTransport::new(handshake(&[]))).unwrap();
    let err = device.xnop().err().unwrap();
    assert_eq!(err, Error::Transport(TransportError::Timeout));
}

#[test]
fn xlok_status_decodes_payload() {
    let mut device =
        Device::open(MockTransport::new(handshake(&[0x00, 0x0a, 0x35, 0x0b]))).unwrap();
    let status = device.xlok_status(3).unwrap();
    assert_eq!(status.speed, -10);
    assert_eq!(status.real_speed, -11);
    assert!(status.options.light);
    assert_eq!(status.options.functions, Some([true, false, true, false]));
    assert_eq!(
        *device.transport().written(),
        vec![0x58u8, 0xc4, 0xc4, 0x58, 0x84, 0x03, 0x00]
    );
}

#[test]
fn xlok_config_decodes_payload() {
    let mut device =
        Device::open(MockTransport::new(handshake(&[0x00, 0x02, 0x1c, 0xff, 0xff]))).unwrap();
    let config = device.xlok_config(3).unwrap();
    assert_eq!(config.protocol, p50x::XProtocol::DCC);
    assert_eq!(config.speed_steps, 28);
    assert_eq!(config.virtual_address, None);
}

#[test]
fn xlok_dispatch_shapes_depend_on_address() {
    let mut device = Device::open(MockTransport::new(handshake(&[0xaa, 0x00]))).unwrap();
    assert_eq!(device.xlok_dispatch(0x0100).unwrap(), Some(0xaa));
    assert_eq!(device.xlok_dispatch(0x0003).unwrap(), None);
    assert_eq!(
        *device.transport().written(),
        vec![0x58u8, 0xc4, 0xc4, 0x58, 0x83, 0x00, 0x01, 0x58, 0x83, 0x03, 0x00]
    );
}

#[test]
fn xfunc_sends_bitmask() {
    let mut device = Device::open(MockTransport::new(handshake(&[0x00]))).unwrap();
    device.xfunc(7, [true, false, false, true, true, false, true, false]).unwrap();
    assert_eq!(
        *device.transport().written(),
        vec![0x58u8, 0xc4, 0xc4, 0x58, 0x88, 0x07, 0x00, 0x59]
    );
}

#[test]
fn xfunc_status_reads_bitmask() {
    let mut device = Device::open(MockTransport::new(handshake(&[0x00, 0x59]))).unwrap();
    let functions = device.xfunc_status(7).unwrap();
    assert_eq!(functions, [true, false, false, true, true, false, true, false]);
}

#[test]
fn xfuncx_uses_extended_opcode() {
    let mut device = Device::open(MockTransport::new(handshake(&[0x00, 0x00, 0x03]))).unwrap();
    device.xfuncx(7, [true, true, false, false, false, false, false, false]).unwrap();
    let functions = device.xfuncx_status(7).unwrap();
    assert_eq!(functions, [true, true, false, false, false, false, false, false]);
    assert_eq!(
        *device.transport().written(),
        vec![0x58u8, 0xc4, 0xc4, 0x58, 0x89, 0x07, 0x00, 0x03, 0x58, 0x8d, 0x07, 0x00]
    );
}

#[test]
fn xturnout_packs_address_and_options() {
    let mut device = Device::open(MockTransport::new(handshake(&[0x00]))).unwrap();
    let options = XTurnoutOptions::default();
    device.xturnout(0x7ff, true, options).unwrap();
    assert_eq!(
        *device.transport().written(),
        vec![0x58u8, 0xc4, 0xc4, 0x58, 0x90, 0xff, 0xc7]
    );
}

#[test]
fn xturnout_free_sends_frame() {
    let mut device = Device::open(MockTransport::new(handshake(&[0x00]))).unwrap();
    device.xturnout_free().unwrap();
    assert_eq!(*device.transport().written(), vec![0x58u8, 0xc4, 0xc4, 0x58, 0x93]);
}

#[test]
fn xturnout_status_decodes_byte() {
    let mut device = Device::open(MockTransport::new(handshake(&[0x00, 0x06]))).unwrap();
    let status = device.xturnout_status(5).unwrap();
    assert!(status.reserved);
    assert!(status.state);
    assert_eq!(status.protocol, p50x::XProtocol::Motorola);
}

#[test]
fn xturnout_group_decodes_masks() {
    let mut device = Device::open(MockTransport::new(handshake(&[0x00, 0x81, 0x02]))).unwrap();
    let group = device.xturnout_group(2).unwrap();
    assert_eq!(group[0], (true, false));
    assert_eq!(group[1], (false, true));
    assert_eq!(group[7], (true, false));
    assert_eq!(*device.transport().written(), vec![0x58u8, 0xc4, 0xc4, 0x58, 0x95, 0x02]);
}

#[test]
fn xsensor_reads_little_endian_bitmap() {
    let mut device = Device::open(MockTransport::new(handshake(&[0x00, 0x01, 0xa0]))).unwrap();
    let contacts = device.xsensor(4).unwrap();
    assert!(contacts[0]);
    assert!(contacts[13]);
    assert!(contacts[15]);
    assert!(!contacts[1]);
    assert_eq!(*device.transport().written(), vec![0x58u8, 0xc4, 0xc4, 0x58, 0x98, 0x04]);
}

#[test]
fn xsens_off_sends_frame() {
    let mut device = Device::open(MockTransport::new(handshake(&[0x00]))).unwrap();
    device.xsens_off().unwrap();
    assert_eq!(*device.transport().written(), vec![0x58u8, 0xc4, 0xc4, 0x58, 0x99]);
}

#[test]
fn x88p_get_and_set() {
    let mut device = Device::open(MockTransport::new(handshake(&[0x00, 0x0b, 0x00]))).unwrap();
    assert_eq!(device.x88p_get(2).unwrap(), 0x0b);
    device.x88p_set(2, 0x0c).unwrap();
    assert_eq!(
        *device.transport().written(),
        vec![0x58u8, 0xc4, 0xc4, 0x58, 0x9c, 0x02, 0x58, 0x9d, 0x02, 0x0c]
    );
}

#[test]
fn xs88_timer_and_count_pack_operand() {
    let mut device =
        Device::open(MockTransport::new(handshake(&[0x00, 0x34, 0x12, 0x00, 0x01, 0x00])))
            .unwrap();
    assert_eq!(device.xs88_timer(0x25, true).unwrap(), 0x1234);
    assert_eq!(device.xs88_count(0x03, false).unwrap(), 0x0001);
    assert_eq!(
        *device.transport().written(),
        vec![0x58u8, 0xc4, 0xc4, 0x58, 0x9e, 0x85, 0x58, 0x9f, 0x03]
    );
}

#[test]
fn set_timeout_succeeds() {
    let mut device = Device::open(MockTransport::new(handshake(&[]))).unwrap();
    device.set_timeout(500).unwrap();
}

#[test]
fn send_u32_is_little_endian() {
    let mut device = Device::open(MockTransport::new(handshake(&[]))).unwrap();
    device.send_u32(0x01020304).unwrap();
    assert_eq!(
        *device.transport().written(),
        vec![0x58u8, 0xc4, 0xc4, 0x04, 0x03, 0x02, 0x01]
    );
}

#[test]
fn verify_connection_reports_probe_answers() {
    let mut device =
        Device::open(MockTransport::new(handshake(&[0x00, 0x00, 0x00]))).unwrap();
    assert_eq!(device.verify_connection().unwrap(), true);

    let mut device = Device::open(MockTransport::new(handshake(&[0x01]))).unwrap();
    assert_eq!(device.verify_connection().unwrap(), false);

    let mut device =
        Device::open(MockTransport::new(handshake(&[0x00, 0x00, 0x05]))).unwrap();
    assert_eq!(device.verify_connection().unwrap(), false);
}

#[test]
fn xversion_gives_up_on_endless_stream() {
    let mut script = vec![0x00u8, 0x00, 0x00];
    for _ in 0..256usize {
        script.push(0x01);
        script.push(0xaa);
    }
    let mut device = Device::open(MockTransport::new(script)).unwrap();
    let err = device.xversion().err().unwrap();
    match err {
        Error::UnknownResponse(bytes) => assert_eq!(bytes.len(), 512),
        _ => panic!("expected an unknown response"),
    }
}
