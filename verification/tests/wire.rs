use std::collections::HashSet;

use h3::client::{builder, Builder};
use h3::frame::{
    encode_chromium_grease, encode_grease, encode_priority_update, write_frame, Frame, SettingId,
    SettingsError,
};
use h3::varint::{get_var, var_len, write_var, VARINT_MAX};

struct WireCapture {
    settings: Vec<(u64, u64)>,
    control_frames: Vec<(u64, Vec<u8>)>,
    request_grease: bool,
    extra_uni_stream: bool,
}

fn take_var(input: &mut &[u8]) -> u64 {
    let (value, len) = get_var(input).unwrap();
    *input = &input[len..];
    value
}

fn take_frame(input: &mut &[u8]) -> (u64, Vec<u8>) {
    let ty = take_var(input);
    let len = take_var(input) as usize;
    let payload = input[..len].to_vec();
    *input = &input[len..];
    (ty, payload)
}

fn capture(builder: &Builder) -> WireCapture {
    assert!(builder.is_buildable());
    let client = builder.build::<u64>().unwrap();
    let control = client.control_stream.unwrap();
    let mut input = control.as_slice();
    assert_eq!(take_var(&mut input), 0);
    let (ty, payload) = take_frame(&mut input);
    assert_eq!(ty, 4, "SETTINGS must be the first control frame");
    let mut entries = payload.as_slice();
    let mut settings = Vec::new();
    while !entries.is_empty() {
        let id = take_var(&mut entries);
        let value = take_var(&mut entries);
        settings.push((id, value));
    }
    let mut control_frames = Vec::new();
    while !input.is_empty() {
        control_frames.push(take_frame(&mut input));
    }
    WireCapture {
        settings,
        control_frames,
        request_grease: client.request.send_grease_frame,
        extra_uni_stream: client.open_grease_stream,
    }
}

fn capture_wire(chromium: bool, setting_grease: bool, control_grease: bool) -> WireCapture {
    let mut builder = builder();
    builder
        .send_grease(setting_grease)
        .chromium_grease(chromium)
        .control_grease_frame(control_grease)
        .ordered_settings(vec![(1, 65536), (7, 100)])
        .priority_updates(vec![(0, b"u=0, i".to_vec())]);
    capture(&builder)
}

#[test]
fn chromium_settings_grease_uses_u32_random_id_and_value() {
    let capture = capture_wire(true, true, true);
    assert_eq!(&capture.settings[..2], &[(1, 65536), (7, 100)]);
    assert_eq!(capture.settings.len(), 3);
    let (id, value) = capture.settings[2];
    assert_eq!((id - 33) % 31, 0);
    assert!(
        id <= 133_143_986_178,
        "GREASE setting ID exceeds Chromium's u32 range: {id}"
    );
    assert!(value <= u32::MAX as u64);
}

#[test]
fn chromium_control_grease_has_short_random_payload_before_priority() {
    let capture = capture_wire(true, true, true);
    let (ty, payload) = &capture.control_frames[0];
    assert_eq!((ty - 33) % 31, 0);
    assert!(
        payload.len() <= 3,
        "Chromium GREASE payload must be 0..=3 bytes"
    );
    assert!(ty <= &133_143_986_178);
    assert_eq!(payload.len() as u64, ((ty - 33) / 31) % 4);
    assert_eq!(capture.control_frames[1], (0xf0700, b"\0u=0, i".to_vec()));
}

#[test]
fn chromium_get_fin_has_no_request_grease_or_reserved_uni_stream() {
    let capture = capture_wire(true, true, true);
    assert!(
        !capture.request_grease,
        "GET must end immediately after HEADERS"
    );
    assert!(!capture.extra_uni_stream);
}

#[test]
fn legacy_grease_keeps_zero_setting_and_six_byte_frame_payloads() {
    let capture = capture_wire(false, true, true);
    assert_eq!(capture.settings[2].1, 0);
    assert_eq!(capture.control_frames[0].1, b"grease");
    assert!(capture.request_grease);
    let mut request_frame = Vec::new();
    Frame::Grease.encode(&mut request_frame);
    assert_eq!(take_frame(&mut request_frame.as_slice()).1, b"grease");
    assert!(capture.extra_uni_stream);
}

#[test]
fn chromium_mode_respects_disabled_grease_flags() {
    let capture = capture_wire(true, false, false);
    assert_eq!(capture.settings, [(1, 65536), (7, 100)]);
    assert_eq!(capture.control_frames, [(0xf0700, b"\0u=0, i".to_vec())]);
    assert!(!capture.request_grease);
    assert!(!capture.extra_uni_stream);
}

#[test]
fn chromium_control_grease_can_be_enabled_without_setting_grease() {
    let capture = capture_wire(true, false, true);
    assert_eq!(capture.settings, [(1, 65536), (7, 100)]);
    assert_eq!(capture.control_frames.len(), 2);
    assert!(capture.control_frames[0].1.len() <= 3);
    assert_eq!(capture.control_frames[1], (0xf0700, b"\0u=0, i".to_vec()));
    assert!(!capture.request_grease);
    assert!(!capture.extra_uni_stream);
}

#[test]
fn chromium_setting_grease_can_be_enabled_without_control_grease() {
    let capture = capture_wire(true, true, false);
    assert_eq!(capture.settings.len(), 3);
    assert_eq!((capture.settings[2].0 - 33) % 31, 0);
    assert_eq!(capture.control_frames, [(0xf0700, b"\0u=0, i".to_vec())]);
    assert!(!capture.request_grease);
    assert!(!capture.extra_uni_stream);
}

#[test]
fn chromium_control_grease_randomizes_payload_length_and_bytes() {
    fastrand::seed(42);
    let mut lengths = HashSet::new();
    let mut nonempty_payloads = HashSet::new();
    for _ in 0..64 {
        let mut wire = Vec::new();
        Frame::ChromiumGrease.encode(&mut wire);
        let mut input = wire.as_slice();
        let ty = take_var(&mut input);
        let len = take_var(&mut input);
        assert_eq!(len, ((ty - 33) / 31) % 4);
        assert_eq!(len as usize, input.len());
        lengths.insert(len);
        if len != 0 {
            nonempty_payloads.insert(input.to_vec());
        }
    }
    assert_eq!(lengths, HashSet::from([0, 1, 2, 3]));
    assert!(
        nonempty_payloads.len() > 3,
        "GREASE payload bytes must vary"
    );
}

#[test]
fn control_stream_without_extras_is_type_and_settings() {
    let mut builder = builder();
    builder
        .send_grease(false)
        .ordered_settings(vec![(1, 65536), (7, 100)]);
    let client = builder.build::<u64>().unwrap();
    assert_eq!(
        client.control_stream,
        Some(vec![0, 4, 8, 1, 0x80, 1, 0, 0, 7, 0x40, 100])
    );
}

#[test]
fn priority_updates_keep_their_order() {
    let mut builder = builder();
    builder
        .send_grease(false)
        .ordered_settings(Vec::new())
        .priority_updates(vec![(4, b"u=1".to_vec()), (64, Vec::new()), (0, b"i".to_vec())]);
    let capture = capture(&builder);
    assert_eq!(
        capture.control_frames,
        [
            (0xf0700, b"\x04u=1".to_vec()),
            (0xf0700, b"\x40\x40".to_vec()),
            (0xf0700, b"\0i".to_vec())
        ]
    );
}

#[test]
fn default_client_sends_the_built_in_settings_and_one_reserved_one() {
    let mut builder = builder();
    builder
        .enable_datagram(true)
        .enable_extended_connect(true)
        .additional_settings(vec![(7, 100)]);
    let capture = capture(&builder);
    assert_eq!(
        &capture.settings[..6],
        &[
            (0x6, VARINT_MAX),
            (0x8, 1),
            (0x2b60_3742, 0),
            (0x33, 1),
            (0x2b60_3743, 0),
            (7, 100)
        ]
    );
    assert_eq!(capture.settings.len(), 7);
    assert!(capture.control_frames.is_empty());
    assert!(capture.request_grease);
    assert!(capture.extra_uni_stream);
}

#[test]
fn no_control_stream_without_settings() {
    let mut builder = builder();
    builder
        .send_settings(false)
        .ordered_settings(vec![(1, 1), (1, 1)]);
    assert_eq!(builder.build::<u64>().ok().unwrap().control_stream, None);
    builder.send_settings(true);
    assert_eq!(
        builder.build::<u64>().err(),
        Some(SettingsError::Repeated(SettingId(1)))
    );
}

#[test]
fn frames_are_type_length_payload() {
    let mut wire = Vec::new();
    write_frame(0x21, &[1, 2], &mut wire);
    encode_chromium_grease(1, &vec![9], &mut wire);
    encode_grease(0, &mut wire);
    encode_priority_update(0, &b"u=0, i".to_vec(), &mut wire);
    let mut input = wire.as_slice();
    assert_eq!(take_frame(&mut input), (0x21, vec![1, 2]));
    assert_eq!(take_frame(&mut input), (64, vec![9]));
    assert_eq!(take_frame(&mut input), (33, b"grease".to_vec()));
    assert_eq!(take_frame(&mut input), (0xf0700, b"\0u=0, i".to_vec()));
    assert!(input.is_empty());

    assert!(Frame::Grease.is_encodable());
    assert!(Frame::PriorityUpdate(VARINT_MAX, Vec::new()).is_encodable());
    assert!(!Frame::PriorityUpdate(VARINT_MAX + 1, Vec::new()).is_encodable());
    let mut wire = Vec::new();
    Frame::PriorityUpdate(1, vec![5]).encode(&mut wire);
    assert_eq!(wire, [0x80, 0x0f, 0x07, 0, 2, 1, 5]);
}

#[test]
fn legacy_grease_frame_types_vary() {
    let mut types = HashSet::new();
    for _ in 0..32 {
        let mut wire = Vec::new();
        Frame::Grease.encode(&mut wire);
        let (ty, payload) = take_frame(&mut wire.as_slice());
        assert_eq!((ty - 33) % 31, 0);
        assert_eq!(payload, b"grease");
        types.insert(ty);
    }
    assert!(types.len() > 1);
}

#[test]
fn variable_length_integers_have_their_documented_forms() {
    let forms: [(u64, &[u8]); 8] = [
        (37, &[0x25]),
        (63, &[0x3f]),
        (64, &[0x40, 0x40]),
        (15_293, &[0x7b, 0xbd]),
        (16_384, &[0x80, 0x00, 0x40, 0x00]),
        (494_878_333, &[0x9d, 0x7f, 0x3e, 0x7d]),
        (
            151_288_809_941_952_652,
            &[0xc2, 0x19, 0x7c, 0x5e, 0xff, 0x14, 0xe8, 0x8c],
        ),
        (VARINT_MAX, &[0xff; 8]),
    ];
    for (value, form) in forms {
        let mut wire = Vec::new();
        write_var(value, &mut wire);
        assert_eq!(wire, form);
        assert_eq!(var_len(value), form.len());
        wire.push(0xaa);
        assert_eq!(get_var(&wire), Some((value, form.len())));
        assert_eq!(get_var(&form[..form.len() - 1]), None);
    }
    assert_eq!(get_var(&[0x40, 0x25]), Some((37, 2)));
}

#[test]
fn a_client_that_writes_nothing_can_always_be_built() {
    let mut too_large = builder();
    too_large.max_field_section_size(VARINT_MAX + 1);
    assert!(!too_large.is_buildable());
    too_large.send_settings(false);
    assert!(too_large.is_buildable());
    let client = too_large.build::<u64>().unwrap();
    assert!(client.control_stream.is_none());
    assert_eq!(client.request.max_field_section_size, VARINT_MAX + 1);

    let mut repeated = builder();
    repeated.ordered_settings(vec![(1, VARINT_MAX + 1), (1, 0)]);
    assert!(repeated.is_buildable());
    assert!(matches!(
        repeated.build::<u64>(),
        Err(SettingsError::Repeated(SettingId(1)))
    ));
}
