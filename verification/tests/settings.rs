use std::collections::HashSet;

use h3::client::builder;
use h3::config::{chromium_grease_setting, finish_settings, Config, PseudoHeader, Settings};
use h3::frame;
use h3::frame::{SettingId, SettingsError};
use h3::varint::{get_var, VARINT_MAX};

fn take_var(input: &mut &[u8]) -> u64 {
    let (value, len) = get_var(input).unwrap();
    *input = &input[len..];
    value
}

fn decode_settings(settings: frame::Settings) -> Vec<(u64, u64)> {
    let mut wire = Vec::new();
    settings.encode(&mut wire);
    let mut input = wire.as_slice();
    assert_eq!(take_var(&mut input), 4);
    let length = take_var(&mut input);
    assert_eq!(length as usize, input.len());
    let mut entries = Vec::new();
    while !input.is_empty() {
        let id = take_var(&mut input);
        let value = take_var(&mut input);
        entries.push((id, value));
    }
    entries
}

fn from_pairs(pairs: &[(u64, u64)]) -> frame::Settings {
    let mut settings = frame::Settings::default();
    for (id, value) in pairs {
        settings.insert(SettingId(*id), *value).unwrap();
    }
    settings
}

#[test]
fn chromium_settings_sort_low_grease_id_before_datagram() {
    let mut settings = frame::Settings::default();
    settings.insert(frame::SettingId(51), 1).unwrap();
    settings.insert(frame::SettingId(7), 100).unwrap();
    settings.insert(frame::SettingId(1), 65536).unwrap();

    let settings = finish_settings(settings, Some((frame::SettingId(33), 42)), true);
    let mut wire = Vec::new();
    settings.encode(&mut wire);
    assert_eq!(wire, [4, 12, 1, 0x80, 1, 0, 0, 7, 0x40, 100, 33, 42, 51, 1]);
}

#[test]
fn chromium_sorts_settings_even_when_random_grease_is_disabled() {
    let mut config = Config::default();
    config.send_grease = false;
    config.chromium_grease = true;
    config.ordered_settings = Some(vec![(51, 1), (33, 42), (7, 100), (1, 65536)]);
    let settings = frame::Settings::try_from(config).unwrap();
    assert_eq!(
        decode_settings(settings),
        [(1, 65536), (7, 100), (33, 42), (51, 1)]
    );
}

#[test]
fn generic_settings_preserve_explicit_order() {
    let mut config = Config::default();
    config.send_grease = false;
    config.ordered_settings = Some(vec![(51, 1), (33, 42), (7, 100), (1, 65536)]);
    let settings = frame::Settings::try_from(config).unwrap();
    assert_eq!(
        decode_settings(settings),
        [(51, 1), (33, 42), (7, 100), (1, 65536)]
    );
}

#[test]
fn chromium_settings_grease_randomizes_value_independently_from_id() {
    fastrand::seed(42);
    let mut values = HashSet::new();
    let mut independent = false;
    for _ in 0..32 {
        let mut config = Config::default();
        config.chromium_grease = true;
        config.ordered_settings = Some(Vec::new());
        let settings = frame::Settings::try_from(config).unwrap();
        let mut wire = Vec::new();
        settings.encode(&mut wire);
        let mut input = wire.as_slice();
        assert_eq!(take_var(&mut input), 4);
        let _length = take_var(&mut input);
        let id = take_var(&mut input);
        let value = take_var(&mut input);
        assert!(input.is_empty());
        values.insert(value);
        independent |= value != (id - 33) / 31;
    }
    assert!(values.len() > 1, "GREASE setting value must not be fixed");
    assert!(
        independent,
        "GREASE setting value must use a separate random draw"
    );
}

#[test]
fn default_configuration_announces_the_built_in_settings() {
    let mut config = Config::default();
    config.send_grease = false;
    let settings = frame::Settings::try_from(config).unwrap();
    assert_eq!(
        decode_settings(settings),
        [
            (0x6, VARINT_MAX),
            (0x8, 0),
            (0x2b60_3742, 0),
            (0x33, 0),
            (0x2b60_3743, 0)
        ]
    );
}

#[test]
fn additional_settings_follow_the_built_in_ones() {
    let mut config = Config::default();
    config.send_grease = false;
    config.settings.max_field_section_size = 8192;
    config.settings.enable_datagram = true;
    config.additional_settings = vec![(1, 65536), (7, 100)];
    let settings = frame::Settings::try_from(config).unwrap();
    assert_eq!(
        decode_settings(settings),
        [
            (0x6, 8192),
            (0x8, 0),
            (0x2b60_3742, 0),
            (0x33, 1),
            (0x2b60_3743, 0),
            (1, 65536),
            (7, 100)
        ]
    );
}

#[test]
fn explicit_list_replaces_built_in_and_additional_settings() {
    let mut config = Config::default();
    config.send_grease = false;
    config.additional_settings = vec![(9, 9)];
    config.ordered_settings = Some(vec![(7, 100)]);
    let settings = frame::Settings::try_from(config).unwrap();
    assert_eq!(decode_settings(settings), [(7, 100)]);
}

#[test]
fn repeated_identifiers_are_refused() {
    let mut config = Config::default();
    config.additional_settings = vec![(7, 100), (0x33, 1), (7, 5)];
    assert_eq!(
        frame::Settings::try_from(config).err(),
        Some(SettingsError::Repeated(SettingId(0x33)))
    );

    let mut config = Config::default();
    config.ordered_settings = Some(vec![(1, 2), (3, 4), (1, 5)]);
    assert_eq!(
        config.base_settings().err(),
        Some(SettingsError::Repeated(SettingId(1)))
    );

    let mut settings = from_pairs(&[(1, 2)]);
    assert_eq!(
        settings.insert(SettingId(1), 3),
        Err(SettingsError::Repeated(SettingId(1)))
    );
    assert_eq!(settings.get(SettingId(1)), Some(2));
    assert_eq!(settings.get(SettingId(2)), None);
}

#[test]
fn legacy_grease_setting_comes_last_with_value_zero() {
    for _ in 0..32 {
        let mut config = Config::default();
        config.ordered_settings = Some(vec![(51, 1), (7, 100)]);
        let entries = decode_settings(frame::Settings::try_from(config).unwrap());
        assert_eq!(&entries[..2], &[(51, 1), (7, 100)]);
        assert_eq!(entries.len(), 3);
        let (id, value) = entries[2];
        assert_eq!((id - 33) % 31, 0);
        assert!(id <= VARINT_MAX);
        assert_eq!(value, 0);
    }
}

#[test]
fn grease_identifiers_vary() {
    let ids: HashSet<u64> = (0..32).map(|_| SettingId::grease().0).collect();
    assert!(ids.len() > 1);
    assert!(ids.iter().all(|id| (id - 33) % 31 == 0));
    assert_eq!(SettingId::reserved(0), SettingId(33));
    assert_eq!(SettingId::reserved(2), SettingId(95));
}

#[test]
fn chromium_grease_setting_is_made_of_two_draws() {
    assert_eq!(chromium_grease_setting(0, 0), (SettingId(33), 0));
    assert_eq!(chromium_grease_setting(1, 7), (SettingId(64), 7));
    assert_eq!(
        chromium_grease_setting(u32::MAX, u32::MAX),
        (SettingId(133_143_986_178), 4_294_967_295)
    );
}

#[test]
fn grease_setting_whose_identifier_is_taken_is_left_out() {
    let settings = finish_settings(from_pairs(&[(64, 1), (33, 2)]), Some((SettingId(33), 9)), false);
    assert_eq!(decode_settings(settings), [(64, 1), (33, 2)]);
    let settings = finish_settings(from_pairs(&[(64, 1), (33, 2)]), Some((SettingId(33), 9)), true);
    assert_eq!(decode_settings(settings), [(33, 2), (64, 1)]);
    let settings = finish_settings(from_pairs(&[(64, 1)]), Some((SettingId(33), 9)), false);
    assert_eq!(decode_settings(settings), [(64, 1), (33, 9)]);
    let settings = finish_settings(from_pairs(&[(64, 1)]), None, true);
    assert_eq!(decode_settings(settings), [(64, 1)]);
}

#[test]
fn peer_learns_the_configured_settings() {
    for chromium in [false, true] {
        let mut config = Config::default();
        config.chromium_grease = chromium;
        config.settings.max_field_section_size = 4096;
        config.settings.enable_webtransport = true;
        config.settings.enable_extended_connect = true;
        config.settings.max_webtransport_sessions = 3;
        config.additional_settings = vec![(7, 100), (1, 65536)];
        let configured = config.settings;
        let received = Settings::from(&frame::Settings::try_from(config).unwrap());
        assert_eq!(received, configured);
        assert!(received.enable_webtransport());
        assert!(received.enable_extended_connect());
        assert!(!received.enable_datagram());
    }
}

#[test]
fn settings_that_are_not_mentioned_stay_at_their_defaults() {
    assert_eq!(Settings::from(&frame::Settings::default()), Settings::default());
    let received = Settings::from(&from_pairs(&[(0x33, 2), (0x6, 10)]));
    assert!(received.enable_datagram());
    assert_eq!(received.max_field_section_size, 10);
    assert_eq!(received.max_webtransport_sessions, 0);
    assert!(!received.enable_webtransport());
}

#[test]
fn default_settings_are_the_initial_values() {
    let settings = Settings::default();
    assert_eq!(settings.max_field_section_size, 4_611_686_018_427_387_903);
    assert!(!settings.enable_webtransport);
    assert!(!settings.enable_extended_connect);
    assert!(!settings.enable_datagram);
    assert_eq!(settings.max_webtransport_sessions, 0);
}

#[test]
fn settings_that_do_not_fit_the_wire_are_told_apart() {
    assert!(from_pairs(&[(1, VARINT_MAX)]).is_encodable());
    assert!(!from_pairs(&[(1, VARINT_MAX + 1)]).is_encodable());
    assert!(!from_pairs(&[(VARINT_MAX + 1, 1)]).is_encodable());

    let mut config = Config::default();
    assert!(config.is_encodable());
    config.settings.max_field_section_size = u64::MAX;
    assert!(!config.is_encodable());
    config.ordered_settings = Some(vec![(1, 2)]);
    assert!(config.is_encodable());
    config.priority_updates = vec![(VARINT_MAX, Vec::new()), (VARINT_MAX + 1, Vec::new())];
    assert!(!config.is_encodable());
    let mut config = Config::default();
    config.settings.max_webtransport_sessions = u64::MAX;
    assert!(!config.is_encodable());
    let mut config = Config::default();
    config.additional_settings = vec![(1, u64::MAX)];
    assert!(!config.is_encodable());
}

#[test]
fn builder_keeps_the_last_value_of_each_option() {
    let mut builder = builder();
    builder
        .max_field_section_size(1)
        .max_field_section_size(8192)
        .send_grease(false)
        .pseudo_header_order(vec![PseudoHeader::Method, PseudoHeader::Path]);
    let options = builder.request_options();
    assert_eq!(options.max_field_section_size, 8192);
    assert!(!options.send_grease_frame);
    assert_eq!(
        options.pseudo_header_order,
        Some(vec![PseudoHeader::Method, PseudoHeader::Path])
    );
}

#[test]
fn sorting_does_not_depend_on_the_order_of_insertion() {
    let mut a = from_pairs(&[(51, 1), (1, 2), (VARINT_MAX, 3), (33, 4)]);
    let mut b = from_pairs(&[(VARINT_MAX, 3), (33, 4), (51, 1), (1, 2)]);
    a.sort_by_id();
    b.sort_by_id();
    let sorted = decode_settings(a);
    assert_eq!(sorted, [(1, 2), (33, 4), (51, 1), (VARINT_MAX, 3)]);
    assert_eq!(sorted, decode_settings(b));
    let mut empty = frame::Settings::default();
    empty.sort_by_id();
    assert_eq!(decode_settings(empty), []);
}

#[test]
fn an_entry_takes_at_most_sixteen_bytes() {
    let mut wire = Vec::new();
    from_pairs(&[(VARINT_MAX, VARINT_MAX)]).encode(&mut wire);
    assert_eq!(wire.len(), 2 + 16);
    assert_eq!(&wire[..2], &[4, 16]);
}

#[test]
fn reserved_identifiers_are_never_built_in() {
    let built_in = [
        frame::MAX_HEADER_LIST_SIZE,
        frame::ENABLE_CONNECT_PROTOCOL,
        frame::ENABLE_WEBTRANSPORT,
        frame::H3_DATAGRAM,
        frame::WEBTRANSPORT_MAX_SESSIONS,
    ];
    for id in built_in {
        let n = id / 31;
        for near in n.saturating_sub(2)..=n {
            assert_ne!(frame::SettingId::reserved(near).0, id);
        }
    }
    assert_eq!(frame::SettingId::reserved(0).0, 33);
    assert_eq!(frame::SettingId::reserved(1).0, 64);
}

#[test]
fn what_a_fitting_configuration_sends_fits_the_wire() {
    for chromium in [false, true] {
        let mut config = Config::default();
        config.chromium_grease = chromium;
        assert!(config.is_encodable());
        let settings = frame::Settings::try_from(config).unwrap();
        assert!(settings.is_encodable());
        assert_eq!(decode_settings(settings).len(), 6);
    }
}
