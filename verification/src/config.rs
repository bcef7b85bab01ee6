//! Configuration of an endpoint and the settings it exchanges with its peer.

use vstd::prelude::*;

use crate::frame;
use crate::frame::{
    SettingId, SettingsError, ENABLE_CONNECT_PROTOCOL, ENABLE_WEBTRANSPORT, H3_DATAGRAM,
    MAX_HEADER_LIST_SIZE, WEBTRANSPORT_MAX_SESSIONS,
};
#[allow(unused_imports)]
use crate::frame::{
    ascending_ids, entries_fit, has_id, law_first_entry_is_found, law_settings_payload_size,
    lemma_contains_permuted, lemma_lookup_unique, lemma_unique_ids_permuted, lookup, reserved, settings_payload, unique_ids,
    GREASE_RANGE,
};
use crate::random::random_u32;
use crate::varint::VARINT_MAX;

verus! {

/// Request pseudo-header identifiers that can be reordered before QPACK encoding.
#[derive(Debug, Clone, Copy, PartialEq, Eq, Structural)]
pub enum PseudoHeader {
    /// `:method`
    Method,
    /// `:scheme`
    Scheme,
    /// `:authority`
    Authority,
    /// `:path`
    Path,
    /// `:status`
    Status,
    /// `:protocol`
    Protocol,
}

/// Configures the HTTP/3 connection.
#[derive(Debug, Clone)]
#[non_exhaustive]
pub struct Config {
    /// Whether to add a reserved setting and, outside Chromium mode, reserved frames on request
    /// streams and a reserved unidirectional stream.
    pub send_grease: bool,
    /// Chromium mode: use Chromium's reserved values, and leave out the reserved frames on request
    /// streams and the reserved unidirectional stream.
    pub chromium_grease: bool,
    /// Whether to open the control stream with SETTINGS at all.
    pub send_settings: bool,
    /// HTTP/3 settings.
    pub settings: Settings,
    /// Extra settings appended after the built-in settings.
    pub additional_settings: Vec<(u64, u64)>,
    /// Exact ordered settings list to serialize when present.
    pub ordered_settings: Option<Vec<(u64, u64)>>,
    /// Preferred request pseudo-header serialization order.
    pub pseudo_header_order: Option<Vec<PseudoHeader>>,
    /// PRIORITY_UPDATE frames to send on the control stream after SETTINGS: the request stream ID
    /// and the priority field value (RFC 9218) of each.
    pub priority_updates: Vec<(u64, Vec<u8>)>,
    /// Whether to emit a single reserved frame on the control stream after SETTINGS. This is
    /// distinct from `send_grease`.
    pub send_control_grease_frame: bool,
}

/// HTTP/3 settings.
#[derive(Debug, Clone, Copy, PartialEq, Eq, Structural)]
pub struct Settings {
    /// The largest field section the endpoint is willing to accept.
    pub max_field_section_size: u64,
    /// Whether WebTransport is supported.
    pub enable_webtransport: bool,
    /// Whether the extended CONNECT method is supported.
    pub enable_extended_connect: bool,
    /// Whether HTTP datagrams are supported (RFC 9297).
    pub enable_datagram: bool,
    /// The number of concurrent WebTransport sessions the peer may open.
    pub max_webtransport_sessions: u64,
}

/// The settings before anything is configured, or before the peer's have arrived.
pub open spec fn default_settings() -> Settings {
    Settings {
        max_field_section_size: VARINT_MAX,
        enable_webtransport: false,
        enable_extended_connect: false,
        enable_datagram: false,
        max_webtransport_sessions: 0,
    }
}

impl Default for Settings {
    fn default() -> (settings: Self)
        ensures
            settings == default_settings(),
            settings.max_field_section_size == 0x3fff_ffff_ffff_ffff,
            !settings.enable_webtransport,
            !settings.enable_extended_connect,
            !settings.enable_datagram,
            settings.max_webtransport_sessions == 0,
    {
        Settings {
            max_field_section_size: VARINT_MAX,
            enable_webtransport: false,
            enable_extended_connect: false,
            enable_datagram: false,
            max_webtransport_sessions: 0,
        }
    }
}

impl Config {
    /// Whether this is the configuration of an endpoint that was told nothing.
    pub open spec fn is_default(self) -> bool {
        &&& self.send_grease
        &&& !self.chromium_grease
        &&& self.send_settings
        &&& self.settings == default_settings()
        &&& self.additional_settings@.len() == 0
        &&& self.ordered_settings is None
        &&& self.pseudo_header_order is None
        &&& self.priority_updates@.len() == 0
        &&& !self.send_control_grease_frame
    }
}

impl Default for Config {
    fn default() -> (config: Self)
        ensures
            config.is_default(),
            config.send_grease,
            !config.chromium_grease,
            config.send_settings,
            config.settings == default_settings(),
            config.additional_settings@.len() == 0,
            config.ordered_settings is None,
            config.pseudo_header_order is None,
            config.priority_updates@.len() == 0,
            !config.send_control_grease_frame,
    {
        Config {
            send_grease: true,
            chromium_grease: false,
            send_settings: true,
            settings: Default::default(),
            additional_settings: Vec::new(),
            ordered_settings: None,
            pseudo_header_order: None,
            priority_updates: Vec::new(),
            send_control_grease_frame: false,
        }
    }
}

impl Settings {
    /// Whether WebTransport is supported.
    pub fn enable_webtransport(&self) -> (enabled: bool)
        ensures
            enabled == self.enable_webtransport,
    {
        self.enable_webtransport
    }

    /// Whether HTTP datagrams are supported.
    pub fn enable_datagram(&self) -> (enabled: bool)
        ensures
            enabled == self.enable_datagram,
    {
        self.enable_datagram
    }

    /// Whether the extended CONNECT method is supported.
    pub fn enable_extended_connect(&self) -> (enabled: bool)
        ensures
            enabled == self.enable_extended_connect,
    {
        self.enable_extended_connect
    }
}

/// A flag as the value of a setting.
pub open spec fn flag(enabled: bool) -> u64 {
    if enabled {
        1
    } else {
        0
    }
}

/// The settings that a list of entries announces: what it does not mention stays at its default.
pub open spec fn announced(entries: Seq<(SettingId, u64)>) -> Settings {
    let number = |id: u64, default: u64|
        match lookup(entries, SettingId(id)) {
            Some(value) => value,
            None => default,
        };
    Settings {
        max_field_section_size: number(MAX_HEADER_LIST_SIZE, VARINT_MAX),
        enable_webtransport: number(ENABLE_WEBTRANSPORT, 0) != 0,
        enable_extended_connect: number(ENABLE_CONNECT_PROTOCOL, 0) != 0,
        enable_datagram: number(H3_DATAGRAM, 0) != 0,
        max_webtransport_sessions: number(WEBTRANSPORT_MAX_SESSIONS, 0),
    }
}

impl vstd::std_specs::convert::FromSpecImpl<&frame::Settings> for Settings {
    open spec fn obeys_from_spec() -> bool {
        true
    }

    open spec fn from_spec(settings: &frame::Settings) -> Settings {
        announced(settings@)
    }
}

impl From<&frame::Settings> for Settings {
    fn from(settings: &frame::Settings) -> (read: Self)
        ensures
            read == announced(settings@),
    {
        let defaults: Settings = Default::default();
        Settings {
            max_field_section_size: settings.get(SettingId(MAX_HEADER_LIST_SIZE)).unwrap_or(
                defaults.max_field_section_size,
            ),
            enable_webtransport: flag_or(
                settings.get(SettingId(ENABLE_WEBTRANSPORT)),
                defaults.enable_webtransport,
            ),
            max_webtransport_sessions: settings.get(SettingId(WEBTRANSPORT_MAX_SESSIONS)).unwrap_or(
                defaults.max_webtransport_sessions,
            ),
            enable_datagram: flag_or(settings.get(SettingId(H3_DATAGRAM)), defaults.enable_datagram),
            enable_extended_connect: flag_or(
                settings.get(SettingId(ENABLE_CONNECT_PROTOCOL)),
                defaults.enable_extended_connect,
            ),
        }
    }
}

/// A setting that is on or off: any value but zero turns it on.
fn flag_or(value: Option<u64>, default: bool) -> (enabled: bool)
    ensures
        enabled == match value {
            Some(v) => v != 0,
            None => default,
        },
{
    match value {
        Some(v) => v != 0,
        None => default,
    }
}

/// Pairs of identifier and value as entries of a SETTINGS frame.
pub open spec fn as_entries(pairs: Seq<(u64, u64)>) -> Seq<(SettingId, u64)> {
    pairs.map_values(|pair: (u64, u64)| (SettingId(pair.0), pair.1))
}

/// The first identifier that repeats an earlier one.
pub open spec fn first_repeat(entries: Seq<(SettingId, u64)>) -> Option<SettingId>
    decreases entries.len(),
{
    if entries.len() == 0 {
        None
    } else {
        match first_repeat(entries.drop_last()) {
            Some(id) => Some(id),
            None => if has_id(entries.drop_last(), entries.last().0) {
                Some(entries.last().0)
            } else {
                None
            },
        }
    }
}

/// `entries` with the reserved setting at the end, unless its identifier is taken.
pub open spec fn with_grease(
    entries: Seq<(SettingId, u64)>,
    grease_setting: Option<(SettingId, u64)>,
) -> Seq<(SettingId, u64)> {
    match grease_setting {
        Some((id, value)) if !has_id(entries, id) => entries.push((id, value)),
        _ => entries,
    }
}

/// Whether `sent` is the list to send for `entries` and a reserved setting: the entries as they
/// are or, in Chromium mode, ordered by identifier.
pub open spec fn is_finished(
    entries: Seq<(SettingId, u64)>,
    grease_setting: Option<(SettingId, u64)>,
    chromium_grease: bool,
    sent: Seq<(SettingId, u64)>,
) -> bool {
    if chromium_grease {
        ascending_ids(sent) && sent.to_multiset() == with_grease(
            entries,
            grease_setting,
        ).to_multiset()
    } else {
        sent == with_grease(entries, grease_setting)
    }
}

impl Settings {
    /// The entries that announce these settings.
    pub open spec fn built_in(self) -> Seq<(SettingId, u64)> {
        seq![
            (SettingId(MAX_HEADER_LIST_SIZE), self.max_field_section_size),
            (SettingId(ENABLE_CONNECT_PROTOCOL), flag(self.enable_extended_connect)),
            (SettingId(ENABLE_WEBTRANSPORT), flag(self.enable_webtransport)),
            (SettingId(H3_DATAGRAM), flag(self.enable_datagram)),
            (SettingId(WEBTRANSPORT_MAX_SESSIONS), self.max_webtransport_sessions),
        ]
    }
}

impl Config {
    /// The configured entries of the SETTINGS frame: the explicit list if there is one, else the
    /// built-in settings and then the additional ones.
    pub open spec fn entries(self) -> Seq<(SettingId, u64)> {
        match self.ordered_settings {
            Some(ordered) => as_entries(ordered@),
            None => self.settings.built_in() + as_entries(self.additional_settings@),
        }
    }

    /// Whether `grease_setting` is a reserved setting that this configuration may send: none if
    /// it sends none, a random one with value zero, or in Chromium mode one whose identifier and
    /// value both come from 32-bit draws.
    pub open spec fn allows_grease(self, grease_setting: Option<(SettingId, u64)>) -> bool {
        match grease_setting {
            None => !self.send_grease,
            Some((id, value)) => self.send_grease && if self.chromium_grease {
                value <= u32::MAX && exists|n: int|
                    0 <= n <= u32::MAX && id.0 == #[trigger] reserved(n)
            } else {
                value == 0 && exists|n: int| 0 <= n < GREASE_RANGE && id.0 == #[trigger] reserved(n)
            },
        }
    }

    /// The frame with the configured entries, in their order and without a reserved setting.
    pub fn base_settings(&self) -> (result: Result<frame::Settings, SettingsError>)
        ensures
            match first_repeat(self.entries()) {
                Some(id) => result is Err && result->Err_0 == SettingsError::Repeated(id),
                None => result is Ok && result->Ok_0@ == self.entries() && unique_ids(
                    self.entries(),
                ),
            },
    {
        let mut settings: frame::Settings = Default::default();
        match &self.ordered_settings {
            Some(ordered) => {
                assert(settings@ + as_entries(ordered@) =~= self.entries());
                match insert_all(&mut settings, ordered) {
                    Ok(()) => Ok(settings),
                    Err(err) => Err(err),
                }
            },
            None => {
                let mut built_in: Vec<(u64, u64)> = Vec::new();
                built_in.push((MAX_HEADER_LIST_SIZE, self.settings.max_field_section_size));
                built_in.push((ENABLE_CONNECT_PROTOCOL, self.settings.enable_extended_connect as u64));
                built_in.push((ENABLE_WEBTRANSPORT, self.settings.enable_webtransport as u64));
                built_in.push((H3_DATAGRAM, self.settings.enable_datagram as u64));
                built_in.push((WEBTRANSPORT_MAX_SESSIONS, self.settings.max_webtransport_sessions));
                assert(settings@ + as_entries(built_in@) =~= self.settings.built_in());
                proof {
                    lemma_unique_ids(self.settings.built_in());
                }
                match insert_all(&mut settings, &built_in) {
                    Ok(()) => (),
                    Err(err) => {
                        return Err(err);
                    },
                }
                match insert_all(&mut settings, &self.additional_settings) {
                    Ok(()) => Ok(settings),
                    Err(err) => Err(err),
                }
            },
        }
    }
}

/// Adds all of `pairs` to `settings`, up to the first whose identifier is already there.
fn insert_all(settings: &mut frame::Settings, pairs: &Vec<(u64, u64)>) -> (result: Result<
    (),
    SettingsError,
>)
    requires
        unique_ids(old(settings)@),
    ensures
        match first_repeat(old(settings)@ + as_entries(pairs@)) {
            Some(id) => result is Err && result->Err_0 == SettingsError::Repeated(id),
            None => result is Ok && final(settings)@ == old(settings)@ + as_entries(pairs@)
                && unique_ids(final(settings)@),
        },
{
    let ghost before = settings@;
    let ghost all = before + as_entries(pairs@);
    let mut i: usize = 0;
    proof {
        lemma_unique_ids(before);
        assert(all.take(before.len() as int) =~= before);
    }
    while i < pairs.len()
        invariant
            i <= pairs.len(),
            before == old(settings)@,
            all == before + as_entries(pairs@),
            settings@ == all.take(before.len() + i),
            unique_ids(settings@),
        decreases pairs.len() - i,
    {
        let (id, value) = pairs[i];
        proof {
            lemma_unique_ids(settings@);
            let next = all.take(before.len() + i + 1);
            assert(next =~= settings@.push((SettingId(id), value)));
            assert(next.drop_last() =~= settings@);
            if has_id(settings@, SettingId(id)) {
                lemma_first_repeat_prefix(all, before.len() + i + 1);
            }
        }
        match settings.insert(SettingId(id), value) {
            Ok(()) => (),
            Err(err) => {
                return Err(err);
            },
        }
        i += 1;
    }
    proof {
        assert(all.take(before.len() + i) =~= all);
        lemma_unique_ids(all);
    }
    Ok(())
}

/// The frame is not a function of the configuration alone: a reserved setting is drawn.
impl vstd::std_specs::convert::TryFromSpecImpl<Config> for frame::Settings {
    open spec fn obeys_try_from_spec() -> bool {
        false
    }

    open spec fn try_from_spec(value: Config) -> Result<frame::Settings, SettingsError> {
        arbitrary()
    }
}

impl TryFrom<Config> for frame::Settings {
    type Error = SettingsError;

    /// The SETTINGS frame that a configuration asks for. The reserved setting is drawn at random.
    fn try_from(value: Config) -> (result: Result<frame::Settings, SettingsError>)
        ensures
            value.settings_outcome(result),
            match first_repeat(value.entries()) {
                Some(id) => result is Err && result->Err_0 == SettingsError::Repeated(id),
                None => result is Ok && value.may_send(result->Ok_0@),
            },
    {
        value.settings_frame()
    }
}

impl Config {
    /// Whether `sent` is a list of entries that the configuration may send: the configured ones,
    /// completed with one of the allowed reserved settings.
    pub open spec fn may_send(self, sent: Seq<(SettingId, u64)>) -> bool {
        exists|grease_setting: Option<(SettingId, u64)>| #[trigger]
            self.allows_grease(grease_setting) && is_finished(
                self.entries(),
                grease_setting,
                self.chromium_grease,
                sent,
            )
    }

    /// What turning the configuration into a SETTINGS frame may give: the first repeated
    /// identifier if there is one, else a list that may be sent.
    pub open spec fn settings_outcome(
        self,
        result: Result<frame::Settings, SettingsError>,
    ) -> bool {
        match first_repeat(self.entries()) {
            Some(id) => result is Err && result->Err_0 == SettingsError::Repeated(id),
            None => result is Ok && unique_ids(result->Ok_0@) && self.may_send(result->Ok_0@),
        }
    }

    /// The SETTINGS frame that the configuration asks for. The reserved setting is drawn at
    /// random.
    pub fn settings_frame(&self) -> (result: Result<frame::Settings, SettingsError>)
        ensures
            self.settings_outcome(result),
            match first_repeat(self.entries()) {
                Some(id) => result is Err && result->Err_0 == SettingsError::Repeated(id),
                None => result is Ok && self.may_send(result->Ok_0@),
            },
    {
        match self.base_settings() {
            Ok(settings) => {
                let grease_setting = self.draw_grease_setting();
                Ok(finish_settings(settings, grease_setting, self.chromium_grease))
            },
            Err(err) => Err(err),
        }
    }

    /// A reserved setting to send, if the configuration asks for one.
    pub fn draw_grease_setting(&self) -> (grease_setting: Option<(SettingId, u64)>)
        ensures
            self.allows_grease(grease_setting),
            grease_setting is Some <==> self.send_grease,
            grease_setting matches Some((id, value)) ==> {
                &&& 33 <= id.0 <= VARINT_MAX
                &&& (id.0 - 33) % 31 == 0
                &&& self.chromium_grease ==> id.0 <= 31 * u32::MAX + 33 && value <= u32::MAX
                &&& !self.chromium_grease ==> value == 0
            },
    {
        if self.send_grease {
            Some(
                if self.chromium_grease {
                    chromium_grease_setting(random_u32(), random_u32())
                } else {
                    (SettingId::grease(), 0)
                },
            )
        } else {
            None
        }
    }
}

/// The reserved setting that Chromium would make of two 32-bit draws.
pub fn chromium_grease_setting(id_draw: u32, value_draw: u32) -> (setting: (SettingId, u64))
    ensures
        setting.0.0 == reserved(id_draw as int),
        setting.0.0 == 31 * id_draw + 33,
        setting.1 == value_draw,
{
    (SettingId(31 * u64::from(id_draw) + 33), u64::from(value_draw))
}

/// Completes a list of settings: adds the reserved setting unless its identifier is taken, and in
/// Chromium mode orders the list by identifier.
pub fn finish_settings(
    mut settings: frame::Settings,
    grease_setting: Option<(SettingId, u64)>,
    chromium_grease: bool,
) -> (finished: frame::Settings)
    ensures
        is_finished(settings@, grease_setting, chromium_grease, finished@),
        unique_ids(settings@) ==> unique_ids(finished@),
        ({
            let taken = grease_setting is None || exists|i: int|
                0 <= i < settings@.len() && (#[trigger] settings@[i]).0 == (grease_setting->0).0;
            &&& !chromium_grease && taken ==> finished@ == settings@
            &&& !chromium_grease && !taken ==> finished@ == settings@.push(grease_setting->0)
            &&& chromium_grease && taken ==> finished@.to_multiset() == settings@.to_multiset()
            &&& chromium_grease && !taken ==> finished@.to_multiset() == settings@.push(
                grease_setting->0,
            ).to_multiset()
        }),
        chromium_grease ==> forall|i: int, j: int|
            0 <= i < j < finished@.len() ==> (#[trigger] finished@[i]).0.0 <= (
            #[trigger] finished@[j]).0.0,
{
    if let Some((id, value)) = grease_setting {
        let _ = settings.insert(id, value);
    }
    if chromium_grease {
        settings.sort_by_id();
    }
    settings
}

/// Nothing repeats exactly if the identifiers are unique.
pub proof fn lemma_unique_ids(entries: Seq<(SettingId, u64)>)
    ensures
        first_repeat(entries) is None <==> unique_ids(entries),
    decreases entries.len(),
{
    if entries.len() > 0 {
        let front = entries.drop_last();
        lemma_unique_ids(front);
        if unique_ids(entries) {
            assert(unique_ids(front));
        } else if unique_ids(front) {
            let (i, j) = choose|i: int, j: int|
                0 <= i < j < entries.len() && (#[trigger] entries[i]).0 == (
                #[trigger] entries[j]).0;
            assert(front[i] == entries[i]);
            if j < front.len() {
                assert(front[j] == entries[j]);
            }
        } else {
            let (i, j) = choose|i: int, j: int|
                0 <= i < j < front.len() && (#[trigger] front[i]).0 == (#[trigger] front[j]).0;
            assert(entries[i] == front[i] && entries[j] == front[j]);
        }
        if has_id(front, entries.last().0) {
            let i = choose|i: int|
                0 <= i < front.len() && (#[trigger] front[i]).0 == entries.last().0;
            assert(entries[i].0 == entries[entries.len() - 1].0);
        }
    }
}

/// What repeats first in a front part repeats first in the whole.
proof fn lemma_first_repeat_prefix(entries: Seq<(SettingId, u64)>, n: int)
    requires
        0 <= n <= entries.len(),
        first_repeat(entries.take(n)) is Some,
    ensures
        first_repeat(entries) == first_repeat(entries.take(n)),
    decreases entries.len(),
{
    if n == entries.len() {
        assert(entries.take(n) =~= entries);
    } else {
        assert(entries.drop_last().take(n) =~= entries.take(n));
        lemma_first_repeat_prefix(entries.drop_last(), n);
    }
}

/// What is configured to be sent. An explicit list is that, entry by entry. Without one it is the
/// five built-in settings, flags as one or zero, and after them the additional settings.
pub proof fn law_configured_entries(config: Config)
    ensures
        match config.ordered_settings {
            Some(ordered) => {
                &&& config.entries().len() == ordered@.len()
                &&& forall|i: int|
                    0 <= i < ordered@.len() ==> config.entries()[i] == (
                        SettingId((#[trigger] ordered@[i]).0),
                        ordered@[i].1,
                    )
            },
            None => {
                let settings = config.settings;
                let on = |enabled: bool| if enabled { 1u64 } else { 0u64 };
                &&& config.entries().len() == 5 + config.additional_settings@.len()
                &&& config.entries()[0] == (SettingId(0x6), settings.max_field_section_size)
                &&& config.entries()[1] == (SettingId(0x8), on(settings.enable_extended_connect))
                &&& config.entries()[2] == (SettingId(0x2b60_3742), on(settings.enable_webtransport))
                &&& config.entries()[3] == (SettingId(0x33), on(settings.enable_datagram))
                &&& config.entries()[4] == (
                    SettingId(0x2b60_3743),
                    settings.max_webtransport_sessions,
                )
                &&& forall|i: int|
                    0 <= i < config.additional_settings@.len() ==> config.entries()[5 + i] == (
                        SettingId((#[trigger] config.additional_settings@[i]).0),
                        config.additional_settings@[i].1,
                    )
            },
        },
{
}

/// The first repeated identifier is the one whose second occurrence comes before any other
/// repetition; there is none exactly if all identifiers differ.
pub proof fn law_first_repeat(entries: Seq<(SettingId, u64)>)
    ensures
        match first_repeat(entries) {
            Some(id) => exists|i: int, j: int|
                0 <= i < j < entries.len() && (#[trigger] entries[i]).0 == id && (
                #[trigger] entries[j]).0 == id && forall|k: int, l: int|
                    0 <= k < l < j ==> (#[trigger] entries[k]).0 != (#[trigger] entries[l]).0,
            None => forall|i: int, j: int|
                0 <= i < j < entries.len() ==> (#[trigger] entries[i]).0 != (
                #[trigger] entries[j]).0,
        },
    decreases entries.len(),
{
    lemma_unique_ids(entries);
    if entries.len() > 0 {
        let front = entries.drop_last();
        law_first_repeat(front);
        lemma_unique_ids(front);
        match first_repeat(front) {
            Some(id) => {
                let (i, j) = choose|i: int, j: int|
                    0 <= i < j < front.len() && (#[trigger] front[i]).0 == id && (
                    #[trigger] front[j]).0 == id && forall|k: int, l: int|
                        0 <= k < l < j ==> (#[trigger] front[k]).0 != (#[trigger] front[l]).0;
                assert(entries[i] == front[i] && entries[j] == front[j]);
                assert forall|k: int, l: int| 0 <= k < l < j implies (#[trigger] entries[k]).0 != (
                #[trigger] entries[l]).0 by {
                    assert(entries[k] == front[k] && entries[l] == front[l]);
                }
            },
            None => {
                if has_id(front, entries.last().0) {
                    let i = choose|i: int|
                        0 <= i < front.len() && (#[trigger] front[i]).0 == entries.last().0;
                    let j = entries.len() - 1;
                    assert(entries[i] == front[i] && entries[j] == entries.last());
                    assert forall|k: int, l: int| 0 <= k < l < j implies (#[trigger] entries[k]).0
                        != (#[trigger] entries[l]).0 by {
                        assert(entries[k] == front[k] && entries[l] == front[l]);
                    }
                }
            },
        }
    }
}

/// What a configuration may send, as far as all of its fields go: every configured entry and at
/// most one more, a reserved one, if reserved values are on and then always, unless a configured
/// identifier is of the reserved kind. Outside Chromium mode the configured entries come first and
/// in their order; in Chromium mode identifiers grow strictly, explicit list or not.
pub proof fn law_sent_entries(config: Config, sent: Seq<(SettingId, u64)>)
    requires
        config.may_send(sent),
        forall|i: int, j: int|
            0 <= i < j < config.entries().len() ==> (#[trigger] config.entries()[i]).0 != (
            #[trigger] config.entries()[j]).0,
    ensures
        forall|i: int|
            0 <= i < config.entries().len() ==> sent.contains(#[trigger] config.entries()[i]),
        forall|k: int|
            0 <= k < sent.len() ==> config.entries().contains(#[trigger] sent[k]) || (
            config.send_grease && 33 <= sent[k].0.0 <= VARINT_MAX && (sent[k].0.0 - 33) % 31 == 0
                && if config.chromium_grease {
                sent[k].0.0 <= 31 * u32::MAX + 33 && sent[k].1 <= u32::MAX
            } else {
                sent[k].1 == 0
            }),
        config.entries().len() <= sent.len() <= config.entries().len() + 1,
        !config.send_grease ==> sent.len() == config.entries().len(),
        config.send_grease && (forall|i: int|
            0 <= i < config.entries().len() ==> (#[trigger] config.entries()[i]).0.0 < 33 || (
            config.entries()[i].0.0 - 33) % 31 != 0) ==> sent.len() == config.entries().len() + 1,
        !config.chromium_grease ==> sent.take(config.entries().len() as int) == config.entries(),
        config.chromium_grease ==> forall|i: int, j: int|
            0 <= i < j < sent.len() ==> (#[trigger] sent[i]).0.0 < (#[trigger] sent[j]).0.0,
        forall|i: int, j: int|
            0 <= i < j < sent.len() ==> (#[trigger] sent[i]).0 != (#[trigger] sent[j]).0,
{
    let entries = config.entries();
    let grease_setting = choose|grease_setting: Option<(SettingId, u64)>| #[trigger]
        config.allows_grease(grease_setting) && is_finished(
            entries,
            grease_setting,
            config.chromium_grease,
            sent,
        );
    let all = with_grease(entries, grease_setting);
    assert(unique_ids(all));
    lemma_unique_ids_permuted(all, sent);
    vstd::seq_lib::to_multiset_len(all);
    vstd::seq_lib::to_multiset_len(sent);
    assert forall|i: int| 0 <= i < entries.len() implies sent.contains(#[trigger] entries[i]) by {
        assert(all[i] == entries[i]);
        lemma_contains_permuted(all, sent, entries[i]);
    }
    if let Some((id, value)) = grease_setting {
        law_grease_setting_fits(config, id, value);
    }
    assert forall|k: int| 0 <= k < sent.len() implies entries.contains(#[trigger] sent[k])
        || grease_setting == Some(sent[k]) by {
        lemma_contains_permuted(all, sent, sent[k]);
        let j = all.index_of(sent[k]);
        assert(all[j] == sent[k]);
        if j < entries.len() {
            assert(entries[j] == sent[k]);
        }
    }
    if !config.chromium_grease {
        assert(sent.take(entries.len() as int) =~= entries);
    }
}

/// A peer gets to see every setting that was configured, whatever the other fields are: all of an
/// explicit list, else the five built-in settings and all additional ones.
pub proof fn law_configured_settings_are_sent(config: Config, sent: Seq<(SettingId, u64)>)
    requires
        config.may_send(sent),
        forall|i: int, j: int|
            0 <= i < j < config.entries().len() ==> (#[trigger] config.entries()[i]).0 != (
            #[trigger] config.entries()[j]).0,
    ensures
        match config.ordered_settings {
            Some(ordered) => {
                &&& forall|i: int|
                    0 <= i < ordered@.len() ==> sent.contains(
                        (SettingId((#[trigger] ordered@[i]).0), ordered@[i].1),
                    )
                &&& ordered@.len() <= sent.len() <= ordered@.len() + 1
            },
            None => {
                let settings = config.settings;
                let on = |enabled: bool| if enabled { 1u64 } else { 0u64 };
                &&& sent.contains((SettingId(0x6), settings.max_field_section_size))
                &&& sent.contains((SettingId(0x8), on(settings.enable_extended_connect)))
                &&& sent.contains((SettingId(0x2b60_3742), on(settings.enable_webtransport)))
                &&& sent.contains((SettingId(0x33), on(settings.enable_datagram)))
                &&& sent.contains((SettingId(0x2b60_3743), settings.max_webtransport_sessions))
                &&& forall|i: int|
                    0 <= i < config.additional_settings@.len() ==> sent.contains(
                        (
                            SettingId((#[trigger] config.additional_settings@[i]).0),
                            config.additional_settings@[i].1,
                        ),
                    )
                &&& 5 + config.additional_settings@.len() <= sent.len() <= 6
                    + config.additional_settings@.len()
            },
        },
{
    law_configured_entries(config);
    law_sent_entries(config, sent);
    let entries = config.entries();
    match config.ordered_settings {
        Some(ordered) => {
            assert forall|i: int| 0 <= i < ordered@.len() implies sent.contains(
                (SettingId((#[trigger] ordered@[i]).0), ordered@[i].1),
            ) by {
                assert(sent.contains(entries[i]));
            }
        },
        None => {
            assert(sent.contains(entries[0]) && sent.contains(entries[1]) && sent.contains(
                entries[2],
            ) && sent.contains(entries[3]) && sent.contains(entries[4]));
            assert forall|i: int| 0 <= i < config.additional_settings@.len() implies sent.contains(
                (
                    SettingId((#[trigger] config.additional_settings@[i]).0),
                    config.additional_settings@[i].1,
                ),
            ) by {
                assert(sent.contains(entries[5 + i]));
            }
        },
    }
}

/// Each announced setting is told by its own entry alone, the first with its identifier: a number
/// is its value, a flag is on exactly if its value is not zero. Without that entry it is at its
/// default, whatever other entries say.
pub proof fn law_each_setting_has_its_own_entry(entries: Seq<(SettingId, u64)>)
    ensures
        forall|i: int|
            0 <= i < entries.len() && (#[trigger] entries[i]).0.0 == 0x6 && (forall|j: int|
                0 <= j < i ==> (#[trigger] entries[j]).0.0 != 0x6) ==> announced(
                entries,
            ).max_field_section_size == entries[i].1,
        (forall|i: int| 0 <= i < entries.len() ==> (#[trigger] entries[i]).0.0 != 0x6)
            ==> announced(entries).max_field_section_size == 0x3fff_ffff_ffff_ffff,
        forall|i: int|
            0 <= i < entries.len() && (#[trigger] entries[i]).0.0 == 0x2b60_3742 && (forall|j: int|
                0 <= j < i ==> (#[trigger] entries[j]).0.0 != 0x2b60_3742) ==> announced(
                entries,
            ).enable_webtransport == (entries[i].1 != 0),
        (forall|i: int| 0 <= i < entries.len() ==> (#[trigger] entries[i]).0.0 != 0x2b60_3742)
            ==> !announced(entries).enable_webtransport,
        forall|i: int|
            0 <= i < entries.len() && (#[trigger] entries[i]).0.0 == 0x8 && (forall|j: int|
                0 <= j < i ==> (#[trigger] entries[j]).0.0 != 0x8) ==> announced(
                entries,
            ).enable_extended_connect == (entries[i].1 != 0),
        (forall|i: int| 0 <= i < entries.len() ==> (#[trigger] entries[i]).0.0 != 0x8)
            ==> !announced(entries).enable_extended_connect,
        forall|i: int|
            0 <= i < entries.len() && (#[trigger] entries[i]).0.0 == 0x33 && (forall|j: int|
                0 <= j < i ==> (#[trigger] entries[j]).0.0 != 0x33) ==> announced(
                entries,
            ).enable_datagram == (entries[i].1 != 0),
        (forall|i: int| 0 <= i < entries.len() ==> (#[trigger] entries[i]).0.0 != 0x33)
            ==> !announced(entries).enable_datagram,
        forall|i: int|
            0 <= i < entries.len() && (#[trigger] entries[i]).0.0 == 0x2b60_3743 && (forall|j: int|
                0 <= j < i ==> (#[trigger] entries[j]).0.0 != 0x2b60_3743) ==> announced(
                entries,
            ).max_webtransport_sessions == entries[i].1,
        (forall|i: int| 0 <= i < entries.len() ==> (#[trigger] entries[i]).0.0 != 0x2b60_3743)
            ==> announced(entries).max_webtransport_sessions == 0,
{
    law_first_entry_is_found(entries, SettingId(MAX_HEADER_LIST_SIZE));
    law_first_entry_is_found(entries, SettingId(ENABLE_WEBTRANSPORT));
    law_first_entry_is_found(entries, SettingId(ENABLE_CONNECT_PROTOCOL));
    law_first_entry_is_found(entries, SettingId(H3_DATAGRAM));
    law_first_entry_is_found(entries, SettingId(WEBTRANSPORT_MAX_SESSIONS));
}

/// A configuration that was told nothing greases outside Chromium mode, opens with SETTINGS at
/// their defaults, and adds nothing.
pub proof fn law_default_configuration(config: Config)
    ensures
        config.is_default() <==> {
            &&& config.send_grease
            &&& !config.chromium_grease
            &&& config.send_settings
            &&& config.settings.max_field_section_size == 0x3fff_ffff_ffff_ffff
            &&& !config.settings.enable_webtransport
            &&& !config.settings.enable_extended_connect
            &&& !config.settings.enable_datagram
            &&& config.settings.max_webtransport_sessions == 0
            &&& config.additional_settings@.len() == 0
            &&& config.ordered_settings is None
            &&& config.pseudo_header_order is None
            &&& config.priority_updates@.len() == 0
            &&& !config.send_control_grease_frame
        },
{
}

/// A reserved identifier is never that of a built-in setting.
pub proof fn law_reserved_is_not_built_in(settings: Settings, n: int)
    requires
        0 <= n,
    ensures
        forall|i: int|
            0 <= i < settings.built_in().len() ==> (#[trigger] settings.built_in()[i]).0.0
                != reserved(n),
{
}

/// A reserved setting that a configuration may send fits the wire, and in Chromium mode its
/// identifier and value stay within what 32-bit draws give.
pub proof fn law_grease_setting_fits(config: Config, id: SettingId, value: u64)
    requires
        config.allows_grease(Some((id, value))),
    ensures
        id.0 <= VARINT_MAX,
        value <= VARINT_MAX,
        id.0 >= 33,
        (id.0 - 33) % 31 == 0,
        config.chromium_grease ==> id.0 <= 133_143_986_178 && value <= u32::MAX,
        !config.chromium_grease ==> value == 0,
{
}

/// A reserved setting is sent along with every configured entry, unless its identifier was
/// configured explicitly.
pub proof fn law_grease_setting_is_sent(
    entries: Seq<(SettingId, u64)>,
    id: SettingId,
    value: u64,
    chromium_grease: bool,
    sent: Seq<(SettingId, u64)>,
)
    requires
        !has_id(entries, id),
        is_finished(entries, Some((id, value)), chromium_grease, sent),
    ensures
        sent.contains((id, value)),
        sent.len() == entries.len() + 1,
        forall|i: int| 0 <= i < entries.len() ==> sent.contains(#[trigger] entries[i]),
{
    let all = entries.push((id, value));
    vstd::seq_lib::to_multiset_len(all);
    vstd::seq_lib::to_multiset_len(sent);
    assert(all[entries.len() as int] == (id, value));
    lemma_contains_permuted(all, sent, (id, value));
    assert forall|i: int| 0 <= i < entries.len() implies sent.contains(#[trigger] entries[i]) by {
        assert(all[i] == entries[i]);
        lemma_contains_permuted(all, sent, entries[i]);
    }
}

/// With the reserved setting switched off, what is sent is what was configured: the same entries,
/// and outside Chromium mode in the same order.
pub proof fn law_no_grease_sends_only_the_entries(
    config: Config,
    grease_setting: Option<(SettingId, u64)>,
    sent: Seq<(SettingId, u64)>,
)
    requires
        !config.send_grease,
        config.allows_grease(grease_setting),
        is_finished(config.entries(), grease_setting, config.chromium_grease, sent),
    ensures
        sent.to_multiset() == config.entries().to_multiset(),
        !config.chromium_grease ==> sent == config.entries(),
{
}

/// Outside Chromium mode the configured order is kept: only a reserved setting may follow.
pub proof fn law_configured_order_is_kept(
    entries: Seq<(SettingId, u64)>,
    grease_setting: Option<(SettingId, u64)>,
    sent: Seq<(SettingId, u64)>,
)
    requires
        is_finished(entries, grease_setting, false, sent),
    ensures
        sent.take(entries.len() as int) == entries,
        sent.len() <= entries.len() + 1,
{
    assert(sent.take(entries.len() as int) =~= entries);
}

/// In Chromium mode identifiers grow strictly from one entry to the next, with or without a
/// reserved setting among them.
pub proof fn law_chromium_order_is_strict(
    entries: Seq<(SettingId, u64)>,
    grease_setting: Option<(SettingId, u64)>,
    sent: Seq<(SettingId, u64)>,
)
    requires
        unique_ids(entries),
        is_finished(entries, grease_setting, true, sent),
    ensures
        forall|i: int, j: int|
            0 <= i < j < sent.len() ==> (#[trigger] sent[i]).0.0 < (#[trigger] sent[j]).0.0,
{
    lemma_unique_ids_permuted(with_grease(entries, grease_setting), sent);
}

/// A peer that reads the SETTINGS frame of a configuration without an explicit list learns the
/// configured settings, whatever else the frame holds and in whatever order.
pub proof fn law_peer_learns_the_settings(
    config: Config,
    grease_setting: Option<(SettingId, u64)>,
    sent: Seq<(SettingId, u64)>,
)
    requires
        config.ordered_settings is None,
        unique_ids(config.entries()),
        is_finished(config.entries(), grease_setting, config.chromium_grease, sent),
    ensures
        announced(sent) == config.settings,
{
    let entries = config.entries();
    let all = with_grease(entries, grease_setting);
    lemma_unique_ids_permuted(all, sent);
    assert forall|i: int| 0 <= i < config.settings.built_in().len() implies lookup(
        sent,
        (#[trigger] config.settings.built_in()[i]).0,
    ) == Some(config.settings.built_in()[i].1) by {
        let entry = config.settings.built_in()[i];
        assert(all[i] == entry);
        lemma_contains_permuted(all, sent, entry);
        lemma_lookup_unique(sent, sent.index_of(entry));
    }
    let built_in = config.settings.built_in();
    assert(lookup(sent, built_in[0].0) == Some(built_in[0].1));
    assert(lookup(sent, built_in[1].0) == Some(built_in[1].1));
    assert(lookup(sent, built_in[2].0) == Some(built_in[2].1));
    assert(lookup(sent, built_in[3].0) == Some(built_in[3].1));
    assert(lookup(sent, built_in[4].0) == Some(built_in[4].1));
}

/// A frame whose configured entries fit the wire fits it with its reserved setting too, as long
/// as there are not more entries than a payload can hold.
pub proof fn law_sent_settings_fit(
    config: Config,
    grease_setting: Option<(SettingId, u64)>,
    sent: Seq<(SettingId, u64)>,
)
    requires
        entries_fit(config.entries()),
        16 * config.entries().len() + 16 <= VARINT_MAX,
        config.allows_grease(grease_setting),
        is_finished(config.entries(), grease_setting, config.chromium_grease, sent),
    ensures
        entries_fit(sent),
        settings_payload(sent).len() <= VARINT_MAX,
{
    let all = with_grease(config.entries(), grease_setting);
    if let Some((id, value)) = grease_setting {
        law_grease_setting_fits(config, id, value);
    }
    assert forall|i: int| 0 <= i < sent.len() implies (#[trigger] sent[i]).0.0 <= VARINT_MAX
        && sent[i].1 <= VARINT_MAX by {
        lemma_contains_permuted(all, sent, sent[i]);
        let j = all.index_of(sent[i]);
        assert(all[j] == sent[i]);
        if j < config.entries().len() {
            assert(config.entries()[j] == sent[i]);
        }
    }
    vstd::seq_lib::to_multiset_len(all);
    vstd::seq_lib::to_multiset_len(sent);
    law_settings_payload_size(sent);
}

} // verus!
