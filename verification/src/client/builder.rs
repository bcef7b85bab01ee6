//! HTTP/3 client builder.

use vstd::prelude::*;

#[allow(unused_imports)]
use crate::config::{
    announced, first_repeat, is_finished, law_peer_learns_the_settings, law_sent_settings_fit,
    lemma_unique_ids,
};
use crate::config::{Config, PseudoHeader};
#[allow(unused_imports)]
use crate::control::{
    control_bytes, decode_updates, law_all_updates_read_back, law_control_grease_layout,
    law_control_grease_reads_back, law_control_stream_layout, law_settings_come_first,
    law_what_a_configuration_needs_to_fit, updates_bytes,
};
use crate::frame::SettingsError;
#[allow(unused_imports)]
use crate::frame::{
    decode_entries, decode_frame, law_settings_round_trip, settings_payload, SettingId,
    PRIORITY_UPDATE_FRAME, SETTINGS_FRAME,
};
use crate::shared_state::SharedState;
#[allow(unused_imports)]
use crate::shared_state::State;
#[allow(unused_imports)]
use crate::varint::{decode_var, encode_var, VARINT_MAX};

verus! {

/// HTTP/3 client builder: sets the configuration for a new client.
#[derive(Debug)]
pub struct Builder {
    config: Config,
}

impl View for Builder {
    type V = Config;

    /// The configuration built so far.
    closed spec fn view(&self) -> Config {
        self.config
    }
}

/// How a client makes its requests.
#[derive(Debug)]
pub struct RequestOptions {
    /// The largest field section the client accepts.
    pub max_field_section_size: u64,
    /// Whether a reserved frame is sent on each request stream.
    pub send_grease_frame: bool,
    /// Order in which request pseudo-headers are serialized.
    pub pseudo_header_order: Option<Vec<PseudoHeader>>,
}

/// What a client starts with on a new QUIC connection.
pub struct Client<E> {
    /// The state that the connection shares with its request streams.
    pub shared: SharedState<E>,
    /// What is written first on the control stream, if anything is.
    pub control_stream: Option<Vec<u8>>,
    /// Whether a unidirectional stream of a reserved type is opened.
    pub open_grease_stream: bool,
    /// How requests are made.
    pub request: RequestOptions,
}

impl RequestOptions {
    /// Whether these are the options that `config` asks for. In Chromium mode request streams
    /// carry no reserved frame.
    pub open spec fn follow(self, config: Config) -> bool {
        &&& self.max_field_section_size == config.settings.max_field_section_size
        &&& self.send_grease_frame == (config.send_grease && !config.chromium_grease)
        &&& match (self.pseudo_header_order, config.pseudo_header_order) {
            (Some(used), Some(asked)) => used@ == asked@,
            (None, None) => true,
            _ => false,
        }
    }
}

/// Whether `bytes` may be written first on the control stream of an endpoint with this
/// configuration: SETTINGS with a list of entries that may be sent, then what was added.
pub open spec fn may_open_with(config: Config, bytes: Seq<u8>) -> bool {
    exists|sent: Seq<(SettingId, u64)>, grease_frame: Seq<u8>|
        config.may_send(sent) && config.allows_control_grease(grease_frame) && bytes
            == #[trigger] control_bytes(sent, grease_frame, config.priority_updates@)
}

/// Whether a client can be built from this configuration: what is to be written fits the wire.
/// Nothing is written where SETTINGS are left out or an identifier occurs twice.
pub open spec fn buildable(config: Config) -> bool {
    config.send_settings && first_repeat(config.entries()) is None ==> config.encodable()
}

/// Starts building a new HTTP/3 client.
pub fn builder() -> (builder: Builder)
    ensures
        builder@.is_default(),
        builder@.send_grease,
        !builder@.chromium_grease,
        builder@.send_settings,
        builder@.settings.max_field_section_size == VARINT_MAX,
        !builder@.settings.enable_webtransport,
        !builder@.settings.enable_extended_connect,
        !builder@.settings.enable_datagram,
        builder@.settings.max_webtransport_sessions == 0,
        builder@.additional_settings@.len() == 0,
        builder@.ordered_settings is None,
        builder@.pseudo_header_order is None,
        builder@.priority_updates@.len() == 0,
        !builder@.send_control_grease_frame,
{
    Builder::new()
}

impl Builder {
    /// A builder with the default configuration.
    pub fn new() -> (builder: Builder)
        ensures
            builder@.is_default(),
            builder@.send_grease,
            !builder@.chromium_grease,
            builder@.send_settings,
            builder@.settings.max_field_section_size == VARINT_MAX,
            !builder@.settings.enable_webtransport,
            !builder@.settings.enable_extended_connect,
            !builder@.settings.enable_datagram,
            builder@.settings.max_webtransport_sessions == 0,
            builder@.additional_settings@.len() == 0,
            builder@.ordered_settings is None,
            builder@.pseudo_header_order is None,
            builder@.priority_updates@.len() == 0,
            !builder@.send_control_grease_frame,
    {
        Builder { config: Default::default() }
    }

    /// Sets whether the control stream is opened with SETTINGS at all.
    pub fn send_settings(&mut self, value: bool) -> (builder: &mut Self)
        ensures
            builder@ == (Config { send_settings: value, ..old(self)@ }),
            *final(builder) == *final(self),
    {
        self.config.send_settings = value;
        self
    }

    /// Sets the maximum header size this client is willing to accept.
    pub fn max_field_section_size(&mut self, value: u64) -> (builder: &mut Self)
        ensures
            builder@.settings.max_field_section_size == value,
            builder@ == (Config {
                settings: crate::config::Settings {
                    max_field_section_size: value,
                    ..old(self)@.settings
                },
                ..old(self)@
            }),
            *final(builder) == *final(self),
    {
        self.config.settings.max_field_section_size = value;
        self
    }

    /// Sets whether reserved values are sent to keep peers able to ignore what they do not know.
    pub fn send_grease(&mut self, enabled: bool) -> (builder: &mut Self)
        ensures
            builder@ == (Config { send_grease: enabled, ..old(self)@ }),
            *final(builder) == *final(self),
    {
        self.config.send_grease = enabled;
        self
    }

    /// Sets whether reserved values are those that Chromium sends, where Chromium sends them.
    pub fn chromium_grease(&mut self, enabled: bool) -> (builder: &mut Self)
        ensures
            builder@ == (Config { chromium_grease: enabled, ..old(self)@ }),
            *final(builder) == *final(self),
    {
        self.config.chromium_grease = enabled;
        self
    }

    /// Indicates that the client supports HTTP/3 datagrams.
    pub fn enable_datagram(&mut self, enabled: bool) -> (builder: &mut Self)
        ensures
            builder@ == (Config {
                settings: crate::config::Settings {
                    enable_datagram: enabled,
                    ..old(self)@.settings
                },
                ..old(self)@
            }),
            *final(builder) == *final(self),
    {
        self.config.settings.enable_datagram = enabled;
        self
    }

    /// Enables the extended CONNECT protocol required for various HTTP/3 extensions.
    pub fn enable_extended_connect(&mut self, value: bool) -> (builder: &mut Self)
        ensures
            builder@ == (Config {
                settings: crate::config::Settings {
                    enable_extended_connect: value,
                    ..old(self)@.settings
                },
                ..old(self)@
            }),
            *final(builder) == *final(self),
    {
        self.config.settings.enable_extended_connect = value;
        self
    }

    /// Appends additional settings after the built-in client settings.
    pub fn additional_settings(&mut self, settings: Vec<(u64, u64)>) -> (builder: &mut Self)
        ensures
            builder@ == (Config { additional_settings: settings, ..old(self)@ }),
            *final(builder) == *final(self),
    {
        self.config.additional_settings = settings;
        self
    }

    /// Overrides the exact serialized SETTINGS order.
    pub fn ordered_settings(&mut self, settings: Vec<(u64, u64)>) -> (builder: &mut Self)
        ensures
            builder@ == (Config { ordered_settings: Some(settings), ..old(self)@ }),
            *final(builder) == *final(self),
    {
        self.config.ordered_settings = Some(settings);
        self
    }

    /// Overrides the request pseudo-header serialization order.
    pub fn pseudo_header_order(&mut self, order: Vec<PseudoHeader>) -> (builder: &mut Self)
        ensures
            builder@ == (Config { pseudo_header_order: Some(order), ..old(self)@ }),
            *final(builder) == *final(self),
    {
        self.config.pseudo_header_order = Some(order);
        self
    }

    /// Configures PRIORITY_UPDATE frames (RFC 9218) to send on the control stream after SETTINGS:
    /// the predicted request stream ID and the serialized priority field value of each.
    pub fn priority_updates(&mut self, updates: Vec<(u64, Vec<u8>)>) -> (builder: &mut Self)
        ensures
            builder@ == (Config { priority_updates: updates, ..old(self)@ }),
            *final(builder) == *final(self),
    {
        self.config.priority_updates = updates;
        self
    }

    /// Sends a single reserved frame on the control stream after SETTINGS. Distinct from
    /// `send_grease`, which adds a reserved setting.
    pub fn control_grease_frame(&mut self, enabled: bool) -> (builder: &mut Self)
        ensures
            builder@ == (Config { send_control_grease_frame: enabled, ..old(self)@ }),
            *final(builder) == *final(self),
    {
        self.config.send_control_grease_frame = enabled;
        self
    }

    /// How the client makes its requests.
    pub fn request_options(&self) -> (options: RequestOptions)
        ensures
            options.follow(self@),
            options.max_field_section_size == self@.settings.max_field_section_size,
            options.send_grease_frame <==> self@.send_grease && !self@.chromium_grease,
            options.pseudo_header_order is Some <==> self@.pseudo_header_order is Some,
            self@.pseudo_header_order matches Some(order) ==> options.pseudo_header_order->0@
                == order@,
    {
        let pseudo_header_order: Option<Vec<PseudoHeader>> = match &self.config.pseudo_header_order {
            Some(order) => {
                let copy = order.clone();
                assert(copy@ =~= order@);
                Some(copy)
            },
            None => None,
        };
        RequestOptions {
            max_field_section_size: self.config.settings.max_field_section_size,
            send_grease_frame: self.config.send_grease && !self.config.chromium_grease,
            pseudo_header_order,
        }
    }

    /// Creates what a new HTTP/3 client starts with. Reserved values are drawn at random.
    ///
    /// Fails if an identifier occurs twice in the configured settings.
    pub fn build<E>(&self) -> (result: Result<Client<E>, SettingsError>)
        requires
            buildable(self@),
        ensures
            match result {
                Err(err) => self@.send_settings && first_repeat(self@.entries()) is Some && err
                    == SettingsError::Repeated(first_repeat(self@.entries())->0),
                Ok(client) => {
                    &&& self@.send_settings ==> first_repeat(self@.entries()) is None
                        && client.control_stream is Some && may_open_with(
                        self@,
                        client.control_stream->0@,
                    )
                    &&& !self@.send_settings ==> client.control_stream is None
                    &&& client.shared@ == State::<E>::initial(0)
                    &&& client.shared@.wf()
                    &&& client.open_grease_stream == (self@.send_grease && !self@.chromium_grease)
                    &&& client.request.follow(self@)
                },
            },
            result is Err <==> self@.send_settings && first_repeat(self@.entries()) is Some,
            result matches Err(err) ==> err == SettingsError::Repeated(
                first_repeat(self@.entries())->0,
            ),
            result matches Ok(client) ==> {
                &&& client.control_stream is Some <==> self@.send_settings
                &&& client.control_stream matches Some(bytes) ==> may_open_with(self@, bytes@)
                &&& client.open_grease_stream <==> self@.send_grease && !self@.chromium_grease
                &&& client.shared@.settings is None
                &&& client.shared@.connection_error is None
                &&& !client.shared@.closing
                &&& client.shared@.table_capacity == 0
                &&& client.shared@.total_inserted == 0
                &&& client.shared@.pending_instructions.len() == 0
                &&& client.shared@.waiters.len() == 0
                &&& client.request.max_field_section_size == self@.settings.max_field_section_size
                &&& client.request.send_grease_frame <==> self@.send_grease
                    && !self@.chromium_grease
                &&& client.request.pseudo_header_order is Some <==> self@.pseudo_header_order is Some
                &&& self@.pseudo_header_order matches Some(order)
                    ==> client.request.pseudo_header_order->0@ == order@
            },
    {
        let control_stream: Option<Vec<u8>> = if self.config.send_settings {
            match self.config.settings_frame() {
                Err(err) => {
                    return Err(err);
                },
                Ok(settings) => {
                    let grease_frame = self.config.draw_control_grease();
                    proof {
                        let grease_setting = choose|grease_setting: Option<(SettingId, u64)>|
                            #[trigger]
                            self.config.allows_grease(grease_setting) && is_finished(
                                self.config.entries(),
                                grease_setting,
                                self.config.chromium_grease,
                                settings@,
                            );
                        law_sent_settings_fit(self.config, grease_setting, settings@);
                    }
                    Some(self.config.control_stream(&settings, &grease_frame))
                },
            }
        } else {
            None
        };
        Ok(
            Client {
                shared: Default::default(),
                control_stream,
                open_grease_stream: self.config.send_grease && !self.config.chromium_grease,
                request: self.request_options(),
            },
        )
    }

    /// Whether `build` can write what was configured.
    pub fn is_buildable(&self) -> (yes: bool)
        ensures
            yes == buildable(self@),
            yes <==> (!self@.send_settings || first_repeat(self@.entries()) is Some
                || self@.encodable()),
    {
        if !self.config.send_settings {
            return true;
        }
        match self.config.base_settings() {
            Ok(_) => self.config.is_encodable(),
            Err(_) => true,
        }
    }
}

/// A client can be built unless it is to write something that does not fit the wire.
pub proof fn law_what_can_be_built(config: Config)
    ensures
        buildable(config) <==> !config.send_settings || first_repeat(config.entries()) is Some
            || config.encodable(),
{
}

/// Requests follow the configuration field by field, whatever the other fields are: the limit on
/// field sections, the pseudo-header order, and a reserved frame exactly if reserved values are on
/// outside Chromium mode.
pub proof fn law_requests_follow_the_configuration(options: RequestOptions, config: Config)
    ensures
        options.follow(config) <==> {
            &&& options.max_field_section_size == config.settings.max_field_section_size
            &&& options.send_grease_frame <==> config.send_grease && !config.chromium_grease
            &&& options.pseudo_header_order is None <==> config.pseudo_header_order is None
            &&& config.pseudo_header_order is Some ==> options.pseudo_header_order->0@
                == config.pseudo_header_order->0@
        },
{
}

/// What a client may open its control stream with, byte for byte: a zero for the stream type, a
/// SETTINGS frame with entries that may be sent, the reserved frame if one is asked for, and a
/// PRIORITY_UPDATE frame for each configured update, in order. Gives the entries and the reserved
/// frame.
pub proof fn law_control_stream_opens_with(config: Config, bytes: Seq<u8>) -> (parts: (
    Seq<(SettingId, u64)>,
    Seq<u8>,
))
    requires
        may_open_with(config, bytes),
    ensures
        config.may_send(parts.0),
        config.allows_control_grease(parts.1),
        config.send_control_grease_frame <==> parts.1.len() > 0,
        bytes == seq![0u8] + (encode_var(SETTINGS_FRAME as int) + encode_var(
            settings_payload(parts.0).len() as int,
        ) + settings_payload(parts.0)) + parts.1 + Seq::new(
            config.priority_updates@.len(),
            |i: int|
                encode_var(PRIORITY_UPDATE_FRAME as int) + encode_var(
                    (encode_var(config.priority_updates@[i].0 as int)
                        + config.priority_updates@[i].1@).len() as int,
                ) + (encode_var(config.priority_updates@[i].0 as int)
                    + config.priority_updates@[i].1@),
        ).flatten(),
{
    let (sent, grease_frame) = choose|sent: Seq<(SettingId, u64)>, grease_frame: Seq<u8>|
        config.may_send(sent) && config.allows_control_grease(grease_frame) && bytes
            == #[trigger] control_bytes(sent, grease_frame, config.priority_updates@);
    law_control_grease_layout(config, grease_frame);
    law_control_stream_layout(sent, grease_frame, config.priority_updates@);
    (sent, grease_frame)
}

/// A server that reads what a client opens its control stream with finds the stream type, then
/// SETTINGS with entries that may be sent, then a frame of a reserved type if one was asked for,
/// and then exactly the configured priority updates, in order and with nothing after them.
pub proof fn law_control_stream_reads_back(config: Config, bytes: Seq<u8>)
    requires
        config.encodable(),
        may_open_with(config, bytes),
    ensures
        decode_var(bytes) == Some((0u64, 1int)),
        decode_frame(bytes.skip(1)) matches Some((ty, payload, after)) && {
            &&& ty == SETTINGS_FRAME
            &&& decode_entries(payload) matches Some(sent) && config.may_send(sent)
            &&& config.send_control_grease_frame ==> (decode_frame(after) matches Some(
                (reserved_ty, _, rest),
            ) && reserved_ty >= 33 && (reserved_ty - 33) % 31 == 0 && decode_updates(rest) == Some(
                Seq::new(
                    config.priority_updates@.len(),
                    |i: int| (config.priority_updates@[i].0, config.priority_updates@[i].1@),
                ),
            ))
            &&& !config.send_control_grease_frame ==> decode_updates(after) == Some(
                Seq::new(
                    config.priority_updates@.len(),
                    |i: int| (config.priority_updates@[i].0, config.priority_updates@[i].1@),
                ),
            )
        },
{
    let (sent, grease_frame) = choose|sent: Seq<(SettingId, u64)>, grease_frame: Seq<u8>|
        config.may_send(sent) && config.allows_control_grease(grease_frame) && bytes
            == #[trigger] control_bytes(sent, grease_frame, config.priority_updates@);
    let grease_setting = choose|grease_setting: Option<(SettingId, u64)>| #[trigger]
        config.allows_grease(grease_setting) && is_finished(
            config.entries(),
            grease_setting,
            config.chromium_grease,
            sent,
        );
    let updates = updates_bytes(config.priority_updates@);
    law_sent_settings_fit(config, grease_setting, sent);
    law_settings_come_first(sent, grease_frame, config.priority_updates@);
    law_settings_round_trip(sent);
    law_what_a_configuration_needs_to_fit(config);
    law_all_updates_read_back(config.priority_updates@);
    if config.send_control_grease_frame {
        law_control_grease_reads_back(config, grease_frame, updates);
    } else {
        assert(grease_frame + updates =~= updates);
    }
}

/// A server that reads the control stream of a client without an explicit settings list finds
/// SETTINGS first and learns from it the settings that the client was built with.
pub proof fn law_server_learns_the_settings(config: Config, bytes: Seq<u8>)
    requires
        config.encodable(),
        config.ordered_settings is None,
        first_repeat(config.entries()) is None,
        may_open_with(config, bytes),
    ensures
        decode_frame(bytes.skip(1)) matches Some((ty, payload, _)) && ty == SETTINGS_FRAME && (
        decode_entries(payload) matches Some(entries) && announced(entries) == config.settings),
{
    let (sent, grease_frame) = choose|sent: Seq<(SettingId, u64)>, grease_frame: Seq<u8>|
        config.may_send(sent) && config.allows_control_grease(grease_frame) && bytes
            == #[trigger] control_bytes(sent, grease_frame, config.priority_updates@);
    let grease_setting = choose|grease_setting: Option<(SettingId, u64)>| #[trigger]
        config.allows_grease(grease_setting) && is_finished(
            config.entries(),
            grease_setting,
            config.chromium_grease,
            sent,
        );
    lemma_unique_ids(config.entries());
    law_sent_settings_fit(config, grease_setting, sent);
    law_peer_learns_the_settings(config, grease_setting, sent);
    law_settings_come_first(sent, grease_frame, config.priority_updates@);
    law_settings_round_trip(sent);
}

} // verus!
