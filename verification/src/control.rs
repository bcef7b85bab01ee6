//! What an endpoint writes first on its control stream: the stream type, SETTINGS, then the frames
//! that the configuration adds (RFC 9114, section 6.2.1).

use vstd::prelude::*;

use crate::config::Config;
#[allow(unused_imports)]
use crate::config::{as_entries, flag};
use crate::frame;
#[allow(unused_imports)]
use crate::frame::{
    decode_frame, entries_fit, frame_bytes, grease_payload, law_frame_decode_bounds,
    law_frame_encodings, law_frame_round_trip, reserved, settings_payload, SettingId, GREASE_RANGE, PRIORITY_UPDATE_FRAME, SETTINGS_FRAME,
};
use crate::frame::{encode_priority_update, Frame};
#[allow(unused_imports)]
use crate::varint::{decode_var, encode_var, law_var_round_trip, law_var_size, var_size};
use crate::varint::{var_len, write_var, VARINT_MAX};

verus! {

/// Type of a control stream.
pub const CONTROL_STREAM: u64 = 0;

/// Whether a PRIORITY_UPDATE frame can be written: the stream ID and the length of the payload
/// are variable-length integers.
pub open spec fn update_fits(update: (u64, Vec<u8>)) -> bool {
    update.0 <= VARINT_MAX && var_size(update.0 as int) + update.1@.len() <= VARINT_MAX
}

/// The PRIORITY_UPDATE frame for an update.
pub open spec fn update_bytes(update: (u64, Vec<u8>)) -> Seq<u8> {
    frame_bytes(PRIORITY_UPDATE_FRAME as int, encode_var(update.0 as int) + update.1@)
}

/// The PRIORITY_UPDATE frames for `updates`, in their order.
pub open spec fn updates_bytes(updates: Seq<(u64, Vec<u8>)>) -> Seq<u8>
    decreases updates.len(),
{
    if updates.len() == 0 {
        Seq::empty()
    } else {
        updates_bytes(updates.drop_last()) + update_bytes(updates.last())
    }
}

/// What is written first on a control stream: its type, SETTINGS, `grease_frame`, and the
/// PRIORITY_UPDATE frames.
pub open spec fn control_bytes(
    entries: Seq<(SettingId, u64)>,
    grease_frame: Seq<u8>,
    updates: Seq<(u64, Vec<u8>)>,
) -> Seq<u8> {
    encode_var(CONTROL_STREAM as int) + frame_bytes(
        SETTINGS_FRAME as int,
        settings_payload(entries),
    ) + grease_frame + updates_bytes(updates)
}

impl Config {
    /// Whether everything configured fits the wire: identifiers, values and stream IDs are
    /// variable-length integers, and so are the lengths of the payloads.
    pub open spec fn encodable(self) -> bool {
        &&& entries_fit(self.entries())
        &&& 16 * self.entries().len() + 16 <= VARINT_MAX
        &&& forall|i: int|
            0 <= i < self.priority_updates@.len() ==> update_fits(
                #[trigger] self.priority_updates@[i],
            )
    }

    /// Whether `bytes` is a reserved frame that this configuration may send on its control stream,
    /// or nothing if it sends none.
    pub open spec fn allows_control_grease(self, bytes: Seq<u8>) -> bool {
        if !self.send_control_grease_frame {
            bytes.len() == 0
        } else if self.chromium_grease {
            Frame::ChromiumGrease.encodes_to(bytes)
        } else {
            Frame::Grease.encodes_to(bytes)
        }
    }

    /// Whether everything configured fits the wire.
    pub fn is_encodable(&self) -> (yes: bool)
        ensures
            yes == self.encodable(),
            yes == ({
                &&& forall|i: int|
                    0 <= i < self.entries().len() ==> (#[trigger] self.entries()[i]).0.0
                        <= VARINT_MAX && self.entries()[i].1 <= VARINT_MAX
                &&& 16 * self.entries().len() + 16 <= VARINT_MAX
                &&& forall|i: int|
                    0 <= i < self.priority_updates@.len() ==> (
                    #[trigger] self.priority_updates@[i]).0 <= VARINT_MAX && (encode_var(
                        self.priority_updates@[i].0 as int,
                    ) + self.priority_updates@[i].1@).len() <= VARINT_MAX
            }),
    {
        proof {
            law_what_a_configuration_needs_to_fit(*self);
        }
        let (pairs_fit, len): (bool, u128) = match &self.ordered_settings {
            Some(ordered) => {
                proof {
                    lemma_pairs_fit(ordered@);
                }
                (check_pairs_fit(ordered), ordered.len() as u128)
            },
            None => {
                proof {
                    lemma_pairs_fit(self.additional_settings@);
                    lemma_built_in_fit(*self);
                }
                (
                    self.settings.max_field_section_size <= VARINT_MAX
                        && self.settings.max_webtransport_sessions <= VARINT_MAX && check_pairs_fit(
                        &self.additional_settings,
                    ),
                    self.additional_settings.len() as u128 + 5,
                )
            },
        };
        if !pairs_fit || 16 * len + 16 > VARINT_MAX as u128 {
            return false;
        }
        let mut i: usize = 0;
        while i < self.priority_updates.len()
            invariant
                i <= self.priority_updates.len(),
                forall|j: int|
                    0 <= j < i ==> update_fits(#[trigger] self.priority_updates@[j]),
            decreases self.priority_updates.len() - i,
        {
            let update = &self.priority_updates[i];
            if update.0 > VARINT_MAX || var_len(update.0) as u128 + update.1.len() as u128
                > VARINT_MAX as u128 {
                assert(!update_fits(self.priority_updates@[i as int]));
                return false;
            }
            i += 1;
        }
        true
    }

    /// A reserved frame to send on the control stream, or nothing if the configuration does not
    /// ask for one.
    pub fn draw_control_grease(&self) -> (grease_frame: Vec<u8>)
        ensures
            self.allows_control_grease(grease_frame@),
            grease_frame@.len() > 0 <==> self.send_control_grease_frame,
    {
        let mut grease_frame: Vec<u8> = Vec::new();
        if self.send_control_grease_frame {
            let frame = if self.chromium_grease {
                Frame::ChromiumGrease
            } else {
                Frame::Grease
            };
            frame.encode(&mut grease_frame);
            proof {
                let bytes = choose|bytes: Seq<u8>| #[trigger]
                    frame.encodes_to(bytes) && grease_frame@ == Seq::<u8>::empty() + bytes;
                assert(grease_frame@ =~= bytes);
            }
        }
        proof {
            law_control_grease_layout(*self, grease_frame@);
        }
        grease_frame
    }

    /// What is written first on the control stream, given the SETTINGS frame and the reserved
    /// frame, if any, that follows it.
    pub fn control_stream(&self, settings: &frame::Settings, grease_frame: &Vec<u8>) -> (bytes: Vec<
        u8,
    >)
        requires
            settings.encodable(),
            self.encodable(),
        ensures
            bytes@ == control_bytes(settings@, grease_frame@, self.priority_updates@),
            bytes@ == seq![0u8] + (encode_var(SETTINGS_FRAME as int) + encode_var(
                settings_payload(settings@).len() as int,
            ) + settings_payload(settings@)) + grease_frame@ + Seq::new(
                self.priority_updates@.len(),
                |i: int|
                    encode_var(PRIORITY_UPDATE_FRAME as int) + encode_var(
                        (encode_var(self.priority_updates@[i].0 as int)
                            + self.priority_updates@[i].1@).len() as int,
                    ) + (encode_var(self.priority_updates@[i].0 as int)
                        + self.priority_updates@[i].1@),
            ).flatten(),
    {
        let mut bytes: Vec<u8> = Vec::new();
        write_var(CONTROL_STREAM, &mut bytes);
        settings.encode(&mut bytes);
        bytes.extend_from_slice(grease_frame.as_slice());
        let ghost head = encode_var(CONTROL_STREAM as int) + frame_bytes(
            SETTINGS_FRAME as int,
            settings_payload(settings@),
        ) + grease_frame@;
        assert(bytes@ =~= head);
        let mut i: usize = 0;
        assert(self.priority_updates@.take(0) =~= Seq::empty());
        while i < self.priority_updates.len()
            invariant
                i <= self.priority_updates.len(),
                self.encodable(),
                bytes@ == head + updates_bytes(self.priority_updates@.take(i as int)),
            decreases self.priority_updates.len() - i,
        {
            let update = &self.priority_updates[i];
            assert(update_fits(self.priority_updates@[i as int]));
            encode_priority_update(update.0, &update.1, &mut bytes);
            proof {
                let before = self.priority_updates@.take(i as int);
                let after = self.priority_updates@.take(i + 1);
                assert(after.drop_last() =~= before);
                lemma_append(head, updates_bytes(before), update_bytes(*update));
            }
            i += 1;
        }
        assert(self.priority_updates@.take(i as int) =~= self.priority_updates@);
        proof {
            law_control_stream_layout(settings@, grease_frame@, self.priority_updates@);
        }
        bytes
    }
}

/// Whether identifiers and values all fit a variable-length integer.
spec fn all_pairs_fit(pairs: Seq<(u64, u64)>) -> bool {
    forall|i: int|
        0 <= i < pairs.len() ==> (#[trigger] pairs[i]).0 <= VARINT_MAX && pairs[i].1 <= VARINT_MAX
}

/// Whether identifiers and values all fit a variable-length integer.
fn check_pairs_fit(pairs: &Vec<(u64, u64)>) -> (yes: bool)
    ensures
        yes == all_pairs_fit(pairs@),
{
    let mut i: usize = 0;
    while i < pairs.len()
        invariant
            i <= pairs.len(),
            forall|j: int|
                0 <= j < i ==> (#[trigger] pairs@[j]).0 <= VARINT_MAX && pairs@[j].1 <= VARINT_MAX,
        decreases pairs.len() - i,
    {
        if pairs[i].0 > VARINT_MAX || pairs[i].1 > VARINT_MAX {
            assert(pairs@[i as int].0 > VARINT_MAX || pairs@[i as int].1 > VARINT_MAX);
            return false;
        }
        i += 1;
    }
    true
}

/// Pairs fit the wire exactly if they do as entries.
proof fn lemma_pairs_fit(pairs: Seq<(u64, u64)>)
    ensures
        entries_fit(as_entries(pairs)) == all_pairs_fit(pairs),
{
    let entries = as_entries(pairs);
    if entries_fit(entries) {
        assert forall|i: int| 0 <= i < pairs.len() implies (#[trigger] pairs[i]).0 <= VARINT_MAX
            && pairs[i].1 <= VARINT_MAX by {
            assert(entries[i] == (SettingId(pairs[i].0), pairs[i].1));
        }
    }
}

/// Built-in and additional settings fit the wire exactly if the two numbers among the built-in
/// ones and all additional ones do.
proof fn lemma_built_in_fit(config: Config)
    requires
        config.ordered_settings is None,
    ensures
        config.entries().len() == config.additional_settings@.len() + 5,
        entries_fit(config.entries()) == (config.settings.max_field_section_size <= VARINT_MAX
            && config.settings.max_webtransport_sessions <= VARINT_MAX && entries_fit(
            as_entries(config.additional_settings@),
        )),
{
    let entries = config.entries();
    let extra = as_entries(config.additional_settings@);
    assert(entries[0] == config.settings.built_in()[0]);
    assert(entries[4] == config.settings.built_in()[4]);
    if entries_fit(entries) {
        assert forall|i: int| 0 <= i < extra.len() implies (#[trigger] extra[i]).0.0 <= VARINT_MAX
            && extra[i].1 <= VARINT_MAX by {
            assert(entries[i + 5] == extra[i]);
        }
    }
}

/// Concatenation is associative.
proof fn lemma_append(a: Seq<u8>, b: Seq<u8>, c: Seq<u8>)
    ensures
        a + b + c == a + (b + c),
{
    assert(a + b + c =~= a + (b + c));
}

/// The frames for updates start with the one for the first of them.
proof fn lemma_updates_front(updates: Seq<(u64, Vec<u8>)>)
    requires
        updates.len() > 0,
    ensures
        updates_bytes(updates) == update_bytes(updates[0]) + updates_bytes(updates.drop_first()),
    decreases updates.len(),
{
    let front = updates.drop_last();
    if front.len() == 0 {
        assert(updates_bytes(front) + update_bytes(updates[0]) =~= update_bytes(updates[0])
            + updates_bytes(updates.drop_first()));
    } else {
        lemma_updates_front(front);
        assert(updates.drop_first().drop_last() =~= front.drop_first());
        assert(updates.drop_first().last() == updates.last());
        lemma_append(
            update_bytes(updates[0]),
            updates_bytes(front.drop_first()),
            update_bytes(updates.last()),
        );
    }
}

/// A configuration fits the wire exactly if every identifier and value that it sends, every stream
/// ID of a priority update and every length is a variable-length integer. For the SETTINGS payload
/// sixteen bytes are counted for each entry and for a reserved one.
pub proof fn law_what_a_configuration_needs_to_fit(config: Config)
    ensures
        config.encodable() <==> {
            &&& forall|i: int|
                0 <= i < config.entries().len() ==> (#[trigger] config.entries()[i]).0.0
                    <= VARINT_MAX && config.entries()[i].1 <= VARINT_MAX
            &&& 16 * config.entries().len() + 16 <= VARINT_MAX
            &&& forall|i: int|
                0 <= i < config.priority_updates@.len() ==> (
                #[trigger] config.priority_updates@[i]).0 <= VARINT_MAX && (encode_var(
                    config.priority_updates@[i].0 as int,
                ) + config.priority_updates@[i].1@).len() <= VARINT_MAX
        },
{
    assert forall|i: int| 0 <= i < config.priority_updates@.len() implies update_fits(
        #[trigger] config.priority_updates@[i],
    ) == (config.priority_updates@[i].0 <= VARINT_MAX && (encode_var(
        config.priority_updates@[i].0 as int,
    ) + config.priority_updates@[i].1@).len() <= VARINT_MAX) by {
        if config.priority_updates@[i].0 <= VARINT_MAX {
            law_var_size(config.priority_updates@[i].0 as int);
        }
    }
}

/// The reserved frame that a configuration may send on its control stream: none unless it asks for
/// one. Then the type is 33 and a multiple of 31. Outside Chromium mode the payload is the word
/// `grease`; in Chromium mode the multiple comes from a 32-bit draw, and the payload has as many
/// bytes as the draw leaves modulo four.
pub proof fn law_control_grease_layout(config: Config, grease_frame: Seq<u8>)
    requires
        config.allows_control_grease(grease_frame),
    ensures
        !config.send_control_grease_frame ==> grease_frame.len() == 0,
        config.send_control_grease_frame ==> grease_frame.len() > 0,
        config.send_control_grease_frame && !config.chromium_grease ==> exists|ty: int|
            33 <= ty <= VARINT_MAX && (ty - 33) % 31 == 0 && grease_frame == #[trigger] encode_var(
                ty,
            ) + encode_var(6) + seq![0x67u8, 0x72u8, 0x65u8, 0x61u8, 0x73u8, 0x65u8],
        config.send_control_grease_frame && config.chromium_grease ==> exists|
            ty: int,
            payload: Seq<u8>,
        |
            33 <= ty <= 31 * u32::MAX + 33 && (ty - 33) % 31 == 0 && payload.len() == (ty - 33) / 31
                % 4 && grease_frame == #[trigger] (encode_var(ty) + encode_var(payload.len() as int)
                + payload),
{
    if config.send_control_grease_frame {
        if config.chromium_grease {
            law_frame_encodings(Frame::ChromiumGrease, grease_frame);
        } else {
            law_frame_encodings(Frame::Grease, grease_frame);
        }
    }
}

/// The PRIORITY_UPDATE frames are one for each update, in the order of the updates and with nothing
/// in between: type, length, stream ID, priority field value.
pub proof fn law_updates_layout(updates: Seq<(u64, Vec<u8>)>)
    ensures
        updates_bytes(updates) == Seq::new(
            updates.len(),
            |i: int|
                encode_var(PRIORITY_UPDATE_FRAME as int) + encode_var(
                    (encode_var(updates[i].0 as int) + updates[i].1@).len() as int,
                ) + (encode_var(updates[i].0 as int) + updates[i].1@),
        ).flatten(),
    decreases updates.len(),
{
    let frames = Seq::new(updates.len(), |i: int| update_bytes(updates[i]));
    if updates.len() > 0 {
        let front = updates.drop_last();
        law_updates_layout(front);
        let before = Seq::new(front.len(), |i: int| update_bytes(front[i]));
        assert(frames =~= before.push(update_bytes(updates.last())));
        before.lemma_flatten_push(update_bytes(updates.last()));
        assert(before =~= Seq::new(
            front.len(),
            |i: int|
                encode_var(PRIORITY_UPDATE_FRAME as int) + encode_var(
                    (encode_var(front[i].0 as int) + front[i].1@).len() as int,
                ) + (encode_var(front[i].0 as int) + front[i].1@),
        ));
    }
    assert(frames =~= Seq::new(
        updates.len(),
        |i: int|
            encode_var(PRIORITY_UPDATE_FRAME as int) + encode_var(
                (encode_var(updates[i].0 as int) + updates[i].1@).len() as int,
            ) + (encode_var(updates[i].0 as int) + updates[i].1@),
    ));
}

/// A control stream opens with a zero byte for its type, the SETTINGS frame, the reserved frame if
/// there is one, and a PRIORITY_UPDATE frame for each update.
pub proof fn law_control_stream_layout(
    entries: Seq<(SettingId, u64)>,
    grease_frame: Seq<u8>,
    updates: Seq<(u64, Vec<u8>)>,
)
    ensures
        control_bytes(entries, grease_frame, updates) == seq![0u8] + (encode_var(
            SETTINGS_FRAME as int,
        ) + encode_var(settings_payload(entries).len() as int) + settings_payload(entries))
            + grease_frame + Seq::new(
            updates.len(),
            |i: int|
                encode_var(PRIORITY_UPDATE_FRAME as int) + encode_var(
                    (encode_var(updates[i].0 as int) + updates[i].1@).len() as int,
                ) + (encode_var(updates[i].0 as int) + updates[i].1@),
        ).flatten(),
{
    law_updates_layout(updates);
    assert(encode_var(CONTROL_STREAM as int) =~= seq![0u8]);
}

/// Reads PRIORITY_UPDATE frames up to the end: stream ID and priority field value of each.
pub open spec fn decode_updates(s: Seq<u8>) -> Option<Seq<(u64, Seq<u8>)>>
    decreases s.len(),
{
    if s.len() == 0 {
        Some(Seq::empty())
    } else {
        match decode_frame(s) {
            None => None,
            Some((ty, payload, rest)) => {
                proof {
                    law_frame_decode_bounds(s);
                }
                match (decode_var(payload), decode_updates(rest)) {
                    (Some((element_id, n)), Some(following)) if ty == PRIORITY_UPDATE_FRAME => Some(
                        seq![(element_id, payload.skip(n))] + following,
                    ),
                    _ => None,
                }
            },
        }
    }
}

/// The PRIORITY_UPDATE frames read back as all the updates, in their order and nothing else.
pub proof fn law_all_updates_read_back(updates: Seq<(u64, Vec<u8>)>)
    requires
        forall|i: int|
            0 <= i < updates.len() ==> (#[trigger] updates[i]).0 <= VARINT_MAX && (encode_var(
                updates[i].0 as int,
            ) + updates[i].1@).len() <= VARINT_MAX,
    ensures
        decode_updates(updates_bytes(updates)) == Some(
            Seq::new(updates.len(), |i: int| (updates[i].0, updates[i].1@)),
        ),
    decreases updates.len(),
{
    let read = Seq::new(updates.len(), |i: int| (updates[i].0, updates[i].1@));
    if updates.len() == 0 {
        assert(read =~= Seq::empty());
    } else {
        let tail = updates.drop_first();
        assert(updates[0].0 <= VARINT_MAX);
        law_var_size(updates[0].0 as int);
        law_updates_read_back(updates);
        assert forall|i: int| 0 <= i < tail.len() implies (#[trigger] tail[i]).0 <= VARINT_MAX && (
        encode_var(tail[i].0 as int) + tail[i].1@).len() <= VARINT_MAX by {
            assert(tail[i] == updates[i + 1]);
        }
        law_all_updates_read_back(tail);
        law_frame_decode_bounds(updates_bytes(updates));
        if let Some((_, payload, following)) = decode_frame(updates_bytes(updates)) {
            let first = seq![(updates[0].0, updates[0].1@)];
            assert(first + Seq::new(tail.len(), |i: int| (tail[i].0, tail[i].1@)) =~= read);
        }
        lemma_updates_front(updates);
        assert(updates_bytes(updates).len() > 0) by {
            law_var_size(PRIORITY_UPDATE_FRAME as int);
        }
    }
}

/// After the stream type, a control stream starts with the SETTINGS frame; the reserved frame, if
/// there is one, comes next and the PRIORITY_UPDATE frames come last.
pub proof fn law_settings_come_first(
    entries: Seq<(SettingId, u64)>,
    grease_frame: Seq<u8>,
    updates: Seq<(u64, Vec<u8>)>,
)
    requires
        settings_payload(entries).len() <= VARINT_MAX,
    ensures
        decode_var(control_bytes(entries, grease_frame, updates)) == Some((CONTROL_STREAM, 1int)),
        decode_frame(control_bytes(entries, grease_frame, updates).skip(1)) == Some(
            (SETTINGS_FRAME, settings_payload(entries), grease_frame + updates_bytes(updates)),
        ),
{
    let settings = frame_bytes(SETTINGS_FRAME as int, settings_payload(entries));
    let rest = grease_frame + updates_bytes(updates);
    assert(control_bytes(entries, grease_frame, updates).skip(1) =~= settings + rest);
    law_frame_round_trip(SETTINGS_FRAME, settings_payload(entries), rest);
}

/// A frame of a reserved type reads back as that type and its payload.
proof fn lemma_reserved_frame(n: int, payload: Seq<u8>, rest: Seq<u8>)
    requires
        0 <= n < GREASE_RANGE,
        payload.len() <= VARINT_MAX,
    ensures
        decode_frame(frame_bytes(reserved(n), payload) + rest) == Some(
            (reserved(n) as u64, payload, rest),
        ),
        reserved(n) as u64 == reserved(n),
{
    law_frame_round_trip(reserved(n) as u64, payload, rest);
}

/// A reserved frame that a configuration may send reads back as a frame of a reserved type. In
/// Chromium mode its payload has up to three bytes, as many as the type says; otherwise it is the
/// word `grease`.
pub proof fn law_control_grease_reads_back(config: Config, grease_frame: Seq<u8>, rest: Seq<u8>)
    requires
        config.send_control_grease_frame,
        config.allows_control_grease(grease_frame),
    ensures
        decode_frame(grease_frame + rest) matches Some((ty, payload, following)) && {
            &&& following == rest
            &&& ty >= 33
            &&& (ty - 33) % 31 == 0
            &&& config.chromium_grease ==> payload.len() == (ty - 33) / 31 % 4 && payload.len() <= 3
                && ty <= 133_143_986_178
            &&& !config.chromium_grease ==> payload == grease_payload()
        },
{
    if config.chromium_grease {
        let (n, payload) = choose|n: int, payload: Seq<u8>|
            0 <= n <= u32::MAX && payload.len() == n % 4 && grease_frame == #[trigger] frame_bytes(
                reserved(n),
                payload,
            );
        lemma_reserved_frame(n, payload, rest);
    } else {
        let n = choose|n: int|
            0 <= n < GREASE_RANGE && grease_frame == #[trigger] frame_bytes(
                reserved(n),
                grease_payload(),
            );
        lemma_reserved_frame(n, grease_payload(), rest);
    }
}

/// The PRIORITY_UPDATE frames read back one by one in the configured order: each starts with the
/// stream ID, and the rest of its payload is the priority field value.
pub proof fn law_updates_read_back(updates: Seq<(u64, Vec<u8>)>)
    requires
        updates.len() > 0,
        update_fits(updates[0]),
    ensures
        decode_frame(updates_bytes(updates)) matches Some((ty, payload, following)) && {
            &&& ty == PRIORITY_UPDATE_FRAME
            &&& decode_var(payload) matches Some((element_id, n)) && element_id == updates[0].0
                && payload.skip(n) == updates[0].1@
            &&& following == updates_bytes(updates.drop_first())
        },
{
    let payload = encode_var(updates[0].0 as int) + updates[0].1@;
    law_var_size(updates[0].0 as int);
    law_var_round_trip(updates[0].0, updates[0].1@);
    lemma_updates_front(updates);
    law_frame_round_trip(PRIORITY_UPDATE_FRAME, payload, updates_bytes(updates.drop_first()));
}

} // verus!
