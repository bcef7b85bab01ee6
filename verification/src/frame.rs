//! Frames of the control stream (RFC 9114, section 7.2) and the entries of a SETTINGS frame.

use vstd::prelude::*;

use crate::random::{random_u32, random_u64_below, random_u8};
use crate::varint::{var_len, write_var, VARINT_MAX};
#[allow(unused_imports)]
use crate::varint::{decode_var, encode_var, law_var_decode_bounds, law_var_round_trip, law_var_size, var_size};

verus! {

/// Identifier of a setting.
#[derive(Debug, Clone, Copy, PartialEq, Eq, Structural)]
pub struct SettingId(pub u64);

/// Why an entry could not be added to a SETTINGS frame.
#[derive(Debug, Clone, Copy, PartialEq, Eq, Structural)]
pub enum SettingsError {
    /// The identifier already occurs in the frame.
    Repeated(SettingId),
}

/// `SETTINGS_MAX_FIELD_SECTION_SIZE`.
pub const MAX_HEADER_LIST_SIZE: u64 = 0x6;

/// `SETTINGS_ENABLE_CONNECT_PROTOCOL` (RFC 9220).
pub const ENABLE_CONNECT_PROTOCOL: u64 = 0x8;

/// `SETTINGS_H3_DATAGRAM` (RFC 9297).
pub const H3_DATAGRAM: u64 = 0x33;

/// `SETTINGS_ENABLE_WEBTRANSPORT`.
pub const ENABLE_WEBTRANSPORT: u64 = 0x2b60_3742;

/// `SETTINGS_WEBTRANSPORT_MAX_SESSIONS`.
pub const WEBTRANSPORT_MAX_SESSIONS: u64 = 0x2b60_3743;

/// Type of a SETTINGS frame.
pub const SETTINGS_FRAME: u64 = 0x4;

/// Type of a PRIORITY_UPDATE frame for a request stream (RFC 9218).
pub const PRIORITY_UPDATE_FRAME: u64 = 0xf_0700;

/// Exclusive bound on the `n` for which `31 * n + 33` is drawn when any variable-length integer
/// will do.
pub const GREASE_RANGE: u64 = 0x210_8421_0842_1083;

/// The entries of a SETTINGS frame, in the order in which they are sent.
#[derive(Debug)]
pub struct Settings {
    entries: Vec<(SettingId, u64)>,
}

/// The `n`-th identifier that is reserved, for settings and for frame types alike, so that peers
/// practise ignoring what they do not know (RFC 9114, sections 7.2.4.1 and 7.2.8).
pub open spec fn reserved(n: int) -> int {
    31 * n + 33
}

/// Payload of the reserved frame that is sent outside Chromium mode: the word `grease`.
pub open spec fn grease_payload() -> Seq<u8> {
    seq![0x67u8, 0x72u8, 0x65u8, 0x61u8, 0x73u8, 0x65u8]
}

impl SettingId {
    /// The `n`-th reserved identifier.
    pub fn reserved(n: u64) -> (id: SettingId)
        requires
            n < GREASE_RANGE,
        ensures
            id.0 == reserved(n as int),
            id.0 == 31 * n + 33,
            id.0 <= VARINT_MAX,
    {
        SettingId(31 * n + 33)
    }

    /// A reserved identifier, drawn at random from those that fit a variable-length integer.
    pub fn grease() -> (id: SettingId)
        ensures
            exists|n: int| 0 <= n < GREASE_RANGE && id.0 == #[trigger] reserved(n),
            33 <= id.0 <= VARINT_MAX,
            (id.0 - 33) % 31 == 0,
    {
        let n: u64 = random_u64_below(GREASE_RANGE);
        let id = SettingId::reserved(n);
        assert(id.0 == reserved(n as int));
        id
    }
}

/// Whether some entry has identifier `id`.
pub open spec fn has_id(entries: Seq<(SettingId, u64)>, id: SettingId) -> bool {
    exists|i: int| 0 <= i < entries.len() && (#[trigger] entries[i]).0 == id
}

/// No identifier occurs twice.
pub open spec fn unique_ids(entries: Seq<(SettingId, u64)>) -> bool {
    forall|i: int, j: int|
        0 <= i < j < entries.len() ==> (#[trigger] entries[i]).0 != (#[trigger] entries[j]).0
}

/// Identifiers never decrease from one entry to the next.
pub open spec fn ascending_ids(entries: Seq<(SettingId, u64)>) -> bool {
    forall|i: int, j: int|
        0 <= i < j < entries.len() ==> (#[trigger] entries[i]).0.0 <= (#[trigger] entries[j]).0.0
}

/// The value of the first entry with identifier `id`.
pub open spec fn lookup(entries: Seq<(SettingId, u64)>, id: SettingId) -> Option<u64>
    decreases entries.len(),
{
    if entries.len() == 0 {
        None
    } else {
        match lookup(entries.drop_last(), id) {
            Some(value) => Some(value),
            None => if entries.last().0 == id {
                Some(entries.last().1)
            } else {
                None
            },
        }
    }
}

/// Whether both halves of every entry fit a variable-length integer.
pub open spec fn entries_fit(entries: Seq<(SettingId, u64)>) -> bool {
    forall|i: int|
        0 <= i < entries.len() ==> (#[trigger] entries[i]).0.0 <= VARINT_MAX && entries[i].1
            <= VARINT_MAX
}

/// Payload of a SETTINGS frame: identifier and value of each entry in turn.
pub open spec fn settings_payload(entries: Seq<(SettingId, u64)>) -> Seq<u8>
    decreases entries.len(),
{
    if entries.len() == 0 {
        Seq::empty()
    } else {
        settings_payload(entries.drop_last()) + encode_var(entries.last().0.0 as int) + encode_var(
            entries.last().1 as int,
        )
    }
}

/// A frame on the wire: type, length of the payload, payload.
pub open spec fn frame_bytes(ty: int, payload: Seq<u8>) -> Seq<u8> {
    encode_var(ty) + encode_var(payload.len() as int) + payload
}

/// Reads a frame off the front of `s`: its type, its payload and what follows it.
#[verifier::opaque]
pub open spec fn decode_frame(s: Seq<u8>) -> Option<(u64, Seq<u8>, Seq<u8>)> {
    match decode_var(s) {
        None => None,
        Some((ty, n)) => match decode_var(s.skip(n)) {
            None => None,
            Some((len, m)) => {
                let rest = s.skip(n).skip(m);
                if rest.len() < len {
                    None
                } else {
                    Some((ty, rest.take(len as int), rest.skip(len as int)))
                }
            },
        },
    }
}

/// Reads the payload of a SETTINGS frame as entries.
pub open spec fn decode_entries(s: Seq<u8>) -> Option<Seq<(SettingId, u64)>>
    decreases s.len(),
{
    if s.len() == 0 {
        Some(Seq::empty())
    } else {
        match decode_var(s) {
            None => None,
            Some((id, n)) => match decode_var(s.skip(n)) {
                None => None,
                Some((value, m)) => {
                    proof {
                        law_var_decode_bounds(s);
                        law_var_decode_bounds(s.skip(n));
                    }
                    match decode_entries(s.skip(n).skip(m)) {
                        None => None,
                        Some(entries) => Some(seq![(SettingId(id), value)] + entries),
                    }
                },
            },
        }
    }
}

impl View for Settings {
    type V = Seq<(SettingId, u64)>;

    closed spec fn view(&self) -> Seq<(SettingId, u64)> {
        self.entries@
    }
}

impl Default for Settings {
    fn default() -> (settings: Self)
        ensures
            settings@ == Seq::<(SettingId, u64)>::empty(),
    {
        Settings { entries: Vec::new() }
    }
}

impl Settings {
    /// Whether a SETTINGS frame can be written for these entries: every identifier and value is
    /// a variable-length integer, and so is the length of the payload.
    pub open spec fn encodable(&self) -> bool {
        entries_fit(self@) && settings_payload(self@).len() <= VARINT_MAX
    }

    /// Adds an entry at the end, unless its identifier is already there.
    pub fn insert(&mut self, id: SettingId, value: u64) -> (result: Result<(), SettingsError>)
        ensures
            result is Err <==> has_id(old(self)@, id),
            result is Err ==> result == Err::<(), _>(SettingsError::Repeated(id)) && final(self)@
                == old(self)@,
            result is Ok ==> final(self)@ == old(self)@.push((id, value)),
            result is Err <==> exists|i: int|
                0 <= i < old(self)@.len() && (#[trigger] old(self)@[i]).0 == id,
            unique_ids(old(self)@) ==> unique_ids(final(self)@),
    {
        let mut i: usize = 0;
        while i < self.entries.len()
            invariant
                i <= self.entries.len(),
                self@ == old(self)@,
                forall|j: int| 0 <= j < i ==> (#[trigger] self@[j]).0 != id,
            decreases self.entries.len() - i,
        {
            if self.entries[i].0 == id {
                assert(self@[i as int].0 == id);
                return Err(SettingsError::Repeated(id));
            }
            i += 1;
        }
        self.entries.push((id, value));
        Ok(())
    }

    /// The value of the first entry with identifier `id`.
    pub fn get(&self, id: SettingId) -> (value: Option<u64>)
        ensures
            value == lookup(self@, id),
            match value {
                Some(v) => exists|i: int|
                    0 <= i < self@.len() && (#[trigger] self@[i]) == (id, v) && forall|j: int|
                        0 <= j < i ==> (#[trigger] self@[j]).0 != id,
                None => forall|i: int| 0 <= i < self@.len() ==> (#[trigger] self@[i]).0 != id,
            },
    {
        let mut i: usize = 0;
        while i < self.entries.len()
            invariant
                i <= self.entries.len(),
                lookup(self@.take(i as int), id) is None,
            decreases self.entries.len() - i,
        {
            let entry = self.entries[i];
            proof {
                assert(self@.take(i + 1).drop_last() =~= self@.take(i as int));
            }
            if entry.0 == id {
                proof {
                    lemma_lookup_prefix(self@, i + 1, id);
                    law_first_entry_is_found(self@, id);
                }
                return Some(entry.1);
            }
            i += 1;
        }
        assert(self@.take(i as int) =~= self@);
        proof {
            law_first_entry_is_found(self@, id);
        }
        None
    }

    /// Orders the entries by identifier, smallest first.
    pub fn sort_by_id(&mut self)
        ensures
            ascending_ids(final(self)@),
            forall|i: int, j: int|
                0 <= i < j < final(self)@.len() ==> (#[trigger] final(self)@[i]).0.0 <= (
                #[trigger] final(self)@[j]).0.0,
            final(self)@.to_multiset() == old(self)@.to_multiset(),
            unique_ids(old(self)@) ==> unique_ids(final(self)@),
    {
        let mut sorted: Vec<(SettingId, u64)> = Vec::new();
        assert(sorted@ =~= self@.take(0));
        let mut i: usize = 0;
        while i < self.entries.len()
            invariant
                i <= self.entries.len(),
                self@ == old(self)@,
                ascending_ids(sorted@),
                sorted@.to_multiset() == self@.take(i as int).to_multiset(),
            decreases self.entries.len() - i,
        {
            let entry = self.entries[i];
            let mut k: usize = sorted.len();
            while k > 0 && sorted[k - 1].0.0 > entry.0.0
                invariant
                    k <= sorted.len(),
                    forall|j: int| k <= j < sorted.len() ==> (#[trigger] sorted@[j]).0.0 > entry.0.0,
                decreases k,
            {
                k -= 1;
            }
            proof {
                vstd::seq_lib::to_multiset_insert(sorted@, k as int, entry);
                vstd::seq_lib::to_multiset_build(self@.take(i as int), entry);
                assert(self@.take(i + 1) =~= self@.take(i as int).push(entry));
            }
            sorted.insert(k, entry);
            i += 1;
        }
        proof {
            assert(self@.take(i as int) =~= self@);
            if unique_ids(self@) {
                lemma_unique_ids_permuted(self@, sorted@);
            }
        }
        self.entries = sorted;
    }

    /// Whether `encode` can write these entries.
    pub fn is_encodable(&self) -> (yes: bool)
        ensures
            yes == self.encodable(),
            yes == ((forall|i: int|
                0 <= i < self@.len() ==> (#[trigger] self@[i]).0.0 <= VARINT_MAX && self@[i].1
                    <= VARINT_MAX) && settings_payload(self@).len() <= VARINT_MAX),
    {
        let mut size: u128 = 0;
        let mut i: usize = 0;
        while i < self.entries.len()
            invariant
                i <= self.entries.len(),
                entries_fit(self@.take(i as int)),
                size == settings_payload(self@.take(i as int)).len(),
                size <= 16 * i,
            decreases self.entries.len() - i,
        {
            let entry = self.entries[i];
            if entry.0.0 > VARINT_MAX || entry.1 > VARINT_MAX {
                assert(self@[i as int] == entry);
                return false;
            }
            proof {
                assert(self@.take(i + 1).drop_last() =~= self@.take(i as int));
                assert(self@.take(i + 1) =~= self@.take(i as int).push(entry));
                law_var_size(entry.0.0 as int);
                law_var_size(entry.1 as int);
            }
            size += var_len(entry.0.0) as u128 + var_len(entry.1) as u128;
            i += 1;
        }
        assert(self@.take(i as int) =~= self@);
        size <= VARINT_MAX as u128
    }

    /// Appends the SETTINGS frame with these entries to `buf`.
    pub fn encode(&self, buf: &mut Vec<u8>)
        requires
            self.encodable(),
        ensures
            final(buf)@ == old(buf)@ + frame_bytes(SETTINGS_FRAME as int, settings_payload(self@)),
            final(buf)@ == old(buf)@ + (encode_var(SETTINGS_FRAME as int) + encode_var(
                settings_payload(self@).len() as int,
            ) + settings_payload(self@)),
    {
        let mut payload: Vec<u8> = Vec::new();
        let mut i: usize = 0;
        while i < self.entries.len()
            invariant
                i <= self.entries.len(),
                entries_fit(self@),
                payload@ == settings_payload(self@.take(i as int)),
            decreases self.entries.len() - i,
        {
            let entry = self.entries[i];
            assert(self@[i as int] == entry);
            write_var(entry.0.0, &mut payload);
            write_var(entry.1, &mut payload);
            assert(self@.take(i + 1).drop_last() =~= self@.take(i as int));
            i += 1;
        }
        assert(self@.take(i as int) =~= self@);
        write_frame(SETTINGS_FRAME, payload.as_slice(), buf);
    }
}

/// Appends a frame of type `ty` to `buf`.
pub fn write_frame(ty: u64, payload: &[u8], buf: &mut Vec<u8>)
    requires
        ty <= VARINT_MAX,
        payload.len() <= VARINT_MAX,
    ensures
        final(buf)@ == old(buf)@ + frame_bytes(ty as int, payload@),
        final(buf)@ == old(buf)@ + (encode_var(ty as int) + encode_var(payload@.len() as int)
            + payload@),
{
    let ghost before = buf@;
    write_var(ty, buf);
    write_var(payload.len() as u64, buf);
    buf.extend_from_slice(payload);
    assert(buf@ =~= before + frame_bytes(ty as int, payload@));
}

/// A frame that an endpoint sends on its control stream.
#[derive(Debug)]
pub enum Frame {
    /// SETTINGS.
    Settings(Settings),
    /// PRIORITY_UPDATE: the request stream it is about and the priority field value.
    PriorityUpdate(u64, Vec<u8>),
    /// A frame of a reserved type whose payload is the word `grease`.
    Grease,
    /// A frame of a reserved type with a random payload of up to three bytes.
    ChromiumGrease,
}

impl Frame {
    /// Whether `encode` can write the frame: every integer in it fits its encoding.
    pub open spec fn encodable(&self) -> bool {
        match self {
            Frame::Settings(settings) => settings.encodable(),
            Frame::PriorityUpdate(element_id, field_value) => *element_id <= VARINT_MAX && var_size(
                *element_id as int,
            ) + field_value@.len() <= VARINT_MAX,
            Frame::Grease | Frame::ChromiumGrease => true,
        }
    }

    /// Whether `bytes` is an encoding of the frame.
    ///
    /// A reserved frame has many: its type is any reserved one, and in Chromium mode the type
    /// also gives the length of a payload that is otherwise arbitrary.
    pub open spec fn encodes_to(&self, bytes: Seq<u8>) -> bool {
        match self {
            Frame::Settings(settings) => bytes == frame_bytes(
                SETTINGS_FRAME as int,
                settings_payload(settings@),
            ),
            Frame::PriorityUpdate(element_id, field_value) => bytes == frame_bytes(
                PRIORITY_UPDATE_FRAME as int,
                encode_var(*element_id as int) + field_value@,
            ),
            Frame::Grease => exists|n: int|
                0 <= n < GREASE_RANGE && bytes == #[trigger] frame_bytes(
                    reserved(n),
                    grease_payload(),
                ),
            Frame::ChromiumGrease => exists|n: int, payload: Seq<u8>|
                0 <= n <= u32::MAX && payload.len() == n % 4 && bytes == #[trigger] frame_bytes(
                    reserved(n),
                    payload,
                ),
        }
    }

    /// Whether `encode` can write the frame.
    pub fn is_encodable(&self) -> (yes: bool)
        ensures
            yes == self.encodable(),
            yes == match self {
                Frame::Settings(settings) => settings.encodable(),
                Frame::PriorityUpdate(element_id, field_value) => *element_id <= VARINT_MAX && (
                encode_var(*element_id as int) + field_value@).len() <= VARINT_MAX,
                Frame::Grease | Frame::ChromiumGrease => true,
            },
    {
        proof {
            if let Frame::PriorityUpdate(element_id, _) = self {
                if *element_id <= VARINT_MAX {
                    law_var_size(*element_id as int);
                }
            }
        }
        match self {
            Frame::Settings(settings) => settings.is_encodable(),
            Frame::PriorityUpdate(element_id, field_value) => {
                *element_id <= VARINT_MAX && var_len(*element_id) as u128
                    + field_value.len() as u128 <= VARINT_MAX as u128
            },
            Frame::Grease | Frame::ChromiumGrease => true,
        }
    }

    /// Appends the frame to `buf`. What a reserved frame leaves open is drawn at random.
    pub fn encode(&self, buf: &mut Vec<u8>)
        requires
            self.encodable(),
        ensures
            exists|bytes: Seq<u8>| #[trigger]
                self.encodes_to(bytes) && final(buf)@ == old(buf)@ + bytes,
    {
        match self {
            Frame::Settings(settings) => {
                settings.encode(buf);
                assert(self.encodes_to(frame_bytes(SETTINGS_FRAME as int, settings_payload(settings@))));
            },
            Frame::PriorityUpdate(element_id, field_value) => {
                encode_priority_update(*element_id, field_value, buf);
                assert(self.encodes_to(
                    frame_bytes(
                        PRIORITY_UPDATE_FRAME as int,
                        encode_var(*element_id as int) + field_value@,
                    ),
                ));
            },
            Frame::Grease => {
                let n: u64 = random_u64_below(GREASE_RANGE);
                encode_grease(n, buf);
                assert(self.encodes_to(frame_bytes(reserved(n as int), grease_payload())));
            },
            Frame::ChromiumGrease => {
                let n: u32 = random_u32();
                let mut payload: Vec<u8> = Vec::new();
                while payload.len() < (n % 4) as usize
                    invariant
                        payload.len() <= n % 4,
                    decreases n % 4 - payload.len(),
                {
                    payload.push(random_u8());
                }
                encode_chromium_grease(n, &payload, buf);
                assert(self.encodes_to(frame_bytes(reserved(n as int), payload@)));
            },
        }
    }
}

/// Appends a PRIORITY_UPDATE frame for request stream `element_id` to `buf`.
pub fn encode_priority_update(element_id: u64, field_value: &Vec<u8>, buf: &mut Vec<u8>)
    requires
        element_id <= VARINT_MAX,
        var_size(element_id as int) + field_value@.len() <= VARINT_MAX,
    ensures
        final(buf)@ == old(buf)@ + frame_bytes(
            PRIORITY_UPDATE_FRAME as int,
            encode_var(element_id as int) + field_value@,
        ),
        final(buf)@ == old(buf)@ + (encode_var(PRIORITY_UPDATE_FRAME as int) + encode_var(
            (encode_var(element_id as int) + field_value@).len() as int,
        ) + (encode_var(element_id as int) + field_value@)),
{
    let mut payload: Vec<u8> = Vec::new();
    write_var(element_id, &mut payload);
    payload.extend_from_slice(field_value.as_slice());
    assert(payload@ =~= encode_var(element_id as int) + field_value@);
    proof {
        law_var_size(element_id as int);
    }
    write_frame(PRIORITY_UPDATE_FRAME, payload.as_slice(), buf);
}

/// Appends the reserved frame of the `n`-th reserved type to `buf`.
pub fn encode_grease(n: u64, buf: &mut Vec<u8>)
    requires
        n < GREASE_RANGE,
    ensures
        final(buf)@ == old(buf)@ + frame_bytes(reserved(n as int), grease_payload()),
        final(buf)@ == old(buf)@ + (encode_var(31 * n + 33) + encode_var(6) + seq![
            0x67u8,
            0x72u8,
            0x65u8,
            0x61u8,
            0x73u8,
            0x65u8,
        ]),
{
    let mut payload: Vec<u8> = Vec::new();
    payload.push(0x67);
    payload.push(0x72);
    payload.push(0x65);
    payload.push(0x61);
    payload.push(0x73);
    payload.push(0x65);
    assert(payload@ =~= grease_payload());
    write_frame(31 * n + 33, payload.as_slice(), buf);
}

/// Appends the reserved frame that Chromium would send to `buf`: the `n`-th reserved type, with
/// `n` modulo four bytes of payload.
pub fn encode_chromium_grease(n: u32, payload: &Vec<u8>, buf: &mut Vec<u8>)
    requires
        payload@.len() == n % 4,
    ensures
        final(buf)@ == old(buf)@ + frame_bytes(reserved(n as int), payload@),
        final(buf)@ == old(buf)@ + (encode_var(31 * n + 33) + encode_var(payload@.len() as int)
            + payload@),
{
    write_frame(31 * n as u64 + 33, payload.as_slice(), buf);
}

/// Reordering entries keeps identifiers unique.
pub proof fn lemma_unique_ids_permuted(a: Seq<(SettingId, u64)>, b: Seq<(SettingId, u64)>)
    requires
        unique_ids(a),
        a.to_multiset() == b.to_multiset(),
    ensures
        unique_ids(b),
{
    assert(a.no_duplicates());
    a.lemma_multiset_has_no_duplicates();
    b.lemma_multiset_has_no_duplicates_conv();
    assert forall|i: int, j: int| 0 <= i < j < b.len() implies (#[trigger] b[i]).0 != (
    #[trigger] b[j]).0 by {
        lemma_contains_permuted(a, b, b[i]);
        lemma_contains_permuted(a, b, b[j]);
        let x = a.index_of(b[i]);
        let y = a.index_of(b[j]);
        assert(a[x] == b[i] && a[y] == b[j]);
    }
}

/// Reordering entries keeps every entry.
pub proof fn lemma_contains_permuted(
    a: Seq<(SettingId, u64)>,
    b: Seq<(SettingId, u64)>,
    entry: (SettingId, u64),
)
    requires
        a.to_multiset() == b.to_multiset(),
    ensures
        a.contains(entry) == b.contains(entry),
{
    vstd::seq_lib::to_multiset_contains(a, entry);
    vstd::seq_lib::to_multiset_contains(b, entry);
}

/// There is one way to order entries with distinct identifiers: two ascending lists of the same
/// entries are the same list.
pub proof fn law_ascending_order_is_determined(
    a: Seq<(SettingId, u64)>,
    b: Seq<(SettingId, u64)>,
)
    requires
        unique_ids(a),
        ascending_ids(a),
        ascending_ids(b),
        a.to_multiset() == b.to_multiset(),
    ensures
        a == b,
    decreases a.len(),
{
    vstd::seq_lib::to_multiset_len(a);
    vstd::seq_lib::to_multiset_len(b);
    if a.len() > 0 {
        lemma_contains_permuted(a, b, a[0]);
        lemma_contains_permuted(a, b, b[0]);
        let i = b.index_of(a[0]);
        let j = a.index_of(b[0]);
        assert(b[i] == a[0] && a[j] == b[0]);
        assert(a[0] == b[0]);
        vstd::seq_lib::to_multiset_remove(a, 0);
        vstd::seq_lib::to_multiset_remove(b, 0);
        law_ascending_order_is_determined(a.remove(0), b.remove(0));
        assert(a =~= seq![a[0]] + a.remove(0));
        assert(b =~= seq![b[0]] + b.remove(0));
    }
}

/// Where identifiers are unique, looking one up finds its entry wherever it stands.
pub proof fn lemma_lookup_unique(entries: Seq<(SettingId, u64)>, i: int)
    requires
        unique_ids(entries),
        0 <= i < entries.len(),
    ensures
        lookup(entries, entries[i].0) == Some(entries[i].1),
    decreases entries.len(),
{
    let front = entries.drop_last();
    if i < front.len() {
        assert(front[i] == entries[i]);
        lemma_lookup_unique(front, i);
    } else {
        lemma_lookup_absent(front, entries[i].0);
    }
}

/// Looking up an identifier that no entry has finds nothing.
proof fn lemma_lookup_absent(entries: Seq<(SettingId, u64)>, id: SettingId)
    requires
        !has_id(entries, id),
    ensures
        lookup(entries, id) is None,
    decreases entries.len(),
{
    if entries.len() > 0 {
        let front = entries.drop_last();
        assert(entries[entries.len() - 1].0 != id);
        assert forall|i: int| 0 <= i < front.len() implies (#[trigger] front[i]).0 != id by {
            assert(front[i] == entries[i]);
        }
        lemma_lookup_absent(front, id);
    }
}

/// Looking an identifier up finds the first entry that has it, and nothing exactly if none has.
pub proof fn law_first_entry_is_found(entries: Seq<(SettingId, u64)>, id: SettingId)
    ensures
        match lookup(entries, id) {
            Some(value) => exists|i: int|
                0 <= i < entries.len() && (#[trigger] entries[i]) == (id, value) && forall|j: int|
                    0 <= j < i ==> (#[trigger] entries[j]).0 != id,
            None => forall|i: int| 0 <= i < entries.len() ==> (#[trigger] entries[i]).0 != id,
        },
    decreases entries.len(),
{
    if entries.len() > 0 {
        let front = entries.drop_last();
        law_first_entry_is_found(front, id);
        if let Some(value) = lookup(front, id) {
            let i = choose|i: int|
                0 <= i < front.len() && (#[trigger] front[i]) == (id, value) && forall|j: int|
                    0 <= j < i ==> (#[trigger] front[j]).0 != id;
            assert(entries[i] == (id, value));
            assert forall|j: int| 0 <= j < i implies (#[trigger] entries[j]).0 != id by {
                assert(front[j] == entries[j]);
            }
        } else {
            assert forall|j: int| 0 <= j < front.len() implies (#[trigger] entries[j]).0 != id by {
                assert(front[j] == entries[j]);
            }
            assert(entries[entries.len() - 1] == entries.last());
        }
    }
}

/// A SETTINGS frame can be written exactly if every identifier, every value and the length of the
/// payload fit a variable-length integer.
pub proof fn law_what_fits_is_encodable(settings: &Settings)
    ensures
        settings.encodable() <==> settings_payload(settings@).len() <= VARINT_MAX && forall|i: int|
            0 <= i < settings@.len() ==> (#[trigger] settings@[i]).0.0 <= VARINT_MAX
                && settings@[i].1 <= VARINT_MAX,
{
}

/// The payload of a SETTINGS frame is identifier and value of every entry, in the order of the
/// entries and with nothing in between.
pub proof fn law_settings_payload_layout(entries: Seq<(SettingId, u64)>)
    ensures
        settings_payload(entries) == Seq::new(
            entries.len(),
            |i: int| encode_var(entries[i].0.0 as int) + encode_var(entries[i].1 as int),
        ).flatten(),
    decreases entries.len(),
{
    let chunks = Seq::new(
        entries.len(),
        |i: int| encode_var(entries[i].0.0 as int) + encode_var(entries[i].1 as int),
    );
    if entries.len() > 0 {
        let front = entries.drop_last();
        law_settings_payload_layout(front);
        let before = Seq::new(
            front.len(),
            |i: int| encode_var(front[i].0.0 as int) + encode_var(front[i].1 as int),
        );
        let last = encode_var(entries.last().0.0 as int) + encode_var(entries.last().1 as int);
        assert(chunks =~= before.push(last));
        before.lemma_flatten_push(last);
        assert(settings_payload(entries) =~= settings_payload(front) + last);
    }
}

/// A frame is its type, the length of its payload, and its payload.
pub proof fn law_frame_layout(ty: int, payload: Seq<u8>)
    ensures
        frame_bytes(ty, payload) == encode_var(ty) + encode_var(payload.len() as int) + payload,
{
}

/// What a frame may be written as, by its kind. The type of a reserved frame is 33 and a multiple
/// of 31. Outside Chromium mode it is any that fits, and the payload is the word `grease`. In
/// Chromium mode the multiple comes from a 32-bit draw, and the payload has as many bytes as the
/// draw leaves modulo four.
pub proof fn law_frame_encodings(frame: Frame, bytes: Seq<u8>)
    requires
        frame.encodes_to(bytes),
    ensures
        match frame {
            Frame::Settings(settings) => bytes == encode_var(SETTINGS_FRAME as int) + encode_var(
                settings_payload(settings@).len() as int,
            ) + settings_payload(settings@),
            Frame::PriorityUpdate(element_id, field_value) => bytes == encode_var(
                PRIORITY_UPDATE_FRAME as int,
            ) + encode_var((encode_var(element_id as int) + field_value@).len() as int) + (
            encode_var(element_id as int) + field_value@),
            Frame::Grease => exists|ty: int|
                33 <= ty <= VARINT_MAX && (ty - 33) % 31 == 0 && bytes == #[trigger] encode_var(ty)
                    + encode_var(6) + seq![0x67u8, 0x72u8, 0x65u8, 0x61u8, 0x73u8, 0x65u8],
            Frame::ChromiumGrease => exists|ty: int, payload: Seq<u8>|
                33 <= ty <= 31 * u32::MAX + 33 && (ty - 33) % 31 == 0 && payload.len() == (ty - 33)
                    / 31 % 4 && bytes == #[trigger] (encode_var(ty) + encode_var(
                    payload.len() as int,
                ) + payload),
        },
{
    match frame {
        Frame::Grease => {
            let n = choose|n: int|
                0 <= n < GREASE_RANGE && bytes == #[trigger] frame_bytes(
                    reserved(n),
                    grease_payload(),
                );
            let ty = reserved(n);
            assert(bytes == encode_var(ty) + encode_var(6) + grease_payload());
        },
        Frame::ChromiumGrease => {
            let (n, payload) = choose|n: int, payload: Seq<u8>|
                0 <= n <= u32::MAX && payload.len() == n % 4 && bytes == #[trigger] frame_bytes(
                    reserved(n),
                    payload,
                );
            let ty = reserved(n);
            assert(bytes == encode_var(ty) + encode_var(payload.len() as int) + payload);
        },
        _ => {},
    }
}

/// An entry takes at most sixteen bytes.
pub proof fn law_settings_payload_size(entries: Seq<(SettingId, u64)>)
    requires
        entries_fit(entries),
    ensures
        settings_payload(entries).len() <= 16 * entries.len(),
    decreases entries.len(),
{
    if entries.len() > 0 {
        assert(entries[entries.len() - 1] == entries.last());
        law_settings_payload_size(entries.drop_last());
        law_var_size(entries.last().0.0 as int);
        law_var_size(entries.last().1 as int);
    }
}

/// A frame reads back as its type and payload, whatever follows it.
pub proof fn law_frame_round_trip(ty: u64, payload: Seq<u8>, rest: Seq<u8>)
    requires
        ty <= VARINT_MAX,
        payload.len() <= VARINT_MAX,
    ensures
        decode_frame(frame_bytes(ty as int, payload) + rest) == Some((ty, payload, rest)),
{
    reveal(decode_frame);
    let len = payload.len() as u64;
    let s = frame_bytes(ty as int, payload) + rest;
    let tail = encode_var(len as int) + (payload + rest);
    assert(s =~= encode_var(ty as int) + tail);
    law_var_round_trip(ty, tail);
    law_var_round_trip(len, payload + rest);
    assert((payload + rest).take(len as int) =~= payload);
    assert((payload + rest).skip(len as int) =~= rest);
}

/// Reading a frame takes at least two bytes, and its payload and what follows it are made of the
/// bytes that are left.
pub proof fn law_frame_decode_bounds(s: Seq<u8>)
    ensures
        decode_frame(s) matches Some((_, payload, rest)) ==> payload.len() + rest.len() + 2
            <= s.len(),
{
    reveal(decode_frame);
    law_var_decode_bounds(s);
    if let Some((_, n)) = decode_var(s) {
        law_var_decode_bounds(s.skip(n));
    }
}

/// The payload of a SETTINGS frame reads back as the entries it was made of, in their order.
pub proof fn law_settings_round_trip(entries: Seq<(SettingId, u64)>)
    requires
        entries_fit(entries),
    ensures
        decode_entries(settings_payload(entries)) == Some(entries),
{
    assert(settings_payload(entries) + Seq::<u8>::empty() =~= settings_payload(entries));
    lemma_decode_entries(entries, Seq::empty());
    assert(entries + Seq::<(SettingId, u64)>::empty() =~= entries);
}

/// An entry that was written comes back in front of those that follow it.
proof fn lemma_decode_entry(entry: (SettingId, u64), tail: Seq<u8>)
    requires
        entry.0.0 <= VARINT_MAX,
        entry.1 <= VARINT_MAX,
        decode_entries(tail) is Some,
    ensures
        decode_entries(
            encode_var(entry.0.0 as int) + (encode_var(entry.1 as int) + tail),
        ) == Some(seq![entry] + decode_entries(tail)->0),
{
    let value = encode_var(entry.1 as int) + tail;
    law_var_size(entry.0.0 as int);
    law_var_size(entry.1 as int);
    law_var_round_trip(entry.0.0, value);
    law_var_round_trip(entry.1, tail);
    assert((encode_var(entry.0.0 as int) + value).len() > tail.len());
}

/// Concatenation is associative.
proof fn lemma_regroup(a: Seq<u8>, b: Seq<u8>, c: Seq<u8>, d: Seq<u8>)
    ensures
        a + b + c + d == a + (b + (c + d)),
{
    assert(a + b + c + d =~= a + (b + (c + d)));
}

/// Entries that were written come back in front of those that follow them.
proof fn lemma_decode_entries(entries: Seq<(SettingId, u64)>, tail: Seq<u8>)
    requires
        entries_fit(entries),
        decode_entries(tail) is Some,
    ensures
        decode_entries(settings_payload(entries) + tail) == Some(
            entries + decode_entries(tail)->0,
        ),
    decreases entries.len(),
{
    let following = decode_entries(tail)->0;
    if entries.len() == 0 {
        assert(settings_payload(entries) + tail =~= tail);
        assert(entries + following =~= following);
    } else {
        let front = entries.drop_last();
        let last = entries.last();
        let id = encode_var(last.0.0 as int);
        let value = encode_var(last.1 as int);
        assert(entries[entries.len() - 1] == last);
        lemma_decode_entry(last, tail);
        lemma_regroup(settings_payload(front), id, value, tail);
        lemma_decode_entries(front, id + (value + tail));
        assert(front + (seq![last] + following) =~= entries + following);
    }
}

/// An entry found in a front part is the one found in the whole.
proof fn lemma_lookup_prefix(entries: Seq<(SettingId, u64)>, n: int, id: SettingId)
    requires
        0 <= n <= entries.len(),
        lookup(entries.take(n), id) is Some,
    ensures
        lookup(entries, id) == lookup(entries.take(n), id),
    decreases entries.len(),
{
    if n == entries.len() {
        assert(entries.take(n) =~= entries);
    } else {
        assert(entries.drop_last().take(n) =~= entries.take(n));
        lemma_lookup_prefix(entries.drop_last(), n, id);
    }
}

} // verus!
