//! Laws of decoding: a record that is encoded arrives as it was.

use vstd::prelude::*;
use vstd::utf8::{encode_utf8, encode_utf8_decode_utf8, encode_utf8_valid_utf8};

use crate::encoding::{
    bytes_at, i16_at, length_at, length_bytes, list_at, pairs_at, text_at, u16_at, u32_at, u64_at,
    u8_at, unzigzag, varint_at,
};
use crate::frame::{message_frame, FrameView};
use crate::msg::{Level, LevelCodes, MsgTypeView, Payload, Protocol, Schema};
use crate::wire::decoded_frame;

verus! {

/// The encoding of a number, in no more bytes than it needs.
pub open spec fn number_bytes(n: nat) -> Seq<u8>
    decreases n,
{
    if n < 0x80 {
        seq![n as u8]
    } else {
        seq![(0x80 + n % 0x80) as u8] + number_bytes(n / 0x80)
    }
}

/// The number that stands for a signed number.
pub open spec fn zigzag(n: i16) -> nat {
    if n >= 0 {
        (2 * n) as nat
    } else {
        (-2 * n - 1) as nat
    }
}

/// The encoding of a truth value.
pub open spec fn bool_bytes(b: bool) -> Seq<u8> {
    seq![
        if b {
            1u8
        } else {
            0u8
        },
    ]
}

/// The encoding of a byte string.
pub open spec fn string_bytes(s: Seq<u8>) -> Seq<u8> {
    number_bytes(s.len()) + s
}

/// The encoding of a text.
pub open spec fn text_bytes(s: Seq<char>) -> Seq<u8> {
    string_bytes(encode_utf8(s))
}

/// The encodings of pairs of texts, one after the other.
pub open spec fn pairs_bytes(pairs: Seq<(Seq<char>, Seq<char>)>) -> Seq<u8>
    decreases pairs.len(),
{
    if pairs.len() == 0 {
        Seq::empty()
    } else {
        (text_bytes(pairs[0].0) + text_bytes(pairs[0].1)) + pairs_bytes(pairs.drop_first())
    }
}

/// The encoding of a list of pairs of texts.
pub open spec fn list_bytes(pairs: Seq<(Seq<char>, Seq<char>)>) -> Seq<u8> {
    number_bytes(pairs.len()) + pairs_bytes(pairs)
}

/// The number by which the wire names a level.
pub open spec fn level_code(levels: LevelCodes, level: Level) -> u32 {
    match level {
        Level::Error => levels.error,
        Level::Warn => levels.warn,
        Level::Info => levels.info,
        Level::Debug => levels.debug,
        Level::Trace => levels.trace,
    }
}

/// The encoding that a frame's payload has and its bytes, for the frames that are decoded from
/// bytes: the encodings of the fields, one after the other.
pub open spec fn frame_payload(frame: FrameView, protocol: Protocol) -> Option<(Schema, Seq<u8>)> {
    match frame {
        FrameView::Hello { protocol_version, firmware_name, firmware_version, session_id } => Some(
            (
                Schema::Hello,
                seq![protocol_version] + text_bytes(firmware_name) + text_bytes(firmware_version)
                    + number_bytes(session_id as nat),
            ),
        ),
        FrameView::Log { level, uptime_us, module, message } => Some(
            (
                Schema::Log,
                number_bytes(level_code(protocol.levels, level) as nat) + number_bytes(
                    uptime_us as nat,
                ) + text_bytes(module) + text_bytes(message),
            ),
        ),
        FrameView::Print { text } => Some((Schema::Print, text_bytes(text))),
        FrameView::Event { name, fields } => Some(
            (Schema::Event, text_bytes(name) + list_bytes(fields)),
        ),
        FrameView::Dropped { count } => Some((Schema::Dropped, number_bytes(count as nat))),
        FrameView::Uplink { src, counter, rssi, lqi, data } => Some(
            (
                Schema::Uplink,
                number_bytes(src as nat) + number_bytes(counter as nat) + number_bytes(
                    zigzag(rssi),
                ) + seq![lqi] + string_bytes(data),
            ),
        ),
        FrameView::Mgmt { req_id, result, chunk, last, data } => Some(
            (
                Schema::MgmtResponse,
                number_bytes(req_id as nat) + seq![result] + number_bytes(chunk as nat)
                    + bool_bytes(last) + string_bytes(data),
            ),
        ),
        _ => None,
    }
}

/// Whether the levels have numbers of their own.
pub open spec fn distinct_levels(levels: LevelCodes) -> bool {
    forall|level: Level| levels.level(#[trigger] level_code(levels, level)) == Some(level)
}

/// Whether `part` stands in `bytes` from `at` on.
spec fn stands_at(bytes: Seq<u8>, at: int, part: Seq<u8>) -> bool {
    0 <= at && at + part.len() <= bytes.len() && bytes.subrange(at, at + part.len()) == part
}

proof fn lemma_parts(bytes: Seq<u8>, at: int, a: Seq<u8>, b: Seq<u8>)
    requires
        stands_at(bytes, at, a + b),
    ensures
        stands_at(bytes, at, a),
        stands_at(bytes, (at + a.len()) as int, b),
{
    let whole = bytes.subrange(at, at + (a + b).len());
    assert(whole.subrange(0, a.len() as int) =~= a);
    assert(bytes.subrange(at, at + a.len()) =~= whole.subrange(0, a.len() as int));
    assert(whole.subrange(a.len() as int, whole.len() as int) =~= b);
    assert(bytes.subrange(at + a.len(), at + a.len() + b.len()) =~= whole.subrange(
        a.len() as int,
        whole.len() as int,
    ));
}

/// What is below every number that takes more than `most` bytes.
spec fn limit(most: nat) -> nat
    decreases most,
{
    if most == 0 {
        1
    } else {
        0x80 * limit((most - 1) as nat)
    }
}

proof fn lemma_varint(bytes: Seq<u8>, at: int, n: nat, most: nat)
    requires
        stands_at(bytes, at, number_bytes(n)),
        most > 0,
        n < limit(most),
    ensures
        varint_at(bytes, at, most) == Some((n, (at + number_bytes(n).len()) as int)),
    decreases most,
{
    let whole = number_bytes(n);
    assert(bytes[at] == bytes.subrange(at, at + whole.len())[0]);
    if n >= 0x80 {
        let head = seq![(0x80 + n % 0x80) as u8];
        if most == 1 {
            assert(limit(0) == 1);
        }
        lemma_parts(bytes, at, head, number_bytes(n / 0x80));
        lemma_varint(bytes, at + 1, n / 0x80, (most - 1) as nat);
    }
}

proof fn lemma_numbers(bytes: Seq<u8>, at: int, n: nat)
    requires
        stands_at(bytes, at, number_bytes(n)),
    ensures
        ({
            let end = (at + number_bytes(n).len()) as int;
            &&& n <= u16::MAX ==> u16_at(bytes, at) == Some((n as u16, end))
            &&& n <= u32::MAX ==> u32_at(bytes, at) == Some((n as u32, end))
            &&& n <= u64::MAX ==> u64_at(bytes, at) == Some((n as u64, end))
            &&& n <= usize::MAX ==> length_at(bytes, at) == Some((n, end))
        }),
{
    assert(limit(3) == 0x20_0000) by {
        reveal_with_fuel(limit, 4);
    }
    assert(limit(5) == 0x8_0000_0000) by {
        reveal_with_fuel(limit, 6);
    }
    assert(limit(10) == 0x40_0000_0000_0000_0000) by {
        reveal_with_fuel(limit, 11);
    }
    if n <= u16::MAX {
        lemma_varint(bytes, at, n, 3);
    }
    if n <= u32::MAX {
        lemma_varint(bytes, at, n, 5);
    }
    if n <= u64::MAX {
        lemma_varint(bytes, at, n, 10);
    }
    if n <= usize::MAX {
        lemma_varint(bytes, at, n, length_bytes());
    }
}

proof fn lemma_signed(bytes: Seq<u8>, at: int, n: i16)
    requires
        stands_at(bytes, at, number_bytes(zigzag(n))),
    ensures
        i16_at(bytes, at) == Some((n, (at + number_bytes(zigzag(n)).len()) as int)),
{
    lemma_numbers(bytes, at, zigzag(n));
    assert(unzigzag(zigzag(n) as u16) == n);
}

proof fn lemma_byte(bytes: Seq<u8>, at: int, b: u8)
    requires
        stands_at(bytes, at, seq![b]),
    ensures
        u8_at(bytes, at) == Some((b, at + 1)),
{
    assert(bytes[at] == bytes.subrange(at, at + 1)[0]);
}

proof fn lemma_string(bytes: Seq<u8>, at: int, s: Seq<u8>)
    requires
        stands_at(bytes, at, string_bytes(s)),
        bytes.len() <= usize::MAX,
    ensures
        bytes_at(bytes, at) == Some((s, (at + string_bytes(s).len()) as int)),
{
    lemma_parts(bytes, at, number_bytes(s.len()), s);
    lemma_numbers(bytes, at, s.len());
}

proof fn lemma_text(bytes: Seq<u8>, at: int, s: Seq<char>)
    requires
        stands_at(bytes, at, text_bytes(s)),
        bytes.len() <= usize::MAX,
    ensures
        text_at(bytes, at) == Some((s, (at + text_bytes(s).len()) as int)),
{
    lemma_string(bytes, at, encode_utf8(s));
    encode_utf8_valid_utf8(s);
    encode_utf8_decode_utf8(s);
}

proof fn lemma_pairs(bytes: Seq<u8>, at: int, pairs: Seq<(Seq<char>, Seq<char>)>)
    requires
        stands_at(bytes, at, pairs_bytes(pairs)),
        bytes.len() <= usize::MAX,
    ensures
        pairs_at(bytes, at, pairs.len()) == Some((pairs, (at + pairs_bytes(pairs).len()) as int)),
        pairs.len() <= pairs_bytes(pairs).len(),
    decreases pairs.len(),
{
    if pairs.len() > 0 {
        let (first, second) = (text_bytes(pairs[0].0), text_bytes(pairs[0].1));
        let rest = pairs.drop_first();
        lemma_parts(bytes, at, first + second, pairs_bytes(rest));
        lemma_parts(bytes, at, first, second);
        lemma_text(bytes, at, pairs[0].0);
        lemma_text(bytes, (at + first.len()) as int, pairs[0].1);
        lemma_pairs(bytes, (at + (first + second).len()) as int, rest);
        assert(number_bytes(encode_utf8(pairs[0].0).len()).len() > 0);
        assert(seq![pairs[0]] + rest =~= pairs);
    } else {
        assert(pairs =~= Seq::empty());
    }
}

proof fn lemma_list(bytes: Seq<u8>, at: int, pairs: Seq<(Seq<char>, Seq<char>)>)
    requires
        stands_at(bytes, at, list_bytes(pairs)),
        bytes.len() <= usize::MAX,
    ensures
        list_at(bytes, at) == Some((pairs, (at + list_bytes(pairs).len()) as int)),
{
    let n = number_bytes(pairs.len());
    lemma_parts(bytes, at, n, pairs_bytes(pairs));
    lemma_pairs(bytes, (at + n.len()) as int, pairs);
    lemma_numbers(bytes, at, pairs.len());
}

/// A record arrives as it was encoded, field for field, under every message type that is decoded as
/// such a record and whatever bytes follow it. The levels have
/// numbers of their own, and an event has no more fields than one can have.
pub proof fn law_encoded_record_arrives(
    frame: FrameView,
    schema: Schema,
    encoded: Seq<u8>,
    after: Seq<u8>,
    payload: Payload<'_>,
    protocol: Protocol,
)
    requires
        frame_payload(frame, protocol) == Some((schema, encoded)),
        payload.bytes@ == encoded + after,
        payload.bytes@.len() <= usize::MAX,
        distinct_levels(protocol.levels),
        frame matches FrameView::Event { fields, .. } ==> fields.len() <= protocol.event_fields,
    ensures
        decoded_frame(schema, payload, protocol) == Some(frame),
        forall|msg_type: MsgTypeView| #[trigger]
            msg_type.schema() == Some(schema) ==> message_frame(msg_type, payload, protocol)
                == frame,
{
    let bytes = payload.bytes@;
    assert(bytes.subrange(0, encoded.len() as int) =~= encoded);
    assert(stands_at(bytes, 0, encoded));
    match frame {
        FrameView::Hello { protocol_version, firmware_name, firmware_version, session_id } => {
            let a = seq![protocol_version];
            let b = a + text_bytes(firmware_name);
            let c = b + text_bytes(firmware_version);
            lemma_parts(bytes, 0, c, number_bytes(session_id as nat));
            lemma_parts(bytes, 0, b, text_bytes(firmware_version));
            lemma_parts(bytes, 0, a, text_bytes(firmware_name));
            lemma_byte(bytes, 0, protocol_version);
            lemma_text(bytes, a.len() as int, firmware_name);
            lemma_text(bytes, b.len() as int, firmware_version);
            lemma_numbers(bytes, c.len() as int, session_id as nat);
        },
        FrameView::Log { level, uptime_us, module, message } => {
            let code = level_code(protocol.levels, level);
            let a = number_bytes(code as nat);
            let b = a + number_bytes(uptime_us as nat);
            let c = b + text_bytes(module);
            lemma_parts(bytes, 0, c, text_bytes(message));
            lemma_parts(bytes, 0, b, text_bytes(module));
            lemma_parts(bytes, 0, a, number_bytes(uptime_us as nat));
            lemma_numbers(bytes, 0, code as nat);
            lemma_numbers(bytes, a.len() as int, uptime_us as nat);
            lemma_text(bytes, b.len() as int, module);
            lemma_text(bytes, c.len() as int, message);
        },
        FrameView::Print { text } => {
            lemma_text(bytes, 0, text);
        },
        FrameView::Event { name, fields } => {
            lemma_parts(bytes, 0, text_bytes(name), list_bytes(fields));
            lemma_text(bytes, 0, name);
            lemma_list(bytes, text_bytes(name).len() as int, fields);
        },
        FrameView::Dropped { count } => {
            lemma_numbers(bytes, 0, count as nat);
        },
        FrameView::Uplink { src, counter, rssi, lqi, data } => {
            let a = number_bytes(src as nat);
            let b = a + number_bytes(counter as nat);
            let c = b + number_bytes(zigzag(rssi));
            let d = c + seq![lqi];
            lemma_parts(bytes, 0, d, string_bytes(data));
            lemma_parts(bytes, 0, c, seq![lqi]);
            lemma_parts(bytes, 0, b, number_bytes(zigzag(rssi)));
            lemma_parts(bytes, 0, a, number_bytes(counter as nat));
            lemma_numbers(bytes, 0, src as nat);
            lemma_numbers(bytes, a.len() as int, counter as nat);
            lemma_signed(bytes, b.len() as int, rssi);
            lemma_byte(bytes, c.len() as int, lqi);
            lemma_string(bytes, d.len() as int, data);
        },
        FrameView::Mgmt { req_id, result, chunk, last, data } => {
            let a = number_bytes(req_id as nat);
            let b = a + seq![result];
            let c = b + number_bytes(chunk as nat);
            let d = c + bool_bytes(last);
            lemma_parts(bytes, 0, d, string_bytes(data));
            lemma_parts(bytes, 0, c, bool_bytes(last));
            lemma_parts(bytes, 0, b, number_bytes(chunk as nat));
            lemma_parts(bytes, 0, a, seq![result]);
            lemma_numbers(bytes, 0, req_id as nat);
            lemma_byte(bytes, a.len() as int, result);
            lemma_numbers(bytes, b.len() as int, chunk as nat);
            lemma_byte(bytes, c.len() as int, bool_bytes(last)[0]);
            lemma_string(bytes, d.len() as int, data);
        },
        _ => {},
    }
}

} // verus!
