//! How postcard encodes the fields of a payload.
//!
//! A byte stands for itself. A longer number is written in groups of seven bits, the low ones
//! first, one to a byte; the high bit of a byte says that another follows. Signed numbers alternate
//! around zero: 0, -1, 1, -2 and so on are written as 0, 1, 2, 3. A text or a byte string is its
//! length in bytes and then the bytes, and a list is its length and then its items. Lengths are
//! numbers of the target's pointer width.
//!
//! The functions here say what bytes hold from a place on: the value and the place after it, or
//! `None` where they hold no such value.

use vstd::prelude::*;
use vstd::utf8::{decode_utf8, valid_utf8};

verus! {

/// A number in groups of seven bits, in `most` bytes at most. Zeros at its high end are allowed.
pub open spec fn varint_at(bytes: Seq<u8>, at: int, most: nat) -> Option<(nat, int)>
    decreases most,
{
    if most == 0 || !(0 <= at < bytes.len()) {
        None
    } else if bytes[at] < 0x80 {
        Some((bytes[at] as nat, at + 1))
    } else {
        match varint_at(bytes, at + 1, (most - 1) as nat) {
            Some((high, end)) => Some(((bytes[at] - 0x80 + 0x80 * high) as nat, end)),
            None => None,
        }
    }
}

/// A number that is `max` at most.
pub open spec fn bounded_at(bytes: Seq<u8>, at: int, most: nat, max: nat) -> Option<(nat, int)> {
    match varint_at(bytes, at, most) {
        Some((n, end)) if n <= max => Some((n, end)),
        _ => None,
    }
}

/// A byte.
pub open spec fn u8_at(bytes: Seq<u8>, at: int) -> Option<(u8, int)> {
    if 0 <= at < bytes.len() {
        Some((bytes[at], at + 1))
    } else {
        None
    }
}

/// A 16-bit number.
pub open spec fn u16_at(bytes: Seq<u8>, at: int) -> Option<(u16, int)> {
    match bounded_at(bytes, at, 3, u16::MAX as nat) {
        Some((n, end)) => Some((n as u16, end)),
        None => None,
    }
}

/// A 32-bit number.
pub open spec fn u32_at(bytes: Seq<u8>, at: int) -> Option<(u32, int)> {
    match bounded_at(bytes, at, 5, u32::MAX as nat) {
        Some((n, end)) => Some((n as u32, end)),
        None => None,
    }
}

/// A 64-bit number.
pub open spec fn u64_at(bytes: Seq<u8>, at: int) -> Option<(u64, int)> {
    match bounded_at(bytes, at, 10, u64::MAX as nat) {
        Some((n, end)) => Some((n as u64, end)),
        None => None,
    }
}

/// The signed number that `n` stands for.
pub open spec fn unzigzag(n: u16) -> i16 {
    if n % 2 == 0 {
        (n / 2) as i16
    } else {
        (-(n / 2) - 1) as i16
    }
}

/// A signed 16-bit number.
pub open spec fn i16_at(bytes: Seq<u8>, at: int) -> Option<(i16, int)> {
    match u16_at(bytes, at) {
        Some((n, end)) => Some((unzigzag(n), end)),
        None => None,
    }
}

/// A truth value, which is a byte: 0 or 1.
pub open spec fn bool_at(bytes: Seq<u8>, at: int) -> Option<(bool, int)> {
    match u8_at(bytes, at) {
        Some((b, end)) if b <= 1 => Some((b == 1, end)),
        _ => None,
    }
}

/// How many bytes a length has at most.
pub open spec fn length_bytes() -> nat {
    if usize::BITS == 32 {
        5
    } else {
        10
    }
}

/// A length.
pub open spec fn length_at(bytes: Seq<u8>, at: int) -> Option<(nat, int)> {
    bounded_at(bytes, at, length_bytes(), usize::MAX as nat)
}

/// A byte string.
pub open spec fn bytes_at(bytes: Seq<u8>, at: int) -> Option<(Seq<u8>, int)> {
    match length_at(bytes, at) {
        Some((n, start)) if start + n <= bytes.len() => Some(
            (bytes.subrange(start, start + n), start + n),
        ),
        _ => None,
    }
}

/// A text: a byte string that is valid UTF-8.
pub open spec fn text_at(bytes: Seq<u8>, at: int) -> Option<(Seq<char>, int)> {
    match bytes_at(bytes, at) {
        Some((utf8, end)) if valid_utf8(utf8) => Some((decode_utf8(utf8), end)),
        _ => None,
    }
}

/// A pair of texts.
pub open spec fn pair_at(bytes: Seq<u8>, at: int) -> Option<((Seq<char>, Seq<char>), int)> {
    match text_at(bytes, at) {
        Some((first, next)) => match text_at(bytes, next) {
            Some((second, end)) => Some(((first, second), end)),
            None => None,
        },
        None => None,
    }
}

/// `n` pairs of texts, one after the other.
pub open spec fn pairs_at(bytes: Seq<u8>, at: int, n: nat) -> Option<
    (Seq<(Seq<char>, Seq<char>)>, int),
>
    decreases n,
{
    if n == 0 {
        Some((Seq::empty(), at))
    } else {
        match pair_at(bytes, at) {
            Some((pair, next)) => match pairs_at(bytes, next, (n - 1) as nat) {
                Some((rest, end)) => Some((seq![pair] + rest, end)),
                None => None,
            },
            None => None,
        }
    }
}

/// A list of pairs of texts.
pub open spec fn list_at(bytes: Seq<u8>, at: int) -> Option<
    (Seq<(Seq<char>, Seq<char>)>, int),
> {
    match length_at(bytes, at) {
        Some((n, start)) => pairs_at(bytes, start, n),
        None => None,
    }
}

/// The fields of a boot banner. Bytes after the last field are ignored, here and below.
pub open spec fn hello_fields(bytes: Seq<u8>) -> Option<(u8, Seq<char>, Seq<char>, u32)> {
    match u8_at(bytes, 0) {
        Some((protocol_version, name)) => match text_at(bytes, name) {
            Some((firmware_name, version)) => match text_at(bytes, version) {
                Some((firmware_version, session)) => match u32_at(bytes, session) {
                    Some((session_id, _)) => Some(
                        (protocol_version, firmware_name, firmware_version, session_id),
                    ),
                    None => None,
                },
                None => None,
            },
            None => None,
        },
        None => None,
    }
}

/// The fields of a log record, the level as its number.
pub open spec fn log_fields(bytes: Seq<u8>) -> Option<(u32, u64, Seq<char>, Seq<char>)> {
    match u32_at(bytes, 0) {
        Some((code, uptime)) => match u64_at(bytes, uptime) {
            Some((uptime_us, name)) => match text_at(bytes, name) {
                Some((module, text)) => match text_at(bytes, text) {
                    Some((message, _)) => Some((code, uptime_us, module, message)),
                    None => None,
                },
                None => None,
            },
            None => None,
        },
        None => None,
    }
}

/// The field of a printed line.
pub open spec fn print_field(bytes: Seq<u8>) -> Option<Seq<char>> {
    match text_at(bytes, 0) {
        Some((text, _)) => Some(text),
        None => None,
    }
}

/// The fields of an event.
pub open spec fn event_fields(bytes: Seq<u8>) -> Option<
    (Seq<char>, Seq<(Seq<char>, Seq<char>)>),
> {
    match text_at(bytes, 0) {
        Some((name, list)) => match list_at(bytes, list) {
            Some((fields, _)) => Some((name, fields)),
            None => None,
        },
        None => None,
    }
}

/// The field of a count of dropped frames.
pub open spec fn dropped_field(bytes: Seq<u8>) -> Option<u32> {
    match u32_at(bytes, 0) {
        Some((count, _)) => Some(count),
        None => None,
    }
}

/// The fields of an uplink.
pub open spec fn uplink_fields(bytes: Seq<u8>) -> Option<(u32, u32, i16, u8, Seq<u8>)> {
    match u32_at(bytes, 0) {
        Some((src, a)) => match u32_at(bytes, a) {
            Some((counter, b)) => match i16_at(bytes, b) {
                Some((rssi, c)) => match u8_at(bytes, c) {
                    Some((lqi, d)) => match bytes_at(bytes, d) {
                        Some((data, _)) => Some((src, counter, rssi, lqi, data)),
                        None => None,
                    },
                    None => None,
                },
                None => None,
            },
            None => None,
        },
        None => None,
    }
}

/// The fields of a chunk of a management reply.
pub open spec fn mgmt_fields(bytes: Seq<u8>) -> Option<(u16, u8, u16, bool, Seq<u8>)> {
    match u16_at(bytes, 0) {
        Some((req_id, a)) => match u8_at(bytes, a) {
            Some((result, b)) => match u16_at(bytes, b) {
                Some((chunk, c)) => match bool_at(bytes, c) {
                    Some((last, d)) => match bytes_at(bytes, d) {
                        Some((data, _)) => Some((req_id, result, chunk, last, data)),
                        None => None,
                    },
                    None => None,
                },
                None => None,
            },
            None => None,
        },
        None => None,
    }
}

} // verus!
