//! Laws of the encoding: which bytes hold a value, and which value that is.

use vstd::prelude::*;
use vstd::utf8::{decode_utf8, valid_utf8};

use crate::encoding::{
    bool_at, bytes_at, dropped_field, event_fields, hello_fields, i16_at, length_at, list_at,
    log_fields, mgmt_fields, pair_at, pairs_at, print_field, text_at, u16_at, u32_at, u64_at, u8_at,
    uplink_fields, varint_at,
};

verus! {

/// The number that bytes stand for of which each holds seven bits, the low ones first.
pub open spec fn sevens(bytes: Seq<u8>) -> nat
    decreases bytes.len(),
{
    if bytes.len() == 0 {
        0
    } else {
        (bytes[0] as nat) % 0x80 + 0x80 * sevens(bytes.drop_first())
    }
}

/// Whether `bytes`, from `at` to `end`, are one number: only the last has its high bit clear.
pub open spec fn is_number(bytes: Seq<u8>, at: int, end: int) -> bool {
    &&& 0 <= at < end <= bytes.len()
    &&& bytes[end - 1] < 0x80
    &&& forall|i: int| at <= i < end - 1 ==> #[trigger] bytes[i] >= 0x80
}

proof fn lemma_varint_is_number(bytes: Seq<u8>, at: int, most: nat)
    ensures
        varint_at(bytes, at, most) matches Some((n, end)) ==> is_number(bytes, at, end) && end - at
            <= most && n == sevens(bytes.subrange(at, end)),
    decreases most,
{
    if let Some((n, end)) = varint_at(bytes, at, most) {
        if bytes[at] < 0x80 {
            let one = bytes.subrange(at, end);
            assert(one.drop_first() =~= Seq::<u8>::empty());
            assert(sevens(one.drop_first()) == 0);
        } else {
            lemma_varint_is_number(bytes, at + 1, (most - 1) as nat);
            assert(bytes.subrange(at, end).drop_first() =~= bytes.subrange(at + 1, end));
        }
    }
}

proof fn lemma_number_is_varint(bytes: Seq<u8>, at: int, end: int, most: nat)
    requires
        is_number(bytes, at, end),
        end - at <= most,
    ensures
        varint_at(bytes, at, most) == Some((sevens(bytes.subrange(at, end)), end)),
    decreases most,
{
    let whole = bytes.subrange(at, end);
    if end == at + 1 {
        assert(whole.drop_first() =~= Seq::<u8>::empty());
        assert(sevens(whole.drop_first()) == 0);
    } else {
        lemma_number_is_varint(bytes, at + 1, end, (most - 1) as nat);
        assert(whole.drop_first() =~= bytes.subrange(at + 1, end));
    }
}

/// Bytes hold a number up to a place exactly if they are one number that ends there, in no more
/// bytes than it may have; then it is what its groups of seven bits stand for.
pub proof fn law_numbers_are_groups_of_seven(bytes: Seq<u8>, at: int, end: int, n: nat, most: nat)
    ensures
        varint_at(bytes, at, most) == Some((n, end)) <==> is_number(bytes, at, end) && end - at
            <= most && n == sevens(bytes.subrange(at, end)),
{
    lemma_varint_is_number(bytes, at, most);
    if is_number(bytes, at, end) && end - at <= most {
        lemma_number_is_varint(bytes, at, end, most);
    }
}

/// A number of 16, 32 or 64 bits has three, five or ten bytes at most, and fits.
pub proof fn law_numbers_fit(bytes: Seq<u8>, at: int, end: int, a: u16, b: u32, c: u64)
    ensures
        u16_at(bytes, at) == Some((a, end)) <==> is_number(bytes, at, end) && end - at <= 3
            && sevens(bytes.subrange(at, end)) == a,
        u32_at(bytes, at) == Some((b, end)) <==> is_number(bytes, at, end) && end - at <= 5
            && sevens(bytes.subrange(at, end)) == b,
        u64_at(bytes, at) == Some((c, end)) <==> is_number(bytes, at, end) && end - at <= 10
            && sevens(bytes.subrange(at, end)) == c,
{
    law_numbers_are_groups_of_seven(bytes, at, end, a as nat, 3);
    law_numbers_are_groups_of_seven(bytes, at, end, b as nat, 5);
    law_numbers_are_groups_of_seven(bytes, at, end, c as nat, 10);
    lemma_varint_is_number(bytes, at, 3);
    lemma_varint_is_number(bytes, at, 5);
    lemma_varint_is_number(bytes, at, 10);
}

/// A length has five or ten bytes at most, by the width of a pointer, and fits.
pub proof fn law_lengths_fit(bytes: Seq<u8>, at: int, end: int, n: nat)
    ensures
        length_at(bytes, at) == Some((n, end)) <==> is_number(bytes, at, end) && end - at <= (
        if usize::BITS == 32 {
            5int
        } else {
            10int
        }) && sevens(bytes.subrange(at, end)) == n && n <= usize::MAX,
{
    law_numbers_are_groups_of_seven(
        bytes,
        at,
        end,
        n,
        if usize::BITS == 32 {
            5nat
        } else {
            10nat
        },
    );
}

/// Signed numbers alternate around zero, a byte stands for itself, and a truth value is 0 or 1.
pub proof fn law_small_fields(bytes: Seq<u8>, at: int, end: int, n: i16, b: u8, t: bool)
    ensures
        n >= 0 ==> (i16_at(bytes, at) == Some((n, end)) <==> u16_at(bytes, at) == Some(
            ((2 * n) as u16, end),
        )),
        n < 0 ==> (i16_at(bytes, at) == Some((n, end)) <==> u16_at(bytes, at) == Some(
            ((-2 * n - 1) as u16, end),
        )),
        u8_at(bytes, at) == Some((b, end)) <==> 0 <= at < bytes.len() && bytes[at] == b && end == at
            + 1,
        bool_at(bytes, at) == Some((t, end)) <==> 0 <= at < bytes.len() && end == at + 1
            && bytes[at] == (if t {
            1u8
        } else {
            0u8
        }),
{
}

/// A byte string is a length and as many bytes; a text is one that is valid UTF-8, decoded.
pub proof fn law_strings_are_length_and_bytes(
    bytes: Seq<u8>,
    at: int,
    start: int,
    n: nat,
    s: Seq<u8>,
    t: Seq<char>,
    end: int,
)
    requires
        length_at(bytes, at) == Some((n, start)),
    ensures
        bytes_at(bytes, at) == Some((s, end)) <==> end == start + n && end <= bytes.len() && s
            == bytes.subrange(start, end),
        text_at(bytes, at) == Some((t, end)) <==> end == start + n && end <= bytes.len()
            && valid_utf8(bytes.subrange(start, end)) && t == decode_utf8(
            bytes.subrange(start, end),
        ),
{
}

/// Without a length there is no byte string, no text and no list.
pub proof fn law_no_string_without_length(bytes: Seq<u8>, at: int)
    requires
        length_at(bytes, at) is None,
    ensures
        bytes_at(bytes, at) is None,
        text_at(bytes, at) is None,
        list_at(bytes, at) is None,
{
}

/// Pairs follow one another: so many and then so many more are all of them, and one is a text and
/// then a text.
pub proof fn law_pairs_follow_one_another(bytes: Seq<u8>, at: int, m: nat, n: nat)
    ensures
        pairs_at(bytes, at, m + n) == (match pairs_at(bytes, at, m) {
            Some((a, next)) => match pairs_at(bytes, next, n) {
                Some((b, end)) => Some((a + b, end)),
                None => None,
            },
            None => None,
        }),
        pairs_at(bytes, at, 1) == (match text_at(bytes, at) {
            Some((first, next)) => match text_at(bytes, next) {
                Some((second, end)) => Some((seq![(first, second)], end)),
                None => None,
            },
            None => None,
        }),
        pairs_at(bytes, at, 0) == Some((Seq::<(Seq<char>, Seq<char>)>::empty(), at)),
    decreases m,
{
    reveal_with_fuel(pairs_at, 2);
    if let Some((pair, next)) = pair_at(bytes, at) {
        assert(seq![pair] + Seq::<(Seq<char>, Seq<char>)>::empty() =~= seq![pair]);
        if m > 0 {
            law_pairs_follow_one_another(bytes, next, (m - 1) as nat, n);
            if let Some((a, after)) = pairs_at(bytes, next, (m - 1) as nat) {
                if let Some((b, end)) = pairs_at(bytes, after, n) {
                    assert(seq![pair] + (a + b) =~= (seq![pair] + a) + b);
                }
            }
            assert((m + n - 1) as nat == (m - 1) as nat + n);
        }
    }
    if m == 0 {
        if let Some((b, end)) = pairs_at(bytes, at, n) {
            assert(Seq::<(Seq<char>, Seq<char>)>::empty() + b =~= b);
        }
    }
}

/// A list has as many pairs as its length says.
pub proof fn law_list_is_length_and_pairs(bytes: Seq<u8>, at: int, n: nat, start: int)
    requires
        length_at(bytes, at) == Some((n, start)),
    ensures
        list_at(bytes, at) == pairs_at(bytes, start, n),
{
}

/// The fields of a record stand one after the other, each where the one before it ends, and bytes
/// after the last are ignored: a banner and a log record.
pub proof fn law_banner_and_log_fields_follow_one_another(
    bytes: Seq<u8>,
    a: int,
    b: int,
    c: int,
    d: int,
    version: u8,
    code: u32,
    uptime: u64,
    first: Seq<char>,
    second: Seq<char>,
)
    ensures
        u8_at(bytes, 0) == Some((version, a)) && text_at(bytes, a) == Some((first, b)) && text_at(
            bytes,
            b,
        ) == Some((second, c)) && u32_at(bytes, c) == Some((code, d)) ==> hello_fields(bytes)
            == Some((version, first, second, code)),
        hello_fields(bytes) is Some <==> (u8_at(bytes, 0) matches Some((_, p)) && text_at(
            bytes,
            p,
        ) matches Some((_, q)) && text_at(bytes, q) matches Some((_, r)) && u32_at(bytes, r) is Some),
        u32_at(bytes, 0) == Some((code, a)) && u64_at(bytes, a) == Some((uptime, b)) && text_at(
            bytes,
            b,
        ) == Some((first, c)) && text_at(bytes, c) == Some((second, d)) ==> log_fields(bytes)
            == Some((code, uptime, first, second)),
        log_fields(bytes) is Some <==> (u32_at(bytes, 0) matches Some((_, p)) && u64_at(
            bytes,
            p,
        ) matches Some((_, q)) && text_at(bytes, q) matches Some((_, r)) && text_at(bytes, r) is Some),
{
}

/// The fields of a printed line, of an event and of a count stand one after the other.
pub proof fn law_print_event_and_count_fields(
    bytes: Seq<u8>,
    a: int,
    b: int,
    text: Seq<char>,
    fields: Seq<(Seq<char>, Seq<char>)>,
    count: u32,
)
    ensures
        text_at(bytes, 0) == Some((text, a)) ==> print_field(bytes) == Some(text),
        text_at(bytes, 0) is None ==> print_field(bytes) is None && event_fields(bytes) is None,
        text_at(bytes, 0) == Some((text, a)) && list_at(bytes, a) == Some((fields, b))
            ==> event_fields(bytes) == Some((text, fields)),
        text_at(bytes, 0) == Some((text, a)) && list_at(bytes, a) is None ==> event_fields(
            bytes,
        ) is None,
        u32_at(bytes, 0) == Some((count, a)) ==> dropped_field(bytes) == Some(count),
        u32_at(bytes, 0) is None ==> dropped_field(bytes) is None,
{
}

/// The fields of an uplink and of a chunk of a reply stand one after the other.
pub proof fn law_uplink_and_chunk_fields_follow_one_another(
    bytes: Seq<u8>,
    a: int,
    b: int,
    c: int,
    d: int,
    e: int,
    src: u32,
    counter: u32,
    rssi: i16,
    lqi: u8,
    data: Seq<u8>,
    req_id: u16,
    chunk: u16,
    last: bool,
)
    ensures
        u32_at(bytes, 0) == Some((src, a)) && u32_at(bytes, a) == Some((counter, b)) && i16_at(
            bytes,
            b,
        ) == Some((rssi, c)) && u8_at(bytes, c) == Some((lqi, d)) && bytes_at(bytes, d) == Some(
            (data, e),
        ) ==> uplink_fields(bytes) == Some((src, counter, rssi, lqi, data)),
        uplink_fields(bytes) is Some <==> (u32_at(bytes, 0) matches Some((_, p)) && u32_at(
            bytes,
            p,
        ) matches Some((_, q)) && i16_at(bytes, q) matches Some((_, r)) && u8_at(
            bytes,
            r,
        ) matches Some((_, s)) && bytes_at(bytes, s) is Some),
        u16_at(bytes, 0) == Some((req_id, a)) && u8_at(bytes, a) == Some((lqi, b)) && u16_at(
            bytes,
            b,
        ) == Some((chunk, c)) && bool_at(bytes, c) == Some((last, d)) && bytes_at(bytes, d) == Some(
            (data, e),
        ) ==> mgmt_fields(bytes) == Some((req_id, lqi, chunk, last, data)),
        mgmt_fields(bytes) is Some <==> (u16_at(bytes, 0) matches Some((_, p)) && u8_at(
            bytes,
            p,
        ) matches Some((_, q)) && u16_at(bytes, q) matches Some((_, r)) && bool_at(
            bytes,
            r,
        ) matches Some((_, s)) && bytes_at(bytes, s) is Some),
{
}

} // verus!
