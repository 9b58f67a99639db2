//! Laws of the sidecar protocol.

use vstd::prelude::*;

use crate::ppk2::{
    avg_command, bad_reply_message, command, cycle_command, desync_message, exchange_reply,
    off_command, on_command, ua_field, ua_key, Exchange, Teardown, TeardownView, PPK2_SANE_MAX_UA,
};
use crate::laws::text::{
    law_decimal_writes_the_number, law_trim_leaves_the_middle, writes_number,
};
use crate::text::{
    decimal, digit, find_from, find_text_from, lemma_find_from, lemma_find_text, numeric, occurs_at,
    solid_end, trimmed, white_space, CharClass,
};

verus! {

/// Whether every character of `s` can stand in a number.
pub open spec fn all_numeric(s: Seq<char>) -> bool {
    forall|i: int| 0 <= i < s.len() ==> numeric(#[trigger] s[i])
}

/// Whether every character of `s` is white space.
pub open spec fn all_white(s: Seq<char>) -> bool {
    forall|i: int| 0 <= i < s.len() ==> white_space(#[trigger] s[i])
}

/// A search that meets nothing of its class before `k`, and something of it there, ends at `k`.
pub proof fn lemma_find_from_is(s: Seq<char>, class: CharClass, i: int, k: int)
    requires
        0 <= i <= k <= s.len(),
        forall|j: int| i <= j < k ==> !class.admits(#[trigger] s[j]),
        k < s.len() ==> class.admits(s[k]),
    ensures
        find_from(s, class, i) == k,
{
    lemma_find_from(s, class, i);
}

/// Whether `s` holds no colon.
pub open spec fn no_colon(s: Seq<char>) -> bool {
    forall|i: int| 0 <= i < s.len() ==> #[trigger] s[i] != ':'
}

/// The number between `start` and `end` of a reply is read, where `key` is the place of the first
/// key, `colon` that of the first colon after it, and only white space lies between that and the
/// number.
proof fn lemma_number_is_read(reply: Seq<char>, key: int, colon: int, start: int, end: int)
    requires
        0 <= key,
        key + 4 <= colon < start <= end <= reply.len(),
        occurs_at(reply, ua_key(), key),
        forall|j: int| 0 <= j < key ==> !#[trigger] occurs_at(reply, ua_key(), j),
        no_colon(reply.subrange(key + 4, colon)),
        reply[colon] == ':',
        all_white(reply.subrange(colon + 1, start)),
        all_numeric(reply.subrange(start, end)),
        start < reply.len() ==> !white_space(reply[start]),
        end < reply.len() ==> !numeric(reply[end]),
    ensures
        ua_field(reply) == Some(reply.subrange(start, end)),
{
    let between = reply.subrange(key + 4, colon);
    let space = reply.subrange(colon + 1, start);
    let number = reply.subrange(start, end);
    lemma_find_text(reply, ua_key(), 0);
    assert(find_text_from(reply, ua_key(), 0) == Some(key));
    assert forall|j: int| key + 4 <= j < colon implies !CharClass::Colon.admits(
        #[trigger] reply[j],
    ) by {
        assert(reply[j] == between[j - key - 4]);
    }
    lemma_find_from_is(reply, CharClass::Colon, key + 4, colon);
    assert forall|j: int| colon + 1 <= j < start implies !CharClass::Solid.admits(
        #[trigger] reply[j],
    ) by {
        assert(reply[j] == space[j - colon - 1]);
    }
    lemma_find_from_is(reply, CharClass::Solid, colon + 1, start);
    assert forall|j: int| start <= j < end implies !CharClass::NotNumeric.admits(
        #[trigger] reply[j],
    ) by {
        assert(reply[j] == number[j - start]);
    }
    lemma_find_from_is(reply, CharClass::NotNumeric, start, end);
}

/// The number of a reply is read as it is written: after the first key `"ua"`, a colon and any
/// white space, up to the first character that cannot belong to it.
pub proof fn law_number_is_read_as_written(
    before: Seq<char>,
    space: Seq<char>,
    number: Seq<char>,
    after: Seq<char>,
)
    requires
        forall|j: int|
            0 <= j < before.len() ==> !#[trigger] occurs_at(
                before + ua_key() + seq![':'] + space + number + after,
                ua_key(),
                j,
            ),
        all_white(space),
        all_numeric(number),
        number.len() > 0,
        after.len() > 0 ==> !numeric(after[0]),
    ensures
        ua_field(before + ua_key() + seq![':'] + space + number + after) == Some(number),
{
    let front = before + ua_key() + seq![':'];
    let reply = front + space + number + after;
    let key = before.len() as int;
    let colon = key + 4;
    let start = colon + 1 + space.len();
    let end = start + number.len();
    assert(front.len() == colon + 1);
    assert(front.subrange(key, key + 4) =~= ua_key());
    assert(reply.subrange(key, key + 4) =~= front.subrange(key, key + 4));
    assert(reply[colon] == front[colon]);
    assert(reply.subrange(colon + 1, start) =~= space);
    assert(reply.subrange(start, end) =~= number);
    assert(reply[start] == number[0]);
    if end < reply.len() {
        assert(reply[end] == after[0]);
    }
    lemma_number_is_read(reply, key, colon, start, end);
}

/// The number of the reply that the protocol documents is read as it is written.
pub proof fn law_documented_reply_is_read(number: Seq<char>)
    requires
        all_numeric(number),
        number.len() > 0,
    ensures
        ua_field("{\"ua\": "@ + number + "}"@) == Some(number),
{
    reveal_strlit("{\"ua\": ");
    reveal_strlit("}");
    let reply = seq!['{'] + ua_key() + seq![':'] + seq![' '] + number + seq!['}'];
    assert("{\"ua\": "@ =~= seq!['{'] + ua_key() + seq![':'] + seq![' ']);
    assert("}"@ =~= seq!['}']);
    assert forall|j: int| 0 <= j < 1 implies !#[trigger] occurs_at(reply, ua_key(), j) by {
        assert(reply.subrange(0, 4)[0] == '{');
        assert(ua_key()[0] == '"');
    }
    law_number_is_read_as_written(seq!['{'], seq![' '], number, seq!['}']);
}

/// A reply without the key has no number.
pub proof fn law_reply_without_key_has_no_number(reply: Seq<char>)
    requires
        forall|j: int| !#[trigger] occurs_at(reply, ua_key(), j),
    ensures
        ua_field(reply) is None,
{
    lemma_find_text(reply, ua_key(), 0);
}

/// Different numbers are written differently.
pub proof fn law_decimal_tells_numbers_apart(m: nat, n: nat)
    requires
        decimal(m) == decimal(n),
    ensures
        m == n,
    decreases m,
{
    lemma_decimal_length(m);
    lemma_decimal_length(n);
    assert(decimal(m).last() == digit(m % 10));
    assert(decimal(n).last() == digit(n % 10));
    if m >= 10 && n >= 10 {
        assert(decimal(m).drop_last() =~= decimal(m / 10));
        assert(decimal(n).drop_last() =~= decimal(n / 10));
        law_decimal_tells_numbers_apart(m / 10, n / 10);
    }
}

/// A number has one digit exactly if it is below ten.
proof fn lemma_decimal_length(n: nat)
    ensures
        decimal(n).len() >= 1,
        decimal(n).len() == 1 <==> n < 10,
    decreases n,
{
    if n >= 10 {
        lemma_decimal_length(n / 10);
    }
}

/// Commands with different numbers differ.
proof fn lemma_commands_differ(head: Seq<char>, m: u32, n: u32)
    requires
        command(head, m) == command(head, n),
    ensures
        m == n,
{
    let a = decimal(m as nat);
    let b = decimal(n as nat);
    assert(command(head, m).len() == head.len() + a.len() + "}"@.len());
    assert(command(head, n).len() == head.len() + b.len() + "}"@.len());
    assert(command(head, m).subrange(head.len() as int, (head.len() + a.len()) as int) =~= a);
    assert(command(head, n).subrange(head.len() as int, (head.len() + b.len()) as int) =~= b);
    law_decimal_tells_numbers_apart(m as nat, n as nat);
}

/// A command says its number: commands of one kind with different numbers differ.
pub proof fn law_commands_say_their_number(m: u32, n: u32)
    requires
        m != n,
    ensures
        cycle_command(m) != cycle_command(n),
        on_command(m) != on_command(n),
        avg_command(m) != avg_command(n),
{
    if cycle_command(m) == cycle_command(n) {
        lemma_commands_differ("{\"cmd\":\"cycle\",\"mv\":"@, m, n);
    }
    if on_command(m) == on_command(n) {
        lemma_commands_differ("{\"cmd\":\"on\",\"mv\":"@, m, n);
    }
    if avg_command(m) == avg_command(n) {
        lemma_commands_differ("{\"cmd\":\"avg\",\"ms\":"@, m, n);
    }
}

/// The end of a trimmed text lies behind its last character that is not white space.
pub proof fn lemma_solid_end(s: Seq<char>, end: int)
    requires
        0 <= end <= s.len(),
    ensures
        0 <= solid_end(s, end) <= end,
        solid_end(s, end) > 0 ==> !white_space(s[solid_end(s, end) - 1]),
        forall|j: int| solid_end(s, end) <= j < end ==> white_space(#[trigger] s[j]),
    decreases end,
{
    if end > 0 && white_space(s[end - 1]) {
        lemma_solid_end(s, end - 1);
    }
}

/// What is cut off at the two ends of a text is white space, and there is nothing else where
/// nothing is left.
proof fn lemma_trimmed_ends(s: Seq<char>)
    ensures
        ({
            let start = find_from(s, CharClass::Solid, 0);
            let end = solid_end(s, s.len() as int);
            if start < end {
                &&& 0 <= start < end <= s.len()
                &&& !white_space(s[start])
                &&& !white_space(s[end - 1])
                &&& all_white(s.take(start))
                &&& all_white(s.skip(end))
                &&& s == s.take(start) + s.subrange(start, end) + s.skip(end)
            } else {
                all_white(s)
            }
        }),
{
    let start = find_from(s, CharClass::Solid, 0);
    let end = solid_end(s, s.len() as int);
    lemma_find_from(s, CharClass::Solid, 0);
    lemma_solid_end(s, s.len() as int);
    if start < end {
        assert(s =~= s.take(start) + s.subrange(start, end) + s.skip(end));
    } else {
        assert forall|i: int| 0 <= i < s.len() implies white_space(#[trigger] s[i]) by {
            if i < start {
            } else {
                assert(end <= i);
            }
        }
    }
}

/// A trimmed text neither begins nor ends with white space, only white space was cut, and all
/// that is left of a text of white space is nothing.
#[verifier::spinoff_prover]
pub proof fn law_trim_cuts_white_space_only(s: Seq<char>)
    ensures
        trimmed(s).len() > 0 ==> !white_space(trimmed(s)[0]) && !white_space(trimmed(s).last()),
        trimmed(s).len() == 0 <==> all_white(s),
        exists|before: Seq<char>, after: Seq<char>|
            s == #[trigger] (before + trimmed(s) + after) && all_white(before) && all_white(after),
{
    let start = find_from(s, CharClass::Solid, 0);
    let end = solid_end(s, s.len() as int);
    lemma_trimmed_ends(s);
    if start < end {
        let (before, after) = (s.take(start), s.skip(end));
        assert(s == before + trimmed(s) + after);
        assert(!all_white(s)) by {
            assert(!white_space(s[start]));
        }
    } else {
        let after = Seq::<char>::empty();
        assert(s + trimmed(s) + after =~= s);
        assert(all_white(after));
    }
}

/// An exchange fails exactly if a step of it failed or the sidecar closed the pipe.
pub proof fn law_exchange_fails_iff_no_line(exchange: Exchange)
    ensures
        exchange_reply(exchange) is Ok <==> (exchange matches Exchange::Line(line)
            && line@.len() > 0),
{
}

/// What is done from a step on, in order, until nothing is left or `most` steps are done.
pub open spec fn steps_from(step: TeardownView, most: nat) -> Seq<TeardownView>
    decreases most,
{
    if most == 0 || step is Done {
        Seq::empty()
    } else {
        seq![step] + steps_from(step.following(), (most - 1) as nat)
    }
}

/// Giving a connection up cuts the supply, then kills the sidecar, then reaps it: each once, in
/// this order, and nothing after that.
pub proof fn law_teardown_cuts_the_supply_and_reaps(most: nat)
    requires
        most >= 3,
    ensures
        steps_from(TeardownView::Cut(off_command()), most) == seq![
            TeardownView::Cut(off_command()),
            TeardownView::Kill,
            TeardownView::Reap,
        ],
{
    reveal_with_fuel(steps_from, 4);
    assert(steps_from(TeardownView::Cut(off_command()), most) =~= seq![
        TeardownView::Cut(off_command()),
        TeardownView::Kill,
        TeardownView::Reap,
    ]);
}

/// Whether the key `"ua"` stands nowhere in `reply` before the place after `before`.
pub open spec fn first_key_after(reply: Seq<char>, before: Seq<char>) -> bool {
    forall|j: int|
        0 <= j < before.len() ==> !#[trigger] occurs_at(reply, "\"ua\""@, j)
}

/// The field of a reply is what follows the first colon after the first key, and white space, up to
/// the first character that cannot belong to a number, whatever stands between the key and the
/// colon, and also where that is nothing.
pub proof fn law_field_follows_key_and_colon(
    before: Seq<char>,
    between: Seq<char>,
    space: Seq<char>,
    number: Seq<char>,
    after: Seq<char>,
)
    requires
        first_key_after(
            before + "\"ua\""@ + between + seq![':'] + space + number + after,
            before,
        ),
        no_colon(between),
        all_white(space),
        all_numeric(number),
        after.len() > 0 ==> !numeric(after[0]),
        number.len() == 0 && after.len() > 0 ==> !white_space(after[0]),
    ensures
        ua_field(
            before + "\"ua\""@ + between + seq![':'] + space + number + after,
        ) == Some(number),
{
    let front = before + "\"ua\""@;
    let head = front + between + seq![':'];
    let reply = head + space + number + after;
    let key = before.len() as int;
    let colon = key + 4 + between.len();
    let start = colon + 1 + space.len();
    let end = start + number.len();
    reveal_strlit("\"ua\"");
    assert(ua_key() =~= "\"ua\""@);
    assert(head.len() == colon + 1);
    assert(head.subrange(key, key + 4) =~= ua_key());
    assert(head.subrange(key + 4, colon) =~= between);
    assert(head[colon] == ':');
    assert(reply.subrange(key, key + 4) =~= head.subrange(key, key + 4));
    assert(reply.subrange(key + 4, colon) =~= head.subrange(key + 4, colon));
    assert(reply[colon] == head[colon]);
    assert(reply.subrange(colon + 1, start) =~= space);
    assert(reply.subrange(start, end) =~= number);
    if start < reply.len() {
        if number.len() > 0 {
            assert(reply[start] == number[0]);
        } else {
            assert(reply[start] == after[0]);
        }
    }
    if end < reply.len() {
        assert(reply[end] == after[0]);
    }
    lemma_number_is_read(reply, key, colon, start, end);
}

/// A reply has no field exactly if it has no key, or no colon after its first key.
pub proof fn law_no_field_without_key_and_colon(reply: Seq<char>)
    ensures
        ua_field(reply) is None <==> {
            ||| forall|j: int| !#[trigger] occurs_at(reply, "\"ua\""@, j)
            ||| exists|before: Seq<char>, after: Seq<char>|
                reply == #[trigger] with_key(before, after) && first_key_after(reply, before)
                    && no_colon(after)
        },
{
    reveal_strlit("\"ua\"");
    let key = "\"ua\""@;
    assert(ua_key() =~= key);
    lemma_find_text(reply, key, 0);
    if let Some(at) = find_text_from(reply, key, 0) {
        let before = reply.take(at);
        let after = reply.skip(at + 4);
        assert(reply.subrange(at, at + 4) =~= key);
        assert(reply =~= with_key(before, after));
        assert(occurs_at(reply, key, at));
        lemma_find_from(reply, CharClass::Colon, at + 4);
        let colon = find_from(reply, CharClass::Colon, at + 4);
        if colon >= reply.len() {
            assert(no_colon(after)) by {
                assert forall|i: int| 0 <= i < after.len() implies #[trigger] after[i] != ':' by {
                    assert(after[i] == reply[at + 4 + i]);
                }
            }
            assert(first_key_after(reply, before));
        } else {
            assert forall|b: Seq<char>, a: Seq<char>|
                reply == #[trigger] with_key(b, a) && first_key_after(
                    reply,
                    b,
                ) implies !no_colon(a) by {
                assert(reply.subrange(b.len() as int, (b.len() + 4) as int) =~= key);
                assert(occurs_at(reply, key, b.len() as int));
                assert(b.len() == at);
                assert(a[colon - at - 4] == reply[colon]);
            }
        }
    }
}

/// A reply with the key between these texts.
pub open spec fn with_key(before: Seq<char>, after: Seq<char>) -> Seq<char> {
    before + "\"ua\""@ + after
}

/// The reply of an exchange that read a line is that line without the white space around it: white
/// space within it is kept, and so are white space's neighbours.
pub proof fn law_reply_is_the_line_without_its_ends(
    line: String,
    before: Seq<char>,
    reply: Seq<char>,
    after: Seq<char>,
)
    requires
        line@ == before + reply + after,
        line@.len() > 0,
        all_white(before),
        all_white(after),
        reply.len() > 0 ==> !white_space(reply[0]) && !white_space(reply.last()),
    ensures
        exchange_reply(Exchange::Line(line)) == Ok::<Seq<char>, Seq<char>>(reply),
{
    law_trim_leaves_the_middle(before, reply, after);
}

/// Every line that is not empty has a reply, which neither begins nor ends with white space, and
/// only white space was around it.
pub proof fn law_every_line_has_its_reply(line: String)
    requires
        line@.len() > 0,
    ensures
        exchange_reply(Exchange::Line(line)) matches Ok(reply) && (reply.len() > 0
            ==> !white_space(reply[0]) && !white_space(reply.last())) && exists|
            before: Seq<char>,
            after: Seq<char>,
        |
            line@ == #[trigger] (before + reply + after) && all_white(before) && all_white(after),
{
    law_trim_cuts_white_space_only(line@);
}

/// The number of the documented reply, read as a line with any white space around it, is the number
/// as it was written.
pub proof fn law_number_survives_the_exchange(
    line: String,
    before: Seq<char>,
    number: Seq<char>,
    after: Seq<char>,
)
    requires
        line@ == before + ("{\"ua\": "@ + number + "}"@) + after,
        all_white(before),
        all_white(after),
        all_numeric(number),
        number.len() > 0,
    ensures
        exchange_reply(Exchange::Line(line)) matches Ok(reply) && ua_field(reply) == Some(number),
{
    let reply = "{\"ua\": "@ + number + "}"@;
    reveal_strlit("{\"ua\": ");
    reveal_strlit("}");
    assert(reply[0] == '{');
    assert(reply.last() == '}');
    law_reply_is_the_line_without_its_ends(line, before, reply, after);
    law_documented_reply_is_read(number);
}

/// An exchange that failed says at which step, and why; an empty line is a closed pipe.
pub proof fn law_failed_exchange_says_where(cause: String, line: String)
    ensures
        exchange_reply(Exchange::NotWritten(cause)) == Err::<Seq<char>, Seq<char>>(
            "HIL: ppk2d write: "@ + cause@,
        ),
        exchange_reply(Exchange::NotFlushed(cause)) == Err::<Seq<char>, Seq<char>>(
            "HIL: ppk2d flush: "@ + cause@,
        ),
        exchange_reply(Exchange::NotRead(cause)) == Err::<Seq<char>, Seq<char>>(
            "HIL: ppk2d read: "@ + cause@,
        ),
        line@.len() == 0 ==> exchange_reply(Exchange::Line(line)) == Err::<Seq<char>, Seq<char>>(
            "HIL: ppk2d closed the pipe"@,
        ),
{
}

/// A command is written with its own name and with the number in decimal, whatever the number is.
pub proof fn law_commands_are_written_out(number: u32, digits: Seq<char>)
    requires
        writes_number(digits, number as nat),
    ensures
        on_command(number) == "{\"cmd\":\"on\",\"mv\":"@ + (digits + seq!['}']),
        cycle_command(number) == "{\"cmd\":\"cycle\",\"mv\":"@ + (digits + seq!['}']),
        avg_command(number) == "{\"cmd\":\"avg\",\"ms\":"@ + (digits + seq!['}']),
        off_command() == "{\"cmd\":\"off\"}"@,
{
    law_decimal_writes_the_number(digits, number as nat);
    reveal_strlit("}");
    assert("}"@ =~= seq!['}']);
    assert(on_command(number) =~= "{\"cmd\":\"on\",\"mv\":"@ + (digits + seq!['}']));
    assert(cycle_command(number) =~= "{\"cmd\":\"cycle\",\"mv\":"@ + (digits + seq!['}']));
    assert(avg_command(number) =~= "{\"cmd\":\"avg\",\"ms\":"@ + (digits + seq!['}']));
}

/// Commands of different kinds differ, whatever their numbers: in what follows `{"cmd":"`, an
/// enabling command begins with `on"`, a cutting one with `off"`, a power-cycle with `cycle"` and a
/// measurement with `avg"`.
pub proof fn law_commands_of_different_kinds_differ(l: u32, m: u32, n: u32)
    ensures
        on_command(l).subrange(8, 11) == seq!['o', 'n', '"'],
        off_command().subrange(8, 12) == seq!['o', 'f', 'f', '"'],
        cycle_command(m).subrange(8, 14) == seq!['c', 'y', 'c', 'l', 'e', '"'],
        avg_command(n).subrange(8, 12) == seq!['a', 'v', 'g', '"'],
        on_command(l) != off_command(),
        on_command(l) != cycle_command(m),
        on_command(l) != avg_command(n),
        off_command() != cycle_command(m),
        off_command() != avg_command(n),
        cycle_command(m) != avg_command(n),
{
    reveal_strlit("{\"cmd\":\"on\",\"mv\":");
    reveal_strlit("{\"cmd\":\"off\"}");
    reveal_strlit("{\"cmd\":\"cycle\",\"mv\":");
    reveal_strlit("{\"cmd\":\"avg\",\"ms\":");
    let on = on_command(l);
    let off = off_command();
    let cycle = cycle_command(m);
    let avg = avg_command(n);
    assert(on.subrange(8, 11) =~= seq!['o', 'n', '"']);
    assert(off.subrange(8, 12) =~= seq!['o', 'f', 'f', '"']);
    assert(cycle.subrange(8, 14) =~= seq!['c', 'y', 'c', 'l', 'e', '"']);
    assert(avg.subrange(8, 12) =~= seq!['a', 'v', 'g', '"']);
    assert(on[8] == 'o' && on[9] == 'n');
    assert(off[8] == 'o' && off[9] == 'f');
    assert(cycle[8] == 'c');
    assert(avg[8] == 'a');
}

/// The message for a reply without a number ends with the reply as it is; the one for an
/// implausible reading names the reading and the largest plausible one.
pub proof fn law_measurement_messages_are_put_together(reply: Seq<char>, rounded: Seq<char>)
    ensures
        bad_reply_message(reply) == "HIL: ppk2d bad avg reply: "@ + reply,
        desync_message(rounded) == "HIL: PPK2 reading "@ + (rounded + (" µA > "@ + (seq![
            '5',
            '0',
            '0',
            '0',
            '0',
        ] + " µA — CDC desync (do not sample mid-flash); retry after the flash settles"@))),
        PPK2_SANE_MAX_UA == 50_000,
{
    let max = seq!['5', '0', '0', '0', '0'];
    reveal_with_fuel(decimal, 6);
    assert(decimal(50_000) =~= max);
    assert(desync_message(rounded) =~= "HIL: PPK2 reading "@ + (rounded + (" µA > "@ + (max
        + " µA — CDC desync (do not sample mid-flash); retry after the flash settles"@))));
}

/// What a step stands for is the step, with its command.
pub proof fn law_teardown_views_show_the_step(step: Teardown)
    ensures
        step matches Teardown::Cut(command) ==> step@ == TeardownView::Cut(command@),
        step is Kill <==> step@ is Kill,
        step is Reap <==> step@ is Reap,
        step is Done <==> step@ is Done,
{
}

/// Once everything is done, nothing is left to do; and what follows cutting does not depend on the
/// command.
pub proof fn law_teardown_ends(command: Seq<char>)
    ensures
        TeardownView::Done.following() is Done,
        TeardownView::Reap.following() is Done,
        TeardownView::Kill.following() is Reap,
        TeardownView::Cut(command).following() is Kill,
{
}

} // verus!
