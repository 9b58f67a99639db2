//! Laws of reading: what a run of calls of [`Console::next`](crate::console::Console::next) gives
//! for what the port gave, wherever the run is cut into calls.

use vstd::prelude::*;

use crate::console::{read_outcome, ConsoleView, ReadEvent, ReadOutcome};
use crate::frame::{message_frame, FrameView};
use crate::laws::console::{
    accounted_all, law_every_message_is_accounted, message_numbers, read_all,
};
use crate::msg::Protocol;

verus! {

/// What one read of the port gives.
pub enum PortRead {
    /// The read gave no byte.
    Nothing,
    /// The read timed out.
    TimedOut,
    /// The read gave a byte.
    Byte(u8),
    /// The read failed, with this description.
    Failed(String),
}

/// What reads come to, each in its turn (see [`Console::on_read`](crate::console::Console::on_read)).
pub open spec fn outcomes_of(events: Seq<ReadEvent<'_>>, protocol: Protocol) -> Seq<ReadOutcome> {
    events.map_values(|event| read_outcome(event, protocol))
}

/// The outcomes that end a call, in order: its frames and its errors.
pub open spec fn ends(outcomes: Seq<ReadOutcome>) -> Seq<ReadOutcome>
    decreases outcomes.len(),
{
    if outcomes.len() == 0 {
        Seq::empty()
    } else {
        match outcomes[0] {
            ReadOutcome::ReadOn => ends(outcomes.drop_first()),
            end => seq![end] + ends(outcomes.drop_first()),
        }
    }
}

/// The frames among outcomes, in order.
pub open spec fn frames_among(outcomes: Seq<ReadOutcome>) -> Seq<FrameView>
    decreases outcomes.len(),
{
    if outcomes.len() == 0 {
        Seq::empty()
    } else {
        match outcomes[0] {
            ReadOutcome::Frame(frame) => seq![frame] + frames_among(outcomes.drop_first()),
            _ => frames_among(outcomes.drop_first()),
        }
    }
}

/// The frames of the messages among what reads gave, in order.
pub open spec fn message_frames(events: Seq<ReadEvent<'_>>, protocol: Protocol) -> Seq<FrameView>
    decreases events.len(),
{
    if events.len() == 0 {
        Seq::empty()
    } else {
        let rest = message_frames(events.drop_first(), protocol);
        match events[0] {
            ReadEvent::Message { msg_type, payload, .. } => seq![
                message_frame(msg_type@, payload, protocol),
            ] + rest,
            _ => rest,
        }
    }
}

/// The frames that reads give are those of the messages among them, in order: one for each, and
/// none without one. Reads fail exactly where the port did.
pub proof fn law_frames_are_the_messages(events: Seq<ReadEvent<'_>>, protocol: Protocol)
    ensures
        frames_among(outcomes_of(events, protocol)) == message_frames(events, protocol),
        forall|i: int|
            0 <= i < events.len() ==> (#[trigger] outcomes_of(events, protocol)[i] is Error
                <==> events[i] is Failed),
    decreases events.len(),
{
    if events.len() > 0 {
        law_frames_are_the_messages(events.drop_first(), protocol);
        assert(outcomes_of(events, protocol).drop_first() =~= outcomes_of(
            events.drop_first(),
            protocol,
        ));
    }
}

/// What a read comes to when the decoder is in state `d` and takes a byte to a new state and an
/// event by `step`.
pub open spec fn port_event<'a, D>(
    step: spec_fn(D, u8) -> (D, ReadEvent<'a>),
    d: D,
    read: PortRead,
) -> ReadEvent<'a> {
    match read {
        PortRead::Nothing => ReadEvent::Nothing,
        PortRead::TimedOut => ReadEvent::TimedOut,
        PortRead::Byte(b) => step(d, b).1,
        PortRead::Failed(e) => ReadEvent::Failed(e),
    }
}

/// The state of the decoder after a read: only a byte changes it.
pub open spec fn decoder_after<'a, D>(
    step: spec_fn(D, u8) -> (D, ReadEvent<'a>),
    d: D,
    read: PortRead,
) -> D {
    match read {
        PortRead::Byte(b) => step(d, b).0,
        _ => d,
    }
}

/// What reads come to, one after the other.
pub open spec fn port_events<'a, D>(
    step: spec_fn(D, u8) -> (D, ReadEvent<'a>),
    d: D,
    reads: Seq<PortRead>,
) -> Seq<ReadEvent<'a>>
    decreases reads.len(),
{
    if reads.len() == 0 {
        Seq::empty()
    } else {
        seq![port_event(step, d, reads[0])] + port_events(
            step,
            decoder_after(step, d, reads[0]),
            reads.drop_first(),
        )
    }
}

/// The state of the decoder after reads.
pub open spec fn decoder_after_all<'a, D>(
    step: spec_fn(D, u8) -> (D, ReadEvent<'a>),
    d: D,
    reads: Seq<PortRead>,
) -> D
    decreases reads.len(),
{
    if reads.len() == 0 {
        d
    } else {
        decoder_after_all(step, decoder_after(step, d, reads[0]), reads.drop_first())
    }
}

/// The console after a read: the decoder takes the byte, and the console takes what came of it.
pub open spec fn after_port_read<'a, P, D>(
    step: spec_fn(D, u8) -> (D, ReadEvent<'a>),
    c: ConsoleView<P, D>,
    read: PortRead,
) -> ConsoleView<P, D> {
    c.decoding(decoder_after(step, c.decoder, read)).after_read(port_event(step, c.decoder, read))
}

/// The console after reads.
pub open spec fn after_port_reads<'a, P, D>(
    step: spec_fn(D, u8) -> (D, ReadEvent<'a>),
    c: ConsoleView<P, D>,
    reads: Seq<PortRead>,
) -> ConsoleView<P, D>
    decreases reads.len(),
{
    if reads.len() == 0 {
        c
    } else {
        after_port_reads(step, after_port_read(step, c, reads[0]), reads.drop_first())
    }
}

/// One call of [`Console::next`](crate::console::Console::next).
pub struct Call<P, D> {
    /// The console after it.
    pub console: ConsoleView<P, D>,
    /// What it ends with; [`ReadOutcome::ReadOn`] where its time runs out without a frame.
    pub outcome: ReadOutcome,
    /// How many reads it makes.
    pub taken: nat,
}

/// The call that has time for `allowance` reads, of a port that gives `reads`.
pub open spec fn call<'a, P, D>(
    step: spec_fn(D, u8) -> (D, ReadEvent<'a>),
    c: ConsoleView<P, D>,
    reads: Seq<PortRead>,
    allowance: nat,
    protocol: Protocol,
) -> Call<P, D>
    decreases reads.len(),
{
    if reads.len() == 0 || allowance == 0 {
        Call { console: c, outcome: ReadOutcome::ReadOn, taken: 0 }
    } else {
        let next = after_port_read(step, c, reads[0]);
        match read_outcome(port_event(step, c.decoder, reads[0]), protocol) {
            ReadOutcome::ReadOn => {
                let rest = call(step, next, reads.drop_first(), (allowance - 1) as nat, protocol);
                Call { taken: rest.taken + 1, ..rest }
            },
            end => Call { console: next, outcome: end, taken: 1 },
        }
    }
}

/// Successive calls of [`Console::next`](crate::console::Console::next).
pub struct Calls<P, D> {
    /// The console after them.
    pub console: ConsoleView<P, D>,
    /// What each ends with.
    pub outcomes: Seq<ReadOutcome>,
    /// How many reads they make in all.
    pub taken: nat,
}

/// The calls that have time for `allowances` reads each, of a port that gives `reads`.
pub open spec fn calls<'a, P, D>(
    step: spec_fn(D, u8) -> (D, ReadEvent<'a>),
    c: ConsoleView<P, D>,
    reads: Seq<PortRead>,
    allowances: Seq<nat>,
    protocol: Protocol,
) -> Calls<P, D>
    decreases allowances.len(),
{
    if allowances.len() == 0 {
        Calls { console: c, outcomes: Seq::empty(), taken: 0 }
    } else {
        let first = call(step, c, reads, allowances[0], protocol);
        let rest = calls(
            step,
            first.console,
            reads.skip(first.taken as int),
            allowances.drop_first(),
            protocol,
        );
        Calls {
            console: rest.console,
            outcomes: seq![first.outcome] + rest.outcomes,
            taken: first.taken + rest.taken,
        }
    }
}

proof fn lemma_ends_in_parts(a: Seq<ReadOutcome>, b: Seq<ReadOutcome>)
    ensures
        ends(a + b) == ends(a) + ends(b),
        frames_among(a + b) == frames_among(a) + frames_among(b),
    decreases a.len(),
{
    if a.len() == 0 {
        assert(a + b =~= b);
    } else {
        lemma_ends_in_parts(a.drop_first(), b);
        assert((a + b).drop_first() =~= a.drop_first() + b);
        assert(ends(a + b) =~= ends(a) + ends(b));
        assert(frames_among(a + b) =~= frames_among(a) + frames_among(b));
    }
}

/// The frames of a run are those among the outcomes that end its calls.
proof fn lemma_frames_are_ends(outcomes: Seq<ReadOutcome>)
    ensures
        frames_among(ends(outcomes)) == frames_among(outcomes),
    decreases outcomes.len(),
{
    if outcomes.len() > 0 {
        let rest = outcomes.drop_first();
        lemma_frames_are_ends(rest);
        if !(outcomes[0] is ReadOn) {
            assert((seq![outcomes[0]] + ends(rest)).drop_first() =~= ends(rest));
        }
    }
}

proof fn lemma_reads_in_parts<'a, P, D>(
    step: spec_fn(D, u8) -> (D, ReadEvent<'a>),
    c: ConsoleView<P, D>,
    a: Seq<PortRead>,
    b: Seq<PortRead>,
)
    ensures
        port_events(step, c.decoder, a + b) == port_events(step, c.decoder, a) + port_events(
            step,
            after_port_reads(step, c, a).decoder,
            b,
        ),
        after_port_reads(step, c, a + b) == after_port_reads(step, after_port_reads(step, c, a), b),
        after_port_reads(step, c, a).decoder == decoder_after_all(step, c.decoder, a),
    decreases a.len(),
{
    if a.len() == 0 {
        assert(a + b =~= b);
        assert(port_events(step, c.decoder, a + b) =~= port_events(step, c.decoder, a)
            + port_events(step, c.decoder, b));
    } else {
        lemma_reads_in_parts(step, after_port_read(step, c, a[0]), a.drop_first(), b);
        assert((a + b).drop_first() =~= a.drop_first() + b);
        assert(port_events(step, c.decoder, a + b) =~= port_events(step, c.decoder, a)
            + port_events(step, after_port_reads(step, c, a).decoder, b));
    }
}

/// A call makes some of the reads, and ends with the one among them that ends it, if there is one.
proof fn lemma_call<'a, P, D>(
    step: spec_fn(D, u8) -> (D, ReadEvent<'a>),
    c: ConsoleView<P, D>,
    reads: Seq<PortRead>,
    allowance: nat,
    protocol: Protocol,
)
    ensures
        ({
            let one = call(step, c, reads, allowance, protocol);
            let taken = reads.take(one.taken as int);
            &&& one.taken <= reads.len()
            &&& one.taken <= allowance
            &&& allowance > 0 && reads.len() > 0 ==> one.taken > 0
            &&& one.console == after_port_reads(step, c, taken)
            &&& ends(seq![one.outcome]) == ends(
                outcomes_of(port_events(step, c.decoder, taken), protocol),
            )
        }),
    decreases reads.len(),
{
    let one = call(step, c, reads, allowance, protocol);
    let taken = reads.take(one.taken as int);
    assert(seq![one.outcome].drop_first() =~= Seq::<ReadOutcome>::empty());
    reveal_with_fuel(ends, 2);
    reveal_with_fuel(after_port_reads, 2);
    if reads.len() == 0 || allowance == 0 {
        assert(taken =~= Seq::<PortRead>::empty());
        assert(outcomes_of(port_events(step, c.decoder, taken), protocol) =~= Seq::empty());
    } else {
        let next = after_port_read(step, c, reads[0]);
        let event = port_event(step, c.decoder, reads[0]);
        let rest = reads.drop_first();
        if read_outcome(event, protocol) is ReadOn {
            lemma_call(step, next, rest, (allowance - 1) as nat, protocol);
            assert(taken.drop_first() =~= rest.take(one.taken - 1));
        } else {
            assert(taken.drop_first() =~= Seq::<PortRead>::empty());
            assert(port_events(step, next.decoder, taken.drop_first()) =~= Seq::empty());
        }
        let later = port_events(step, next.decoder, taken.drop_first());
        let events = port_events(step, c.decoder, taken);
        assert(events =~= seq![event] + later);
        assert(outcomes_of(events, protocol).drop_first() =~= outcomes_of(later, protocol));
        assert(outcomes_of(events, protocol)[0] == read_outcome(event, protocol));
        assert(ends(seq![one.outcome]) =~= ends(outcomes_of(events, protocol)));
    }
}

/// Wherever a run of reads is cut into calls, the calls give the frames and the errors of the
/// reads that they make, in order: at most one for each call, and none of them lost, repeated or
/// moved. They leave the console as the reads in one go leave it: what the decoder holds of a frame
/// when a call's time runs out is there for the next call.
pub proof fn law_calls_give_every_frame<'a, P, D>(
    step: spec_fn(D, u8) -> (D, ReadEvent<'a>),
    c: ConsoleView<P, D>,
    reads: Seq<PortRead>,
    allowances: Seq<nat>,
    protocol: Protocol,
)
    ensures
        ({
            let run = calls(step, c, reads, allowances, protocol);
            let taken = reads.take(run.taken as int);
            let events = port_events(step, c.decoder, taken);
            &&& run.taken <= reads.len()
            &&& run.outcomes.len() == allowances.len()
            &&& ends(run.outcomes) == ends(outcomes_of(events, protocol))
            &&& frames_among(run.outcomes) == message_frames(events, protocol)
            &&& run.console == after_port_reads(step, c, taken)
        }),
    decreases allowances.len(),
{
    let run = calls(step, c, reads, allowances, protocol);
    let taken = reads.take(run.taken as int);
    let events = port_events(step, c.decoder, taken);
    if allowances.len() == 0 {
        assert(taken =~= Seq::<PortRead>::empty());
        assert(outcomes_of(events, protocol) =~= Seq::empty());
    } else {
        let first = call(step, c, reads, allowances[0], protocol);
        let left = reads.skip(first.taken as int);
        let rest = calls(step, first.console, left, allowances.drop_first(), protocol);
        let a = reads.take(first.taken as int);
        let b = left.take(rest.taken as int);
        lemma_call(step, c, reads, allowances[0], protocol);
        law_calls_give_every_frame(step, first.console, left, allowances.drop_first(), protocol);
        lemma_reads_in_parts(step, c, a, b);
        assert(taken =~= a + b);
        let before = outcomes_of(port_events(step, c.decoder, a), protocol);
        let after = outcomes_of(port_events(step, first.console.decoder, b), protocol);
        assert(outcomes_of(events, protocol) =~= before + after);
        lemma_ends_in_parts(before, after);
        lemma_ends_in_parts(seq![first.outcome], rest.outcomes);
    }
    lemma_frames_are_ends(run.outcomes);
    lemma_frames_are_ends(outcomes_of(events, protocol));
    law_frames_are_the_messages(events, protocol);
}

/// Calls that each have time for a read get through all reads, if there are as many calls.
pub proof fn law_enough_calls_make_every_read<'a, P, D>(
    step: spec_fn(D, u8) -> (D, ReadEvent<'a>),
    c: ConsoleView<P, D>,
    reads: Seq<PortRead>,
    allowances: Seq<nat>,
    protocol: Protocol,
)
    requires
        reads.len() <= allowances.len(),
        forall|i: int| 0 <= i < allowances.len() ==> #[trigger] allowances[i] > 0,
    ensures
        calls(step, c, reads, allowances, protocol).taken == reads.len(),
    decreases allowances.len(),
{
    if allowances.len() > 0 {
        let first = call(step, c, reads, allowances[0], protocol);
        lemma_call(step, c, reads, allowances[0], protocol);
        law_enough_calls_make_every_read(
            step,
            first.console,
            reads.skip(first.taken as int),
            allowances.drop_first(),
            protocol,
        );
    }
}

proof fn lemma_read_all_first<P, D>(c: ConsoleView<P, D>, events: Seq<ReadEvent<'_>>)
    requires
        events.len() > 0,
    ensures
        read_all(c, events) == read_all(c.after_read(events[0]), events.drop_first()),
    decreases events.len(),
{
    reveal_with_fuel(read_all, 2);
    if events.len() == 1 {
        assert(events.drop_last() =~= Seq::<ReadEvent<'_>>::empty());
        assert(events.drop_first() =~= Seq::<ReadEvent<'_>>::empty());
    } else {
        lemma_read_all_first(c, events.drop_last());
        assert(events.drop_last().drop_first() =~= events.drop_first().drop_last());
    }
}

proof fn lemma_read_all_keeps_decoder<P, D>(
    c: ConsoleView<P, D>,
    d: D,
    events: Seq<ReadEvent<'_>>,
)
    ensures
        read_all(c.decoding(d), events) == read_all(c, events).decoding(d),
    decreases events.len(),
{
    if events.len() > 0 {
        lemma_read_all_keeps_decoder(c, d, events.drop_last());
    }
}

/// Reads account for every message among what they came to, modelled or not and in order, and
/// leave the decoder where the bytes among them take it. They change nothing else.
pub proof fn law_reads_account_for_every_message<'a, P, D>(
    step: spec_fn(D, u8) -> (D, ReadEvent<'a>),
    c: ConsoleView<P, D>,
    reads: Seq<PortRead>,
)
    ensures
        after_port_reads(step, c, reads) == accounted_all(
            c,
            message_numbers(port_events(step, c.decoder, reads)),
        ).decoding(decoder_after_all(step, c.decoder, reads)),
    decreases reads.len(),
{
    let events = port_events(step, c.decoder, reads);
    if reads.len() > 0 {
        let d = decoder_after(step, c.decoder, reads[0]);
        let next = after_port_read(step, c, reads[0]);
        law_reads_account_for_every_message(step, next, reads.drop_first());
        law_every_message_is_accounted(next, events.drop_first());
        assert(events.drop_first() =~= port_events(step, d, reads.drop_first()));
        lemma_read_all_first(c, events);
        lemma_read_all_keeps_decoder(c.after_read(events[0]), d, events.drop_first());
    }
    law_every_message_is_accounted(c, events);
}

/// The bytes among what reads give, in order.
pub open spec fn bytes_among(reads: Seq<PortRead>) -> Seq<u8>
    decreases reads.len(),
{
    if reads.len() == 0 {
        Seq::empty()
    } else {
        match reads[0] {
            PortRead::Byte(b) => seq![b] + bytes_among(reads.drop_first()),
            _ => bytes_among(reads.drop_first()),
        }
    }
}

/// Reads that give these bytes, without a pause.
pub open spec fn byte_reads(bytes: Seq<u8>) -> Seq<PortRead> {
    bytes.map_values(|b| PortRead::Byte(b))
}

/// The frames that bytes make up for a decoder in state `d`.
pub open spec fn frames_in<'a, D>(
    step: spec_fn(D, u8) -> (D, ReadEvent<'a>),
    d: D,
    bytes: Seq<u8>,
    protocol: Protocol,
) -> Seq<FrameView> {
    message_frames(port_events(step, d, byte_reads(bytes)), protocol)
}

/// Only bytes matter: reads that give none, time out or fail, however many and wherever they
/// fall, change neither the frames nor the decoder.
pub proof fn law_only_bytes_matter<'a, D>(
    step: spec_fn(D, u8) -> (D, ReadEvent<'a>),
    d: D,
    reads: Seq<PortRead>,
    protocol: Protocol,
)
    ensures
        message_frames(port_events(step, d, reads), protocol) == frames_in(
            step,
            d,
            bytes_among(reads),
            protocol,
        ),
        decoder_after_all(step, d, reads) == decoder_after_all(
            step,
            d,
            byte_reads(bytes_among(reads)),
        ),
    decreases reads.len(),
{
    if reads.len() > 0 {
        let rest = reads.drop_first();
        let events = port_events(step, d, reads);
        law_only_bytes_matter(step, decoder_after(step, d, reads[0]), rest, protocol);
        assert(events.drop_first() =~= port_events(step, decoder_after(step, d, reads[0]), rest));
        if let PortRead::Byte(b) = reads[0] {
            let bytes = byte_reads(bytes_among(reads));
            assert(bytes.drop_first() =~= byte_reads(bytes_among(rest)));
            assert(port_events(step, d, bytes).drop_first() =~= port_events(
                step,
                step(d, b).0,
                bytes.drop_first(),
            ));
        }
    }
}

/// Whether `wire` is the encoding of `frame`, for a decoder that is at rest between frames: it
/// makes up that frame and no other, and leaves the decoder at rest.
pub open spec fn encodes<'a, D>(
    step: spec_fn(D, u8) -> (D, ReadEvent<'a>),
    rest: spec_fn(D) -> bool,
    wire: Seq<u8>,
    frame: FrameView,
    protocol: Protocol,
) -> bool {
    forall|d: D|
        rest(d) ==> #[trigger] frames_in(step, d, wire, protocol) == seq![frame] && rest(
            decoder_after_all(step, d, byte_reads(wire)),
        )
}

proof fn lemma_frames_in_parts<'a, D>(
    step: spec_fn(D, u8) -> (D, ReadEvent<'a>),
    d: D,
    a: Seq<u8>,
    b: Seq<u8>,
    protocol: Protocol,
)
    ensures
        frames_in(step, d, a + b, protocol) == frames_in(step, d, a, protocol) + frames_in(
            step,
            decoder_after_all(step, d, byte_reads(a)),
            b,
            protocol,
        ),
        decoder_after_all(step, d, byte_reads(a + b)) == decoder_after_all(
            step,
            decoder_after_all(step, d, byte_reads(a)),
            byte_reads(b),
        ),
    decreases a.len(),
{
    if a.len() == 0 {
        assert(a + b =~= b);
        assert(frames_in(step, d, a, protocol) =~= Seq::empty());
        assert(frames_in(step, d, b, protocol) =~= frames_in(step, d, a, protocol) + frames_in(
            step,
            d,
            b,
            protocol,
        ));
    } else {
        let next = step(d, a[0]).0;
        lemma_frames_in_parts(step, next, a.drop_first(), b, protocol);
        lemma_frames_in_first(step, d, a, protocol);
        lemma_frames_in_first(step, d, a + b, protocol);
        assert((a + b).drop_first() =~= a.drop_first() + b);
        assert(frames_in(step, d, a + b, protocol) =~= frames_in(step, d, a, protocol) + frames_in(
            step,
            decoder_after_all(step, d, byte_reads(a)),
            b,
            protocol,
        ));
    }
}

proof fn lemma_frames_in_first<'a, D>(
    step: spec_fn(D, u8) -> (D, ReadEvent<'a>),
    d: D,
    bytes: Seq<u8>,
    protocol: Protocol,
)
    requires
        bytes.len() > 0,
    ensures
        ({
            let later = frames_in(step, step(d, bytes[0]).0, bytes.drop_first(), protocol);
            frames_in(step, d, bytes, protocol) == match step(d, bytes[0]).1 {
                ReadEvent::Message { msg_type, payload, .. } => seq![
                    message_frame(msg_type@, payload, protocol),
                ] + later,
                _ => later,
            }
        }),
        decoder_after_all(step, d, byte_reads(bytes)) == decoder_after_all(
            step,
            step(d, bytes[0]).0,
            byte_reads(bytes.drop_first()),
        ),
{
    let reads = byte_reads(bytes);
    assert(reads.drop_first() =~= byte_reads(bytes.drop_first()));
    assert(port_events(step, d, reads).drop_first() =~= port_events(
        step,
        step(d, bytes[0]).0,
        reads.drop_first(),
    ));
}

proof fn lemma_encodings_back_to_back<'a, D>(
    step: spec_fn(D, u8) -> (D, ReadEvent<'a>),
    rest: spec_fn(D) -> bool,
    d: D,
    wires: Seq<Seq<u8>>,
    frames: Seq<FrameView>,
    protocol: Protocol,
)
    requires
        rest(d),
        wires.len() == frames.len(),
        forall|i: int|
            0 <= i < frames.len() ==> #[trigger] encodes(step, rest, wires[i], frames[i], protocol),
    ensures
        frames_in(step, d, wires.flatten(), protocol) == frames,
        rest(decoder_after_all(step, d, byte_reads(wires.flatten()))),
    decreases wires.len(),
{
    if wires.len() == 0 {
        assert(wires.flatten() =~= Seq::<u8>::empty());
        assert(frames_in(step, d, wires.flatten(), protocol) =~= frames);
    } else {
        let next = decoder_after_all(step, d, byte_reads(wires[0]));
        assert(encodes(step, rest, wires[0], frames[0], protocol));
        assert(frames_in(step, d, wires[0], protocol) == seq![frames[0]]);
        assert forall|i: int| 0 <= i < frames.drop_first().len() implies #[trigger] encodes(
            step,
            rest,
            wires.drop_first()[i],
            frames.drop_first()[i],
            protocol,
        ) by {
            assert(encodes(step, rest, wires[i + 1], frames[i + 1], protocol));
        }
        lemma_encodings_back_to_back(
            step,
            rest,
            next,
            wires.drop_first(),
            frames.drop_first(),
            protocol,
        );
        assert(wires.flatten() == wires[0] + wires.drop_first().flatten());
        lemma_frames_in_parts(step, d, wires[0], wires.drop_first().flatten(), protocol);
        assert(seq![frames[0]] + frames.drop_first() =~= frames);
    }
}

/// Frames that arrive back to back, from a decoder at rest, are given one per call, each exactly
/// once and in order, wherever their bytes are cut into calls and whatever pauses fall between
/// them. What the calls have not given is still to come from the bytes that are left; once all are
/// read, every frame has been given.
pub proof fn law_frames_arrive_back_to_back<'a, P, D>(
    step: spec_fn(D, u8) -> (D, ReadEvent<'a>),
    rest: spec_fn(D) -> bool,
    c: ConsoleView<P, D>,
    reads: Seq<PortRead>,
    allowances: Seq<nat>,
    wires: Seq<Seq<u8>>,
    frames: Seq<FrameView>,
    protocol: Protocol,
)
    requires
        rest(c.decoder),
        wires.len() == frames.len(),
        forall|i: int|
            0 <= i < frames.len() ==> #[trigger] encodes(step, rest, wires[i], frames[i], protocol),
        bytes_among(reads) == wires.flatten(),
    ensures
        ({
            let run = calls(step, c, reads, allowances, protocol);
            let left = reads.skip(run.taken as int);
            &&& frames_among(run.outcomes) + message_frames(
                port_events(step, run.console.decoder, left),
                protocol,
            ) == frames
            &&& run.taken == reads.len() ==> frames_among(run.outcomes) == frames && rest(
                run.console.decoder,
            )
        }),
{
    let run = calls(step, c, reads, allowances, protocol);
    let taken = reads.take(run.taken as int);
    let left = reads.skip(run.taken as int);
    law_calls_give_every_frame(step, c, reads, allowances, protocol);
    lemma_encodings_back_to_back(step, rest, c.decoder, wires, frames, protocol);
    law_only_bytes_matter(step, c.decoder, reads, protocol);
    lemma_reads_in_parts(step, c, taken, left);
    assert(taken + left =~= reads);
    let before = port_events(step, c.decoder, taken);
    let after = port_events(step, run.console.decoder, left);
    let first = outcomes_of(before, protocol);
    let later = outcomes_of(after, protocol);
    law_frames_are_the_messages(before, protocol);
    law_frames_are_the_messages(after, protocol);
    law_frames_are_the_messages(before + after, protocol);
    assert(outcomes_of(before + after, protocol) =~= first + later);
    lemma_ends_in_parts(first, later);
    if run.taken == reads.len() {
        assert(left =~= Seq::<PortRead>::empty());
        assert(after =~= Seq::empty());
        assert(frames_among(run.outcomes) + Seq::empty() =~= frames_among(run.outcomes));
        assert(taken =~= reads);
    }
}

} // verus!
