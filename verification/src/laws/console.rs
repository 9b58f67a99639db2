//! Laws of the console: sequence accounting, sending, lending the port, and the operations that
//! take frames.

use vstd::prelude::*;

use crate::console::{
    read_outcome, saturated, skipped, successor, ConsoleView, ReadEvent, ReadOutcome,
};
use crate::frame::{message_frame, record_frame, typed_frame, FrameView};
use crate::laws::text::{law_decimal_writes_the_number, writes_number};
use crate::msg::{MsgTypeView, Payload, Protocol, Record};
use crate::wire::decoded_frame;
use crate::window::{
    at_most, got_mentions, no_reply_message, time_left, wait_step, CollectView, MgmtStep,
    MgmtStepView, MgmtView, COLLECT_SLICE, WAIT_SLICE,
};

verus! {

/// The console once frames with these numbers have arrived, in this order.
pub open spec fn accounted_all<P, D>(c: ConsoleView<P, D>, seqs: Seq<u16>) -> ConsoleView<P, D>
    decreases seqs.len(),
{
    if seqs.len() == 0 {
        c
    } else {
        accounted_all(c, seqs.drop_last()).accounted(seqs.last())
    }
}

/// How many frames are skipped between consecutive numbers of a run.
pub open spec fn total_skipped(run: Seq<u16>) -> nat
    decreases run.len(),
{
    if run.len() <= 1 {
        0
    } else {
        total_skipped(run.drop_last()) + skipped(run[run.len() - 2], run.last())
    }
}

/// The arrived numbers with the console's baseline, if it has one, before them.
pub open spec fn with_baseline<P, D>(c: ConsoleView<P, D>, seqs: Seq<u16>) -> Seq<u16> {
    match c.last_seq {
        Some(prev) => seq![prev] + seqs,
        None => seqs,
    }
}

/// Whether the `i`-th number of a run is the successor of the one before.
pub open spec fn follows(run: Seq<u16>, i: int) -> bool {
    run[i] == successor(run[i - 1])
}

/// Whether each number of a run is the successor of the one before.
pub open spec fn contiguous(run: Seq<u16>) -> bool {
    forall|i: int| 0 < i < run.len() ==> #[trigger] follows(run, i)
}

/// The gap counter is the number of frames skipped between consecutive arrivals, as far as the
/// counter reaches; the last arrival is the new baseline, and nothing else changes.
pub proof fn law_gaps_count_skipped_frames<P, D>(c: ConsoleView<P, D>, seqs: Seq<u16>)
    ensures
        accounted_all(c, seqs).seq_gaps == saturated(
            c.seq_gaps,
            total_skipped(with_baseline(c, seqs)),
        ),
        accounted_all(c, seqs).last_seq == (if seqs.len() == 0 {
            c.last_seq
        } else {
            Some(seqs.last())
        }),
        accounted_all(c, seqs).port == c.port,
        accounted_all(c, seqs).decoder == c.decoder,
        accounted_all(c, seqs).tx_seq == c.tx_seq,
    decreases seqs.len(),
{
    let run = with_baseline(c, seqs);
    if seqs.len() == 0 {
        assert(run.len() <= 1);
    } else {
        law_gaps_count_skipped_frames(c, seqs.drop_last());
        assert(with_baseline(c, seqs.drop_last()) =~= run.drop_last());
        if run.len() > 1 {
            let before = accounted_all(c, seqs.drop_last());
            assert(before.last_seq == Some(run[run.len() - 2]));
        }
    }
}

/// No number lies between a number and its successor, and some lie between any other two.
proof fn lemma_skipped_none(prev: u16, seq: u16)
    ensures
        skipped(prev, seq) == 0 <==> seq == successor(prev),
{
}

/// A run skips nothing exactly if it is contiguous.
proof fn lemma_total_skipped_none(run: Seq<u16>)
    ensures
        total_skipped(run) == 0 <==> contiguous(run),
    decreases run.len(),
{
    if run.len() > 1 {
        let front = run.drop_last();
        let last = run.len() - 1;
        lemma_total_skipped_none(front);
        lemma_skipped_none(run[last - 1], run[last]);
        if contiguous(run) {
            assert(follows(run, last));
            assert forall|i: int| 0 < i < front.len() implies #[trigger] follows(front, i) by {
                assert(follows(run, i));
            }
        }
        if total_skipped(run) == 0 {
            assert forall|i: int| 0 < i < run.len() implies #[trigger] follows(run, i) by {
                if i < last {
                    assert(follows(front, i));
                }
            }
        }
    }
}

/// The counter stays where it was exactly if every frame followed its predecessor.
pub proof fn law_no_gap_iff_contiguous<P, D>(c: ConsoleView<P, D>, seqs: Seq<u16>)
    requires
        c.seq_gaps < u32::MAX,
    ensures
        accounted_all(c, seqs).seq_gaps == c.seq_gaps <==> contiguous(with_baseline(c, seqs)),
{
    law_gaps_count_skipped_frames(c, seqs);
    lemma_total_skipped_none(with_baseline(c, seqs));
}

/// The counter never goes down.
pub proof fn law_gaps_never_shrink<P, D>(c: ConsoleView<P, D>, seqs: Seq<u16>)
    ensures
        c.seq_gaps <= accounted_all(c, seqs).seq_gaps,
{
    law_gaps_count_skipped_frames(c, seqs);
}

/// The number of the `n`-th frame that a device sends when it gives its first one `base`.
pub open spec fn sent_number(base: u16, n: nat) -> u16 {
    ((base + n) % 0x1_0000) as u16
}

/// Whether the frame that arrived `i`-th was sent after the one before it, with no more than 65535
/// frames in between.
pub open spec fn sent_soon_after(sent: Seq<nat>, i: int) -> bool {
    sent[i - 1] < sent[i] <= sent[i - 1] + 0x1_0000
}

/// What lies between the numbers of two frames is what was sent between them.
proof fn lemma_skipped_between(base: u16, m: nat, n: nat)
    requires
        m < n <= m + 0x1_0000,
    ensures
        skipped(sent_number(base, m), sent_number(base, n)) == n - m - 1,
{
}

/// The numbers of the frames that were sent in the places `sent`.
pub open spec fn sent_numbers(base: u16, sent: Seq<nat>) -> Seq<u16> {
    Seq::new(sent.len(), |i: int| sent_number(base, sent[i]))
}

/// What is skipped between the first and the last frame of a run is what was sent between them and
/// is not in the run.
proof fn lemma_skipped_are_lost_frames(base: u16, sent: Seq<nat>)
    requires
        sent.len() > 0,
        forall|i: int| 0 < i < sent.len() ==> #[trigger] sent_soon_after(sent, i),
    ensures
        total_skipped(sent_numbers(base, sent)) == sent.last() - sent[0] - (sent.len() - 1),
    decreases sent.len(),
{
    let run = sent_numbers(base, sent);
    if sent.len() > 1 {
        let front = sent.drop_last();
        assert forall|i: int| 0 < i < front.len() implies #[trigger] sent_soon_after(front, i) by {
            assert(sent_soon_after(sent, i));
        }
        lemma_skipped_are_lost_frames(base, front);
        assert(run.drop_last() =~= sent_numbers(base, front));
        let last = sent.len() - 1;
        assert(sent_soon_after(sent, last));
        lemma_skipped_between(base, sent[last - 1], sent[last]);
    }
}

/// Where no more than 65535 frames in a row are lost, the counter goes up by exactly the frames
/// that the device sent between the first and the last arrival and that did not arrive. `sent[i]`
/// is the place, in the order of sending, of the frame that arrived `i`-th.
pub proof fn law_gaps_are_lost_frames<P, D>(c: ConsoleView<P, D>, base: u16, sent: Seq<nat>)
    requires
        c.last_seq is None,
        sent.len() > 0,
        forall|i: int| 0 < i < sent.len() ==> #[trigger] sent_soon_after(sent, i),
    ensures
        sent.last() - sent[0] >= sent.len() - 1,
        accounted_all(c, sent_numbers(base, sent)).seq_gaps == saturated(
            c.seq_gaps,
            (sent.last() - sent[0] - (sent.len() - 1)) as nat,
        ),
{
    lemma_skipped_are_lost_frames(base, sent);
    law_gaps_count_skipped_frames(c, sent_numbers(base, sent));
}

/// The console once reads have given these events, in this order.
pub open spec fn read_all<P, D>(c: ConsoleView<P, D>, events: Seq<ReadEvent<'_>>) -> ConsoleView<P, D>
    decreases events.len(),
{
    if events.len() == 0 {
        c
    } else {
        read_all(c, events.drop_last()).after_read(events.last())
    }
}

/// The numbers of the messages among what reads gave.
pub open spec fn message_numbers(events: Seq<ReadEvent<'_>>) -> Seq<u16>
    decreases events.len(),
{
    if events.len() == 0 {
        Seq::empty()
    } else {
        match events.last() {
            ReadEvent::Message { seq, .. } => message_numbers(events.drop_last()).push(seq),
            _ => message_numbers(events.drop_last()),
        }
    }
}

/// Every message that is read is accounted for, modelled or not and in order; idle reads, failed
/// reads and corrupt frames leave no trace.
pub proof fn law_every_message_is_accounted<P, D>(c: ConsoleView<P, D>, events: Seq<ReadEvent<'_>>)
    ensures
        read_all(c, events) == accounted_all(c, message_numbers(events)),
    decreases events.len(),
{
    if events.len() > 0 {
        law_every_message_is_accounted(c, events.drop_last());
        let front = message_numbers(events.drop_last());
        if let ReadEvent::Message { seq, .. } = events.last() {
            assert(front.push(seq).drop_last() =~= front);
        }
    }
}

/// A duplicated frame shows: the repeated number counts as a full turn of the counter less one.
pub proof fn law_duplicate_is_counted<P, D>(c: ConsoleView<P, D>, seq: u16)
    ensures
        c.accounted(seq).accounted(seq).seq_gaps == saturated(
            c.accounted(seq).seq_gaps,
            0xffff,
        ),
{
}

/// A resync keeps the count and the port, and the frame after it is a baseline, never a gap.
pub proof fn law_resync_sets_new_baseline<P, D>(c: ConsoleView<P, D>, decoder: D, seq: u16)
    ensures
        c.resynced(decoder).seq_gaps == c.seq_gaps,
        c.resynced(decoder).port == c.port,
        c.resynced(decoder).accounted(seq).seq_gaps == c.seq_gaps,
        c.resynced(decoder).accounted(seq).last_seq == Some(seq),
{
}

/// The console once frames have been encoded, each with success or without.
pub open spec fn encoded_all<P, D>(c: ConsoleView<P, D>, successes: Seq<bool>) -> ConsoleView<P, D>
    decreases successes.len(),
{
    if successes.len() == 0 {
        c
    } else {
        encoded_all(c, successes.drop_last()).encoded(successes.last())
    }
}

/// How many encodings succeeded.
pub open spec fn count_true(successes: Seq<bool>) -> nat
    decreases successes.len(),
{
    if successes.len() == 0 {
        0
    } else {
        count_true(successes.drop_last()) + if successes.last() {
            1nat
        } else {
            0
        }
    }
}

/// Outgoing frames are numbered in turn, on the circle of 16-bit numbers: only an encoded frame
/// uses a number up. Sending leaves the accounting of arrivals alone.
pub proof fn law_sent_frames_are_numbered_in_turn<P, D>(c: ConsoleView<P, D>, successes: Seq<bool>)
    ensures
        encoded_all(c, successes).tx_seq == sent_number(c.tx_seq, count_true(successes)),
        encoded_all(c, successes).last_seq == c.last_seq,
        encoded_all(c, successes).seq_gaps == c.seq_gaps,
    decreases successes.len(),
{
    if successes.len() > 0 {
        law_sent_frames_are_numbered_in_turn(c, successes.drop_last());
    }
}

/// A reset gives the port back and leaves the console as it was: lending the port and taking it
/// back undo each other.
pub proof fn law_loan_is_undone<P, D>(c: ConsoleView<P, D>, port: P)
    requires
        c.port == Some(port),
    ensures
        c.loaned().port is None,
        c.loaned().attached(port) == c,
{
}

/// A message becomes [`FrameView::Other`] exactly if its type is not modelled or its payload does
/// not decode; then it keeps its type.
pub proof fn law_other_iff_undecoded(
    msg_type: MsgTypeView,
    payload: Payload<'_>,
    protocol: Protocol,
)
    ensures
        message_frame(msg_type, payload, protocol) is Other <==> !(msg_type.schema() matches Some(
            schema,
        ) && decoded_frame(schema, payload, protocol) is Some),
        message_frame(msg_type, payload, protocol) is Other ==> message_frame(
            msg_type,
            payload,
            protocol,
        ) == FrameView::Other(msg_type),
{
}

/// A decoded payload's fields arrive verbatim under the type that it was decoded for, and under
/// any other type only the type arrives.
pub proof fn law_record_arrives_under_its_type(msg_type: MsgTypeView, record: Record<'_>)
    ensures
        msg_type.schema() == Some(record.schema()) ==> typed_frame(msg_type, Some(record))
            == record_frame(record) && typed_frame(msg_type, Some(record)) !is Other,
        msg_type.schema() != Some(record.schema()) ==> typed_frame(msg_type, Some(record))
            == FrameView::Other(msg_type),
{
}

/// The collection once reads have given these frames, or none.
pub open spec fn collected_all(c: CollectView, gots: Seq<Option<FrameView>>) -> CollectView
    decreases gots.len(),
{
    if gots.len() == 0 {
        c
    } else {
        collected_all(c, gots.drop_last()).after(gots.last())
    }
}

/// The frames among what reads gave.
pub open spec fn frames_of(gots: Seq<Option<FrameView>>) -> Seq<FrameView>
    decreases gots.len(),
{
    if gots.len() == 0 {
        Seq::empty()
    } else {
        match gots.last() {
            Some(f) => frames_of(gots.drop_last()).push(f),
            None => frames_of(gots.drop_last()),
        }
    }
}

/// A collection holds every frame that was read, in order, and keeps its deadline.
pub proof fn law_collects_every_frame(c: CollectView, gots: Seq<Option<FrameView>>)
    ensures
        collected_all(c, gots).frames == c.frames + frames_of(gots),
        collected_all(c, gots).deadline == c.deadline,
    decreases gots.len(),
{
    if gots.len() == 0 {
        assert(c.frames + frames_of(gots) =~= c.frames);
    } else {
        law_collects_every_frame(c, gots.drop_last());
        assert(collected_all(c, gots).frames =~= c.frames + frames_of(gots));
    }
}

/// What a wait ends with when reads give `gots` and the predicate answers `answers` on them.
pub open spec fn waited<F>(gots: Seq<Option<F>>, answers: Seq<bool>) -> Option<F>
    decreases gots.len(),
{
    if gots.len() == 0 {
        None
    } else {
        match wait_step(gots[0], answers[0]) {
            Some(f) => Some(f),
            None => waited(gots.drop_first(), answers.drop_first()),
        }
    }
}

/// Whether the read at `i` gave a frame and the predicate accepted it.
pub open spec fn accepted_at<F>(gots: Seq<Option<F>>, answers: Seq<bool>, i: int) -> bool {
    0 <= i < gots.len() && gots[i] is Some && answers[i]
}

/// A wait ends with the first frame that is accepted: that frame was, and none before it. It ends
/// without one exactly if none is accepted.
pub proof fn law_wait_gives_first_accepted<F>(gots: Seq<Option<F>>, answers: Seq<bool>)
    requires
        gots.len() == answers.len(),
    ensures
        match waited(gots, answers) {
            Some(f) => exists|i: int|
                {
                    &&& #[trigger] accepted_at(gots, answers, i)
                    &&& gots[i] == Some(f)
                    &&& forall|j: int| 0 <= j < i ==> !#[trigger] accepted_at(gots, answers, j)
                },
            None => forall|i: int| !#[trigger] accepted_at(gots, answers, i),
        },
    decreases gots.len(),
{
    if gots.len() > 0 {
        let (later, rest) = (gots.drop_first(), answers.drop_first());
        law_wait_gives_first_accepted(later, rest);
        assert forall|i: int| i > 0 implies #[trigger] accepted_at(gots, answers, i) == accepted_at(
            later,
            rest,
            i - 1,
        ) by {}
        if accepted_at(gots, answers, 0) {
        } else if let Some(f) = waited(gots, answers) {
            let i: int = choose|i: int|
                {
                    &&& #[trigger] accepted_at(later, rest, i)
                    &&& later[i] == Some(f)
                    &&& forall|j: int| 0 <= j < i ==> !#[trigger] accepted_at(later, rest, j)
                };
            assert(accepted_at(gots, answers, i + 1));
        }
    }
}

/// What a wait for text answers on what reads give.
pub open spec fn text_answers(gots: Seq<Option<FrameView>>, needle: Seq<char>) -> Seq<bool> {
    gots.map_values(|got| got_mentions(got, needle))
}

/// A wait for text succeeds exactly if a frame that is read mentions the text, and then it ends
/// with the first that does.
pub proof fn law_wait_for_text_ends_at_first_mention(
    gots: Seq<Option<FrameView>>,
    needle: Seq<char>,
)
    ensures
        match waited(gots, text_answers(gots, needle)) {
            Some(f) => exists|i: int|
                {
                    &&& 0 <= i < gots.len()
                    &&& #[trigger] gots[i] == Some(f)
                    &&& f.mentions(needle)
                    &&& forall|j: int| 0 <= j < i ==> !got_mentions(#[trigger] gots[j], needle)
                },
            None => forall|i: int|
                0 <= i < gots.len() ==> !got_mentions(#[trigger] gots[i], needle),
        },
{
    let answers = text_answers(gots, needle);
    law_wait_gives_first_accepted(gots, answers);
    assert forall|i: int| 0 <= i < gots.len() implies got_mentions(#[trigger] gots[i], needle)
        == accepted_at(gots, answers, i) by {}
}

/// A read is given time exactly while the window is open, and none of it reaches past the
/// deadline.
pub proof fn law_budgets_end_at_the_deadline(deadline: u128, now: u128)
    ensures
        time_left(deadline, now) > 0 <==> now < deadline,
        at_most(time_left(deadline, now), COLLECT_SLICE) > 0 <==> now < deadline,
        at_most(time_left(deadline, now), WAIT_SLICE) > 0 <==> now < deadline,
        now <= deadline ==> now + time_left(deadline, now) == deadline,
        at_most(time_left(deadline, now), COLLECT_SLICE) <= time_left(deadline, now),
        at_most(time_left(deadline, now), WAIT_SLICE) <= time_left(deadline, now),
{
}

/// What a management exchange comes to when reads give `gots`, at the times `nows`.
pub open spec fn exchanged(m: MgmtView, gots: Seq<Option<FrameView>>, nows: Seq<u128>) -> MgmtStepView
    decreases gots.len(),
{
    if gots.len() == 0 {
        MgmtStepView::Wait(m)
    } else {
        match m.after(gots[0], nows[0]) {
            MgmtStepView::Wait(next) => exchanged(next, gots.drop_first(), nows.drop_first()),
            end => end,
        }
    }
}

/// The data of the chunks, among `gots`, of the reply to `req_id`, one after the other.
pub open spec fn reply_data(req_id: u16, gots: Seq<Option<FrameView>>) -> Seq<u8>
    decreases gots.len(),
{
    if gots.len() == 0 {
        Seq::empty()
    } else {
        let rest = reply_data(req_id, gots.drop_first());
        match gots[0] {
            Some(FrameView::Mgmt { req_id: r, data, .. }) if r == req_id => data + rest,
            _ => rest,
        }
    }
}

/// Whether a read gave a frame that leaves the exchange waiting: not nothing, and not the last
/// chunk of the reply to `req_id`.
pub open spec fn leaves_waiting(req_id: u16, got: Option<FrameView>) -> bool {
    match got {
        Some(FrameView::Mgmt { req_id: r, last, .. }) => r != req_id || !last,
        Some(_) => true,
        None => false,
    }
}

/// While no read gives nothing or the last chunk, the exchange waits, and holds the data of the
/// chunks so far.
pub proof fn law_exchange_gathers_chunks(
    m: MgmtView,
    gots: Seq<Option<FrameView>>,
    nows: Seq<u128>,
)
    requires
        nows.len() == gots.len(),
        forall|i: int| 0 <= i < gots.len() ==> leaves_waiting(m.req_id, #[trigger] gots[i]),
    ensures
        exchanged(m, gots, nows) matches MgmtStepView::Wait(w) && w.req_id == m.req_id
            && w.timeout == m.timeout && w.data == m.data + reply_data(m.req_id, gots),
    decreases gots.len(),
{
    if gots.len() == 0 {
        assert(m.data + reply_data(m.req_id, gots) =~= m.data);
    } else {
        assert(leaves_waiting(m.req_id, gots[0]));
        let next = m.after(gots[0], nows[0])->Wait_0;
        assert forall|i: int| 0 <= i < gots.drop_first().len() implies leaves_waiting(
            next.req_id,
            #[trigger] gots.drop_first()[i],
        ) by {
            assert(leaves_waiting(m.req_id, gots[i + 1]));
        }
        law_exchange_gathers_chunks(next, gots.drop_first(), nows.drop_first());
        let w = exchanged(m, gots, nows)->Wait_0;
        assert(w.data =~= m.data + reply_data(m.req_id, gots));
    }
}

/// Handing over reads in two parts is handing them over in one.
proof fn lemma_exchanged_in_parts(
    m: MgmtView,
    gots: Seq<Option<FrameView>>,
    nows: Seq<u128>,
    got: Option<FrameView>,
    now: u128,
)
    requires
        nows.len() == gots.len(),
    ensures
        exchanged(m, gots.push(got), nows.push(now)) == (match exchanged(m, gots, nows) {
            MgmtStepView::Wait(w) => w.after(got, now),
            end => end,
        }),
    decreases gots.len(),
{
    let all = gots.push(got);
    let all_nows = nows.push(now);
    if gots.len() == 0 {
        assert(all.drop_first() =~= Seq::empty());
        let step = m.after(got, now);
        if step is Wait {
            assert(exchanged(step->Wait_0, all.drop_first(), all_nows.drop_first()) == step);
        }
    } else {
        assert(all.drop_first() =~= gots.drop_first().push(got));
        assert(all_nows.drop_first() =~= nows.drop_first().push(now));
        match m.after(gots[0], nows[0]) {
            MgmtStepView::Wait(next) => {
                lemma_exchanged_in_parts(next, gots.drop_first(), nows.drop_first(), got, now);
            },
            _ => {},
        }
    }
}

/// The last chunk completes the reply: its result code, and the data of every chunk of this reply
/// in the order of arrival. Frames for other requests and of other types leave no trace.
pub proof fn law_exchange_reassembles_reply(
    m: MgmtView,
    gots: Seq<Option<FrameView>>,
    nows: Seq<u128>,
    result: u8,
    chunk: u16,
    data: Seq<u8>,
    now: u128,
)
    requires
        nows.len() == gots.len(),
        forall|i: int| 0 <= i < gots.len() ==> leaves_waiting(m.req_id, #[trigger] gots[i]),
    ensures
        exchanged(
            m,
            gots.push(
                Some(FrameView::Mgmt { req_id: m.req_id, result, chunk, last: true, data }),
            ),
            nows.push(now),
        ) == (MgmtStepView::Reply {
            result,
            data: m.data + reply_data(m.req_id, gots) + data,
        }),
{
    let last = Some(FrameView::Mgmt { req_id: m.req_id, result, chunk, last: true, data });
    law_exchange_gathers_chunks(m, gots, nows);
    lemma_exchanged_in_parts(m, gots, nows, last, now);
}

/// A read that gives nothing ends the exchange without a reply, whatever came before.
pub proof fn law_silence_ends_exchange(
    m: MgmtView,
    gots: Seq<Option<FrameView>>,
    nows: Seq<u128>,
    now: u128,
)
    requires
        nows.len() == gots.len(),
        forall|i: int| 0 <= i < gots.len() ==> leaves_waiting(m.req_id, #[trigger] gots[i]),
    ensures
        exchanged(m, gots.push(None), nows.push(now)) == MgmtStepView::NoReply(
            no_reply_message(m.req_id),
        ),
{
    law_exchange_gathers_chunks(m, gots, nows);
    lemma_exchanged_in_parts(m, gots, nows, None, now);
}

/// The timeout is an idle limit: a chunk of the reply that is not the last starts it anew, and no
/// other frame moves the deadline.
pub proof fn law_timeout_is_idle(m: MgmtView, got: FrameView, now: u128)
    requires
        now + m.timeout <= u128::MAX,
        leaves_waiting(m.req_id, Some(got)),
    ensures
        m.after(Some(got), now) matches MgmtStepView::Wait(w) && w.deadline == (
        if m.answered_by(Some(got)) {
            now + m.timeout
        } else {
            m.deadline as int
        }),
        !m.answered_by(Some(got)) ==> m.after(Some(got), now) == MgmtStepView::Wait(m),
{
}

/// Two frames in a row count the frames that were sent between them, `lost` of them, on the circle
/// of 16-bit numbers and as far as the counter reaches. The first frame of all counts nothing.
/// Nothing else changes.
pub proof fn law_gap_is_what_lies_between<P, D>(c: ConsoleView<P, D>, seq: u16, lost: nat)
    requires
        lost < 0x1_0000,
    ensures
        ({
            let after = c.accounted(seq);
            let next = after.accounted(((seq + lost + 1) % 0x1_0000) as u16);
            &&& next.seq_gaps == (if after.seq_gaps + lost <= 0xffff_ffff {
                after.seq_gaps + lost
            } else {
                0xffff_ffff
            })
            &&& next.last_seq == Some(((seq + lost + 1) % 0x1_0000) as u16)
            &&& after.last_seq == Some(seq)
            &&& c.last_seq is None ==> after.seq_gaps == c.seq_gaps
            &&& after.port == c.port
            &&& after.decoder == c.decoder
            &&& after.tx_seq == c.tx_seq
        }),
{
}

/// A read changes the console exactly if it gave a message, and then by the message's number alone.
pub proof fn law_only_messages_change_the_console<P, D>(c: ConsoleView<P, D>, event: ReadEvent<'_>)
    ensures
        match event {
            ReadEvent::Message { seq, .. } => c.after_read(event) == c.accounted(seq),
            _ => c.after_read(event) == c,
        },
{
}

/// A read ends a call with a frame exactly if it gave a message, fails it exactly if it failed, with
/// the cause in the message, and leaves it reading otherwise.
pub proof fn law_read_ends_a_call_or_not(event: ReadEvent<'_>, protocol: Protocol)
    ensures
        match event {
            ReadEvent::Message { msg_type, payload, .. } => read_outcome(event, protocol)
                == ReadOutcome::Frame(message_frame(msg_type@, payload, protocol)),
            ReadEvent::Failed(cause) => read_outcome(event, protocol) == ReadOutcome::Error(
                "HIL: console read error: "@ + cause@,
            ),
            _ => read_outcome(event, protocol) is ReadOn,
        },
{
}

/// What each operation changes of a console, and that it changes nothing else.
pub proof fn law_operations_change_their_part_only<P, D>(
    c: ConsoleView<P, D>,
    port: P,
    decoder: D,
    success: bool,
)
    ensures
        ({
            let r = c.resynced(decoder);
            &&& r.last_seq is None
            &&& r.decoder == decoder
            &&& r.port == c.port
            &&& r.seq_gaps == c.seq_gaps
            &&& r.tx_seq == c.tx_seq
        }),
        ({
            let r = c.decoding(decoder);
            &&& r.decoder == decoder
            &&& r.port == c.port
            &&& r.last_seq == c.last_seq
            &&& r.seq_gaps == c.seq_gaps
            &&& r.tx_seq == c.tx_seq
        }),
        ({
            let r = c.encoded(success);
            &&& r.tx_seq == (if success {
                (c.tx_seq + 1) % 0x1_0000
            } else {
                c.tx_seq as int
            })
            &&& r.port == c.port
            &&& r.decoder == c.decoder
            &&& r.last_seq == c.last_seq
            &&& r.seq_gaps == c.seq_gaps
        }),
        ({
            let r = c.loaned();
            &&& r.port is None
            &&& r.decoder == c.decoder
            &&& r.last_seq == c.last_seq
            &&& r.seq_gaps == c.seq_gaps
            &&& r.tx_seq == c.tx_seq
        }),
        ({
            let r = c.attached(port);
            &&& r.port == Some(port)
            &&& r.decoder == c.decoder
            &&& r.last_seq == c.last_seq
            &&& r.seq_gaps == c.seq_gaps
            &&& r.tx_seq == c.tx_seq
        }),
{
}

/// A new console has its port and decoder, has missed nothing, has no baseline, and numbers its
/// first frame 0.
pub proof fn law_new_console_starts_at_zero<P, D>(port: Option<P>, decoder: D)
    ensures
        ConsoleView::fresh(port, decoder).port == port,
        ConsoleView::fresh(port, decoder).decoder == decoder,
        ConsoleView::fresh(port, decoder).last_seq is None,
        ConsoleView::fresh(port, decoder).seq_gaps == 0,
        ConsoleView::fresh(port, decoder).tx_seq == 0,
{
}

/// A budget is the time left or the cap, whichever is less; the time left reaches to the deadline,
/// and there is none after it.
pub proof fn law_budget_is_the_lesser(deadline: u128, now: u128, length: nat, cap: u128)
    ensures
        at_most(length, cap) <= length,
        at_most(length, cap) <= cap,
        at_most(length, cap) == length || at_most(length, cap) == cap,
        now <= deadline ==> time_left(deadline, now) == deadline - now,
        now >= deadline ==> time_left(deadline, now) == 0,
        COLLECT_SLICE == 200_000_000,
        WAIT_SLICE == 500_000_000,
{
}

/// A collection takes every frame, at its end, and nothing from a read without one.
pub proof fn law_collection_takes_the_frame(c: CollectView, f: FrameView)
    ensures
        c.after(Some(f)).frames == c.frames + seq![f],
        c.after(Some(f)).deadline == c.deadline,
        c.after(None) == c,
{
    assert(c.after(Some(f)).frames =~= c.frames + seq![f]);
}

/// A wait ends with what a read gave exactly if that was accepted.
pub proof fn law_wait_ends_iff_accepted<F>(got: Option<F>)
    ensures
        wait_step(got, true) == got,
        wait_step(got, false) is None,
{
}

/// A chunk of the awaited reply adds its data at the end; the last one completes the reply with its
/// result code, and any other starts the timeout anew. What is awaited does not change.
pub proof fn law_chunk_is_added(
    m: MgmtView,
    result: u8,
    chunk: u16,
    last: bool,
    data: Seq<u8>,
    now: u128,
)
    requires
        now + m.timeout <= u128::MAX,
    ensures
        ({
            let got = Some(FrameView::Mgmt { req_id: m.req_id, result, chunk, last, data });
            &&& m.answered_by(got)
            &&& if last {
                m.after(got, now) matches MgmtStepView::Reply { result: code, data: all } && code
                    == result && all == m.data + data
            } else {
                m.after(got, now) matches MgmtStepView::Wait(w) && w.req_id == m.req_id && w.timeout
                    == m.timeout && w.deadline == now + m.timeout && w.data == m.data + data
            }
        }),
{
}

/// Any other frame leaves the exchange as it was, deadline and data included: a reply to another
/// request, and a frame of another kind.
pub proof fn law_other_frames_leave_the_exchange(m: MgmtView, got: FrameView, now: u128)
    requires
        got matches FrameView::Mgmt { req_id, .. } ==> req_id != m.req_id,
    ensures
        m.after(Some(got), now) == MgmtStepView::Wait(m),
        !m.answered_by(Some(got)),
        !m.answered_by(None),
{
}

/// A request that is not answered is named in the message by its number in decimal.
pub proof fn law_unanswered_request_is_named(m: MgmtView, digits: Seq<char>, now: u128)
    requires
        writes_number(digits, m.req_id as nat),
    ensures
        no_reply_message(m.req_id) == "HIL: mgmt req "@ + (digits + " got no complete reply"@),
        m.after(None, now) == MgmtStepView::NoReply(no_reply_message(m.req_id)),
{
    law_decimal_writes_the_number(digits, m.req_id as nat);
    assert(no_reply_message(m.req_id) =~= "HIL: mgmt req "@ + (digits
        + " got no complete reply"@));
}

/// What a step of an exchange says is what it holds.
pub proof fn law_exchange_views_show_the_step(step: MgmtStep)
    ensures
        step matches MgmtStep::Wait(m) ==> step@ == MgmtStepView::Wait(m@),
        step matches MgmtStep::Reply { result, data } ==> step@ == (MgmtStepView::Reply {
            result,
            data: data@,
        }),
        step matches MgmtStep::NoReply(message) ==> step@ == MgmtStepView::NoReply(message@),
{
}

} // verus!
