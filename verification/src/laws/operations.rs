//! Laws of the operations themselves: what each gives, in terms of what it is given. Each law
//! speaks of every result that the operation can give.

use vstd::prelude::*;

use crate::bench::{
    bench_or_fail, bench_or_fail_power, default_fixture_path, list_ports, ports_in, utf8_lossy,
    Bench, DeviceListing, FixtureRead,
};
use crate::console;
use crate::console::{Console, OpenAttempt, ReadEvent, ResetOutcome, WriteOutcome};
use crate::firmware::{
    build_file, firmware_candidate, firmware_dir, override_variable, sibling_checkout,
};
use crate::frame::{
    frame_mentions, frame_text, message_frame, own_frame, to_frame, Frame, FrameView,
};
use crate::laws::bench::{
    law_fault_names_missing_board, law_listing_shows_every_path, law_no_listing_resolves_nothing,
    law_power_tolerates_missing_core, law_resolves_iff_both_present, lines_of, paths_of, printed,
    ListedLine,
};
use crate::laws::frame::{
    law_every_radio_sample_arrives, law_frame_views_show_every_field,
    law_mentions_what_stands_in_the_text, law_text_is_the_message,
    law_unmodelled_types_arrive_bare,
};
use crate::laws::ppk2::{
    all_numeric, all_white, first_key_after, law_commands_are_written_out, law_field_follows_key_and_colon,
    law_measurement_messages_are_put_together,
    law_number_survives_the_exchange, law_reply_is_the_line_without_its_ends, no_colon,
};
use crate::laws::text::{
    law_contains_iff_put_together_from, law_decimal_writes_the_number,
    law_starts_iff_continued, law_trim_leaves_the_middle, writes_number,
};
use crate::laws::wire::{distinct_levels, frame_payload, law_encoded_record_arrives};
use crate::msg::{MgmtRequest, MsgType, Payload, Protocol, RadioStat, Schema, ShellCommand};
use crate::ppk2::{
    parse_ua, script_path, Exchange, Ppk2, Reading, SpawnAttempt, Teardown,
};
use crate::text;
use crate::text::{numeric, white_space};
use crate::window::{
    CollectFor, MgmtRoundtrip, MgmtStep, WaitFor, WaitForText, Window,
};

verus! {

/// Whether `needle` stands in `hay`, with something or nothing before and after it.
pub open spec fn stands_in(hay: Seq<char>, needle: Seq<char>) -> bool {
    exists|before: Seq<char>, after: Seq<char>| hay == #[trigger] (before + needle + after)
}

/// Whether a log frame's message, of any level, or a print frame's text holds `needle`.
pub open spec fn says(f: Frame, needle: Seq<char>) -> bool {
    match f {
        Frame::Log { message, .. } => stands_in(message@, needle),
        Frame::Print { text } => stands_in(text@, needle),
        _ => false,
    }
}

/// [`frame_text`] gives the message of every log frame and the text of every print frame, and
/// nothing of any other; [`frame_mentions`] and [`WaitForText::on_frame`] go by what stands in it.
pub proof fn law_frames_are_searched_for_text<'a>(
    f: &'a Frame,
    t: Option<&'a str>,
    needle: &str,
    mentions: bool,
    wait: &WaitForText,
    got: Option<Frame>,
    ends: bool,
)
    ensures
        call_ensures(frame_text, (f,), t) ==> match *f {
            Frame::Log { message, .. } => t matches Some(s) && s@ == message@,
            Frame::Print { text } => t matches Some(s) && s@ == text@,
            _ => t is None,
        },
        call_ensures(frame_mentions, (f, needle), mentions) ==> mentions == says(*f, needle@),
        call_ensures(WaitForText::on_frame, (wait, got), ends) ==> ends == (got matches Some(g)
            && says(g, wait.needle@)),
{
    law_frame_views_show_every_field(*f, MsgType::Hello);
    law_mentions_what_stands_in_the_text(f@, needle@);
    if let Some(s) = t {
        law_text_is_the_message(f@, s@);
    }
    law_text_is_the_message(f@, needle@);
    if let Some(g) = got {
        law_frame_views_show_every_field(g, MsgType::Hello);
        law_mentions_what_stands_in_the_text(g@, wait.needle@);
    } else {
        law_mentions_what_stands_in_the_text(f@, wait.needle@);
    }
}

/// [`to_frame`] gives every radio sample as it is, and the bare type where a radio message carries
/// none; it gives the bare type of a message that is not modelled.
pub proof fn law_messages_become_frames(
    t: MsgType,
    payload: Payload<'_>,
    protocol: &Protocol,
    f: Frame,
)
    requires
        call_ensures(to_frame, (t, payload, protocol), f),
    ensures
        t is RadioStat ==> match payload.stat {
            Some(s) => f == Frame::Stat(s),
            None => f matches Frame::Other(u) && u is RadioStat,
        },
        t is ShellCommand || t is ShellResponse || t is MgmtRequest || t is Unlisted ==> (
        f matches Frame::Other(u) && u@ == t@),
{
    law_frame_views_show_every_field(f, t);
    if let Frame::Other(u) = f {
        law_frame_views_show_every_field(f, u);
    }
    if t is RadioStat {
        if let Some(s) = payload.stat {
            law_every_radio_sample_arrives(payload, *protocol, s);
        } else {
            law_every_radio_sample_arrives(
                payload,
                *protocol,
                RadioStat::Channel { channel: 0, rssi: 0 },
            );
        }
    }
    if t is ShellCommand || t is ShellResponse || t is MgmtRequest || t is Unlisted {
        law_unmodelled_types_arrive_bare(t@, payload, *protocol);
    }
}

/// [`to_frame`] gives the frame whose encoding the payload begins with, under the type that has
/// this encoding.
pub proof fn law_encoded_messages_become_their_frames(
    t: MsgType,
    payload: Payload<'_>,
    protocol: &Protocol,
    f: Frame,
    frame: FrameView,
    schema: Schema,
    encoded: Seq<u8>,
    after: Seq<u8>,
)
    requires
        call_ensures(to_frame, (t, payload, protocol), f),
        frame_payload(frame, *protocol) == Some((schema, encoded)),
        t@.schema() == Some(schema),
        payload.bytes@ == encoded + after,
        payload.bytes@.len() <= usize::MAX,
        distinct_levels(protocol.levels),
        frame matches FrameView::Event { fields, .. } ==> fields.len() <= protocol.event_fields,
    ensures
        f@ == frame,
{
    law_encoded_record_arrives(frame, schema, encoded, after, payload, *protocol);
}

/// [`ports_in`] and [`list_ports`] give the word of every line that looks like a device path, in
/// the order of the lines; a listing that did not run or failed gives none.
pub proof fn law_ports_are_listed(
    listed: Seq<ListedLine>,
    listing: &str,
    stdout: Vec<u8>,
    ports: Vec<String>,
)
    requires
        forall|i: int| 0 <= i < listed.len() ==> #[trigger] listed[i].valid(),
    ensures
        listing@ == printed(lines_of(listed)) && call_ensures(ports_in, (listing,), ports)
            ==> same_texts(ports@, paths_of(listed)),
        utf8_lossy(stdout@) == printed(lines_of(listed)) && call_ensures(
            list_ports,
            (DeviceListing::Ran { success: true, stdout },),
            ports,
        ) ==> same_texts(ports@, paths_of(listed)),
        call_ensures(list_ports, (DeviceListing::Ran { success: false, stdout },), ports)
            ==> ports@.len() == 0,
        call_ensures(list_ports, (DeviceListing::NotRun,), ports) ==> ports@.len() == 0,
{
    crate::laws::bench::lemma_printed_ports(listed);
    if utf8_lossy(stdout@) == printed(lines_of(listed)) {
        law_listing_shows_every_path(listed, stdout);
    }
    crate::laws::text::law_texts_are_in_order(ports@, Seq::empty());
    crate::laws::bench::law_listing_is_read_line_by_line(stdout);
}

/// Whether strings hold these texts, one for each and in order.
pub open spec fn same_texts(strings: Seq<String>, texts: Seq<Seq<char>>) -> bool {
    strings.len() == texts.len() && forall|i: int|
        0 <= i < strings.len() ==> #[trigger] strings[i]@ == texts[i]
}

/// Whether `serial` is one of the ports.
pub open spec fn is_among(serial: Seq<char>, ports: Seq<String>) -> bool {
    exists|i: int| 0 <= i < ports.len() && #[trigger] ports[i]@ == serial
}

proof fn lemma_among(serial: Seq<char>, ports: Seq<String>)
    ensures
        is_among(serial, ports) <==> text::texts(ports).contains(serial),
{
    crate::laws::text::law_texts_are_in_order(ports, Seq::empty());
    if is_among(serial, ports) {
        let i = choose|i: int| 0 <= i < ports.len() && #[trigger] ports[i]@ == serial;
        assert(text::texts(ports)[i] == serial);
    }
    if text::texts(ports).contains(serial) {
        let i = choose|i: int| 0 <= i < text::texts(ports).len() && text::texts(ports)[i] == serial;
        assert(ports[i]@ == serial);
    }
}

/// [`Bench::resolve`] succeeds exactly if both boards are among the ports and differ, and
/// [`Bench::resolve_power`] exactly if the Dongle is and the two differ. A failure names the role
/// and the serial of each board that is missing.
pub proof fn law_benches_resolve_iff_boards_are_there(
    bench: &Bench,
    present: &Vec<String>,
    r: Result<(), String>,
    p: Result<(), String>,
)
    requires
        call_ensures(Bench::resolve, (bench, present), r),
        call_ensures(Bench::resolve_power, (bench, present), p),
    ensures
        r is Ok <==> is_among(bench.core.serial@, present@) && is_among(
            bench.dongle.serial@,
            present@,
        ) && bench.core.serial@ != bench.dongle.serial@,
        p is Ok <==> is_among(bench.dongle.serial@, present@) && bench.core.serial@
            != bench.dongle.serial@,
        !is_among(bench.core.serial@, present@) ==> (r matches Err(m) && stands_in(m@, "core"@)
            && stands_in(m@, bench.core.serial@)),
        !is_among(bench.dongle.serial@, present@) ==> (r matches Err(m) && stands_in(
            m@,
            "dongle"@,
        ) && stands_in(m@, bench.dongle.serial@)),
        !is_among(bench.dongle.serial@, present@) ==> (p matches Err(m) && stands_in(
            m@,
            "dongle"@,
        ) && stands_in(m@, bench.dongle.serial@)),
{
    let ports = text::texts(present@);
    lemma_among(bench.core.serial@, present@);
    lemma_among(bench.dongle.serial@, present@);
    law_resolves_iff_both_present(*bench, ports);
    law_power_tolerates_missing_core(*bench, ports);
    law_fault_names_missing_board(*bench, ports);
    if let Err(m) = r {
        law_contains_iff_put_together_from(m@, "core"@);
        law_contains_iff_put_together_from(m@, "dongle"@);
        law_contains_iff_put_together_from(m@, bench.core.serial@);
        law_contains_iff_put_together_from(m@, bench.dongle.serial@);
    }
    if let Err(m) = p {
        law_contains_iff_put_together_from(m@, "dongle"@);
        law_contains_iff_put_together_from(m@, bench.dongle.serial@);
    }
}

/// [`bench_or_fail`] gives the loaded bench itself, exactly if the listing names both boards and
/// they differ; [`bench_or_fail_power`] does so without the Core. What did not load stays as it
/// failed, and without a listing there is no bench.
pub proof fn law_bench_is_given_iff_it_resolves(
    loaded: Result<Bench, String>,
    listing: DeviceListing,
    r: Result<Bench, String>,
    p: Result<Bench, String>,
    ports: Vec<String>,
)
    requires
        call_ensures(bench_or_fail, (loaded, listing), r),
        call_ensures(bench_or_fail_power, (loaded, listing), p),
        call_ensures(list_ports, (listing,), ports),
    ensures
        match loaded {
            Err(e) => r == loaded && p == loaded,
            Ok(bench) => {
                let core = bench.core.serial@;
                let dongle = bench.dongle.serial@;
                &&& r == loaded <==> r is Ok
                &&& p == loaded <==> p is Ok
                &&& r is Ok <==> is_among(core, ports@) && is_among(dongle, ports@) && core
                    != dongle
                &&& p is Ok <==> is_among(dongle, ports@) && core != dongle
                &&& listing is NotRun ==> r is Err && p is Err
            },
        },
{
    if let Ok(bench) = loaded {
        let present = text::texts(ports@);
        lemma_among(bench.core.serial@, ports@);
        lemma_among(bench.dongle.serial@, ports@);
        law_resolves_iff_both_present(bench, present);
        law_power_tolerates_missing_core(bench, present);
        if listing is NotRun {
            law_no_listing_resolves_nothing(bench, listing);
        }
    }
}

/// [`Bench::load`] gives the decoded fixture itself, or names the file and the cause;
/// [`Bench::load_default`] does so for `hil.toml` in the directory.
pub proof fn law_fixture_is_loaded(
    path: &str,
    dir: &str,
    read: FixtureRead,
    r: Result<Bench, String>,
    d: Result<Bench, String>,
    at: String,
)
    requires
        call_ensures(Bench::load, (path, read), r),
        call_ensures(Bench::load_default, (dir, read), d),
        call_ensures(default_fixture_path, (dir,), at),
    ensures
        at@ == dir@ + "/hil.toml"@,
        match read {
            FixtureRead::Decoded(bench) => r == Ok::<Bench, String>(bench) && d == Ok::<
                Bench,
                String,
            >(bench),
            FixtureRead::Unreadable(e) => r matches Err(m) && m@ == "HIL: cannot read fixture "@
                + path@ + ": "@ + e@ && (d matches Err(n) && n@ == "HIL: cannot read fixture "@ + (
            dir@ + "/hil.toml"@) + ": "@ + e@),
            FixtureRead::Malformed(e) => r matches Err(m) && m@ == "HIL: bad fixture "@ + path@
                + ": "@ + e@ && (d matches Err(n) && n@ == "HIL: bad fixture "@ + (dir@
                + "/hil.toml"@) + ": "@ + e@),
        },
{
}

/// [`firmware_candidate`] prefers the configured directory, and [`firmware_dir`] gives the directory
/// itself exactly if it has a justfile; otherwise the message names it.
pub proof fn law_checkout_is_found<D>(
    configured: D,
    sibling: D,
    a: D,
    b: D,
    shown: &str,
    r: Result<D, String>,
    n: Result<D, String>,
)
    requires
        call_ensures(firmware_candidate::<D>, (Some(configured), sibling), a),
        call_ensures(firmware_candidate::<D>, (None, sibling), b),
        call_ensures(firmware_dir::<D>, (a, shown, true), r),
        call_ensures(firmware_dir::<D>, (a, shown, false), n),
    ensures
        a == configured,
        b == sibling,
        r == Ok::<D, String>(configured),
        n matches Err(m) && stands_in(m@, shown@) && stands_in(m@, "justfile"@) && stands_in(
            m@,
            "TOWER_FIRMWARE_DIR"@,
        ),
{
    crate::laws::bench::law_no_checkout_names_directory(shown@);
    if let Err(m) = n {
        law_contains_iff_put_together_from(m@, shown@);
        law_contains_iff_put_together_from(m@, "justfile"@);
        law_contains_iff_put_together_from(m@, "TOWER_FIRMWARE_DIR"@);
    }
}

/// Where the checkout is looked for, by which variable, and by which file it is known.
pub proof fn law_checkout_is_named(v: &'static str, s: &'static str, f: &'static str)
    ensures
        call_ensures(override_variable, (), v) ==> v@ == "TOWER_FIRMWARE_DIR"@,
        call_ensures(sibling_checkout, (), s) ==> s@ == "../firmware"@,
        call_ensures(build_file, (), f) ==> f@ == "justfile"@,
{
}

/// [`Console::open`] gives a console on the opened port, or names the port and the cause.
pub proof fn law_console_is_opened<P, D>(
    path: &str,
    attempt: OpenAttempt<P>,
    decoder: D,
    r: Result<Console<P, D>, String>,
    t: Console<P, D>,
)
    requires
        call_ensures(Console::<P, D>::open, (path, attempt, decoder), r),
        call_ensures(Console::<P, D>::for_test, (decoder,), t),
    ensures
        match attempt {
            OpenAttempt::Opened(port) => r matches Ok(c) && c@.port == Some(port) && c@.decoder
                == decoder && c@.last_seq is None && c@.seq_gaps == 0 && c@.tx_seq == 0,
            OpenAttempt::NotOpened(e) => r matches Err(m) && m@ == "HIL: open console "@ + path@
                + ": "@ + e@,
            OpenAttempt::NotShared(e) => r matches Err(m) && m@ == "HIL: clear TIOCEXCL on "@
                + path@ + ": "@ + e@,
        },
        t@.port is None && t@.decoder == decoder && t@.last_seq is None && t@.seq_gaps == 0
            && t@.tx_seq == 0,
{
}

/// [`Console::account_seq`] on two frames in a row, `lost` frames apart, adds the lost ones to what
/// [`Console::seq_gaps`] gives; the first of all adds nothing, and sending is not affected.
pub proof fn law_lost_frames_are_counted<P, D>(
    first: &mut Console<P, D>,
    second: &mut Console<P, D>,
    seq: u16,
    lost: nat,
    gaps: u32,
)
    requires
        lost < 0x1_0000,
        call_ensures(Console::<P, D>::account_seq, (first, seq), ()),
        *second == *final(first),
        call_ensures(
            Console::<P, D>::account_seq,
            (second, ((seq + lost + 1) % 0x1_0000) as u16),
            (),
        ),
        call_ensures(Console::<P, D>::seq_gaps, (final(second),), gaps),
    ensures
        old(first)@.last_seq is None ==> gaps == (if old(first)@.seq_gaps + lost
            <= 0xffff_ffff {
            old(first)@.seq_gaps + lost
        } else {
            0xffff_ffff
        }),
        old(first)@.last_seq == Some(seq) ==> gaps == (if old(first)@.seq_gaps + 0xffff + lost
            <= 0xffff_ffff {
            old(first)@.seq_gaps + 0xffff + lost
        } else {
            0xffff_ffff
        }),
        final(second)@.tx_seq == old(first)@.tx_seq,
        final(second)@.port == old(first)@.port,
        final(second)@.decoder == old(first)@.decoder,
{
}

/// [`Console::on_read`] gives a frame exactly for a message, whose number it accounts for, fails
/// exactly with the port, and otherwise changes nothing.
pub proof fn law_reads_are_taken<P, D>(
    c: &mut Console<P, D>,
    protocol: &Protocol,
    event: ReadEvent<'_>,
    r: Result<Option<Frame>, String>,
)
    requires
        call_ensures(Console::<P, D>::on_read, (c, protocol, event), r),
    ensures
        match event {
            ReadEvent::Message { msg_type, seq, payload } => {
                &&& r matches Ok(Some(f)) && f@ == message_frame(msg_type@, payload, *protocol)
                &&& final(c)@.last_seq == Some(seq)
                &&& old(c)@.last_seq is None ==> final(c)@.seq_gaps == old(c)@.seq_gaps
                &&& msg_type is RadioStat && payload.stat is Some ==> (r matches Ok(Some(f)) && f
                    == Frame::Stat(payload.stat->0))
            },
            ReadEvent::Failed(e) => (r matches Err(m) && m@ == "HIL: console read error: "@ + e@)
                && final(c)@ == old(c)@,
            _ => r == Ok::<Option<Frame>, String>(None) && final(c)@ == old(c)@,
        },
        final(c)@.port == old(c)@.port,
        final(c)@.decoder == old(c)@.decoder,
        final(c)@.tx_seq == old(c)@.tx_seq,
{
    if let ReadEvent::Message { msg_type, payload, .. } = event {
        if let Ok(Some(f)) = r {
            law_frame_views_show_every_field(f, msg_type);
            if let Some(s) = payload.stat {
                if msg_type is RadioStat {
                    law_every_radio_sample_arrives(payload, *protocol, s);
                }
            }
        }
    }
}

/// [`Console::send_shell`] and [`Console::mgmt_request`] give the message of their type with what
/// they were given, and [`Console::frame_sent`] says which step of writing failed.
pub proof fn law_requests_carry_what_is_asked<P, D, O>(
    c: &Console<P, D>,
    id: u16,
    line: &str,
    op: O,
    shell: (MsgType, ShellCommand<'_>),
    request: (MsgType, MgmtRequest<O>),
    outcome: WriteOutcome,
    r: Result<(), String>,
)
    requires
        call_ensures(Console::<P, D>::send_shell, (c, id, line), shell),
        call_ensures(Console::<P, D>::mgmt_request::<O>, (c, id, op), request),
        call_ensures(Console::<P, D>::frame_sent, (c, outcome), r),
    ensures
        shell.0 is ShellCommand && shell.1.cmd_id == id && shell.1.line@ == line@,
        request.0 is MgmtRequest && request.1.req_id == id && request.1.op == op,
        match outcome {
            WriteOutcome::Sent => r is Ok,
            WriteOutcome::NotWritten(e) => r matches Err(m) && m@ == "HIL: write: "@ + e@,
            WriteOutcome::NotFlushed(e) => r matches Err(m) && m@ == "HIL: flush: "@ + e@,
        },
{
    law_frame_views_show_every_field(Frame::Dropped { count: 0 }, shell.0);
    law_frame_views_show_every_field(Frame::Dropped { count: 0 }, request.0);
}

/// [`Console::reset_into_app`] gives the port away and [`Console::after_reset`] takes it back,
/// whatever came of the reset; in between there is none to give. Nothing else changes.
pub proof fn law_port_is_loaned_and_returned<P, D>(
    lent: &mut Console<P, D>,
    back: &mut Console<P, D>,
    port: P,
    outcome: Result<(), String>,
    r: Result<P, String>,
    o: Result<(), String>,
)
    requires
        call_ensures(Console::<P, D>::reset_into_app, (lent,), r),
        *back == *final(lent),
        call_ensures(Console::<P, D>::after_reset, (back, port, outcome), o),
    ensures
        match old(lent)@.port {
            Some(p) => r == Ok::<P, String>(p) && final(lent)@.port is None,
            None => (r matches Err(m) && m@ == "HIL: console handle already loaned"@)
                && final(lent)@ == old(lent)@,
        },
        old(lent)@.port == Some(port) ==> final(back)@ == old(lent)@,
        final(back)@.port == Some(port),
        final(back)@.seq_gaps == old(lent)@.seq_gaps,
        final(back)@.last_seq == old(lent)@.last_seq,
        final(back)@.tx_seq == old(lent)@.tx_seq,
        match outcome {
            Ok(_) => o is Ok,
            Err(e) => o matches Err(m) && m@ == "HIL: reset-into-app: "@ + e@,
        },
{
}

/// [`console::reset_into_app`] names the port and the step that failed.
pub proof fn law_reset_names_the_port(path: &str, outcome: ResetOutcome, r: Result<(), String>)
    requires
        call_ensures(console::reset_into_app, (path, outcome), r),
    ensures
        match outcome {
            ResetOutcome::Reset => r is Ok,
            ResetOutcome::NotOpened(e) => r matches Err(m) && m@ == "HIL: jolt open "@ + path@
                + ": "@ + e@,
            ResetOutcome::NotReset(e) => r matches Err(m) && m@ == "HIL: reset-into-app "@ + path@
                + ": "@ + e@,
        },
{
}

/// [`Console::resync`] drops the baseline and the decoder's contents, and keeps the count, the port
/// and the numbering of what is sent.
pub proof fn law_resync_keeps_the_count<P, D>(c: &mut Console<P, D>, decoder: D)
    requires
        call_ensures(Console::<P, D>::resync, (c, decoder), ()),
    ensures
        final(c)@.last_seq is None,
        final(c)@.decoder == decoder,
        final(c)@.seq_gaps == old(c)@.seq_gaps,
        final(c)@.port == old(c)@.port,
        final(c)@.tx_seq == old(c)@.tx_seq,
{
}

/// [`Console::next`], [`Console::collect_for`], [`Console::wait_for`] and
/// [`Console::wait_for_text`] end as long after they start as they are given; [`Console::next`]
/// needs the port.
pub proof fn law_operations_end_on_time<P, D>(
    c: &Console<P, D>,
    now: u128,
    length: u128,
    needle: &str,
    r: Result<Window, String>,
    collect: CollectFor,
    wait: WaitFor,
    search: WaitForText,
)
    requires
        now + length <= u128::MAX,
        call_ensures(Console::<P, D>::next, (c, now, length), r),
        call_ensures(Console::<P, D>::collect_for, (c, now, length), collect),
        call_ensures(Console::<P, D>::wait_for, (c, now, length), wait),
        call_ensures(Console::<P, D>::wait_for_text, (c, now, length, needle), search),
    ensures
        c@.port is Some ==> (r matches Ok(w) && w.deadline == now + length),
        c@.port is None ==> (r matches Err(m) && m@ == "HIL: console handle loaned out"@),
        collect@.deadline == now + length,
        collect@.frames.len() == 0,
        wait.window.deadline == now + length,
        search.wait.window.deadline == now + length,
        search.needle@ == needle@,
{
}

/// A window is open exactly before its deadline, and the time left and every budget reach no
/// further than it.
pub proof fn law_windows_close_at_the_deadline(
    w: &Window,
    wait: &WaitFor,
    collect: &CollectFor,
    now: u128,
    cap: u128,
    open: bool,
    left: u128,
    capped: u128,
    waits: u128,
    collects: u128,
)
    requires
        call_ensures(Window::is_open, (w, now), open),
        call_ensures(Window::remaining, (w, now), left),
        call_ensures(Window::remaining_at_most, (w, now, cap), capped),
        call_ensures(WaitFor::budget, (wait, now), waits),
        call_ensures(CollectFor::budget, (collect, now), collects),
    ensures
        open <==> now < w.deadline,
        left == (if now < w.deadline {
            w.deadline - now
        } else {
            0
        }),
        capped == (if left <= cap {
            left
        } else {
            cap
        }),
        now >= wait.window.deadline ==> waits == 0,
        now < wait.window.deadline ==> waits == (if wait.window.deadline - now <= 500_000_000 {
            wait.window.deadline - now
        } else {
            500_000_000
        }),
        now >= collect@.deadline ==> collects == 0,
        now < collect@.deadline ==> collects == (if collect@.deadline - now <= 200_000_000 {
            collect@.deadline - now
        } else {
            200_000_000
        }),
{
}

/// [`WaitFor::on_frame`] gives what was read exactly if it was accepted; [`CollectFor::on_frame`]
/// adds it at the end, and [`CollectFor::finish`] gives all, in order.
pub proof fn law_frames_are_waited_for_and_collected(
    wait: &WaitFor,
    got: Option<Frame>,
    accepted: bool,
    r: Option<Frame>,
    c: &mut CollectFor,
    done: CollectFor,
    all: Vec<Frame>,
)
    requires
        call_ensures(WaitFor::on_frame, (wait, got, accepted), r),
        call_ensures(CollectFor::on_frame, (c, got), ()),
        call_ensures(CollectFor::finish, (done,), all),
    ensures
        accepted ==> r == got,
        !accepted ==> r is None,
        got matches Some(f) ==> final(c)@.frames == old(c)@.frames + seq![f@],
        got is None ==> final(c)@ == old(c)@,
        final(c)@.deadline == old(c)@.deadline,
        all@.len() == done@.frames.len(),
        forall|i: int| 0 <= i < all@.len() ==> (#[trigger] all@[i])@ == done@.frames[i],
{
    if let Some(f) = got {
        crate::laws::console::law_collection_takes_the_frame(old(c)@, f@);
    }
    crate::laws::frame::law_collected_views_are_in_order(all@);
}

/// [`MgmtRoundtrip::on_frame`] gathers the data of the chunks of its own reply, gives the reply with
/// the last, ignores every other frame, and gives up on silence, naming the request.
pub proof fn law_replies_are_gathered(
    m: MgmtRoundtrip,
    got: Option<Frame>,
    now: u128,
    r: MgmtStep,
    digits: Seq<char>,
)
    requires
        now + m@.timeout <= u128::MAX,
        writes_number(digits, m@.req_id as nat),
        call_ensures(MgmtRoundtrip::on_frame, (m, got, now), r),
    ensures
        match got {
            Some(Frame::Mgmt { req_id, result, last, data, .. }) if req_id == m@.req_id => {
                if last {
                    r matches MgmtStep::Reply { result: code, data: all } && code == result && all@
                        == m@.data + data@
                } else {
                    r matches MgmtStep::Wait(w) && w@.data == m@.data + data@ && w@.deadline == now
                        + m@.timeout && w@.req_id == m@.req_id && w@.timeout == m@.timeout
                }
            },
            Some(_) => r matches MgmtStep::Wait(w) && w@ == m@,
            None => r matches MgmtStep::NoReply(s) && s@ == "HIL: mgmt req "@ + (digits
                + " got no complete reply"@),
        },
{
    if let Some(f) = got {
        law_frame_views_show_every_field(f, MsgType::Hello);
    }
    crate::laws::console::law_unanswered_request_is_named(m@, digits, now);
}

/// An exchange starts with its request's number and without data, is open exactly before its
/// deadline, gives a read all the time that is left, and names its request when it expires.
pub proof fn law_exchanges_start_empty<P, D>(
    c: &Console<P, D>,
    req_id: u16,
    start: u128,
    timeout: u128,
    m: MgmtRoundtrip,
    now: u128,
    open: bool,
    left: u128,
    expired: String,
    digits: Seq<char>,
)
    requires
        start + timeout <= u128::MAX,
        writes_number(digits, req_id as nat),
        call_ensures(Console::<P, D>::mgmt_roundtrip, (c, req_id, start, timeout), m),
        call_ensures(MgmtRoundtrip::is_open, (&m, now), open),
        call_ensures(MgmtRoundtrip::budget, (&m, now), left),
        call_ensures(MgmtRoundtrip::expire, (&m,), expired),
    ensures
        m@.req_id == req_id,
        m@.timeout == timeout,
        m@.deadline == start + timeout,
        m@.data.len() == 0,
        open <==> now < start + timeout,
        left == (if now < start + timeout {
            start + timeout - now
        } else {
            0
        }),
        expired@ == "HIL: mgmt req "@ + (digits + " got no complete reply"@),
{
    crate::laws::console::law_unanswered_request_is_named(m@, digits, now);
}

/// A wait and a collection are open exactly before their deadlines.
pub proof fn law_waits_close_at_the_deadline(
    wait: &WaitFor,
    collect: &CollectFor,
    now: u128,
    waiting: bool,
    collecting: bool,
)
    ensures
        call_ensures(WaitFor::is_open, (wait, now), waiting) ==> (waiting <==> now
            < wait.window.deadline),
        call_ensures(CollectFor::is_open, (collect, now), collecting) ==> (collecting <==> now
            < collect@.deadline),
{
}

/// [`Console::tx_seq`] and [`Console::seq_gaps`] give what the console counts.
pub proof fn law_counters_are_shown<P, D>(c: &Console<P, D>, tx: u16, gaps: u32)
    ensures
        call_ensures(Console::<P, D>::tx_seq, (c,), tx) ==> tx == c@.tx_seq,
        call_ensures(Console::<P, D>::seq_gaps, (c,), gaps) ==> gaps == c@.seq_gaps,
{
}

/// [`Console::send_frame`] uses a number up exactly if the frame was encoded, also where there is no
/// port, gives the bytes as they are, and names the type and the cause where it was not encoded.
pub proof fn law_encoded_frames_use_a_number<P, D>(
    c: &mut Console<P, D>,
    msg_type: &MsgType,
    encoded: Result<Vec<u8>, String>,
    r: Result<(&mut P, Vec<u8>), String>,
)
    requires
        call_ensures(Console::<P, D>::send_frame, (c, msg_type, encoded), r),
    ensures
        match encoded {
            Ok(bytes) => {
                &&& final(c)@.tx_seq == (old(c)@.tx_seq + 1) % 0x1_0000
                &&& r is Ok <==> old(c)@.port is Some
                &&& r matches Ok((p, b)) ==> b == bytes && old(c)@.port == Some(*p)
                &&& r matches Err(m) ==> m@ == "HIL: console handle loaned out"@
            },
            Err(e) => final(c)@ == old(c)@ && (r matches Err(m) && m@ == "HIL: encode "@
                + msg_type@.name() + ": "@ + e@),
        },
        final(c)@.seq_gaps == old(c)@.seq_gaps,
        final(c)@.last_seq == old(c)@.last_seq,
        final(c)@.decoder == old(c)@.decoder,
{
}

/// [`own_frame`] gives the bare type where there is no record.
pub proof fn law_undecoded_messages_stay_bare(t: MsgType, f: Frame)
    requires
        call_ensures(own_frame, (t, None), f),
    ensures
        f matches Frame::Other(u) && u@ == t@,
{
    law_frame_views_show_every_field(f, t);
}

/// The commands of [`Ppk2::on`], [`Ppk2::cycle`], [`Ppk2::avg`] and [`Ppk2::off`]: each with its own
/// name, and with the number in decimal.
pub proof fn law_commands_are_sent_as_documented<S>(
    ppk2: &Ppk2<S>,
    number: u32,
    digits: Seq<char>,
    on: String,
    cycle: String,
    avg: String,
    off: String,
)
    requires
        writes_number(digits, number as nat),
        call_ensures(Ppk2::<S>::on, (ppk2, number), on),
        call_ensures(Ppk2::<S>::cycle, (ppk2, number), cycle),
        call_ensures(Ppk2::<S>::avg, (ppk2, number), avg),
        call_ensures(Ppk2::<S>::off, (ppk2,), off),
    ensures
        on@ == "{\"cmd\":\"on\",\"mv\":"@ + (digits + seq!['}']),
        cycle@ == "{\"cmd\":\"cycle\",\"mv\":"@ + (digits + seq!['}']),
        avg@ == "{\"cmd\":\"avg\",\"ms\":"@ + (digits + seq!['}']),
        off@ == "{\"cmd\":\"off\"}"@,
{
    law_commands_are_written_out(number, digits);
}

/// [`Ppk2::send`] gives the line that was read without the white space around it, and with all that
/// is within it; [`Ppk2::acknowledged`] takes any such line.
pub proof fn law_replies_are_given_whole<S>(
    ppk2: &Ppk2<S>,
    line: String,
    before: Seq<char>,
    reply: Seq<char>,
    after: Seq<char>,
    r: Result<String, String>,
    a: Result<(), String>,
)
    requires
        line@ == before + reply + after,
        line@.len() > 0,
        all_white(before),
        all_white(after),
        reply.len() > 0 ==> !white_space(reply[0]) && !white_space(reply.last()),
        call_ensures(Ppk2::<S>::send, (ppk2, Exchange::Line(line)), r),
        call_ensures(Ppk2::<S>::acknowledged, (ppk2, Exchange::Line(line)), a),
    ensures
        r matches Ok(s) && s@ == reply,
        a is Ok,
{
    law_reply_is_the_line_without_its_ends(line, before, reply, after);
}

/// The number of the documented reply, with any white space around the line, comes out of
/// [`Ppk2::send`] and [`parse_ua`] as it was written.
pub proof fn law_measured_number_is_read<'a, S>(
    ppk2: &Ppk2<S>,
    line: String,
    before: Seq<char>,
    number: Seq<char>,
    after: Seq<char>,
    r: Result<String, String>,
    reply: &'a str,
    n: Option<&'a str>,
)
    requires
        line@ == before + ("{\"ua\": "@ + number + "}"@) + after,
        all_white(before),
        all_white(after),
        all_numeric(number),
        number.len() > 0,
        call_ensures(Ppk2::<S>::send, (ppk2, Exchange::Line(line)), r),
        r matches Ok(s) ==> reply@ == s@,
        call_ensures(parse_ua, (reply,), n),
    ensures
        r is Ok,
        n matches Some(t) && t@ == number,
{
    law_number_survives_the_exchange(line, before, number, after);
}

/// [`parse_ua`] gives what follows the first colon after the first key, and white space, as far as
/// it can belong to a number.
pub proof fn law_number_follows_key_and_colon<'a>(
    reply: &'a str,
    before: Seq<char>,
    between: Seq<char>,
    space: Seq<char>,
    number: Seq<char>,
    after: Seq<char>,
    n: Option<&'a str>,
)
    requires
        reply@ == before + "\"ua\""@ + between + seq![':'] + space + number + after,
        first_key_after(reply@, before),
        no_colon(between),
        all_white(space),
        all_numeric(number),
        after.len() > 0 ==> !numeric(after[0]),
        number.len() == 0 && after.len() > 0 ==> !white_space(after[0]),
        call_ensures(parse_ua, (reply,), n),
    ensures
        n matches Some(t) && t@ == number,
{
    law_field_follows_key_and_colon(before, between, space, number, after);
}

/// A failed exchange is an error that says at which step and why, of [`Ppk2::send`] as of
/// [`Ppk2::acknowledged`]; an empty line is a closed pipe.
pub proof fn law_failed_exchanges_are_errors<S>(
    ppk2: &Ppk2<S>,
    exchange: Exchange,
    r: Result<String, String>,
    a: Result<(), String>,
)
    requires
        call_ensures(Ppk2::<S>::send, (ppk2, exchange), r),
        call_ensures(Ppk2::<S>::acknowledged, (ppk2, exchange), a),
    ensures
        match exchange {
            Exchange::NotWritten(e) => (r matches Err(m) && m@ == "HIL: ppk2d write: "@ + e@) && (
            a matches Err(m) && m@ == "HIL: ppk2d write: "@ + e@),
            Exchange::NotFlushed(e) => (r matches Err(m) && m@ == "HIL: ppk2d flush: "@ + e@) && (
            a matches Err(m) && m@ == "HIL: ppk2d flush: "@ + e@),
            Exchange::NotRead(e) => (r matches Err(m) && m@ == "HIL: ppk2d read: "@ + e@) && (
            a matches Err(m) && m@ == "HIL: ppk2d read: "@ + e@),
            Exchange::Line(line) => line@.len() == 0 ==> (r matches Err(m) && m@
                == "HIL: ppk2d closed the pipe"@) && (a matches Err(m) && m@
                == "HIL: ppk2d closed the pipe"@),
        },
{
}

/// [`Ppk2::avg_ua`] gives the reading itself, unless it is implausible or there is none; both are
/// errors, which name the reading and the reply. It does not look at which number it is.
pub proof fn law_plausible_reading_is_given<'a, S, N>(
    ppk2: &Ppk2<S>,
    reply: &'a str,
    reading: Reading<N>,
    n: Option<&'a str>,
    r: Result<N, String>,
)
    requires
        call_ensures(parse_ua, (reply,), n),
        call_ensures(Ppk2::<S>::avg_ua::<N>, (ppk2, reply, reading), r),
    ensures
        n is None || reading is Unparsed ==> (r matches Err(m) && m@
            == "HIL: ppk2d bad avg reply: "@ + reply@),
        n is Some ==> (reading matches Reading::Parsed { ua, above_max, rounded } ==> if above_max {
            r matches Err(m) && m@ == "HIL: PPK2 reading "@ + (rounded@ + (" µA > "@ + (seq![
                '5',
                '0',
                '0',
                '0',
                '0',
            ] + " µA — CDC desync (do not sample mid-flash); retry after the flash settles"@)))
        } else {
            r == Ok::<N, String>(ua)
        }),
{
    if let Reading::Parsed { rounded, .. } = reading {
        law_measurement_messages_are_put_together(reply@, rounded@);
    }
}

/// [`Ppk2::spawn`] gives a connection to the sidecar that was started, or says what is missing; its
/// script is in the directory.
pub proof fn law_sidecar_is_connected<S>(
    attempt: SpawnAttempt<S>,
    r: Result<Ppk2<S>, String>,
    dir: &str,
    script: String,
)
    requires
        call_ensures(Ppk2::<S>::spawn, (attempt,), r),
        call_ensures(script_path, (dir,), script),
    ensures
        script@ == dir@ + "/ppk2d.py"@,
        match attempt {
            SpawnAttempt::Spawned(sidecar) => r matches Ok(p) && p.sidecar == sidecar,
            SpawnAttempt::NotSpawned(e) => r matches Err(m) && m@ == "HIL: spawn ppk2d.py: "@ + e@,
            SpawnAttempt::NoStdin => r matches Err(m) && m@ == "HIL: ppk2d stdin unavailable"@,
            SpawnAttempt::NoStdout => r matches Err(m) && m@ == "HIL: ppk2d stdout unavailable"@,
        },
{
}

/// [`Ppk2::teardown`] begins with the command that cuts the supply, and [`Teardown::after`] goes on
/// to killing, to reaping and to the end, whatever came of each step.
pub proof fn law_teardown_goes_on_whatever_fails<S>(
    ppk2: &Ppk2<S>,
    outcome: Result<(), String>,
    cut: Teardown,
    kill: Teardown,
    reap: Teardown,
    done: Teardown,
)
    requires
        call_ensures(Ppk2::<S>::teardown, (ppk2,), cut),
        call_ensures(Teardown::after, (cut, outcome), kill),
        call_ensures(Teardown::after, (kill, outcome), reap),
        call_ensures(Teardown::after, (reap, outcome), done),
    ensures
        cut matches Teardown::Cut(command) && command@ == "{\"cmd\":\"off\"}"@,
        kill is Kill,
        reap is Reap,
        done is Done,
{
}

/// [`text::trim`] leaves the text between the white space, [`text::contains`] and
/// [`text::begins_with`] tell how a text is put together, and [`text::decimal_text`] writes a number.
pub proof fn law_text_is_cut_and_searched<'a>(
    s: &'a str,
    before: Seq<char>,
    middle: Seq<char>,
    after: Seq<char>,
    trimmed: &'a str,
    needle: &str,
    contains: bool,
    begins: bool,
    n: u32,
    written: String,
)
    requires
        all_white(before),
        all_white(after),
        middle.len() > 0 ==> !white_space(middle[0]) && !white_space(middle.last()),
        call_ensures(text::contains, (s, needle), contains),
        call_ensures(text::begins_with, (s, needle), begins),
        call_ensures(text::decimal_text, (n,), written),
    ensures
        s@ == before + middle + after && call_ensures(text::trim, (s,), trimmed) ==> trimmed@
            == middle,
        contains == stands_in(s@, needle@),
        begins <==> exists|rest: Seq<char>| s@ == #[trigger] (needle@ + rest),
        writes_number(written@, n as nat),
{
    law_trim_leaves_the_middle(before, middle, after);
    law_contains_iff_put_together_from(s@, needle@);
    law_starts_iff_continued(s@, needle@);
    law_decimal_writes_the_number(written@, n as nat);
}

} // verus!
