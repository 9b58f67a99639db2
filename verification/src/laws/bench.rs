//! Laws of the roster, the fixture and the firmware checkout.

use vstd::prelude::*;

use crate::bench::{
    default_fixture, device_like, line_port, line_ports, listed_ports, mismatch_message, missing,
    missing_line, port_block, port_lines, utf8_lossy, Bench, DeviceListing,
};
use crate::firmware::no_checkout_message;
use crate::laws::ppk2::all_white;
use crate::laws::text::{
    all_solid, law_contains_iff_put_together_from, law_first_word_is_cut,
    law_join_separates, law_line_is_split_at_its_first_word, law_lines_are_cut_at_line_feeds,
    law_starts_iff_continued, one_line, without_return,
};
use crate::text::{
    contains_text, failure, first_word, joined, lemma_contains_part, lemma_contains_within,
    lemma_find_from, lemma_joined_contains, lines, white_space, CharClass,
};

verus! {

/// A roster resolves exactly if both boards are there and can be told apart.
pub proof fn law_resolves_iff_both_present(bench: Bench, present: Seq<Seq<char>>)
    ensures
        bench.fault(present) is None <==> (present.contains(bench.core.serial@)
            && present.contains(bench.dongle.serial@) && bench.core.serial@
            != bench.dongle.serial@),
{
}

/// For a power measurement it resolves exactly if the Dongle is there and the two can be told
/// apart: the Core may be missing. What resolves for any test resolves for a power measurement.
pub proof fn law_power_tolerates_missing_core(bench: Bench, present: Seq<Seq<char>>)
    ensures
        bench.power_fault(present) is None <==> (present.contains(bench.dongle.serial@)
            && bench.core.serial@ != bench.dongle.serial@),
        bench.fault(present) is None ==> bench.power_fault(present) is None,
{
}

/// The message of a mismatch names every missing board's report.
proof fn lemma_mismatch_contains_report(
    absent: Seq<Seq<char>>,
    present: Seq<Seq<char>>,
    i: int,
)
    requires
        0 <= i < absent.len(),
    ensures
        contains_text(mismatch_message(absent, present), absent[i]),
{
    let head = "HIL bench roster mismatch — re-resolve ports (they re-enumerate each session):\n"@;
    let reports = joined(absent, "\n"@);
    let tail = "\nports present now:\n"@ + port_block(present)
        + "\nFix the serials in hil.toml (or `tower devices`), then re-run."@;
    lemma_contains_part(head, reports, tail);
    assert(head + reports + tail =~= mismatch_message(absent, present));
    lemma_joined_contains(absent, "\n"@, i);
    lemma_contains_within(mismatch_message(absent, present), reports, absent[i]);
}

/// The report on a missing board names its role and its serial.
proof fn lemma_report_names_board(role: Seq<char>, serial: Seq<char>)
    ensures
        contains_text(missing_line(role, serial), role),
        contains_text(missing_line(role, serial), serial),
{
    let line = missing_line(role, serial);
    lemma_contains_part("  "@, role, ": fixture serial "@ + serial + " not present"@);
    assert("  "@ + role + (": fixture serial "@ + serial + " not present"@) =~= line);
    lemma_contains_part("  "@ + role + ": fixture serial "@, serial, " not present"@);
}

/// A roster with a missing board does not resolve, and the message names the board's role and the
/// serial that the fixture gives it.
pub proof fn law_fault_names_missing_board(bench: Bench, present: Seq<Seq<char>>)
    ensures
        !present.contains(bench.core.serial@) ==> (bench.fault(present) matches Some(m)
            && contains_text(m, "core"@) && contains_text(m, bench.core.serial@)),
        !present.contains(bench.dongle.serial@) ==> (bench.fault(present) matches Some(m)
            && contains_text(m, "dongle"@) && contains_text(m, bench.dongle.serial@)),
        !present.contains(bench.dongle.serial@) ==> (bench.power_fault(present) matches Some(m)
            && contains_text(m, "dongle"@) && contains_text(m, bench.dongle.serial@)),
{
    let core = bench.core.serial@;
    let dongle = bench.dongle.serial@;
    let absent = missing("core"@, core, present) + missing("dongle"@, dongle, present);
    if !present.contains(core) {
        let m = mismatch_message(absent, present);
        lemma_mismatch_contains_report(absent, present, 0);
        lemma_report_names_board("core"@, core);
        lemma_contains_within(m, missing_line("core"@, core), "core"@);
        lemma_contains_within(m, missing_line("core"@, core), core);
    }
    if !present.contains(dongle) {
        lemma_report_names_board("dongle"@, dongle);
        let m = mismatch_message(absent, present);
        lemma_mismatch_contains_report(absent, present, absent.len() - 1);
        lemma_contains_within(m, missing_line("dongle"@, dongle), "dongle"@);
        lemma_contains_within(m, missing_line("dongle"@, dongle), dongle);
        let alone = missing("dongle"@, dongle, present);
        let p = mismatch_message(alone, present);
        lemma_mismatch_contains_report(alone, present, 0);
        lemma_contains_within(p, missing_line("dongle"@, dongle), "dongle"@);
        lemma_contains_within(p, missing_line("dongle"@, dongle), dongle);
    }
}

/// The message of a mismatch shows every port that is there, or says that there is none.
pub proof fn law_mismatch_shows_present_ports(absent: Seq<Seq<char>>, present: Seq<Seq<char>>)
    ensures
        forall|i: int|
            0 <= i < present.len() ==> contains_text(
                mismatch_message(absent, present),
                #[trigger] present[i],
            ),
        present.len() == 0 ==> contains_text(
            mismatch_message(absent, present),
            "  (none — is any board plugged in?)"@,
        ),
{
    let m = mismatch_message(absent, present);
    let head =
        "HIL bench roster mismatch — re-resolve ports (they re-enumerate each session):\n"@
        + joined(absent, "\n"@) + "\nports present now:\n"@;
    let tail = "\nFix the serials in hil.toml (or `tower devices`), then re-run."@;
    lemma_contains_part(head, port_block(present), tail);
    assert(head + port_block(present) + tail =~= m);
    assert forall|i: int| 0 <= i < present.len() implies contains_text(
        m,
        #[trigger] present[i],
    ) by {
        let empty = Seq::<char>::empty();
        let line = port_lines(present)[i];
        lemma_joined_contains(port_lines(present), "\n"@, i);
        lemma_contains_within(m, port_block(present), line);
        lemma_contains_part("  "@, present[i], empty);
        assert("  "@ + present[i] + empty =~= line);
        lemma_contains_within(m, line, present[i]);
    }
}

/// Where `tower devices` did not run or failed, no port is there, and the roster does not resolve.
pub proof fn law_no_listing_resolves_nothing(bench: Bench, listing: DeviceListing)
    requires
        !(listing matches DeviceListing::Ran { success, .. } && success),
    ensures
        listed_ports(listing).len() == 0,
        bench.fault(listed_ports(listing)) is Some,
        bench.power_fault(listed_ports(listing)) is Some,
{
}

/// A port is in the roster exactly if a line of the listing names it.
pub proof fn law_port_listed_iff_a_line_names_it(lines: Seq<Seq<char>>, port: Seq<char>)
    ensures
        line_ports(lines).contains(port) <==> exists|i: int|
            0 <= i < lines.len() && line_port(#[trigger] lines[i]) == Some(port),
        line_ports(lines).len() <= lines.len(),
    decreases lines.len(),
{
    if lines.len() > 0 {
        let front = lines.drop_last();
        let last = lines.len() - 1;
        law_port_listed_iff_a_line_names_it(front, port);
        let rest = line_ports(front);
        if line_ports(lines).contains(port) {
            if rest.contains(port) {
                let i = choose|i: int|
                    0 <= i < front.len() && line_port(#[trigger] front[i]) == Some(port);
                assert(line_port(lines[i]) == Some(port));
            } else {
                let k = choose|k: int|
                    0 <= k < line_ports(lines).len() && line_ports(lines)[k] == port;
                if k < rest.len() {
                    assert(rest[k] == port);
                }
                assert(line_port(lines[last]) == Some(port));
            }
        }
        if exists|i: int| 0 <= i < lines.len() && line_port(#[trigger] lines[i]) == Some(port) {
            let i = choose|i: int|
                0 <= i < lines.len() && line_port(#[trigger] lines[i]) == Some(port);
            if i == last {
                assert(line_ports(lines)[line_ports(lines).len() - 1] == port);
            } else {
                assert(line_port(front[i]) == Some(port));
                let k = choose|k: int| 0 <= k < rest.len() && rest[k] == port;
                assert(line_ports(lines)[k] == port);
            }
        }
    }
}

/// What a line names looks like a device path, is not empty, and holds no white space.
pub proof fn law_line_names_one_device_word(line: Seq<char>)
    ensures
        line_port(line) matches Some(port) ==> device_like(port) && port.len() > 0 && forall|i: int|
            0 <= i < port.len() ==> !white_space(#[trigger] port[i]),
{
    if let Some(port) = line_port(line) {
        lemma_find_from(line, CharClass::Solid, 0);
        let start = crate::text::find_from(line, CharClass::Solid, 0);
        lemma_find_from(line, CharClass::White, start);
        assert(first_word(line) == Some(port));
        assert forall|i: int| 0 <= i < port.len() implies !white_space(#[trigger] port[i]) by {
            assert(port[i] == line[start + i]);
        }
    }
}

/// A failure message that names its subject holds the subject and the cause.
pub proof fn law_failure_names_subject_and_cause(
    head: Seq<char>,
    subject: Seq<char>,
    cause: Seq<char>,
)
    ensures
        contains_text(failure(head, subject, cause), subject),
        contains_text(failure(head, subject, cause), cause),
{
    let empty = Seq::<char>::empty();
    lemma_contains_part(head, subject, ": "@ + cause);
    assert(head + subject + (": "@ + cause) =~= failure(head, subject, cause));
    lemma_contains_part(head + subject + ": "@, cause, empty);
    assert(head + subject + ": "@ + cause + empty =~= failure(head, subject, cause));
}

/// The message for a directory without a checkout names the directory, the missing justfile and
/// the variable to set.
pub proof fn law_no_checkout_names_directory(dir: Seq<char>)
    ensures
        contains_text(no_checkout_message(dir), dir),
        contains_text(no_checkout_message(dir), "justfile"@),
        contains_text(no_checkout_message(dir), "TOWER_FIRMWARE_DIR"@),
{
    let message = no_checkout_message(dir);
    let head = "HIL: no tower-firmware checkout at "@;
    let layout =
        " is missing). The default is a `firmware` checkout next to this repo (the TOWER control-plane layout); set "@;
    let end = "=/path/to/tower-firmware for any other layout."@;
    let variable = "TOWER_FIRMWARE_DIR"@;
    let file = "justfile"@;
    lemma_contains_part(head, dir, " (its "@ + file + layout + variable + end);
    assert(head + dir + (" (its "@ + file + layout + variable + end) =~= message);
    lemma_contains_part(head + dir + " (its "@, file, layout + variable + end);
    assert(head + dir + " (its "@ + file + (layout + variable + end) =~= message);
    lemma_contains_part(head + dir + " (its "@ + file + layout, variable, end);
}

/// Whether `word` looks like a serial device path: it is `/dev/` and more, or `COM` and more, or
/// `usbserial` with anything around it.
pub open spec fn path_shaped(word: Seq<char>) -> bool {
    ||| exists|rest: Seq<char>| word == #[trigger] ("/dev/"@ + rest)
    ||| exists|rest: Seq<char>| word == #[trigger] ("COM"@ + rest)
    ||| exists|before: Seq<char>, after: Seq<char>|
        word == #[trigger] (before + "usbserial"@ + after)
}

proof fn lemma_device_like(word: Seq<char>)
    ensures
        device_like(word) <==> path_shaped(word),
{
    law_contains_iff_put_together_from(word, "usbserial"@);
    law_starts_iff_continued(word, "/dev/"@);
    law_starts_iff_continued(word, "COM"@);
}

/// A line names its first word exactly if that looks like a device path, whatever white space
/// stands before it and whatever description follows it.
pub proof fn law_line_names_its_path(space: Seq<char>, word: Seq<char>, rest: Seq<char>)
    requires
        all_white(space),
        all_solid(word),
        word.len() > 0,
        rest.len() > 0 ==> white_space(rest[0]),
    ensures
        line_port(space + word + rest) == (if path_shaped(word) {
            Some(word)
        } else {
            None
        }),
{
    law_first_word_is_cut(space, word, rest);
    lemma_device_like(word);
}

/// What a line names is its first word, and looks like a device path; a line of white space names
/// nothing.
pub proof fn law_named_path_is_the_first_word(line: Seq<char>)
    ensures
        line_port(line) matches Some(word) ==> path_shaped(word) && all_solid(word) && exists|
            space: Seq<char>,
            rest: Seq<char>,
        |
            line == #[trigger] (space + word + rest) && all_white(space) && (rest.len() > 0
                ==> white_space(rest[0])),
        all_white(line) ==> line_port(line) is None,
{
    law_line_is_split_at_its_first_word(line);
    if let Some(word) = line_port(line) {
        lemma_device_like(word);
    }
    if all_white(line) {
        crate::laws::text::law_no_word_iff_all_white(line);
    }
}

/// Every line whose first word is `/dev/` and any text without white space names that word; and so
/// with `COM`, and with any word that has `usbserial` in it.
pub proof fn law_every_device_path_is_named(
    space: Seq<char>,
    front: Seq<char>,
    tail: Seq<char>,
    rest: Seq<char>,
)
    requires
        all_white(space),
        all_solid(front),
        all_solid(tail),
        rest.len() > 0 ==> white_space(rest[0]),
    ensures
        line_port(space + ("/dev/"@ + tail) + rest) == Some(
            "/dev/"@ + tail,
        ),
        line_port(space + ("COM"@ + tail) + rest) == Some("COM"@ + tail),
        line_port(
            space + (front + "usbserial"@ + tail) + rest,
        ) == Some(front + "usbserial"@ + tail),
{
    reveal_strlit("usbserial");
    reveal_strlit("/dev/");
    reveal_strlit("COM");
    let dev = "/dev/"@ + tail;
    let com = "COM"@ + tail;
    let usb = front + "usbserial"@ + tail;
    assert forall|i: int| 0 <= i < dev.len() implies !white_space(#[trigger] dev[i]) by {
        if i >= 5 {
            assert(dev[i] == tail[i - 5]);
        }
    }
    assert forall|i: int| 0 <= i < com.len() implies !white_space(#[trigger] com[i]) by {
        if i >= 3 {
            assert(com[i] == tail[i - 3]);
        }
    }
    assert forall|i: int| 0 <= i < usb.len() implies !white_space(#[trigger] usb[i]) by {
        if i < front.len() {
            assert(usb[i] == front[i]);
        } else if i >= front.len() + 9 {
            assert(usb[i] == tail[i - front.len() - 9]);
        }
    }
    law_line_names_its_path(space, dev, rest);
    law_line_names_its_path(space, com, rest);
    law_line_names_its_path(space, usb, rest);
}

/// The ports of a listing are those of its lines, in their order: each line adds the port that it
/// names, and a line that names none adds none.
pub proof fn law_ports_are_listed_in_order(a: Seq<Seq<char>>, b: Seq<Seq<char>>, line: Seq<char>)
    ensures
        line_ports(a + b) == line_ports(a) + line_ports(b),
        line_ports(seq![line]) == (match line_port(line) {
            Some(port) => seq![port],
            None => Seq::empty(),
        }),
        line_ports(Seq::empty()) == Seq::<Seq<char>>::empty(),
    decreases b.len(),
{
    reveal_with_fuel(line_ports, 2);
    assert(seq![line].drop_last() =~= Seq::<Seq<char>>::empty());
    assert(Seq::<Seq<char>>::empty().push(line) =~= seq![line]);
    assert(line_ports(seq![line]) =~= (match line_port(line) {
        Some(port) => seq![port],
        None => Seq::empty(),
    }));
    if b.len() == 0 {
        assert(a + b =~= a);
        assert(line_ports(a) + line_ports(b) =~= line_ports(a));
    } else {
        law_ports_are_listed_in_order(a, b.drop_last(), line);
        assert((a + b).drop_last() =~= a + b.drop_last());
        assert((a + b).last() == b.last());
        assert(line_ports(a + b) =~= line_ports(a) + line_ports(b));
    }
}

/// What a command prints that prints these lines, each with its line feed.
pub open spec fn printed(lines: Seq<Seq<char>>) -> Seq<char>
    decreases lines.len(),
{
    if lines.len() == 0 {
        Seq::empty()
    } else {
        lines[0] + seq!['\n'] + printed(lines.drop_first())
    }
}

/// One line of a listing: white space, a word and a description, none of which holds a line feed.
pub struct ListedLine {
    pub space: Seq<char>,
    pub word: Seq<char>,
    pub rest: Seq<char>,
}

impl ListedLine {
    /// Whether the parts are what they are called.
    pub open spec fn valid(self) -> bool {
        &&& all_white(self.space)
        &&& all_solid(self.word)
        &&& self.word.len() > 0
        &&& self.rest.len() > 0 ==> white_space(self.rest[0])
        &&& one_line(self.space)
        &&& one_line(self.rest)
    }

    /// The line.
    pub open spec fn line(self) -> Seq<char> {
        self.space + self.word + self.rest
    }
}

/// The lines of a listing.
pub open spec fn lines_of(listed: Seq<ListedLine>) -> Seq<Seq<char>> {
    Seq::new(listed.len(), |i: int| listed[i].line())
}

/// The words that look like device paths, in order.
pub open spec fn paths_of(listed: Seq<ListedLine>) -> Seq<Seq<char>>
    decreases listed.len(),
{
    if listed.len() == 0 {
        Seq::empty()
    } else if path_shaped(listed[0].word) {
        seq![listed[0].word] + paths_of(listed.drop_first())
    } else {
        paths_of(listed.drop_first())
    }
}

pub proof fn lemma_printed_ports(listed: Seq<ListedLine>)
    requires
        forall|i: int| 0 <= i < listed.len() ==> #[trigger] listed[i].valid(),
    ensures
        line_ports(lines(printed(lines_of(listed)))) == paths_of(listed),
    decreases listed.len(),
{
    law_lines_are_cut_at_line_feeds(Seq::empty(), Seq::empty());
    if listed.len() > 0 {
        let l = listed[0];
        let line = l.line();
        let later = listed.drop_first();
        assert(l.valid());
        assert forall|i: int| 0 <= i < later.len() implies #[trigger] later[i].valid() by {
            assert(listed[i + 1].valid());
        }
        lemma_printed_ports(later);
        assert(lines_of(listed).drop_first() =~= lines_of(later));
        assert(one_line(line)) by {
            assert forall|i: int| 0 <= i < line.len() implies #[trigger] line[i] != '\n' by {
                if i < l.space.len() {
                    assert(line[i] == l.space[i]);
                } else if i < l.space.len() + l.word.len() {
                    assert(line[i] == l.word[i - l.space.len()]);
                    assert(white_space('\n'));
                } else {
                    assert(line[i] == l.rest[i - l.space.len() - l.word.len()]);
                }
            }
        }
        let rest = printed(lines_of(later));
        law_lines_are_cut_at_line_feeds(line, rest);
        let cut = without_return(line);
        assert(line_port(cut) == (if path_shaped(l.word) {
            Some(l.word)
        } else {
            None
        })) by {
            if line.last() == '\r' {
                if l.rest.len() == 0 {
                    assert(line.last() == l.word.last());
                    assert(white_space('\r'));
                }
                assert(cut =~= l.space + l.word + l.rest.drop_last());
                if l.rest.len() > 1 {
                    assert(l.rest.drop_last()[0] == l.rest[0]);
                }
                law_line_names_its_path(l.space, l.word, l.rest.drop_last());
            } else {
                law_line_names_its_path(l.space, l.word, l.rest);
            }
        }
        law_ports_are_listed_in_order(seq![cut], lines(rest), cut);
    } else {
        assert(line_ports(lines(Seq::empty())) =~= Seq::empty());
    }
}

/// A run of `tower devices` that succeeds shows every word that looks like a device path and stands
/// first in its line, in the order of the lines, and nothing else.
pub proof fn law_listing_shows_every_path(listed: Seq<ListedLine>, stdout: Vec<u8>)
    requires
        forall|i: int| 0 <= i < listed.len() ==> #[trigger] listed[i].valid(),
        utf8_lossy(stdout@) == printed(lines_of(listed)),
    ensures
        listed_ports(DeviceListing::Ran { success: true, stdout }) == paths_of(listed),
{
    lemma_printed_ports(listed);
}

/// What a listing shows is what its text shows, whatever the text.
pub proof fn law_listing_is_read_line_by_line(stdout: Vec<u8>)
    ensures
        listed_ports(DeviceListing::Ran { success: true, stdout }) == line_ports(
            lines(utf8_lossy(stdout@)),
        ),
        listed_ports(DeviceListing::Ran { success: false, stdout }) == Seq::<Seq<char>>::empty(),
        listed_ports(DeviceListing::NotRun) == Seq::<Seq<char>>::empty(),
{
}

/// The report on a board whose serial is not among the ports names the role and the serial; there
/// is none on a board that is there.
pub proof fn law_missing_board_is_reported(
    role: Seq<char>,
    serial: Seq<char>,
    present: Seq<Seq<char>>,
)
    ensures
        present.contains(serial) ==> missing(role, serial, present) == Seq::<Seq<char>>::empty(),
        !present.contains(serial) ==> missing(role, serial, present) == seq![
            "  "@ + (role + (": fixture serial "@ + (serial + " not present"@))),
        ],
{
    assert(missing_line(role, serial) =~= "  "@ + (role + (": fixture serial "@ + (serial
        + " not present"@))));
}

/// The message of a mismatch is the reports, each on a line of its own, and the ports that are
/// there, with the words around them and nothing else.
pub proof fn law_mismatch_is_put_together(absent: Seq<Seq<char>>, present: Seq<Seq<char>>)
    ensures
        mismatch_message(absent, present)
            == "HIL bench roster mismatch — re-resolve ports (they re-enumerate each session):\n"@
            + (joined(absent, "\n"@) + ("\nports present now:\n"@ + (port_block(present)
            + "\nFix the serials in hil.toml (or `tower devices`), then re-run."@))),
{
    assert(mismatch_message(absent, present)
        =~= "HIL bench roster mismatch — re-resolve ports (they re-enumerate each session):\n"@
        + (joined(absent, "\n"@) + ("\nports present now:\n"@ + (port_block(present)
        + "\nFix the serials in hil.toml (or `tower devices`), then re-run."@))));
}

/// The ports that are there are shown one to a line, each after two spaces, and in order.
pub proof fn law_ports_are_shown_line_by_line(
    a: Seq<Seq<char>>,
    b: Seq<Seq<char>>,
    port: Seq<char>,
)
    requires
        a.len() > 0,
        b.len() > 0,
    ensures
        port_block(a + b) == port_block(a) + "\n"@ + port_block(b),
        port_block(seq![port]) == "  "@ + port,
        port_block(Seq::empty()) == "  (none — is any board plugged in?)"@,
{
    assert(port_lines(a + b) =~= port_lines(a) + port_lines(b));
    law_join_separates(port_lines(a), port_lines(b), "  "@ + port, "\n"@);
    assert(port_lines(seq![port]) =~= seq!["  "@ + port]);
}

/// Why a roster does not resolve: the boards that are missing, the Core before the Dongle, or one
/// port for both. For a power measurement the Core is not asked for.
pub proof fn law_fault_says_why(bench: Bench, present: Seq<Seq<char>>)
    ensures
        ({
            let core = bench.core.serial@;
            let dongle = bench.dongle.serial@;
            let no_core = "  core: fixture serial "@ + core + " not present"@;
            let no_dongle = "  dongle: fixture serial "@ + dongle + " not present"@;
            let one_port = "HIL bench roster ambiguous — core and dongle both name "@ + core
                + "\nFix the serials in hil.toml (or `tower devices`), then re-run."@;
            &&& !present.contains(core) && !present.contains(dongle) ==> bench.fault(present)
                == Some(mismatch_message(seq![no_core, no_dongle], present))
            &&& !present.contains(core) && present.contains(dongle) ==> bench.fault(present)
                == Some(mismatch_message(seq![no_core], present))
            &&& present.contains(core) && !present.contains(dongle) ==> bench.fault(present)
                == Some(mismatch_message(seq![no_dongle], present))
            &&& present.contains(core) && present.contains(dongle) ==> bench.fault(present) == (
            if core == dongle {
                Some(one_port)
            } else {
                None
            })
            &&& !present.contains(dongle) ==> bench.power_fault(present) == Some(
                mismatch_message(seq![no_dongle], present),
            )
            &&& present.contains(dongle) ==> bench.power_fault(present) == (if core == dongle {
                Some(one_port)
            } else {
                None
            })
        }),
{
    let core = bench.core.serial@;
    let dongle = bench.dongle.serial@;
    reveal_strlit("  ");
    reveal_strlit("core");
    reveal_strlit("dongle");
    reveal_strlit(": fixture serial ");
    reveal_strlit("  core: fixture serial ");
    reveal_strlit("  dongle: fixture serial ");
    let no_core = "  core: fixture serial "@ + core + " not present"@;
    let no_dongle = "  dongle: fixture serial "@ + dongle + " not present"@;
    assert("  "@ + "core"@ + ": fixture serial "@ =~= "  core: fixture serial "@);
    assert("  "@ + "dongle"@ + ": fixture serial "@ =~= "  dongle: fixture serial "@);
    assert(missing_line("core"@, core) =~= no_core);
    assert(missing_line("dongle"@, dongle) =~= no_dongle);
    let empty = Seq::<Seq<char>>::empty();
    assert(seq![no_core] + seq![no_dongle] =~= seq![no_core, no_dongle]);
    assert(seq![no_core] + empty =~= seq![no_core]);
    assert(empty + seq![no_dongle] =~= seq![no_dongle]);
}

/// The default fixture is the file `hil.toml` in the directory.
pub proof fn law_default_fixture_is_in_the_directory(dir: Seq<char>)
    ensures
        default_fixture(dir) == dir + seq!['/', 'h', 'i', 'l', '.', 't', 'o', 'm', 'l'],
{
    reveal_strlit("/hil.toml");
    assert("/hil.toml"@ =~= seq!['/', 'h', 'i', 'l', '.', 't', 'o', 'm', 'l']);
}

/// The message for a directory without a checkout is the same for every directory but for the
/// directory's name, which it has in one place.
pub proof fn law_no_checkout_message_is_put_together(dir: Seq<char>)
    ensures
        no_checkout_message(dir) == "HIL: no tower-firmware checkout at "@ + (dir + (" (its "@ + (
        "justfile"@
            + (" is missing). The default is a `firmware` checkout next to this repo (the TOWER control-plane layout); set "@
            + ("TOWER_FIRMWARE_DIR"@ + "=/path/to/tower-firmware for any other layout."@))))),
{
    assert(no_checkout_message(dir) =~= "HIL: no tower-firmware checkout at "@ + (dir + (" (its "@
        + ("justfile"@
        + (" is missing). The default is a `firmware` checkout next to this repo (the TOWER control-plane layout); set "@
        + ("TOWER_FIRMWARE_DIR"@ + "=/path/to/tower-firmware for any other layout."@))))));
}

} // verus!
