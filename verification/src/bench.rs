//! The bench roster: which serial port is the Core, which is the Dongle, and whether both are
//! there.

use vstd::prelude::*;
use vstd::utf8::{decode_utf8, valid_utf8};

use crate::text;
use crate::text::{concat_text, failure, failure_text};

verus! {

/// The bench roster. Serial names re-enumerate between sessions, so the fixture is only the
/// starting guess: [`Bench::resolve`] checks it against the live roster.
#[derive(Debug, Clone)]
pub struct Bench {
    pub core: Board,
    pub dongle: Board,
    pub ppk2: Ppk2Config,
}

/// One board's fixture entry.
#[derive(Debug, Clone)]
pub struct Board {
    /// The serial device path, e.g. `/dev/cu.usbserial-2120`.
    pub serial: String,
}

/// Supply and measurement configuration of the PPK2.
#[derive(Debug, Clone)]
pub struct Ppk2Config {
    /// The source-measure voltage in millivolts.
    pub supply_mv: u32,
}

/// What came of reading a fixture file and decoding its TOML.
#[derive(Debug)]
pub enum FixtureRead {
    /// The file could not be read.
    Unreadable(String),
    /// The file's text is not a bench fixture.
    Malformed(String),
    Decoded(Bench),
}

/// What came of running `tower devices`.
#[derive(Debug)]
pub enum DeviceListing {
    /// The command could not be run.
    NotRun,
    /// The command ran: whether it succeeded, and what it printed.
    Ran { success: bool, stdout: Vec<u8> },
}

/// The fixture's place: `hil.toml` in the harness's own directory.
pub open spec fn default_fixture(manifest_dir: Seq<char>) -> Seq<char> {
    manifest_dir + "/hil.toml"@
}

/// Where the default fixture is.
pub fn default_fixture_path(manifest_dir: &str) -> (r: String)
    ensures
        r@ == default_fixture(manifest_dir@),
{
    concat_text(manifest_dir, "/hil.toml")
}

/// What bytes decode to as UTF-8, with U+FFFD in place of what is not.
pub uninterp spec fn utf8_lossy(bytes: Seq<u8>) -> Seq<char>;

/// Calls `String::from_utf8_lossy`. The result depends on the bytes alone, and valid UTF-8 decodes
/// to the characters it encodes. How many replacement characters stand for invalid bytes is left
/// to that function.
#[verifier::external_body]
fn from_utf8_lossy(bytes: &[u8]) -> (r: String)
    ensures
        r@ == utf8_lossy(bytes@),
        valid_utf8(bytes@) ==> r@ == decode_utf8(bytes@),
{
    String::from_utf8_lossy(bytes).into_owned()
}

/// Whether a word looks like a serial device path.
pub open spec fn device_like(word: Seq<char>) -> bool {
    ||| text::contains_text(word, "usbserial"@)
    ||| text::starts_with(word, "/dev/"@)
    ||| text::starts_with(word, "COM"@)
}

/// The device path that a line of a listing names: its first word, where that looks like one.
pub open spec fn line_port(line: Seq<char>) -> Option<Seq<char>> {
    match text::first_word(line) {
        Some(w) => if device_like(w) {
            Some(w)
        } else {
            None
        },
        None => None,
    }
}

/// The device paths that the lines of a listing name, in their order.
pub open spec fn line_ports(lines: Seq<Seq<char>>) -> Seq<Seq<char>>
    decreases lines.len(),
{
    if lines.len() == 0 {
        Seq::empty()
    } else {
        match line_port(lines.last()) {
            Some(w) => line_ports(lines.drop_last()).push(w),
            None => line_ports(lines.drop_last()),
        }
    }
}

/// The ports that a device listing shows: none where the command did not run or failed.
pub open spec fn listed_ports(listing: DeviceListing) -> Seq<Seq<char>> {
    match listing {
        DeviceListing::Ran { success, stdout } => if success {
            line_ports(text::lines(utf8_lossy(stdout@)))
        } else {
            Seq::empty()
        },
        DeviceListing::NotRun => Seq::empty(),
    }
}

/// The device path that a line of a listing names.
fn port_of_line(line: &str) -> (r: Option<&str>)
    ensures
        match r {
            Some(w) => line_port(line@) == Some(w@),
            None => line_port(line@) is None,
        },
{
    match text::cut_first_word(line) {
        Some(w) => if text::contains(w, "usbserial") || text::begins_with(w, "/dev/")
            || text::begins_with(w, "COM") {
            Some(w)
        } else {
            None
        },
        None => None,
    }
}

/// The ports in the text that `tower devices` prints: one device path per line, possibly followed
/// by a description.
pub fn ports_in(listing: &str) -> (r: Vec<String>)
    ensures
        text::texts(r@) == line_ports(text::lines(listing@)),
{
    let lines: Vec<&str> = text::split_lines(listing);
    let ghost all = text::lines(listing@);
    let mut r: Vec<String> = Vec::new();
    let mut i: usize = 0;
    assert(text::texts(r@) =~= Seq::empty());
    while i < lines.len()
        invariant
            i <= lines@.len(),
            text::slices(lines@) == all,
            text::texts(r@) == line_ports(all.take(i as int)),
        decreases lines@.len() - i,
    {
        let ghost before = text::texts(r@);
        assert(all.take(i + 1).drop_last() =~= all.take(i as int));
        assert(all[i as int] == lines@[i as int]@);
        match port_of_line(lines[i]) {
            Some(w) => {
                r.push(w.to_owned());
                assert(text::texts(r@) =~= before.push(w@));
            },
            None => {},
        }
        i = i + 1;
    }
    assert(all.take(i as int) =~= all);
    r
}

/// The live serial-port roster, out of a run of `tower devices`. It is empty where that did not
/// run or failed, which [`Bench::resolve`] reports as no port present.
pub fn list_ports(listing: DeviceListing) -> (r: Vec<String>)
    ensures
        text::texts(r@) == listed_ports(listing),
        listing matches DeviceListing::Ran { success, stdout } ==> (success && valid_utf8(stdout@)
            ==> text::texts(r@) == line_ports(text::lines(decode_utf8(stdout@)))),
{
    match listing {
        DeviceListing::Ran { success, stdout } if success => ports_in(
            from_utf8_lossy(stdout.as_slice()).as_str(),
        ),
        _ => {
            let r: Vec<String> = Vec::new();
            assert(text::texts(r@) =~= Seq::empty());
            r
        },
    }
}

/// The line that reports a missing board.
pub open spec fn missing_line(role: Seq<char>, serial: Seq<char>) -> Seq<char> {
    "  "@ + role + ": fixture serial "@ + serial + " not present"@
}

/// The line that reports a board, where its serial is not among the ports.
pub open spec fn missing(role: Seq<char>, serial: Seq<char>, present: Seq<Seq<char>>) -> Seq<
    Seq<char>,
> {
    if present.contains(serial) {
        Seq::empty()
    } else {
        seq![missing_line(role, serial)]
    }
}

/// The lines that list the ports.
pub open spec fn port_lines(present: Seq<Seq<char>>) -> Seq<Seq<char>> {
    Seq::new(present.len(), |i: int| "  "@ + present[i])
}

/// The listing of the ports that are there.
pub open spec fn port_block(present: Seq<Seq<char>>) -> Seq<char> {
    if present.len() == 0 {
        "  (none — is any board plugged in?)"@
    } else {
        text::joined(port_lines(present), "\n"@)
    }
}

/// The message of a roster of which boards are missing.
pub open spec fn mismatch_message(missing: Seq<Seq<char>>, present: Seq<Seq<char>>) -> Seq<char> {
    "HIL bench roster mismatch — re-resolve ports (they re-enumerate each session):\n"@
        + text::joined(missing, "\n"@) + "\nports present now:\n"@ + port_block(present)
        + "\nFix the serials in hil.toml (or `tower devices`), then re-run."@
}

/// The message of a roster that gives both boards one port.
pub open spec fn ambiguity_message(serial: Seq<char>) -> Seq<char> {
    "HIL bench roster ambiguous — core and dongle both name "@ + serial
        + "\nFix the serials in hil.toml (or `tower devices`), then re-run."@
}

/// Why a roster does not resolve: boards that are missing, or one port for both.
pub open spec fn roster_fault(
    absent: Seq<Seq<char>>,
    core: Seq<char>,
    dongle: Seq<char>,
    present: Seq<Seq<char>>,
) -> Option<Seq<char>> {
    if absent.len() > 0 {
        Some(mismatch_message(absent, present))
    } else if core == dongle {
        Some(ambiguity_message(core))
    } else {
        None
    }
}

impl Bench {
    /// Why the roster does not resolve against the ports that are there.
    pub open spec fn fault(self, present: Seq<Seq<char>>) -> Option<Seq<char>> {
        roster_fault(
            missing("core"@, self.core.serial@, present) + missing(
                "dongle"@,
                self.dongle.serial@,
                present,
            ),
            self.core.serial@,
            self.dongle.serial@,
            present,
        )
    }

    /// Why the roster does not resolve for a power measurement, for which the Core's port is
    /// unplugged.
    pub open spec fn power_fault(self, present: Seq<Seq<char>>) -> Option<Seq<char>> {
        roster_fault(
            missing("dongle"@, self.dongle.serial@, present),
            self.core.serial@,
            self.dongle.serial@,
            present,
        )
    }

    /// The fixture in the file `path`, out of what came of reading and decoding it.
    pub fn load(path: &str, read: FixtureRead) -> (r: Result<Bench, String>)
        ensures
            match read {
                FixtureRead::Unreadable(e) => r matches Err(m) && m@ == failure(
                    "HIL: cannot read fixture "@,
                    path@,
                    e@,
                ),
                FixtureRead::Malformed(e) => r matches Err(m) && m@ == failure(
                    "HIL: bad fixture "@,
                    path@,
                    e@,
                ),
                FixtureRead::Decoded(bench) => r == Ok::<Bench, String>(bench),
            },
    {
        match read {
            FixtureRead::Unreadable(e) => Err(
                failure_text("HIL: cannot read fixture ", path, e.as_str()),
            ),
            FixtureRead::Malformed(e) => Err(failure_text("HIL: bad fixture ", path, e.as_str())),
            FixtureRead::Decoded(bench) => Ok(bench),
        }
    }

    /// The fixture in [`default_fixture_path`], out of what came of reading and decoding it.
    pub fn load_default(manifest_dir: &str, read: FixtureRead) -> (r: Result<Bench, String>)
        ensures
            match read {
                FixtureRead::Unreadable(e) => r matches Err(m) && m@ == failure(
                    "HIL: cannot read fixture "@,
                    default_fixture(manifest_dir@),
                    e@,
                ),
                FixtureRead::Malformed(e) => r matches Err(m) && m@ == failure(
                    "HIL: bad fixture "@,
                    default_fixture(manifest_dir@),
                    e@,
                ),
                FixtureRead::Decoded(bench) => r == Ok::<Bench, String>(bench),
            },
    {
        Bench::load(default_fixture_path(manifest_dir).as_str(), read)
    }

    /// Checks both boards against the live port roster. A miss names the fixture serial and the
    /// ports that are there; a roster that gives both boards one port is ambiguous.
    pub fn resolve(&self, present: &Vec<String>) -> (r: Result<(), String>)
        ensures
            match r {
                Ok(_) => self.fault(text::texts(present@)) is None,
                Err(m) => self.fault(text::texts(present@)) == Some(m@),
            },
    {
        let mut absent: Vec<String> = Vec::new();
        assert(text::texts(absent@) =~= Seq::empty());
        report_missing(&mut absent, "core", &self.core, present);
        report_missing(&mut absent, "dongle", &self.dongle, present);
        assert(text::texts(absent@) =~= missing("core"@, self.core.serial@, text::texts(present@))
            + missing("dongle"@, self.dongle.serial@, text::texts(present@)));
        self.judge(&absent, present)
    }

    /// Checks the roster for a power measurement: as [`Bench::resolve`], but the Core's port may
    /// be missing, since it has to be unplugged.
    pub fn resolve_power(&self, present: &Vec<String>) -> (r: Result<(), String>)
        ensures
            match r {
                Ok(_) => self.power_fault(text::texts(present@)) is None,
                Err(m) => self.power_fault(text::texts(present@)) == Some(m@),
            },
    {
        let mut absent: Vec<String> = Vec::new();
        assert(text::texts(absent@) =~= Seq::empty());
        report_missing(&mut absent, "dongle", &self.dongle, present);
        assert(text::texts(absent@) =~= missing(
            "dongle"@,
            self.dongle.serial@,
            text::texts(present@),
        ));
        self.judge(&absent, present)
    }

    /// Judges the roster, given the reports of missing boards.
    fn judge(&self, absent: &Vec<String>, present: &Vec<String>) -> (r: Result<(), String>)
        ensures
            match r {
                Ok(_) => roster_fault(
                    text::texts(absent@),
                    self.core.serial@,
                    self.dongle.serial@,
                    text::texts(present@),
                ) is None,
                Err(m) => roster_fault(
                    text::texts(absent@),
                    self.core.serial@,
                    self.dongle.serial@,
                    text::texts(present@),
                ) == Some(m@),
            },
    {
        if absent.len() > 0 {
            let mut m: String =
                "HIL bench roster mismatch — re-resolve ports (they re-enumerate each session):\n".to_owned();
            m.append(text::join(absent, "\n").as_str());
            m.append("\nports present now:\n");
            m.append(port_block_text(present).as_str());
            m.append("\nFix the serials in hil.toml (or `tower devices`), then re-run.");
            Err(m)
        } else if self.core.serial == self.dongle.serial {
            let mut m: String = "HIL bench roster ambiguous — core and dongle both name ".to_owned();
            m.append(self.core.serial.as_str());
            m.append("\nFix the serials in hil.toml (or `tower devices`), then re-run.");
            Err(m)
        } else {
            Ok(())
        }
    }
}

/// Tests whether a port is in the roster.
fn is_present(serial: &String, present: &Vec<String>) -> (r: bool)
    ensures
        r == text::texts(present@).contains(serial@),
{
    let mut i: usize = 0;
    while i < present.len()
        invariant
            i <= present@.len(),
            forall|j: int| 0 <= j < i ==> #[trigger] text::texts(present@)[j] != serial@,
        decreases present@.len() - i,
    {
        if present[i] == *serial {
            assert(text::texts(present@)[i as int] == serial@);
            return true;
        }
        i = i + 1;
    }
    false
}

/// Adds the report on a board that is missing.
fn report_missing(reports: &mut Vec<String>, role: &str, board: &Board, present: &Vec<String>)
    ensures
        text::texts(final(reports)@) == text::texts(old(reports)@) + missing(
            role@,
            board.serial@,
            text::texts(present@),
        ),
{
    if !is_present(&board.serial, present) {
        let mut line: String = "  ".to_owned();
        line.append(role);
        line.append(": fixture serial ");
        line.append(board.serial.as_str());
        line.append(" not present");
        reports.push(line);
    }
    assert(text::texts(reports@) =~= text::texts(old(reports)@) + missing(
        role@,
        board.serial@,
        text::texts(present@),
    ));
}

/// Writes the listing of the ports that are there.
fn port_block_text(present: &Vec<String>) -> (r: String)
    ensures
        r@ == port_block(text::texts(present@)),
{
    if present.len() == 0 {
        return "  (none — is any board plugged in?)".to_owned();
    }
    let mut lines: Vec<String> = Vec::new();
    let mut i: usize = 0;
    while i < present.len()
        invariant
            i <= present@.len(),
            lines@.len() == i,
            forall|j: int| 0 <= j < i ==> #[trigger] lines@[j]@ == "  "@ + present@[j]@,
        decreases present@.len() - i,
    {
        let mut line: String = "  ".to_owned();
        line.append(present[i].as_str());
        lines.push(line);
        i = i + 1;
    }
    assert(text::texts(lines@) =~= port_lines(text::texts(present@)));
    text::join(&lines, "\n")
}

/// The bench, once it is loaded and both boards are there; why not, otherwise. Every bench test
/// starts with this, so that a missing board fails with the roster message and not with a serial
/// timeout later.
pub fn bench_or_fail(loaded: Result<Bench, String>, listing: DeviceListing) -> (r: Result<
    Bench,
    String,
>)
    ensures
        match loaded {
            Err(e) => r == Err::<Bench, String>(e),
            Ok(bench) => match bench.fault(listed_ports(listing)) {
                None => r == Ok::<Bench, String>(bench),
                Some(fault) => r matches Err(m) && m@ == fault,
            },
        },
{
    match loaded {
        Err(e) => Err(e),
        Ok(bench) => match bench.resolve(&list_ports(listing)) {
            Ok(_) => Ok(bench),
            Err(m) => Err(m),
        },
    }
}

/// The bench for a power measurement: as [`bench_or_fail`], but the Core's port may be missing.
pub fn bench_or_fail_power(loaded: Result<Bench, String>, listing: DeviceListing) -> (r: Result<
    Bench,
    String,
>)
    ensures
        match loaded {
            Err(e) => r == Err::<Bench, String>(e),
            Ok(bench) => match bench.power_fault(listed_ports(listing)) {
                None => r == Ok::<Bench, String>(bench),
                Some(fault) => r matches Err(m) && m@ == fault,
            },
        },
{
    match loaded {
        Err(e) => Err(e),
        Ok(bench) => match bench.resolve_power(&list_ports(listing)) {
            Ok(_) => Ok(bench),
            Err(m) => Err(m),
        },
    }
}

} // verus!
