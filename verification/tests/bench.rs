use tower_hil::bench::{
    bench_or_fail, bench_or_fail_power, default_fixture_path, list_ports, ports_in, Bench, Board,
    DeviceListing, FixtureRead, Ppk2Config,
};
use tower_hil::firmware::{
    build_file, firmware_candidate, firmware_dir, override_variable, sibling_checkout,
};

fn bench(core: &str, dongle: &str) -> Bench {
    Bench {
        core: Board { serial: core.to_string() },
        dongle: Board { serial: dongle.to_string() },
        ppk2: Ppk2Config { supply_mv: 1800 },
    }
}

fn strings(texts: &[&str]) -> Vec<String> {
    texts.iter().map(|t| t.to_string()).collect()
}

fn printed(text: &str) -> DeviceListing {
    DeviceListing::Ran { success: true, stdout: text.as_bytes().to_vec() }
}

/// Decodes a fixture as its reader does: the serials are strings, the voltage is a number.
fn decode(text: &str) -> FixtureRead {
    let table: toml::Table = match toml::from_str(text) {
        Ok(table) => table,
        Err(e) => return FixtureRead::Malformed(e.to_string()),
    };
    let serial = |board: &str| table.get(board)?.get("serial")?.as_str().map(str::to_string);
    let supply = || table.get("ppk2")?.get("supply_mv")?.as_integer();
    match (serial("core"), serial("dongle"), supply()) {
        (Some(core), Some(dongle), Some(mv)) => FixtureRead::Decoded(Bench {
            core: Board { serial: core },
            dongle: Board { serial: dongle },
            ppk2: Ppk2Config { supply_mv: u32::try_from(mv).expect("a voltage") },
        }),
        _ => FixtureRead::Malformed("missing field".to_string()),
    }
}

#[test]
fn fixture_schema_parses() {
    let text = concat_fixture("/dev/ttyUSB0", "COM7");
    let bench = Bench::load("hil.toml", decode(&text)).expect("fixture schema must parse");
    assert_eq!(bench.core.serial, "/dev/ttyUSB0");
    assert_eq!(bench.dongle.serial, "COM7");
    assert_eq!(bench.ppk2.supply_mv, 1800);
}

fn concat_fixture(core: &str, dongle: &str) -> String {
    format!(
        "[core]\nserial = \"{core}\"\n[dongle]\nserial = \"{dongle}\"\n[ppk2]\nsupply_mv = 1800\n"
    )
}

#[test]
fn committed_fixture_loads() {
    let text = concat_fixture("/dev/cu.usbserial-2120", "/dev/cu.usbserial-110");
    let bench = Bench::load_default("/repo/hil", decode(&text)).expect("hil.toml must parse");
    assert!(!bench.core.serial.is_empty(), "core serial must be set");
    assert!(!bench.dongle.serial.is_empty(), "dongle serial must be set");
}

#[test]
fn fixture_errors_name_the_file() {
    assert_eq!(default_fixture_path("/repo/hil"), "/repo/hil/hil.toml");
    assert_eq!(
        Bench::load("a.toml", FixtureRead::Unreadable("no such file".to_string())).err(),
        Some("HIL: cannot read fixture a.toml: no such file".to_string())
    );
    assert_eq!(
        Bench::load_default("/h", FixtureRead::Unreadable("denied".to_string())).err(),
        Some("HIL: cannot read fixture /h/hil.toml: denied".to_string())
    );
    assert_eq!(
        Bench::load_default("/h", decode("[core]\n")).err(),
        Some("HIL: bad fixture /h/hil.toml: missing field".to_string())
    );
}

#[test]
fn listing_gives_the_device_paths() {
    let text = "/dev/cu.usbserial-2120  TOWER Core\r\n\n  COM7\tDongle\nno boards here\nusbserial-110\u{3000}x\nTTY0\nCOM";
    assert_eq!(
        ports_in(text),
        strings(&["/dev/cu.usbserial-2120", "COM7", "usbserial-110", "COM"])
    );
    assert_eq!(ports_in(""), strings(&[]));
    assert_eq!(ports_in("\n \n\t\n"), strings(&[]));
}

#[test]
fn live_roster_comes_from_a_successful_run() {
    assert_eq!(list_ports(DeviceListing::NotRun), strings(&[]));
    assert_eq!(
        list_ports(DeviceListing::Ran { success: false, stdout: b"COM7\n".to_vec() }),
        strings(&[])
    );
    assert_eq!(list_ports(printed("COM7\n/dev/ttyUSB0 x\n")), strings(&["COM7", "/dev/ttyUSB0"]));
}

#[test]
fn undecodable_output_is_read_with_replacements() {
    let stdout = vec![b'C', b'O', b'M', 0xff, b'1', b'\n'];
    assert_eq!(
        list_ports(DeviceListing::Ran { success: true, stdout }),
        strings(&["COM\u{fffd}1"])
    );
}

#[test]
fn roster_resolves_when_both_boards_are_there() {
    let b = bench("COM7", "/dev/ttyUSB0");
    assert_eq!(b.resolve(&strings(&["/dev/ttyUSB0", "COM1", "COM7"])), Ok(()));
}

#[test]
fn mismatch_names_missing_boards_and_present_ports() {
    let b = bench("COM7", "COM8");
    assert_eq!(
        b.resolve(&strings(&["COM1", "COM8"])),
        Err("HIL bench roster mismatch — re-resolve ports (they re-enumerate each session):\n  core: fixture serial COM7 not present\nports present now:\n  COM1\n  COM8\nFix the serials in hil.toml (or `tower devices`), then re-run.".to_string())
    );
    assert_eq!(
        b.resolve(&strings(&[])),
        Err("HIL bench roster mismatch — re-resolve ports (they re-enumerate each session):\n  core: fixture serial COM7 not present\n  dongle: fixture serial COM8 not present\nports present now:\n  (none — is any board plugged in?)\nFix the serials in hil.toml (or `tower devices`), then re-run.".to_string())
    );
}

#[test]
fn one_port_for_both_boards_is_ambiguous() {
    let b = bench("COM7", "COM7");
    let message = "HIL bench roster ambiguous — core and dongle both name COM7\nFix the serials in hil.toml (or `tower devices`), then re-run.".to_string();
    assert_eq!(b.resolve(&strings(&["COM7"])), Err(message.clone()));
    assert_eq!(b.resolve_power(&strings(&["COM7"])), Err(message));
}

#[test]
fn power_roster_tolerates_a_missing_core() {
    let b = bench("COM7", "COM8");
    assert_eq!(b.resolve_power(&strings(&["COM8"])), Ok(()));
    assert_eq!(b.resolve_power(&strings(&["COM7", "COM8"])), Ok(()));
    let message = b.resolve_power(&strings(&["COM7"])).expect_err("the dongle is missing");
    assert!(message.contains("dongle: fixture serial COM8 not present"));
    assert!(!message.contains("core:"));
}

#[test]
fn startup_gives_the_bench_or_the_reason() {
    let b = bench("COM7", "COM8");
    let got = bench_or_fail(Ok(b.clone()), printed("COM7\nCOM8\n")).expect("both boards");
    assert_eq!(got.core.serial, "COM7");
    assert_eq!(
        bench_or_fail(Err("HIL: bad fixture".to_string()), DeviceListing::NotRun).err(),
        Some("HIL: bad fixture".to_string())
    );
    let message = bench_or_fail(Ok(b.clone()), DeviceListing::NotRun).expect_err("no ports");
    assert!(message.contains("(none — is any board plugged in?)"));
    let got = bench_or_fail_power(Ok(b.clone()), printed("COM8\n")).expect("the dongle");
    assert_eq!(got.dongle.serial, "COM8");
    assert!(bench_or_fail_power(Ok(b), printed("COM7\n")).is_err());
    assert_eq!(
        bench_or_fail_power(Err("HIL: bad fixture".to_string()), DeviceListing::NotRun).err(),
        Some("HIL: bad fixture".to_string())
    );
}

#[test]
fn checkout_is_the_configured_directory_or_the_sibling() {
    assert_eq!(firmware_candidate(Some("/fw"), "/hil/../firmware"), "/fw");
    assert_eq!(firmware_candidate(None, "/hil/../firmware"), "/hil/../firmware");
    assert_eq!(sibling_checkout(), "../firmware");
    assert_eq!(build_file(), "justfile");
    assert_eq!(override_variable(), "TOWER_FIRMWARE_DIR");
}

#[test]
fn directory_without_a_justfile_is_no_checkout() {
    assert_eq!(firmware_dir(3u8, "/fw", true), Ok(3u8));
    assert_eq!(
        firmware_dir(3u8, "/fw", false),
        Err("HIL: no tower-firmware checkout at /fw (its justfile is missing). The default is a `firmware` checkout next to this repo (the TOWER control-plane layout); set TOWER_FIRMWARE_DIR=/path/to/tower-firmware for any other layout.".to_string())
    );
}
