use tower_hil::ppk2::{
    parse_ua, script_path, Exchange, Ppk2, Reading, SpawnAttempt, Teardown, PPK2_SANE_MAX_UA,
};

fn number(reply: &str) -> Option<f64> {
    parse_ua(reply).and_then(|n| n.parse::<f64>().ok())
}

#[test]
fn parse_ua_handles_various_shapes() {
    assert_eq!(number("{\"ua\": 42.5}"), Some(42.5));
    assert_eq!(number("{\"ua\":12}"), Some(12.0));
    assert_eq!(number("{\"other\":1,\"ua\": -3.0e1 }"), Some(-30.0));
    assert_eq!(number("{\"nope\": 1}"), None);
}

#[test]
fn number_text_is_cut_as_written() {
    assert_eq!(parse_ua("{\"ua\": 42.5}"), Some("42.5"));
    assert_eq!(parse_ua("{\"ua\" : \t -3.0e1 }"), Some("-3.0e1"));
    assert_eq!(parse_ua("{\"ua\": null}"), Some(""));
    assert_eq!(parse_ua("{\"ua\"}"), None);
    assert_eq!(parse_ua("\"ua\":7"), Some("7"));
    assert_eq!(parse_ua("\"ua\":"), Some(""));
    assert_eq!(number("{\"ua\": null}"), None);
}

#[test]
fn commands_are_lines_of_json() {
    let ppk2 = Ppk2 { sidecar: () };
    assert_eq!(ppk2.cycle(1800), "{\"cmd\":\"cycle\",\"mv\":1800}");
    assert_eq!(ppk2.on(0), "{\"cmd\":\"on\",\"mv\":0}");
    assert_eq!(ppk2.off(), "{\"cmd\":\"off\"}");
    assert_eq!(ppk2.avg(4_294_967_295), "{\"cmd\":\"avg\",\"ms\":4294967295}");
    assert_eq!(script_path("/hil"), "/hil/ppk2d.py");
}

#[test]
fn spawning_reports_what_is_missing() {
    let spawned = Ppk2::spawn(SpawnAttempt::Spawned(5u8)).expect("spawned");
    assert_eq!(spawned.sidecar, 5);
    let error = |attempt: SpawnAttempt<u8>| Ppk2::spawn(attempt).err();
    assert_eq!(
        error(SpawnAttempt::NotSpawned("not found".to_string())),
        Some("HIL: spawn ppk2d.py: not found".to_string())
    );
    assert_eq!(error(SpawnAttempt::NoStdin), Some("HIL: ppk2d stdin unavailable".to_string()));
    assert_eq!(error(SpawnAttempt::NoStdout), Some("HIL: ppk2d stdout unavailable".to_string()));
}

#[test]
fn replies_are_trimmed_and_failures_named() {
    let ppk2 = Ppk2 { sidecar: () };
    assert_eq!(ppk2.send(Exchange::Line(" {\"ok\":true}\r\n".to_string())), Ok("{\"ok\":true}".to_string()));
    assert_eq!(ppk2.send(Exchange::Line("\n".to_string())), Ok(String::new()));
    assert_eq!(
        ppk2.send(Exchange::Line(String::new())),
        Err("HIL: ppk2d closed the pipe".to_string())
    );
    assert_eq!(
        ppk2.send(Exchange::NotWritten("a".to_string())),
        Err("HIL: ppk2d write: a".to_string())
    );
    assert_eq!(
        ppk2.send(Exchange::NotFlushed("b".to_string())),
        Err("HIL: ppk2d flush: b".to_string())
    );
    assert_eq!(ppk2.send(Exchange::NotRead("c".to_string())), Err("HIL: ppk2d read: c".to_string()));
    assert_eq!(ppk2.acknowledged(Exchange::Line("whatever".to_string())), Ok(()));
    assert_eq!(
        ppk2.acknowledged(Exchange::Line(String::new())),
        Err("HIL: ppk2d closed the pipe".to_string())
    );
}

#[test]
fn implausible_reading_is_an_error() {
    let ppk2 = Ppk2 { sidecar: () };
    assert_eq!(PPK2_SANE_MAX_UA, 50_000);
    let parsed = |ua: f64| Reading::Parsed {
        ua,
        above_max: ua > f64::from(PPK2_SANE_MAX_UA),
        rounded: format!("{ua:.0}"),
    };
    assert_eq!(ppk2.avg_ua("{\"ua\": 14.5}", parsed(14.5)), Ok(14.5));
    assert_eq!(ppk2.avg_ua("{\"ua\": 50000}", parsed(50_000.0)), Ok(50_000.0));
    assert_eq!(
        ppk2.avg_ua("{\"ua\": 61234.4}", parsed(61_234.4)),
        Err("HIL: PPK2 reading 61234 µA > 50000 µA — CDC desync (do not sample mid-flash); retry after the flash settles".to_string())
    );
    assert_eq!(
        ppk2.avg_ua("{\"err\": 1}", Reading::<f64>::Unparsed),
        Err("HIL: ppk2d bad avg reply: {\"err\": 1}".to_string())
    );
    assert_eq!(
        ppk2.avg_ua("{\"err\": 1}", parsed(1.0)),
        Err("HIL: ppk2d bad avg reply: {\"err\": 1}".to_string())
    );
}

#[test]
fn giving_up_cuts_the_supply_and_reaps_whatever_fails() {
    for outcome in [Ok(()), Err("no answer".to_string())] {
        let ppk2 = Ppk2 { sidecar: () };
        let mut step = ppk2.teardown();
        let mut done = Vec::new();
        loop {
            done.push(match &step {
                Teardown::Cut(command) => command.clone(),
                Teardown::Kill => "kill".to_string(),
                Teardown::Reap => "wait".to_string(),
                Teardown::Done => break,
            });
            step = step.after(outcome.clone());
        }
        assert_eq!(done, vec!["{\"cmd\":\"off\"}", "kill", "wait"]);
    }
}
