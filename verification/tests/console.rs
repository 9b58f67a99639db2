use tower_hil::console::{
    reset_into_app, Console, OpenAttempt, ReadEvent, ResetOutcome, WriteOutcome, CONSOLE_BAUD,
    READ_POLL,
};
use tower_hil::frame::Frame;
use tower_hil::msg::{LevelCodes, MsgType, Payload, Protocol, RadioStat};
use tower_hil::window::{MgmtStep, COLLECT_SLICE, WAIT_SLICE};

const PROTOCOL: Protocol = Protocol {
    levels: LevelCodes { error: 0, warn: 1, info: 2, debug: 3, trace: 4 },
    event_fields: 8,
};

fn opened(port: u8) -> Console<u8, ()> {
    Console::open("/dev/ttyUSB0", OpenAttempt::Opened(port), ()).expect("an opened port")
}

fn mgmt(req_id: u16, result: u8, chunk: u16, last: bool, data: &[u8]) -> Option<Frame> {
    Some(Frame::Mgmt { req_id, result, chunk, last, data: data.to_vec() })
}

#[test]
fn seq_gap_accounting_uses_real_console() {
    let mut c = Console::<(), ()>::for_test(());
    for s in [10u16, 11, 12] {
        c.account_seq(s);
    }
    assert_eq!(c.seq_gaps(), 0, "contiguous frames = no gaps");
    c.account_seq(15); // skipped 13, 14
    assert_eq!(c.seq_gaps(), 2);
    c.account_seq(0); // u16 wrap from 15: skipped 16..=65535 (65520)
    assert_eq!(c.seq_gaps(), 2 + 65_535 - 15);

    // A lone first frame is a baseline, never a gap.
    let mut first = Console::<(), ()>::for_test(());
    first.account_seq(5);
    assert_eq!(first.seq_gaps(), 0);
}

#[test]
fn wrap_is_contiguous_and_duplicate_is_not() {
    let mut c = Console::<(), ()>::for_test(());
    c.account_seq(65_535);
    c.account_seq(0);
    assert_eq!(c.seq_gaps(), 0);
    c.account_seq(0);
    assert_eq!(c.seq_gaps(), 65_535);
}

#[test]
fn gap_counter_saturates() {
    let mut c = Console::<(), ()>::for_test(());
    for _ in 0..70_000u32 {
        c.account_seq(9);
    }
    assert_eq!(c.seq_gaps(), u32::MAX);
    c.account_seq(10);
    assert_eq!(c.seq_gaps(), u32::MAX);
}

#[test]
fn gaps_are_the_lost_frames() {
    // Sent 65530, 65531, ... ; the places 0, 1, 4, 9, 10 arrive, so 2, 3 and 5 to 8 are lost.
    let mut c = Console::<(), ()>::for_test(());
    for place in [0u16, 1, 4, 9, 10] {
        c.account_seq(65_530u16.wrapping_add(place));
    }
    assert_eq!(c.seq_gaps(), 6);
}

#[test]
fn resync_keeps_the_count_and_drops_the_baseline() {
    let mut c = Console::<(), ()>::for_test(());
    c.account_seq(1);
    c.account_seq(4);
    c.resync(());
    assert_eq!(c.seq_gaps(), 2);
    c.account_seq(500);
    assert_eq!(c.seq_gaps(), 2);
    c.account_seq(502);
    assert_eq!(c.seq_gaps(), 3);
}

#[test]
fn opening_names_the_port_and_the_cause() {
    let refused: Result<Console<u8, ()>, String> =
        Console::open("COM7", OpenAttempt::NotOpened("busy".to_string()), ());
    assert_eq!(refused.err(), Some("HIL: open console COM7: busy".to_string()));
    let exclusive: Result<Console<u8, ()>, String> =
        Console::open("COM7", OpenAttempt::NotShared("ioctl".to_string()), ());
    assert_eq!(exclusive.err(), Some("HIL: clear TIOCEXCL on COM7: ioctl".to_string()));
    let mut c = opened(7);
    assert_eq!(c.port_mut().map(|p| *p), Ok(7));
    assert_eq!(c.seq_gaps(), 0);
    assert_eq!(c.tx_seq(), 0);
    assert_eq!(CONSOLE_BAUD, 115_200);
    assert_eq!(READ_POLL, 50_000_000);
}

#[test]
fn only_encoded_frames_use_a_number() {
    let mut c = opened(1);
    let failed = c.send_frame(&MsgType::MgmtRequest, Err("too long".to_string())).map(|_| ());
    assert_eq!(failed, Err("HIL: encode MgmtRequest: too long".to_string()));
    assert_eq!(c.tx_seq(), 0);
    {
        let (port, bytes) =
            c.send_frame(&MsgType::ShellCommand, Ok(vec![1, 2, 0])).expect("port attached");
        assert_eq!(bytes, vec![1, 2, 0]);
        *port = 9;
    }
    assert_eq!(c.tx_seq(), 1);
    assert_eq!(c.port_mut().map(|p| *p), Ok(9));
    assert_eq!(c.seq_gaps(), 0);
}

#[test]
fn numbers_of_sent_frames_wrap() {
    let mut c = opened(1);
    for _ in 0..65_535u32 {
        assert!(c.send_frame(&MsgType::ShellCommand, Ok(Vec::new())).is_ok());
    }
    assert_eq!(c.tx_seq(), 65_535);
    assert!(c.send_frame(&MsgType::ShellCommand, Ok(Vec::new())).is_ok());
    assert_eq!(c.tx_seq(), 0);
}

#[test]
fn writing_reports_the_step_that_failed() {
    let c = opened(1);
    assert_eq!(c.frame_sent(WriteOutcome::Sent), Ok(()));
    assert_eq!(
        c.frame_sent(WriteOutcome::NotWritten("gone".to_string())),
        Err("HIL: write: gone".to_string())
    );
    assert_eq!(
        c.frame_sent(WriteOutcome::NotFlushed("gone".to_string())),
        Err("HIL: flush: gone".to_string())
    );
}

#[test]
fn shell_command_carries_its_line() {
    let c = opened(1);
    let (msg_type, command) = c.send_shell(10, "/button simulate 100");
    assert_eq!(msg_type, MsgType::ShellCommand);
    assert_eq!(command.cmd_id, 10);
    assert_eq!(command.line, "/button simulate 100");
}

#[test]
fn management_request_carries_its_number_and_operation() {
    let c = opened(1);
    let (msg_type, request) = c.mgmt_request(515, "describe");
    assert_eq!(msg_type, MsgType::MgmtRequest);
    assert_eq!(request.req_id, 515);
    assert_eq!(request.op, "describe");
}

#[test]
fn loaned_port_cannot_be_used_until_it_is_back() {
    let mut c = opened(4);
    c.account_seq(3);
    assert_eq!(c.reset_into_app(), Ok(4));
    assert_eq!(c.reset_into_app(), Err("HIL: console handle already loaned".to_string()));
    assert_eq!(
        c.port_mut().map(|p| *p),
        Err("HIL: console handle loaned out".to_string())
    );
    assert_eq!(
        c.next(5, 10).map(|w| w.deadline),
        Err("HIL: console handle loaned out".to_string())
    );
    // The frame is encoded, so its number is used up.
    assert_eq!(
        c.send_frame(&MsgType::ShellCommand, Ok(Vec::new())).map(|_| ()),
        Err("HIL: console handle loaned out".to_string())
    );
    assert_eq!(c.tx_seq(), 1);
    assert_eq!(
        c.after_reset(4, Err("no pulse".to_string())),
        Err("HIL: reset-into-app: no pulse".to_string())
    );
    assert_eq!(c.port_mut().map(|p| *p), Ok(4));
    assert_eq!(c.reset_into_app(), Ok(4));
    assert_eq!(c.after_reset(4, Ok(())), Ok(()));
    c.account_seq(4);
    assert_eq!(c.seq_gaps(), 0);
}

#[test]
fn standalone_reset_names_the_port() {
    assert_eq!(reset_into_app("COM3", ResetOutcome::Reset), Ok(()));
    assert_eq!(
        reset_into_app("COM3", ResetOutcome::NotOpened("busy".to_string())),
        Err("HIL: jolt open COM3: busy".to_string())
    );
    assert_eq!(
        reset_into_app("COM3", ResetOutcome::NotReset("line".to_string())),
        Err("HIL: reset-into-app COM3: line".to_string())
    );
}

#[test]
fn reads_without_a_message_leave_no_trace() {
    let mut c = opened(1);
    c.account_seq(7);
    for event in
        [ReadEvent::Nothing, ReadEvent::TimedOut, ReadEvent::Pending, ReadEvent::Corrupt]
    {
        assert_eq!(c.on_read(&PROTOCOL, event), Ok(None));
    }
    assert_eq!(
        c.on_read(&PROTOCOL, ReadEvent::Failed("unplugged".to_string())),
        Err("HIL: console read error: unplugged".to_string())
    );
    assert_eq!(
        c.on_read(
            &PROTOCOL,
            ReadEvent::Message {
                msg_type: MsgType::ShellResponse,
                seq: 8,
                payload: Payload { bytes: &[], stat: None },
            }
        ),
        Ok(Some(Frame::Other(MsgType::ShellResponse)))
    );
    assert_eq!(c.seq_gaps(), 0);
}

#[test]
fn reading_ends_at_the_deadline() {
    let c = opened(1);
    let window = c.next(100, 50).expect("port attached");
    assert!(window.is_open(149));
    assert!(!window.is_open(150));
    assert_eq!(window.remaining(120), 30);
    assert_eq!(window.remaining(151), 0);
}

#[test]
fn collecting_keeps_every_frame_in_order() {
    let c = opened(1);
    let mut run = c.collect_for(1_000, 500_000_000);
    assert!(run.is_open(1_000));
    assert_eq!(run.budget(1_000), COLLECT_SLICE);
    assert_eq!(run.budget(400_001_000), 100_000_000);
    run.on_frame(Some(Frame::Dropped { count: 1 }));
    run.on_frame(None);
    run.on_frame(Some(Frame::Dropped { count: 2 }));
    assert!(!run.is_open(500_001_000));
    assert_eq!(run.budget(500_001_000), 0);
    assert_eq!(run.finish(), vec![Frame::Dropped { count: 1 }, Frame::Dropped { count: 2 }]);
}

#[test]
fn waiting_takes_the_first_accepted_frame() {
    let c = opened(1);
    let wait = c.wait_for(0, 10_000_000_000);
    assert_eq!(wait.budget(0), WAIT_SLICE);
    assert_eq!(wait.budget(9_999_999_999), 1);
    assert!(wait.is_open(9_999_999_999));
    assert!(!wait.is_open(10_000_000_000));
    let stat = Frame::Stat(RadioStat::Channel { channel: 1, rssi: -90 });
    assert_eq!(wait.on_frame(None, true), None);
    assert_eq!(wait.on_frame(Some(stat.clone()), false), None);
    assert_eq!(wait.on_frame(Some(stat.clone()), true), Some(stat));
}

#[test]
fn waiting_for_text_looks_at_log_and_print_frames() {
    let c = opened(1);
    let wait = c.wait_for_text(0, 8_000_000_000, "ALL PASS");
    assert_eq!(wait.wait.window.deadline, 8_000_000_000);
    assert!(!wait.on_frame(None));
    assert!(!wait.on_frame(Some(Frame::Print { text: "ALL PAS".to_string() })));
    assert!(!wait.on_frame(Some(Frame::Event {
        name: "ALL PASS".to_string(),
        fields: Vec::new()
    })));
    assert!(wait.on_frame(Some(Frame::Print { text: "*** ALL PASS ***".to_string() })));
}

#[test]
fn reply_is_reassembled_from_its_chunks() {
    let c = opened(1);
    let run = c.mgmt_roundtrip(5, 1_000, 4_000);
    assert!(run.is_open(4_999));
    assert!(!run.is_open(5_000));
    assert_eq!(run.budget(2_000), 3_000);

    let run = match run.on_frame(mgmt(5, 7, 0, false, &[1, 2]), 2_000) {
        MgmtStep::Wait(run) => run,
        other => panic!("{other:?}"),
    };
    // The chunk starts the timeout anew.
    assert_eq!(run.budget(2_000), 4_000);
    // Another request's reply and other frames are ignored, and move no deadline.
    let run = match run.on_frame(mgmt(6, 0, 0, true, &[99]), 3_000) {
        MgmtStep::Wait(run) => run,
        other => panic!("{other:?}"),
    };
    let run = match run.on_frame(Some(Frame::Dropped { count: 1 }), 3_500) {
        MgmtStep::Wait(run) => run,
        other => panic!("{other:?}"),
    };
    assert_eq!(run.budget(2_000), 4_000);
    match run.on_frame(mgmt(5, 0, 1, true, &[3]), 4_000) {
        MgmtStep::Reply { result, data } => {
            assert_eq!(result, 0);
            assert_eq!(data, vec![1, 2, 3]);
        }
        other => panic!("{other:?}"),
    }
}

#[test]
fn silence_ends_an_exchange() {
    let c = opened(1);
    let run = c.mgmt_roundtrip(1_024, 0, 10);
    assert_eq!(run.expire(), "HIL: mgmt req 1024 got no complete reply");
    match run.on_frame(None, 5) {
        MgmtStep::NoReply(message) => {
            assert_eq!(message, "HIL: mgmt req 1024 got no complete reply")
        }
        other => panic!("{other:?}"),
    }
}
