use tower_hil::console::{Console, ReadEvent};
use tower_hil::frame::{frame_mentions, frame_text, own_frame, to_frame, Frame};
use tower_hil::msg::{
    Dropped, Level, LevelCodes, MsgType, Payload, Protocol, RadioStat, Record, Schema,
};
use tower_hil::wire::{decode, event_record, log_record};

const PROTOCOL: Protocol = Protocol {
    levels: LevelCodes { error: 0, warn: 1, info: 2, debug: 3, trace: 4 },
    event_fields: 3,
};

fn bytes_only(bytes: &[u8]) -> Payload<'_> {
    Payload { bytes, stat: None }
}

/// Hands a message to the receive path of a console, and gives the number that the console
/// accounted for it and its frame.
fn receive(msg_type: MsgType, seq: u16, payload: Payload<'_>) -> (u16, Frame) {
    let mut console = Console::<(), ()>::for_test(());
    match console.on_read(&PROTOCOL, ReadEvent::Message { msg_type, seq, payload }) {
        Ok(Some(frame)) => (last_number(console), frame),
        other => panic!("no frame: {other:?}"),
    }
}

/// The number of the last frame that a console accounted for: a frame numbered 0 leaves a gap of
/// as many frames as lie between the two.
fn last_number(mut console: Console<(), ()>) -> u16 {
    let before = console.seq_gaps();
    console.account_seq(0);
    65_535 - u16::try_from(console.seq_gaps() - before).expect("one gap")
}

/// Encodes a record's fields and receives them.
fn decode_via_wire<T: serde::Serialize>(msg_type: MsgType, seq: u16, fields: &T) -> (u16, Frame) {
    let bytes = postcard::to_allocvec(fields).expect("encode");
    receive(msg_type, seq, bytes_only(&bytes))
}

#[test]
fn to_frame_maps_hello() {
    let (seq, frame) = decode_via_wire(
        MsgType::Hello,
        1,
        &(3u8, "blinky", "v0.1.0", 0xDEAD_BEEFu32),
    );
    assert_eq!(seq, 1, "seq is carried through decode");
    assert_eq!(
        frame,
        Frame::Hello {
            protocol_version: 3,
            firmware_name: "blinky".to_string(),
            firmware_version: "v0.1.0".to_string(),
            session_id: 0xDEAD_BEEF,
        }
    );
}

#[test]
fn to_frame_maps_log() {
    let (_, frame) =
        decode_via_wire(MsgType::Log, 2, &(1u32, 1_234_567u64, "radio", "carrier lost"));
    assert_eq!(
        frame,
        Frame::Log {
            level: Level::Warn,
            uptime_us: 1_234_567,
            module: "radio".to_string(),
            message: "carrier lost".to_string(),
        }
    );
}

#[test]
fn to_frame_maps_print() {
    let (_, frame) = decode_via_wire(MsgType::Print, 3, &"hello world");
    assert_eq!(frame, Frame::Print { text: "hello world".to_string() });
}

#[test]
fn to_frame_maps_event() {
    let mut fields = Vec::new();
    fields.push(("phase", "init"));
    fields.push(("rc", "0"));
    let (_, frame) = decode_via_wire(MsgType::Event, 4, &("boot", fields));
    assert_eq!(
        frame,
        Frame::Event {
            name: "boot".to_string(),
            fields: vec![
                ("phase".to_string(), "init".to_string()),
                ("rc".to_string(), "0".to_string())
            ],
        }
    );
}

#[test]
fn to_frame_maps_dropped() {
    let (_, frame) = decode_via_wire(MsgType::Dropped, 5, &42u32);
    assert_eq!(frame, Frame::Dropped { count: 42 });
}

#[test]
fn to_frame_maps_uplink() {
    let data: &[u8] = &[1, 2, 3, 4];
    let (_, frame) =
        decode_via_wire(MsgType::Uplink, 6, &(0x1122_3344u32, 7u32, -80i16, 12u8, data));
    assert_eq!(
        frame,
        Frame::Uplink { src: 0x1122_3344, counter: 7, rssi: -80, lqi: 12, data: vec![1, 2, 3, 4] }
    );
}

#[test]
fn to_frame_maps_mgmt_response() {
    let data: &[u8] = &[9, 8, 7];
    let (_, frame) = decode_via_wire(MsgType::MgmtResponse, 7, &(5u16, 0u8, 1u16, true, data));
    assert_eq!(
        frame,
        Frame::Mgmt { req_id: 5, result: 0, chunk: 1, last: true, data: vec![9, 8, 7] }
    );
}

#[test]
fn to_frame_maps_radio_stat() {
    let channel = RadioStat::Channel { channel: 4, rssi: -95 };
    let (_, ch) =
        receive(MsgType::RadioStat, 8, Payload { bytes: &[0, 4, 189, 1], stat: Some(channel) });
    assert_eq!(ch, Frame::Stat(RadioStat::Channel { channel: 4, rssi: -95 }));

    let tx = RadioStat::Tx { dest: 0x00AA_BB00, item: 3, outcome: 1, ack_rssi: Some(-70) };
    let (_, txf) = receive(MsgType::RadioStat, 9, Payload { bytes: &[1], stat: Some(tx) });
    assert_eq!(txf, Frame::Stat(tx));
}

#[test]
fn to_frame_unknown_type_and_truncated_fall_to_other() {
    let (seq_unknown, unknown) = decode_via_wire(MsgType::ShellResponse, 7, &());
    assert_eq!(unknown, Frame::Other(MsgType::ShellResponse));
    assert_eq!(seq_unknown, 7);

    let (seq_trunc, truncated) = decode_via_wire(MsgType::Hello, 8, &());
    assert_eq!(truncated, Frame::Other(MsgType::Hello));
    assert_eq!(seq_trunc, 8);

    let mut console = Console::<(), ()>::for_test(());
    console.account_seq(seq_unknown);
    console.account_seq(seq_trunc);
    assert_eq!(console.seq_gaps(), 0, "consecutive Other frames advance seq with no gap");
}

#[test]
fn empty_payloads_decode_to_nothing() {
    for schema in [
        Schema::Hello,
        Schema::Log,
        Schema::Print,
        Schema::Event,
        Schema::Dropped,
        Schema::Uplink,
        Schema::MgmtResponse,
        Schema::RadioStat,
    ] {
        assert!(decode(schema, bytes_only(&[]), &PROTOCOL).is_none(), "{schema:?}");
    }
}

#[test]
fn truncated_payloads_decode_to_nothing() {
    let whole = postcard::to_allocvec(&(5u16, 0u8, 1u16, true, vec![9u8, 8, 7])).expect("encode");
    for cut in 0..whole.len() {
        assert_eq!(
            to_frame(MsgType::MgmtResponse, bytes_only(&whole[..cut]), &PROTOCOL),
            Frame::Other(MsgType::MgmtResponse)
        );
    }
    assert_ne!(
        to_frame(MsgType::MgmtResponse, bytes_only(&whole), &PROTOCOL),
        Frame::Other(MsgType::MgmtResponse)
    );
}

#[test]
fn bytes_after_a_record_are_ignored() {
    assert_eq!(
        to_frame(MsgType::Dropped, bytes_only(&[7, 99, 99]), &PROTOCOL),
        Frame::Dropped { count: 7 }
    );
    // A text that is not UTF-8 does not decode.
    assert_eq!(
        to_frame(MsgType::Print, bytes_only(&[1, 0xff]), &PROTOCOL),
        Frame::Other(MsgType::Print)
    );
}

#[test]
fn levels_go_by_their_numbers() {
    let levels = [Level::Error, Level::Warn, Level::Info, Level::Debug, Level::Trace];
    for (code, expected) in levels.iter().enumerate() {
        let code = u32::try_from(code).expect("a small number");
        assert_eq!(PROTOCOL.levels.level_of(code), Some(*expected));
        match log_record((code, 9, "m", "t"), &PROTOCOL) {
            Some(Record::Log(l)) => {
                assert_eq!(l.level, *expected);
                assert_eq!((l.uptime_us, l.module, l.message), (9, "m", "t"));
            }
            other => panic!("{other:?}"),
        }
    }
    assert_eq!(PROTOCOL.levels.level_of(5), None);
    assert!(log_record((5, 9, "m", "t"), &PROTOCOL).is_none());
    let (_, frame) = decode_via_wire(MsgType::Log, 1, &(5u32, 9u64, "m", "t"));
    assert_eq!(frame, Frame::Other(MsgType::Log));
}

#[test]
fn events_have_a_limited_number_of_fields() {
    let three = vec![("a", "1"), ("b", "2"), ("c", "3")];
    match event_record(("boot", three.clone()), &PROTOCOL) {
        Some(Record::Event(e)) => {
            assert_eq!(e.name, "boot");
            assert_eq!(e.fields, three);
        }
        other => panic!("{other:?}"),
    }
    let mut four = three;
    four.push(("d", "4"));
    assert!(event_record(("boot", four.clone()), &PROTOCOL).is_none());
    let (_, frame) = decode_via_wire(MsgType::Event, 1, &("boot", four));
    assert_eq!(frame, Frame::Other(MsgType::Event));
}

#[test]
fn record_of_another_type_is_not_taken() {
    let frame = own_frame(MsgType::Log, Some(Record::Dropped(Dropped { count: 1 })));
    assert_eq!(frame, Frame::Other(MsgType::Log));
    let unlisted = MsgType::Unlisted("TimeSync".to_string());
    let frame = own_frame(unlisted.clone(), Some(Record::Dropped(Dropped { count: 1 })));
    assert_eq!(frame, Frame::Other(unlisted.clone()));
    assert_eq!(to_frame(unlisted.clone(), bytes_only(&[1]), &PROTOCOL), Frame::Other(unlisted));
    let frame = own_frame(MsgType::Dropped, Some(Record::Dropped(Dropped { count: 1 })));
    assert_eq!(frame, Frame::Dropped { count: 1 });
}

#[test]
fn schemas_and_names_of_message_types() {
    let cases = [
        (MsgType::Hello, "Hello", Some(Schema::Hello)),
        (MsgType::Log, "Log", Some(Schema::Log)),
        (MsgType::Print, "Print", Some(Schema::Print)),
        (MsgType::Event, "Event", Some(Schema::Event)),
        (MsgType::Dropped, "Dropped", Some(Schema::Dropped)),
        (MsgType::ShellCommand, "ShellCommand", None),
        (MsgType::ShellResponse, "ShellResponse", None),
        (MsgType::Uplink, "Uplink", Some(Schema::Uplink)),
        (MsgType::MgmtRequest, "MgmtRequest", None),
        (MsgType::MgmtResponse, "MgmtResponse", Some(Schema::MgmtResponse)),
        (MsgType::RadioStat, "RadioStat", Some(Schema::RadioStat)),
        (MsgType::Unlisted("TimeSync".to_string()), "TimeSync", None),
    ];
    for (msg_type, name, schema) in cases {
        assert_eq!(msg_type.name(), name);
        assert_eq!(msg_type.schema(), schema);
    }
}

#[test]
fn text_of_log_and_print_frames_only() {
    let log = Frame::Log {
        level: Level::Info,
        uptime_us: 1,
        module: "kat".to_string(),
        message: "*** ALL PASS ***".to_string(),
    };
    let print = Frame::Print { text: "tx cnt=5".to_string() };
    assert_eq!(frame_text(&log), Some("*** ALL PASS ***"));
    assert_eq!(frame_text(&print), Some("tx cnt=5"));
    assert_eq!(frame_text(&Frame::Dropped { count: 3 }), None);
    assert!(frame_mentions(&log, "ALL PASS"));
    assert!(frame_mentions(&print, ""));
    assert!(!frame_mentions(&log, "kat"));
    assert!(!frame_mentions(&Frame::Other(MsgType::Log), ""));
}

#[test]
fn counts_are_read_seven_bits_to_a_byte() {
    let cases: [(&[u8], u32); 7] = [
        (&[0], 0),
        (&[0x7f], 127),
        (&[0x80, 0x01], 128),
        (&[0xac, 0x02], 300),
        (&[0x80, 0x00], 0),
        (&[0xff, 0xff, 0xff, 0xff, 0x0f], u32::MAX),
        (&[0x80, 0x80, 0x80, 0x80, 0x08, 0xff], 0x8000_0000),
    ];
    for (bytes, count) in cases {
        assert_eq!(
            to_frame(MsgType::Dropped, bytes_only(bytes), &PROTOCOL),
            Frame::Dropped { count },
            "{bytes:?}"
        );
    }
    let refused: [&[u8]; 5] = [
        &[],
        &[0x80],
        &[0xff, 0xff, 0xff, 0xff],
        &[0xff, 0xff, 0xff, 0xff, 0x10],
        &[0x80, 0x80, 0x80, 0x80, 0x80, 0x00],
    ];
    for bytes in refused {
        assert_eq!(
            to_frame(MsgType::Dropped, bytes_only(bytes), &PROTOCOL),
            Frame::Other(MsgType::Dropped),
            "{bytes:?}"
        );
    }
}

#[test]
fn texts_are_a_length_and_that_many_bytes() {
    let print = |bytes: &[u8]| to_frame(MsgType::Print, bytes_only(bytes), &PROTOCOL);
    let hi = Frame::Print { text: "hi".to_string() };
    let other = Frame::Other(MsgType::Print);
    assert_eq!(print(&[2, b'h', b'i']), hi);
    assert_eq!(print(&[2, b'h', b'i', b'!']), hi);
    assert_eq!(print(&[0]), Frame::Print { text: String::new() });
    // The length may have zeros at its high end.
    assert_eq!(print(&[0x82, 0x80, 0x80, 0x80, 0x00, b'h', b'i']), hi);
    let ten = [0x82, 0x80, 0x80, 0x80, 0x80, 0x80, 0x80, 0x80, 0x80, 0x00, b'h', b'i'];
    assert_eq!(print(&ten), if usize::BITS == 64 { hi.clone() } else { other.clone() });
    let eleven = [0x82, 0x80, 0x80, 0x80, 0x80, 0x80, 0x80, 0x80, 0x80, 0x80, 0x00, b'h', b'i'];
    assert_eq!(print(&eleven), other);
    // There must be that many bytes.
    assert_eq!(print(&[3, b'h', b'i']), other);
    assert_eq!(print(&[0xff, 0xff, 0xff, 0xff, 0x0f, b'h', b'i']), other);
    // They must be valid UTF-8, and a character may take several.
    assert_eq!(print(&[2, 0xc2, 0xb5]), Frame::Print { text: "\u{b5}".to_string() });
    assert_eq!(print(&[1, 0xc2]), other);
    assert_eq!(print(&[2, 0xc0, 0x80]), other);
}

#[test]
fn numbers_must_fit_their_type() {
    let mgmt = |bytes: &[u8]| to_frame(MsgType::MgmtResponse, bytes_only(bytes), &PROTOCOL);
    let chunk = |req_id: u16, last: bool| Frame::Mgmt {
        req_id,
        result: 200,
        chunk: 2,
        last,
        data: vec![9],
    };
    let other = Frame::Other(MsgType::MgmtResponse);
    assert_eq!(mgmt(&[0xff, 0xff, 0x03, 200, 2, 1, 1, 9]), chunk(65_535, true));
    assert_eq!(mgmt(&[0xff, 0xff, 0x04, 200, 2, 1, 1, 9]), other);
    assert_eq!(mgmt(&[0x80, 0x80, 0x80, 0x00, 200, 2, 1, 1, 9]), other);
    assert_eq!(mgmt(&[5, 200, 2, 0, 1, 9]), chunk(5, false));
    // A truth value is 0 or 1.
    assert_eq!(mgmt(&[5, 200, 2, 2, 1, 9]), other);

    let log = |last: u8| {
        let mut bytes = vec![2];
        bytes.extend_from_slice(&[0xff; 9]);
        bytes.extend_from_slice(&[last, 0, 0]);
        to_frame(MsgType::Log, bytes_only(&bytes), &PROTOCOL)
    };
    assert_eq!(
        log(1),
        Frame::Log {
            level: Level::Info,
            uptime_us: u64::MAX,
            module: String::new(),
            message: String::new(),
        }
    );
    assert_eq!(log(2), Frame::Other(MsgType::Log));
}

#[test]
fn signed_numbers_alternate_around_zero() {
    let cases: [(&[u8], i16); 6] = [
        (&[0], 0),
        (&[1], -1),
        (&[2], 1),
        (&[0x9f, 0x01], -80),
        (&[0xfe, 0xff, 0x03], 32_767),
        (&[0xff, 0xff, 0x03], -32_768),
    ];
    for (written, rssi) in cases {
        let mut bytes = vec![7, 8];
        bytes.extend_from_slice(written);
        bytes.extend_from_slice(&[12, 2, 5, 6]);
        assert_eq!(
            to_frame(MsgType::Uplink, bytes_only(&bytes), &PROTOCOL),
            Frame::Uplink { src: 7, counter: 8, rssi, lqi: 12, data: vec![5, 6] }
        );
    }
}

#[test]
fn lists_are_a_length_and_that_many_pairs() {
    let event = |bytes: &[u8]| to_frame(MsgType::Event, bytes_only(bytes), &PROTOCOL);
    let other = Frame::Other(MsgType::Event);
    assert_eq!(
        event(&[1, b'n', 2, 1, b'a', 1, b'1', 1, b'b', 0]),
        Frame::Event {
            name: "n".to_string(),
            fields: vec![
                ("a".to_string(), "1".to_string()),
                ("b".to_string(), String::new()),
            ],
        }
    );
    assert_eq!(event(&[1, b'n', 0]), Frame::Event { name: "n".to_string(), fields: Vec::new() });
    assert_eq!(event(&[1, b'n']), other);
    assert_eq!(event(&[1, b'n', 2, 1, b'a', 1, b'1', 1, b'b']), other);
    assert_eq!(event(&[1, b'n', 0xff, 0xff, 0xff, 0xff, 0x0f, 1, b'a', 1, b'1']), other);
}
