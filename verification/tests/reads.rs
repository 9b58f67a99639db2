use tower_hil::console::{Console, OpenAttempt, ReadEvent};
use tower_hil::frame::Frame;
use tower_hil::msg::{LevelCodes, MsgType, Payload, Protocol};

const PROTOCOL: Protocol = Protocol {
    levels: LevelCodes { error: 0, warn: 1, info: 2, debug: 3, trace: 4 },
    event_fields: 8,
};

/// A decoder of frames that end in 0 and start with their number. One with less than two bytes is
/// corrupt; the rest of a frame is the payload of a print.
type Held = Vec<u8>;

/// What one read of the port gives.
#[derive(Clone, Copy)]
enum Read {
    Idle,
    Byte(u8),
    Broken,
}

/// One call of `next` that has time for `allowance` reads of what is left in `reads`.
fn next(
    console: &mut Console<(), Held>,
    reads: &mut Vec<Read>,
    allowance: usize,
) -> Result<Option<Frame>, String> {
    let window = console.next(0, allowance as u128)?;
    let mut now = 0;
    while window.is_open(now) && !reads.is_empty() {
        now += 1;
        let mut whole = None;
        let read = reads.remove(0);
        if let Read::Byte(b) = read {
            let held = console.decoder_mut();
            if b == 0 {
                whole = Some(std::mem::take(held));
            } else {
                held.push(b);
            }
        }
        let event = match (read, &whole) {
            (Read::Idle, _) => ReadEvent::TimedOut,
            (Read::Broken, _) => ReadEvent::Failed("unplugged".to_string()),
            (Read::Byte(_), None) => ReadEvent::Pending,
            (Read::Byte(_), Some(bytes)) if bytes.len() < 2 => ReadEvent::Corrupt,
            (Read::Byte(_), Some(bytes)) => ReadEvent::Message {
                msg_type: MsgType::Print,
                seq: u16::from(bytes[0]),
                payload: Payload { bytes: &bytes[1..], stat: None },
            },
        };
        if let Some(frame) = console.on_read(&PROTOCOL, event)? {
            return Ok(Some(frame));
        }
    }
    Ok(None)
}

fn console() -> Console<(), Held> {
    Console::open("/dev/ttyUSB0", OpenAttempt::Opened(()), Vec::new()).expect("an opened port")
}

fn bytes(bytes: &[u8]) -> Vec<Read> {
    bytes.iter().map(|b| Read::Byte(*b)).collect()
}

fn print(text: &str) -> Frame {
    Frame::Print { text: text.to_string() }
}

/// The wire form of three prints, numbered in turn.
const THREE: [u8; 13] = [1, 2, b'h', b'i', 0, 2, 1, b'x', 0, 3, 1, b'y', 0];

fn three() -> Vec<Frame> {
    vec![print("hi"), print("x"), print("y")]
}

#[test]
fn frames_are_given_whole_wherever_calls_cut_them() {
    for allowance in 1..15 {
        let mut c = console();
        let mut reads = bytes(&THREE);
        let mut frames = Vec::new();
        let mut timeouts = 0;
        while !reads.is_empty() {
            match next(&mut c, &mut reads, allowance).expect("no failed read") {
                Some(frame) => frames.push(frame),
                None => timeouts += 1,
            }
        }
        assert_eq!(frames, three(), "{allowance} reads to a call");
        assert_eq!(timeouts > 0, allowance < 5);
        assert_eq!(c.seq_gaps(), 0);
        assert!(c.decoder_mut().is_empty());
    }
}

#[test]
fn partial_frame_is_kept_for_the_next_call() {
    let mut c = console();
    assert_eq!(next(&mut c, &mut bytes(&THREE[..3]), 10), Ok(None));
    assert_eq!(*c.decoder_mut(), THREE[..3].to_vec());
    let mut left = bytes(&THREE[3..]);
    assert_eq!(next(&mut c, &mut left, 10), Ok(Some(print("hi"))));
    assert_eq!(left.len(), 8);
    assert_eq!(next(&mut c, &mut left, 10), Ok(Some(print("x"))));
}

#[test]
fn pauses_corrupt_frames_and_failures_lose_no_frame() {
    let mut reads = Vec::new();
    for b in THREE {
        reads.push(Read::Byte(b));
        reads.push(Read::Idle);
    }
    // A frame too short to be one, after the first print.
    reads.insert(10, Read::Byte(0));
    // The port fails within the second print.
    reads.insert(15, Read::Broken);
    let mut c = console();
    assert_eq!(next(&mut c, &mut reads, 100), Ok(Some(print("hi"))));
    assert_eq!(
        next(&mut c, &mut reads, 100),
        Err("HIL: console read error: unplugged".to_string())
    );
    assert_eq!(next(&mut c, &mut reads, 100), Ok(Some(print("x"))));
    assert_eq!(next(&mut c, &mut reads, 100), Ok(Some(print("y"))));
    assert_eq!(next(&mut c, &mut reads, 100), Ok(None));
    assert_eq!(c.seq_gaps(), 0);
}

#[test]
fn resync_discards_the_partial_frame() {
    let mut c = console();
    assert_eq!(next(&mut c, &mut bytes(&THREE[..5]), 10), Ok(Some(print("hi"))));
    assert_eq!(next(&mut c, &mut bytes(&[2, 1]), 10), Ok(None));
    c.resync(Vec::new());
    assert!(c.decoder_mut().is_empty());
    // Whole again from the next frame on, which is a baseline and no gap.
    assert_eq!(next(&mut c, &mut bytes(&[9, 1, b'z', 0]), 10), Ok(Some(print("z"))));
    assert_eq!(c.seq_gaps(), 0);
    assert_eq!(next(&mut c, &mut bytes(&[12, 1, b'z', 0]), 10), Ok(Some(print("z"))));
    assert_eq!(c.seq_gaps(), 2);
}

#[test]
fn waiting_gives_the_first_frame_that_is_accepted() {
    let mut c = console();
    let mut reads = bytes(&THREE);
    let wait = c.wait_for(0, 100);
    let mut seen = Vec::new();
    let mut given = None;
    while given.is_none() && !reads.is_empty() {
        let got = next(&mut c, &mut reads, 3).expect("no failed read");
        let accepted = match &got {
            Some(Frame::Print { text }) => text.len() == 1,
            _ => false,
        };
        seen.push(accepted);
        given = wait.on_frame(got, accepted);
    }
    assert_eq!(given, Some(print("x")));
    // No frame before it was accepted: a timeout, the first print, a timeout.
    assert_eq!(seen, vec![false, false, false, true]);

    let mut c = console();
    let mut reads = bytes(&THREE);
    let wait = c.wait_for_text(0, 100, "y");
    let mut answers = Vec::new();
    while !reads.is_empty() {
        answers.push(wait.on_frame(next(&mut c, &mut reads, 100).expect("no failed read")));
    }
    assert_eq!(answers, vec![false, false, true]);
}
