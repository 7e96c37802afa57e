use hacklet::requests::{
    BootConfirmRequest, BootRequest, HandshakeRequest, LockRequest, SamplesRequest,
    ScheduleRequest, UnlockRequest, UpdateTimeRequest,
};
use hacklet::responses::{
    AckResponse, BootConfirmResponse, BootResponse, BroadcastResponse, HandshakeResponse,
    LockResponse, SampleReading, SamplesResponse, ScheduleResponse, UpdateTimeAckResponse,
    UpdateTimeResponse,
};
use hacklet::session::{Action, Operation, Outcome, Phase, Session, SessionError};
use hacklet::wire::DecodeError;

/// Bytes the stub transport hands back, and the clock reading at their arrival.
struct Stub {
    replies: Vec<(Vec<u8>, u64)>,
    next: usize,
}

impl Stub {
    fn new() -> Self {
        Stub { replies: Vec::new(), next: 0 }
    }

    fn push(&mut self, bytes: Vec<u8>, at_ms: u64) {
        self.replies.push((bytes, at_ms));
    }

    /// A whole frame delivered in two reads: its four head bytes, then the rest.
    fn push_split(&mut self, bytes: Vec<u8>, at_ms: u64) {
        self.replies.push((bytes[..4].to_vec(), at_ms));
        self.replies.push((bytes[4..].to_vec(), at_ms));
    }

    fn receive(&mut self, len: usize) -> (Vec<u8>, u64) {
        let (bytes, at) = self.replies[self.next].clone();
        assert_eq!(bytes.len(), len, "reply {} has the wrong length", self.next);
        self.next += 1;
        (bytes, at)
    }
}

/// Runs a session against the stub; returns the frames sent and the result.
fn run(op: Operation, stub: &mut Stub) -> (Vec<Vec<u8>>, Result<Outcome, SessionError>) {
    let (mut session, mut action) = Session::start(op);
    let mut sent = Vec::new();
    loop {
        let (reply, at) = match action {
            Action::Exchange { frame, reply_len } => {
                sent.push(frame);
                stub.receive(reply_len)
            }
            Action::Receive { len } => stub.receive(len),
            Action::Finish(result) => {
                assert_eq!(session.phase, Phase::Done);
                return (sent, result);
            }
        };
        action = session.step(&reply, at, 0x12345678);
    }
}

fn booted() -> Stub {
    let mut stub = Stub::new();
    stub.push(BootResponse::new(vec![0; 12], 0x0102030405060708, 0).as_bytes(), 0);
    stub.push(BootConfirmResponse::new().as_bytes(), 0);
    stub
}

fn lock_bytes() -> Vec<u8> {
    LockRequest::new().as_bytes()
}

fn switched_on(network_id: u16, channel_id: u16) -> Vec<u8> {
    let mut r = ScheduleRequest::new(network_id, channel_id);
    r.always_on();
    r.as_bytes()
}

#[test]
fn can_open_new_session() {
    let (session, action) = Session::start(Operation::Commission);
    assert_eq!(session.phase, Phase::Boot);
    match action {
        Action::Exchange { frame, reply_len } => {
            assert_eq!(frame, vec![0x02, 0x40, 0x04, 0x00, 0x44]);
            assert_eq!(reply_len, 27);
        }
        other => panic!("unexpected {:?}", other),
    }
}

#[test]
fn can_enable_socket() {
    let mut stub = booted();
    stub.push(LockResponse::new().as_bytes(), 0);
    stub.push(HandshakeResponse::new().as_bytes(), 0);
    stub.push(ScheduleResponse::new().as_bytes(), 0);
    let op = Operation::Switch { network_id: 0x0010, channel_id: 1, on: true };
    let (sent, result) = run(op, &mut stub);
    assert_eq!(
        sent,
        vec![
            BootRequest::new().as_bytes(),
            BootConfirmRequest::new().as_bytes(),
            lock_bytes(),
            HandshakeRequest::new(0x0010).as_bytes(),
            switched_on(0x0010, 1),
        ]
    );
    assert!(matches!(result, Ok(Outcome::Switched)));
}

#[test]
fn can_disable_socket() {
    let mut stub = booted();
    stub.push(LockResponse::new().as_bytes(), 0);
    stub.push(HandshakeResponse::new().as_bytes(), 0);
    stub.push(ScheduleResponse::new().as_bytes(), 0);
    let op = Operation::Switch { network_id: 0x0010, channel_id: 0, on: false };
    let (sent, result) = run(op, &mut stub);
    let mut off = ScheduleRequest::new(0x0010, 0);
    off.always_off();
    assert_eq!(sent[4], off.as_bytes());
    assert!(matches!(result, Ok(Outcome::Switched)));
}

#[test]
fn can_request_sample() {
    let mut stub = booted();
    stub.push(LockResponse::new().as_bytes(), 0);
    stub.push(HandshakeResponse::new().as_bytes(), 0);
    stub.push(AckResponse::new().as_bytes(), 0);
    let samples = SamplesResponse::new(18, 0x0010, 1, 0, 2, 0, 5, vec![0x0328, 0x042A]);
    stub.push_split(samples.as_bytes(), 0);
    let op = Operation::ReadSamples { network_id: 0x0010, channel_id: 1 };
    let (sent, result) = run(op, &mut stub);
    assert_eq!(sent[3], HandshakeRequest::new(0x0010).as_bytes());
    assert_eq!(sent[4], SamplesRequest::new(0x0010, 1).as_bytes());
    match result {
        Ok(Outcome::Samples(m)) => {
            assert_eq!(
                m.readings(),
                vec![
                    SampleReading { time: 3, wattage: 40 },
                    SampleReading { time: 4, wattage: 42 }
                ]
            );
            assert_eq!(m.sample_count, 2);
            assert_eq!(m.stored_sample_count, 5);
        }
        other => panic!("unexpected {:?}", other),
    }
}

#[test]
fn commission_without_device_waits_out_the_window() {
    let mut stub = booted();
    stub.push(LockResponse::new().as_bytes(), 1_000);
    // A frame that is not a broadcast arrives every second.
    for s in 1..=30u64 {
        stub.push_split(HandshakeResponse::new().as_bytes(), 1_000 + s * 1_000);
    }
    stub.push(LockResponse::new().as_bytes(), 31_500);
    let (sent, result) = run(Operation::Commission, &mut stub);
    // Every frame up to the one that came when the window closed was read.
    assert_eq!(stub.next, stub.replies.len());
    assert_eq!(
        sent,
        vec![
            BootRequest::new().as_bytes(),
            BootConfirmRequest::new().as_bytes(),
            UnlockRequest::new().as_bytes(),
            lock_bytes(),
        ]
    );
    assert!(matches!(result, Ok(Outcome::Commissioned { network_id: None, device_id: None })));
}

#[test]
fn commission_keeps_listening_just_before_deadline() {
    let mut session = Session {
        operation: Operation::Commission,
        phase: Phase::ListenHeader,
        listen_start_ms: 500,
        found: None,
        found_device: None,
        pending: None,
    };
    let frame = HandshakeResponse::new().as_bytes();
    let _ = session.step(&frame[..4], 30_499, 0);
    match session.step(&frame[4..], 30_499, 0) {
        Action::Receive { len: 4 } => {}
        other => panic!("unexpected {:?}", other),
    }
    let _ = session.step(&frame[..4], 30_500, 0);
    match session.step(&frame[4..], 30_500, 0) {
        Action::Exchange { frame, reply_len: 6 } => assert_eq!(frame, lock_bytes()),
        other => panic!("unexpected {:?}", other),
    }
    assert_eq!(session.phase, Phase::Relock);
}

#[test]
fn can_find_new_device() {
    let mut stub = booted();
    stub.push(LockResponse::new().as_bytes(), 0);
    stub.push_split(HandshakeResponse::new().as_bytes(), 1_000);
    stub.push_split(BroadcastResponse::new(0x0010, 0xAABBCCDD, 0).as_bytes(), 2_000);
    stub.push(UpdateTimeAckResponse::new().as_bytes(), 2_100);
    stub.push(UpdateTimeResponse::new(0x0010).as_bytes(), 2_200);
    stub.push(LockResponse::new().as_bytes(), 2_300);
    let (sent, result) = run(Operation::Commission, &mut stub);
    assert_eq!(
        sent,
        vec![
            BootRequest::new().as_bytes(),
            BootConfirmRequest::new().as_bytes(),
            UnlockRequest::new().as_bytes(),
            UpdateTimeRequest::new(0x0010, 0x12345678).as_bytes(),
            lock_bytes(),
        ]
    );
    assert!(matches!(result, Ok(Outcome::Commissioned { network_id: Some(0x0010), device_id: Some(0xAABBCCDD) })));
}

#[test]
fn corrupt_broadcast_still_relocks() {
    let mut stub = booted();
    stub.push(LockResponse::new().as_bytes(), 0);
    let mut bad = BroadcastResponse::new(0x0010, 1, 0).as_bytes();
    bad[7] ^= 0x01;
    stub.push_split(bad, 1_000);
    stub.push(LockResponse::new().as_bytes(), 1_100);
    let (sent, result) = run(Operation::Commission, &mut stub);
    assert_eq!(sent.last().unwrap(), &lock_bytes());
    assert_eq!(result.unwrap_err(), SessionError::Decode(DecodeError::ChecksumMismatch));
}

#[test]
fn unexpected_reply_ends_session() {
    let mut stub = booted();
    stub.push(HandshakeResponse::new().as_bytes(), 0);
    let op = Operation::Switch { network_id: 1, channel_id: 1, on: true };
    let (_, result) = run(op, &mut stub);
    assert_eq!(
        result.unwrap_err(),
        SessionError::UnexpectedResponse { expected: 0xA0F9, found: 0x4003 }
    );
}

#[test]
fn bad_boot_reply_ends_session() {
    let mut stub = Stub::new();
    let mut boot = BootResponse::new(vec![0; 12], 1, 2).as_bytes();
    boot[26] ^= 0xFF;
    stub.push(boot, 0);
    let (sent, result) = run(Operation::Commission, &mut stub);
    assert_eq!(sent.len(), 1);
    assert_eq!(result.unwrap_err(), SessionError::Decode(DecodeError::ChecksumMismatch));
}

#[test]
fn finished_session_stays_closed() {
    let mut stub = booted();
    stub.push(LockResponse::new().as_bytes(), 0);
    stub.push(HandshakeResponse::new().as_bytes(), 0);
    stub.push(ScheduleResponse::new().as_bytes(), 0);
    let (mut session, _) = Session::start(Operation::Switch { network_id: 1, channel_id: 1, on: true });
    for (bytes, at) in stub.replies.clone() {
        let _ = session.step(&bytes, at, 0);
    }
    assert_eq!(session.phase, Phase::Done);
    match session.step(&[], 0, 0) {
        Action::Finish(Err(SessionError::Closed)) => {}
        other => panic!("unexpected {:?}", other),
    }
}

#[test]
fn samples_frame_shorter_than_its_count_is_malformed() {
    let mut stub = booted();
    stub.push(LockResponse::new().as_bytes(), 0);
    stub.push(HandshakeResponse::new().as_bytes(), 0);
    stub.push(AckResponse::new().as_bytes(), 0);
    // The length byte announces one sample word fewer than the count says.
    let mut bytes = SamplesResponse::new(16, 0x0010, 1, 0, 2, 0, 5, vec![0x0328, 0x042A]).as_bytes();
    bytes.truncate(bytes.len() - 2);
    stub.push_split(bytes, 0);
    let op = Operation::ReadSamples { network_id: 0x0010, channel_id: 1 };
    let (_, result) = run(op, &mut stub);
    assert_eq!(result.unwrap_err(), SessionError::Malformed);
}

#[test]
fn samples_reply_of_another_kind_is_unexpected() {
    let mut stub = booted();
    stub.push(LockResponse::new().as_bytes(), 0);
    stub.push(HandshakeResponse::new().as_bytes(), 0);
    stub.push(AckResponse::new().as_bytes(), 0);
    let mut bytes = SamplesResponse::new(18, 0x0010, 1, 0, 2, 0, 5, vec![1, 2]).as_bytes();
    bytes[2] = 0xA5;
    let last = bytes.len() - 1;
    bytes[last] ^= 0xA4 ^ 0xA5;
    stub.push_split(bytes, 0);
    let op = Operation::ReadSamples { network_id: 0x0010, channel_id: 1 };
    let (_, result) = run(op, &mut stub);
    assert_eq!(
        result.unwrap_err(),
        SessionError::UnexpectedResponse { expected: 0x40A4, found: 0x40A5 }
    );
}
