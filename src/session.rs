//! The device session: which request goes out next, and what a reply means,
//! for one invocation against the dongle.
//!
//! The session does no I/O. [`Session::start`] and [`Session::step`] each hand
//! back an [`Action`]; whoever owns the transport performs it and feeds the
//! bytes that came back, with the time they came, into the next `step`.
use vstd::prelude::*;
use crate::catalog::{
    BOOT_CONFIRM_REQUEST, BOOT_CONFIRM_RESPONSE, BOOT_REQUEST, BOOT_RESPONSE, BROADCAST,
    HANDSHAKE_FLAGS, HANDSHAKE_REQUEST, LOCK_MAGIC, LOCK_REQUEST, LOCK_RESPONSE, SAMPLES_FLAGS,
    SAMPLES_REQUEST, SAMPLES_RESPONSE, SCHEDULE_REQUEST, UNLOCK_MAGIC, UPDATE_TIME_REQUEST,
    UPDATE_TIME_RESPONSE,
};
use crate::requests::{
    canned_schedule, BootConfirmRequest, BootRequest, HandshakeRequest, LockRequest,
    SamplesRequest, ScheduleRequest, UnlockRequest, UpdateTimeRequest, ALWAYS_OFF_MARKER,
    ALWAYS_ON_MARKER,
};
use crate::responses::{
    samples_frame_len, BroadcastResponse, SamplesResponse, BOOT_CONFIRM_RESPONSE_LEN,
    BOOT_RESPONSE_LEN, BROADCAST_LEN, LOCK_RESPONSE_LEN, UPDATE_TIME_ACK_LEN,
    UPDATE_TIME_RESPONSE_LEN, HANDSHAKE_RESPONSE_LEN, ACK_RESPONSE_LEN, SCHEDULE_RESPONSE_LEN,
};
use crate::wire::{
    be16, be16_at, be32, be64_at, check_kind, kind_status, get_be16, le32, put_bytes, put_u8, xor_fold,
    DecodeError, FRAME_HEADER,
};

verus! {

/// How long commissioning listens for a device to announce itself.
pub const COMMISSION_WINDOW_MS: u64 = 30_000;

/// Length of the part of a frame read before its length is known: header,
/// command and payload length.
pub const FRAME_PEEK_LEN: usize = 4;

/// What the session was opened to do once the dongle has booted.
#[derive(Debug, Clone, Copy, PartialEq, Eq, Structural)]
pub enum Operation {
    /// Lock the network, select it and switch one socket on or off.
    Switch { network_id: u16, channel_id: u16, on: bool },
    /// Lock the network, select it and fetch one socket's stored samples.
    ReadSamples { network_id: u16, channel_id: u16 },
    /// Unlock the network, listen for a new device, set its clock, lock again.
    Commission,
}

/// The first four bytes of a frame, read before the rest of it.
#[derive(Debug, Clone, Copy, PartialEq, Eq, Structural)]
pub struct FrameHead {
    pub header: u8,
    pub command_hi: u8,
    pub command_lo: u8,
    pub payload_length: u8,
}

/// The request whose reply the session waits for.
#[derive(Debug, Clone, Copy, PartialEq, Eq, Structural)]
pub enum Phase {
    Boot,
    BootConfirm,
    Lock,
    Handshake,
    Schedule,
    SamplesAck,
    SamplesHeader,
    SamplesBody { head: FrameHead },
    Unlock,
    ListenHeader,
    ListenBody { head: FrameHead },
    UpdateTimeAck,
    UpdateTimeReply,
    Relock,
    Done,
}

/// Why a session ended without doing its work.
#[derive(Debug, Clone, Copy, PartialEq, Eq, Structural)]
pub enum SessionError {
    /// A reply could not be decoded.
    Decode(DecodeError),
    /// A reply carried another command code than the one awaited.
    UnexpectedResponse { expected: u16, found: u16 },
    /// A reply holds fewer bytes than its own length byte, or the request,
    /// said it would.
    Malformed,
    /// The session had already finished.
    Closed,
}

/// What a session that did its work reports.
#[derive(Debug)]
pub enum Outcome {
    Switched,
    Samples(SamplesResponse),
    /// The network and the id of the device that announced itself, if one did.
    Commissioned { network_id: Option<u16>, device_id: Option<u64> },
}

/// What the owner of the transport is to do next.
#[derive(Debug)]
pub enum Action {
    /// Transmit `frame`, then receive exactly `reply_len` bytes.
    Exchange { frame: Vec<u8>, reply_len: usize },
    /// Receive exactly `len` bytes, transmitting nothing.
    Receive { len: usize },
    /// The session is over; release the transport.
    Finish(Result<Outcome, SessionError>),
}

/// The state of one session.
#[derive(Debug, Clone, Copy)]
pub struct Session {
    pub operation: Operation,
    pub phase: Phase,
    /// Time at which listening for devices began, in milliseconds.
    pub listen_start_ms: u64,
    /// Network of the device that announced itself while listening.
    pub found: Option<u16>,
    /// Id of that device.
    pub found_device: Option<u64>,
    /// Failure to report once the network is locked again.
    pub pending: Option<SessionError>,
}

/// A frame with the given checked bytes: header, `body`, checksum.
pub open spec fn framed(body: Seq<u8>) -> Seq<u8> {
    seq![FRAME_HEADER] + body + seq![xor_fold(body)]
}

pub open spec fn boot_frame() -> Seq<u8> {
    framed(be16(BOOT_REQUEST) + seq![0u8])
}

pub open spec fn boot_confirm_frame() -> Seq<u8> {
    framed(be16(BOOT_CONFIRM_REQUEST) + seq![1u8])
}

pub open spec fn unlock_frame() -> Seq<u8> {
    framed(be16(LOCK_REQUEST) + seq![4u8] + be32(UNLOCK_MAGIC))
}

pub open spec fn lock_frame() -> Seq<u8> {
    framed(be16(LOCK_REQUEST) + seq![4u8] + be32(LOCK_MAGIC))
}

pub open spec fn handshake_frame(network_id: u16) -> Seq<u8> {
    framed(be16(HANDSHAKE_REQUEST) + seq![4u8] + be16(network_id) + be16(HANDSHAKE_FLAGS))
}

pub open spec fn samples_request_frame(network_id: u16, channel_id: u16) -> Seq<u8> {
    framed(
        be16(SAMPLES_REQUEST) + seq![6u8] + be16(network_id) + be16(channel_id) + be16(
            SAMPLES_FLAGS,
        ),
    )
}

/// The schedule request that switches a socket always on, or always off.
pub open spec fn schedule_frame(network_id: u16, channel_id: u16, on: bool) -> Seq<u8> {
    framed(
        be16(SCHEDULE_REQUEST) + seq![59u8] + be16(network_id) + be16(channel_id)
            + canned_schedule(if on { ALWAYS_ON_MARKER } else { ALWAYS_OFF_MARKER }),
    )
}

pub open spec fn update_time_frame(network_id: u16, unix_time: u32) -> Seq<u8> {
    framed(be16(UPDATE_TIME_REQUEST) + seq![6u8] + be16(network_id) + le32(unix_time))
}

/// What checking a fixed-length reply of `n` bytes that should carry
/// `code` yields.
pub open spec fn reply_status(reply: Seq<u8>, code: u16, n: int) -> Result<(), SessionError> {
    match kind_status(reply, n, code) {
        Err(e) => Err(session_error(e)),
        Ok(()) => Ok(()),
    }
}

/// How the session reports a decoding failure. Every reply is read to the
/// length that the request or the frame's own length byte gave, so a frame
/// still short of bytes is malformed rather than waiting for more.
pub open spec fn session_error(e: DecodeError) -> SessionError {
    match e {
        DecodeError::Incomplete { .. } => SessionError::Malformed,
        DecodeError::UnexpectedCommand { expected, found } => SessionError::UnexpectedResponse {
            expected,
            found,
        },
        _ => SessionError::Decode(e),
    }
}

/// What checking a samples response frame yields.
pub open spec fn samples_status(frame: Seq<u8>) -> Result<(), SessionError> {
    reply_status(frame, SAMPLES_RESPONSE, samples_frame_len(frame))
}

/// The four bytes of a frame head.
pub open spec fn head_seq(h: FrameHead) -> Seq<u8> {
    seq![h.header, h.command_hi, h.command_lo, h.payload_length]
}

/// The first four bytes of `s`.
pub open spec fn head_of(s: Seq<u8>) -> FrameHead {
    FrameHead { header: s[0], command_hi: s[1], command_lo: s[2], payload_length: s[3] }
}

/// The frame carries the broadcast command code.
pub open spec fn is_broadcast(frame: Seq<u8>) -> bool {
    frame.len() >= 3 && be16_at(frame, 1) == BROADCAST
}

/// `a` transmits `frame` and then awaits `reply_len` bytes.
pub open spec fn sends(a: Action, frame: Seq<u8>, reply_len: int) -> bool {
    match a {
        Action::Exchange { frame: f, reply_len: n } => f@ == frame && n == reply_len,
        _ => false,
    }
}

/// `a` awaits `len` bytes without transmitting.
pub open spec fn receives(a: Action, len: int) -> bool {
    match a {
        Action::Receive { len: n } => n == len,
        _ => false,
    }
}

/// `a` ends the session with error `e`.
pub open spec fn fails(a: Action, e: SessionError) -> bool {
    match a {
        Action::Finish(Err(x)) => x == e,
        _ => false,
    }
}

/// The phases that come after the unlock request went out and before the
/// lock request that closes the network again.
pub open spec fn network_open(p: Phase) -> bool {
    ||| p is Unlock
    ||| p is ListenHeader
    ||| p is ListenBody
    ||| p is UpdateTimeAck
    ||| p is UpdateTimeReply
}

/// Listening that began at `start` goes on at `now`: the window has not
/// closed yet.
pub open spec fn still_listening(start: u64, now: u64) -> bool {
    (now as int - start as int) < (COMMISSION_WINDOW_MS as int)
}

impl Session {
    /// The phase agrees with the operation.
    pub open spec fn wf(&self) -> bool {
        match self.phase {
            Phase::Lock | Phase::Handshake => !(self.operation is Commission),
            Phase::Schedule => self.operation is Switch,
            Phase::SamplesAck | Phase::SamplesHeader | Phase::SamplesBody { .. } =>
                self.operation is ReadSamples,
            Phase::Unlock | Phase::ListenHeader | Phase::ListenBody { .. } | Phase::UpdateTimeAck
            | Phase::UpdateTimeReply | Phase::Relock => self.operation is Commission,
            _ => true,
        }
    }

    /// `post` is `self` in phase `phase`.
    pub open spec fn moved(&self, post: Session, phase: Phase) -> bool {
        post == Session { phase, ..*self }
    }

    /// `post` is `self` waiting for the reply to the lock request that closes
    /// the network, with `e` to report afterwards.
    pub open spec fn relocking(&self, post: Session, a: Action, e: SessionError) -> bool {
        &&& post == Session { phase: Phase::Relock, pending: Some(e), ..*self }
        &&& sends(a, lock_frame(), LOCK_RESPONSE_LEN as int)
    }

    /// `post` is `self` finished, and `a` reports `e`.
    pub open spec fn failing(&self, post: Session, a: Action, e: SessionError) -> bool {
        self.moved(post, Phase::Done) && fails(a, e)
    }

    /// One step of the session: `self` receives `reply` at `now_ms` (wall
    /// clock `unix_time`, in seconds) and becomes `post`, asking for `a`.
    pub open spec fn transition(
        &self,
        reply: Seq<u8>,
        now_ms: u64,
        unix_time: u32,
        post: Session,
        a: Action,
    ) -> bool {
        match self.phase {
            Phase::Boot => match reply_status(reply, BOOT_RESPONSE, BOOT_RESPONSE_LEN as int) {
                Ok(()) => self.moved(post, Phase::BootConfirm) && sends(
                    a,
                    boot_confirm_frame(),
                    BOOT_CONFIRM_RESPONSE_LEN as int,
                ),
                Err(e) => self.failing(post, a, e),
            },
            Phase::BootConfirm => match reply_status(
                reply,
                BOOT_CONFIRM_RESPONSE,
                BOOT_CONFIRM_RESPONSE_LEN as int,
            ) {
                Ok(()) => match self.operation {
                    Operation::Commission => self.moved(post, Phase::Unlock) && sends(
                        a,
                        unlock_frame(),
                        LOCK_RESPONSE_LEN as int,
                    ),
                    _ => self.moved(post, Phase::Lock) && sends(
                        a,
                        lock_frame(),
                        LOCK_RESPONSE_LEN as int,
                    ),
                },
                Err(e) => self.failing(post, a, e),
            },
            Phase::Lock => match reply_status(reply, LOCK_RESPONSE, LOCK_RESPONSE_LEN as int) {
                Ok(()) => match self.operation {
                    Operation::Switch { network_id, .. } | Operation::ReadSamples {
                        network_id,
                        ..
                    } => self.moved(post, Phase::Handshake) && sends(
                        a,
                        handshake_frame(network_id),
                        HANDSHAKE_RESPONSE_LEN as int,
                    ),
                    Operation::Commission => false,
                },
                Err(e) => self.failing(post, a, e),
            },
            Phase::Handshake => match reply_status(
                reply,
                HANDSHAKE_REQUEST,
                HANDSHAKE_RESPONSE_LEN as int,
            ) {
                Ok(()) => match self.operation {
                    Operation::Switch { network_id, channel_id, on } => self.moved(
                        post,
                        Phase::Schedule,
                    ) && sends(
                        a,
                        schedule_frame(network_id, channel_id, on),
                        SCHEDULE_RESPONSE_LEN as int,
                    ),
                    Operation::ReadSamples { network_id, channel_id } => self.moved(
                        post,
                        Phase::SamplesAck,
                    ) && sends(
                        a,
                        samples_request_frame(network_id, channel_id),
                        ACK_RESPONSE_LEN as int,
                    ),
                    Operation::Commission => false,
                },
                Err(e) => self.failing(post, a, e),
            },
            Phase::Schedule => match reply_status(
                reply,
                SCHEDULE_REQUEST,
                SCHEDULE_RESPONSE_LEN as int,
            ) {
                Ok(()) => self.moved(post, Phase::Done) && (match a {
                    Action::Finish(Ok(Outcome::Switched)) => true,
                    _ => false,
                }),
                Err(e) => self.failing(post, a, e),
            },
            Phase::SamplesAck => match reply_status(
                reply,
                SAMPLES_REQUEST,
                ACK_RESPONSE_LEN as int,
            ) {
                Ok(()) => self.moved(post, Phase::SamplesHeader) && receives(
                    a,
                    FRAME_PEEK_LEN as int,
                ),
                Err(e) => self.failing(post, a, e),
            },
            Phase::SamplesHeader => if reply.len() < (FRAME_PEEK_LEN as int) {
                self.failing(
                    post,
                    a,
                    SessionError::Malformed,
                )
            } else {
                self.moved(post, Phase::SamplesBody { head: head_of(reply) }) && receives(
                    a,
                    reply[3] + 1,
                )
            },
            Phase::SamplesBody { head } => {
                let frame = head_seq(head) + reply;
                match samples_status(frame) {
                    Ok(()) => self.moved(post, Phase::Done) && (match a {
                        Action::Finish(Ok(Outcome::Samples(m))) => m.decodes_from(frame),
                        _ => false,
                    }),
                    Err(e) => self.failing(post, a, e),
                }
            },
            Phase::Unlock => match reply_status(reply, LOCK_RESPONSE, LOCK_RESPONSE_LEN as int) {
                Ok(()) => post == Session {
                    phase: Phase::ListenHeader,
                    listen_start_ms: now_ms,
                    ..*self
                } && receives(a, FRAME_PEEK_LEN as int),
                Err(e) => self.relocking(post, a, e),
            },
            Phase::ListenHeader => if reply.len() < (FRAME_PEEK_LEN as int) {
                self.relocking(
                    post,
                    a,
                    SessionError::Malformed,
                )
            } else {
                self.moved(post, Phase::ListenBody { head: head_of(reply) }) && receives(
                    a,
                    reply[3] + 1,
                )
            },
            Phase::ListenBody { head } => {
                let frame = head_seq(head) + reply;
                if is_broadcast(frame) {
                    match kind_status(frame, BROADCAST_LEN as int, BROADCAST) {
                        Ok(()) => post == Session {
                            phase: Phase::UpdateTimeAck,
                            found: Some(be16_at(frame, 4)),
                            found_device: Some(be64_at(frame, 6)),
                            ..*self
                        } && sends(
                            a,
                            update_time_frame(be16_at(frame, 4), unix_time),
                            UPDATE_TIME_ACK_LEN as int,
                        ),
                        Err(e) => self.relocking(post, a, session_error(e)),
                    }
                } else if still_listening(self.listen_start_ms, now_ms) {
                    self.moved(post, Phase::ListenHeader) && receives(a, FRAME_PEEK_LEN as int)
                } else {
                    self.moved(post, Phase::Relock) && sends(
                        a,
                        lock_frame(),
                        LOCK_RESPONSE_LEN as int,
                    )
                }
            },
            Phase::UpdateTimeAck => match reply_status(
                reply,
                UPDATE_TIME_REQUEST,
                UPDATE_TIME_ACK_LEN as int,
            ) {
                Ok(()) => self.moved(post, Phase::UpdateTimeReply) && receives(
                    a,
                    UPDATE_TIME_RESPONSE_LEN as int,
                ),
                Err(e) => self.relocking(post, a, e),
            },
            Phase::UpdateTimeReply => match reply_status(
                reply,
                UPDATE_TIME_RESPONSE,
                UPDATE_TIME_RESPONSE_LEN as int,
            ) {
                Ok(()) => self.moved(post, Phase::Relock) && sends(
                    a,
                    lock_frame(),
                    LOCK_RESPONSE_LEN as int,
                ),
                Err(e) => self.relocking(post, a, e),
            },
            Phase::Relock => {
                let reported = match self.pending {
                    Some(e) => Err(e),
                    None => reply_status(reply, LOCK_RESPONSE, LOCK_RESPONSE_LEN as int),
                };
                match reported {
                    Ok(()) => self.moved(post, Phase::Done) && (match a {
                        Action::Finish(Ok(Outcome::Commissioned { network_id, device_id })) =>
                            network_id == self.found && device_id == self.found_device,
                        _ => false,
                    }),
                    Err(e) => self.failing(post, a, e),
                }
            },
            Phase::Done => post == *self && fails(a, SessionError::Closed),
        }
    }
}

/// Checks a fixed-length reply of `n` bytes that should carry `code`.
fn check_reply(reply: &[u8], code: u16, n: usize) -> (r: Result<(), SessionError>)
    requires
        4 <= n,
    ensures
        r == reply_status(reply@, code, n as int),
{
    match check_kind(reply, n, code) {
        Err(e) => Err(to_session_error(e)),
        Ok(()) => Ok(()),
    }
}

fn to_session_error(e: DecodeError) -> (r: SessionError)
    ensures
        r == session_error(e),
{
    match e {
        DecodeError::Incomplete { .. } => SessionError::Malformed,
        DecodeError::UnexpectedCommand { expected, found } => SessionError::UnexpectedResponse {
            expected,
            found,
        },
        _ => SessionError::Decode(e),
    }
}

/// The four head bytes followed by `rest`.
fn join_head(head: FrameHead, rest: &[u8]) -> (r: Vec<u8>)
    ensures
        r@ == head_seq(head) + rest@,
{
    let mut b: Vec<u8> = Vec::new();
    put_u8(&mut b, head.header);
    put_u8(&mut b, head.command_hi);
    put_u8(&mut b, head.command_lo);
    put_u8(&mut b, head.payload_length);
    put_bytes(&mut b, rest);
    assert(b@ =~= head_seq(head) + rest@);
    b
}

fn lock_action() -> (a: Action)
    ensures
        sends(a, lock_frame(), LOCK_RESPONSE_LEN as int),
{
    Action::Exchange { frame: LockRequest::new().as_bytes(), reply_len: LOCK_RESPONSE_LEN }
}

impl Session {
    /// A session opened to do `operation`, and its first action: the boot
    /// request.
    pub fn start(operation: Operation) -> (r: (Session, Action))
        ensures
            r.0 == (Session {
                operation,
                phase: Phase::Boot,
                listen_start_ms: 0,
                found: None,
                found_device: None,
                pending: None,
            }),
            r.0.wf(),
            sends(r.1, boot_frame(), BOOT_RESPONSE_LEN as int),
    {
        let s = Session {
            operation,
            phase: Phase::Boot,
            listen_start_ms: 0,
            found: None,
            found_device: None,
            pending: None,
        };
        let a = Action::Exchange { frame: BootRequest::new().as_bytes(), reply_len: BOOT_RESPONSE_LEN };
        (s, a)
    }

    fn finish(&mut self, a: Action) -> (r: Action)
        ensures
            *final(self) == (Session { phase: Phase::Done, ..*old(self) }),
            r == a,
    {
        self.phase = Phase::Done;
        a
    }

    fn relock(&mut self, e: SessionError) -> (r: Action)
        ensures
            old(self).relocking(*final(self), r, e),
    {
        self.phase = Phase::Relock;
        self.pending = Some(e);
        lock_action()
    }

    /// Takes the bytes `reply` that the last action brought, received at
    /// `now_ms` milliseconds on a monotonic clock and at `unix_time` seconds
    /// since the Unix epoch, and returns the next action.
    pub fn step(&mut self, reply: &[u8], now_ms: u64, unix_time: u32) -> (r: Action)
        requires
            old(self).wf(),
        ensures
            final(self).wf(),
            old(self).transition(reply@, now_ms, unix_time, *final(self), r),
    {
        match self.phase {
            Phase::Boot => match check_reply(reply, BOOT_RESPONSE, BOOT_RESPONSE_LEN) {
                Ok(()) => {
                    self.phase = Phase::BootConfirm;
                    Action::Exchange {
                        frame: BootConfirmRequest::new().as_bytes(),
                        reply_len: BOOT_CONFIRM_RESPONSE_LEN,
                    }
                },
                Err(e) => self.finish(Action::Finish(Err(e))),
            },
            Phase::BootConfirm => match check_reply(
                reply,
                BOOT_CONFIRM_RESPONSE,
                BOOT_CONFIRM_RESPONSE_LEN,
            ) {
                Ok(()) => match self.operation {
                    Operation::Commission => {
                        self.phase = Phase::Unlock;
                        Action::Exchange {
                            frame: UnlockRequest::new().as_bytes(),
                            reply_len: LOCK_RESPONSE_LEN,
                        }
                    },
                    _ => {
                        self.phase = Phase::Lock;
                        lock_action()
                    },
                },
                Err(e) => self.finish(Action::Finish(Err(e))),
            },
            Phase::Lock => match check_reply(reply, LOCK_RESPONSE, LOCK_RESPONSE_LEN) {
                Ok(()) => {
                    let network_id = match self.operation {
                        Operation::Switch { network_id, .. } => network_id,
                        Operation::ReadSamples { network_id, .. } => network_id,
                        Operation::Commission => 0,
                    };
                    self.phase = Phase::Handshake;
                    Action::Exchange {
                        frame: HandshakeRequest::new(network_id).as_bytes(),
                        reply_len: HANDSHAKE_RESPONSE_LEN,
                    }
                },
                Err(e) => self.finish(Action::Finish(Err(e))),
            },
            Phase::Handshake => match check_reply(
                reply,
                HANDSHAKE_REQUEST,
                HANDSHAKE_RESPONSE_LEN,
            ) {
                Ok(()) => match self.operation {
                    Operation::Switch { network_id, channel_id, on } => {
                        let mut request = ScheduleRequest::new(network_id, channel_id);
                        if on {
                            request.always_on();
                        } else {
                            request.always_off();
                        }
                        self.phase = Phase::Schedule;
                        Action::Exchange {
                            frame: request.as_bytes(),
                            reply_len: SCHEDULE_RESPONSE_LEN,
                        }
                    },
                    Operation::ReadSamples { network_id, channel_id } => {
                        self.phase = Phase::SamplesAck;
                        Action::Exchange {
                            frame: SamplesRequest::new(network_id, channel_id).as_bytes(),
                            reply_len: ACK_RESPONSE_LEN,
                        }
                    },
                    Operation::Commission => self.finish(Action::Finish(Err(SessionError::Closed))),
                },
                Err(e) => self.finish(Action::Finish(Err(e))),
            },
            Phase::Schedule => match check_reply(reply, SCHEDULE_REQUEST, SCHEDULE_RESPONSE_LEN) {
                Ok(()) => self.finish(Action::Finish(Ok(Outcome::Switched))),
                Err(e) => self.finish(Action::Finish(Err(e))),
            },
            Phase::SamplesAck => match check_reply(reply, SAMPLES_REQUEST, ACK_RESPONSE_LEN) {
                Ok(()) => {
                    self.phase = Phase::SamplesHeader;
                    Action::Receive { len: FRAME_PEEK_LEN }
                },
                Err(e) => self.finish(Action::Finish(Err(e))),
            },
            Phase::SamplesHeader => {
                if reply.len() < FRAME_PEEK_LEN {
                    self.finish(
                        Action::Finish(Err(SessionError::Malformed)),
                    )
                } else {
                    self.phase = Phase::SamplesBody {
                        head: FrameHead {
                            header: reply[0],
                            command_hi: reply[1],
                            command_lo: reply[2],
                            payload_length: reply[3],
                        },
                    };
                    Action::Receive { len: reply[3] as usize + 1 }
                }
            },
            Phase::SamplesBody { head } => {
                let frame = join_head(head, reply);
                match SamplesResponse::read(frame.as_slice()) {
                    Err(e) => self.finish(Action::Finish(Err(to_session_error(e)))),
                    Ok((_, m)) => self.finish(Action::Finish(Ok(Outcome::Samples(m)))),
                }
            },
            Phase::Unlock => match check_reply(reply, LOCK_RESPONSE, LOCK_RESPONSE_LEN) {
                Ok(()) => {
                    self.phase = Phase::ListenHeader;
                    self.listen_start_ms = now_ms;
                    Action::Receive { len: FRAME_PEEK_LEN }
                },
                Err(e) => self.relock(e),
            },
            Phase::ListenHeader => {
                if reply.len() < FRAME_PEEK_LEN {
                    self.relock(
                        SessionError::Malformed,
                    )
                } else {
                    self.phase = Phase::ListenBody {
                        head: FrameHead {
                            header: reply[0],
                            command_hi: reply[1],
                            command_lo: reply[2],
                            payload_length: reply[3],
                        },
                    };
                    Action::Receive { len: reply[3] as usize + 1 }
                }
            },
            Phase::ListenBody { head } => {
                let frame = join_head(head, reply);
                if get_be16(frame.as_slice(), 1) == BROADCAST {
                    match BroadcastResponse::read(frame.as_slice()) {
                        Ok((_, m)) => {
                            self.phase = Phase::UpdateTimeAck;
                            self.found = Some(m.network_id);
                            self.found_device = Some(m.device_id);
                            Action::Exchange {
                                frame: UpdateTimeRequest::new(m.network_id, unix_time).as_bytes(),
                                reply_len: UPDATE_TIME_ACK_LEN,
                            }
                        },
                        Err(e) => self.relock(to_session_error(e)),
                    }
                } else if now_ms < self.listen_start_ms || now_ms - self.listen_start_ms
                    < COMMISSION_WINDOW_MS {
                    self.phase = Phase::ListenHeader;
                    Action::Receive { len: FRAME_PEEK_LEN }
                } else {
                    self.phase = Phase::Relock;
                    lock_action()
                }
            },
            Phase::UpdateTimeAck => match check_reply(
                reply,
                UPDATE_TIME_REQUEST,
                UPDATE_TIME_ACK_LEN,
            ) {
                Ok(()) => {
                    self.phase = Phase::UpdateTimeReply;
                    Action::Receive { len: UPDATE_TIME_RESPONSE_LEN }
                },
                Err(e) => self.relock(e),
            },
            Phase::UpdateTimeReply => match check_reply(
                reply,
                UPDATE_TIME_RESPONSE,
                UPDATE_TIME_RESPONSE_LEN,
            ) {
                Ok(()) => {
                    self.phase = Phase::Relock;
                    lock_action()
                },
                Err(e) => self.relock(e),
            },
            Phase::Relock => {
                match self.pending {
                    Some(e) => self.finish(Action::Finish(Err(e))),
                    None => match check_reply(reply, LOCK_RESPONSE, LOCK_RESPONSE_LEN) {
                        Ok(()) => {
                            let network_id = self.found;
                            let device_id = self.found_device;
                            self.finish(
                                Action::Finish(Ok(Outcome::Commissioned { network_id, device_id })),
                            )
                        },
                        Err(e) => self.finish(Action::Finish(Err(e))),
                    },
                }
            },
            Phase::Done => Action::Finish(Err(SessionError::Closed)),
        }
    }
}

/// While listening, a frame that is not a broadcast keeps the session
/// listening as long as the window is open, and once it has closed (not
/// before) sends the lock request that ends commissioning.
pub proof fn lemma_listen_until_deadline(
    pre: Session,
    head: FrameHead,
    reply: Seq<u8>,
    now_ms: u64,
    unix_time: u32,
    post: Session,
    a: Action,
)
    requires
        pre.phase == (Phase::ListenBody { head }),
        !is_broadcast(head_seq(head) + reply),
        pre.transition(reply, now_ms, unix_time, post, a),
    ensures
        still_listening(pre.listen_start_ms, now_ms) ==> post.phase == Phase::ListenHeader
            && receives(a, FRAME_PEEK_LEN as int),
        !still_listening(pre.listen_start_ms, now_ms) ==> post.phase == Phase::Relock
            && sends(a, lock_frame(), LOCK_RESPONSE_LEN as int),
        post.found == pre.found,
        !(a is Finish),
{
}

/// While listening, a sound broadcast frame ends listening at once: the
/// announcing device's network is recorded and its clock is set next.
pub proof fn lemma_broadcast_ends_listening(
    pre: Session,
    head: FrameHead,
    reply: Seq<u8>,
    now_ms: u64,
    unix_time: u32,
    post: Session,
    a: Action,
)
    requires
        pre.phase == (Phase::ListenBody { head }),
        is_broadcast(head_seq(head) + reply),
        kind_status(head_seq(head) + reply, BROADCAST_LEN as int, BROADCAST) is Ok,
        pre.transition(reply, now_ms, unix_time, post, a),
    ensures
        ({
            let network_id = be16_at(head_seq(head) + reply, 4);
            &&& post.found == Some(network_id)
            &&& post.phase == Phase::UpdateTimeAck
            &&& sends(a, update_time_frame(network_id, unix_time), UPDATE_TIME_ACK_LEN as int)
        }),
{
}

/// Once the unlock request has gone out, no step ends the session: each
/// either stays with the network open or sends the lock request.
pub proof fn lemma_network_never_left_open(
    pre: Session,
    reply: Seq<u8>,
    now_ms: u64,
    unix_time: u32,
    post: Session,
    a: Action,
)
    requires
        network_open(pre.phase),
        pre.transition(reply, now_ms, unix_time, post, a),
    ensures
        !(a is Finish),
        network_open(post.phase) || (post.phase == Phase::Relock && sends(
            a,
            lock_frame(),
            LOCK_RESPONSE_LEN as int,
        )),
{
}

/// The reply to the closing lock request ends the session, reporting the
/// device found, or the first failure met.
pub proof fn lemma_relock_finishes(
    pre: Session,
    reply: Seq<u8>,
    now_ms: u64,
    unix_time: u32,
    post: Session,
    a: Action,
)
    requires
        pre.phase == Phase::Relock,
        pre.transition(reply, now_ms, unix_time, post, a),
    ensures
        post.phase == Phase::Done,
        a is Finish,
        pre.pending is Some ==> fails(a, pre.pending->Some_0),
        pre.pending is None && reply_status(reply, LOCK_RESPONSE, LOCK_RESPONSE_LEN as int) is Ok
            ==> (match a {
            Action::Finish(Ok(Outcome::Commissioned { network_id, device_id })) => network_id
                == pre.found && device_id == pre.found_device,
            _ => false,
        }),
{
}

/// `a` transmits a frame that carries the update-time command code.
pub open spec fn sends_clock_update(a: Action) -> bool {
    match a {
        Action::Exchange { frame, .. } => frame@.len() >= 3 && be16_at(frame@, 1)
            == UPDATE_TIME_REQUEST,
        _ => false,
    }
}

/// The phases after listening for devices has ended.
pub open spec fn past_listening(p: Phase) -> bool {
    ||| p is UpdateTimeAck
    ||| p is UpdateTimeReply
    ||| p is Relock
    ||| p is Done
}

proof fn lemma_frame_code(body: Seq<u8>, code: u16)
    requires
        body.len() >= 2,
        body[0] == (code / 256) as u8,
        body[1] == (code % 256) as u8,
    ensures
        framed(body).len() >= 3,
        be16_at(framed(body), 1) == code,
{
    assert(framed(body)[1] == body[0]);
    assert(framed(body)[2] == body[1]);
}

/// A session sets a device's clock at most once: an update-time request goes
/// out only on the step that hears the broadcast, which ends listening; and
/// once listening has ended it never resumes and no update-time request
/// goes out again.
pub proof fn lemma_clock_updated_at_most_once(
    pre: Session,
    reply: Seq<u8>,
    now_ms: u64,
    unix_time: u32,
    post: Session,
    a: Action,
)
    requires
        pre.transition(reply, now_ms, unix_time, post, a),
    ensures
        sends_clock_update(a) ==> pre.phase is ListenBody && post.phase == Phase::UpdateTimeAck
            && post.found is Some,
        past_listening(pre.phase) ==> past_listening(post.phase) && !sends_clock_update(a),
{
    lemma_frame_code(be16(BOOT_CONFIRM_REQUEST) + seq![1u8], BOOT_CONFIRM_REQUEST);
    lemma_frame_code(be16(LOCK_REQUEST) + seq![4u8] + be32(UNLOCK_MAGIC), LOCK_REQUEST);
    lemma_frame_code(be16(LOCK_REQUEST) + seq![4u8] + be32(LOCK_MAGIC), LOCK_REQUEST);
    match pre.operation {
        Operation::Switch { network_id, channel_id, on } => {
            lemma_frame_code(
                be16(HANDSHAKE_REQUEST) + seq![4u8] + be16(network_id) + be16(HANDSHAKE_FLAGS),
                HANDSHAKE_REQUEST,
            );
            lemma_frame_code(
                be16(SCHEDULE_REQUEST) + seq![59u8] + be16(network_id) + be16(channel_id)
                    + canned_schedule(if on { ALWAYS_ON_MARKER } else { ALWAYS_OFF_MARKER }),
                SCHEDULE_REQUEST,
            );
        },
        Operation::ReadSamples { network_id, channel_id } => {
            lemma_frame_code(
                be16(HANDSHAKE_REQUEST) + seq![4u8] + be16(network_id) + be16(HANDSHAKE_FLAGS),
                HANDSHAKE_REQUEST,
            );
            lemma_frame_code(
                be16(SAMPLES_REQUEST) + seq![6u8] + be16(network_id) + be16(channel_id) + be16(
                    SAMPLES_FLAGS,
                ),
                SAMPLES_REQUEST,
            );
        },
        Operation::Commission => {},
    }
}

} // verus!
