//! The message catalog: every response kind the dongle sends, and decoding
//! a frame into the kind its command code names.
use vstd::prelude::*;
use crate::catalog::{
    BOOT_CONFIRM_RESPONSE, BOOT_RESPONSE, BROADCAST, HANDSHAKE_REQUEST, LOCK_RESPONSE,
    SAMPLES_REQUEST, SAMPLES_RESPONSE, SCHEDULE_REQUEST, UPDATE_TIME_REQUEST, UPDATE_TIME_RESPONSE,
};
use crate::responses::{
    samples_frame_len, AckResponse, BootConfirmResponse, BootResponse, BroadcastResponse,
    HandshakeResponse, LockResponse, SamplesResponse, ScheduleResponse, UpdateTimeAckResponse,
    UpdateTimeResponse, ACK_RESPONSE_LEN, BOOT_CONFIRM_RESPONSE_LEN, BOOT_RESPONSE_LEN,
    BROADCAST_LEN, HANDSHAKE_RESPONSE_LEN, LOCK_RESPONSE_LEN, SCHEDULE_RESPONSE_LEN,
    UPDATE_TIME_ACK_LEN, UPDATE_TIME_RESPONSE_LEN,
};
use crate::session::FRAME_PEEK_LEN;
use crate::wire::{be16_at, frame_status, get_be16, DecodeError};

verus! {

/// Any frame the dongle sends, told apart by its command code.
#[derive(Debug)]
pub enum Response {
    Boot(BootResponse),
    BootConfirm(BootConfirmResponse),
    Broadcast(BroadcastResponse),
    Lock(LockResponse),
    UpdateTimeAck(UpdateTimeAckResponse),
    UpdateTime(UpdateTimeResponse),
    Handshake(HandshakeResponse),
    Ack(AckResponse),
    Samples(SamplesResponse),
    Schedule(ScheduleResponse),
}

/// `r` is what decoding `s` as a message of fixed length `n` whose
/// decoded form satisfies `decoded` yields.
pub open spec fn fixed_result(
    s: Seq<u8>,
    n: int,
    r: Result<(usize, Response), DecodeError>,
    decoded: spec_fn(Response) -> bool,
) -> bool {
    match r {
        Ok((k, m)) => frame_status(s, n) == Ok::<(), DecodeError>(()) && k == n && decoded(m),
        Err(e) => frame_status(s, n) == Err::<(), DecodeError>(e),
    }
}

/// Decodes the dongle frame at the start of `input`: the command code picks
/// the layout, and a code that names no response is an error.
pub fn decode_response(input: &[u8]) -> (r: Result<(usize, Response), DecodeError>)
    ensures
        input@.len() < FRAME_PEEK_LEN ==> r == Err::<(usize, Response), DecodeError>(
            DecodeError::Incomplete { needed: FRAME_PEEK_LEN },
        ),
        input@.len() >= FRAME_PEEK_LEN ==> {
            let s = input@;
            let code = be16_at(s, 1);
            &&& code == BOOT_RESPONSE ==> fixed_result(
                s,
                BOOT_RESPONSE_LEN as int,
                r,
                |m: Response|
                    match m {
                        Response::Boot(x) => x.decodes_from(s),
                        _ => false,
                    },
            )
            &&& code == BOOT_CONFIRM_RESPONSE ==> fixed_result(
                s,
                BOOT_CONFIRM_RESPONSE_LEN as int,
                r,
                |m: Response|
                    match m {
                        Response::BootConfirm(x) => x.decodes_from(s),
                        _ => false,
                    },
            )
            &&& code == BROADCAST ==> fixed_result(
                s,
                BROADCAST_LEN as int,
                r,
                |m: Response|
                    match m {
                        Response::Broadcast(x) => x.decodes_from(s),
                        _ => false,
                    },
            )
            &&& code == LOCK_RESPONSE ==> fixed_result(
                s,
                LOCK_RESPONSE_LEN as int,
                r,
                |m: Response|
                    match m {
                        Response::Lock(x) => x.decodes_from(s),
                        _ => false,
                    },
            )
            &&& code == UPDATE_TIME_REQUEST ==> fixed_result(
                s,
                UPDATE_TIME_ACK_LEN as int,
                r,
                |m: Response|
                    match m {
                        Response::UpdateTimeAck(x) => x.decodes_from(s),
                        _ => false,
                    },
            )
            &&& code == UPDATE_TIME_RESPONSE ==> fixed_result(
                s,
                UPDATE_TIME_RESPONSE_LEN as int,
                r,
                |m: Response|
                    match m {
                        Response::UpdateTime(x) => x.decodes_from(s),
                        _ => false,
                    },
            )
            &&& code == HANDSHAKE_REQUEST ==> fixed_result(
                s,
                HANDSHAKE_RESPONSE_LEN as int,
                r,
                |m: Response|
                    match m {
                        Response::Handshake(x) => x.decodes_from(s),
                        _ => false,
                    },
            )
            &&& code == SAMPLES_REQUEST ==> fixed_result(
                s,
                ACK_RESPONSE_LEN as int,
                r,
                |m: Response|
                    match m {
                        Response::Ack(x) => x.decodes_from(s),
                        _ => false,
                    },
            )
            &&& code == SAMPLES_RESPONSE ==> match r {
                Ok((k, m)) => frame_status(s, samples_frame_len(s)) == Ok::<(), DecodeError>(())
                    && k == samples_frame_len(s) && (match m {
                    Response::Samples(x) => x.decodes_from(s),
                    _ => false,
                }),
                Err(e) => frame_status(s, samples_frame_len(s)) == Err::<(), DecodeError>(e),
            }
            &&& code == SCHEDULE_REQUEST ==> fixed_result(
                s,
                SCHEDULE_RESPONSE_LEN as int,
                r,
                |m: Response|
                    match m {
                        Response::Schedule(x) => x.decodes_from(s),
                        _ => false,
                    },
            )
            &&& (
                code != BOOT_RESPONSE
                && code != BOOT_CONFIRM_RESPONSE
                && code != BROADCAST
                && code != LOCK_RESPONSE
                && code != UPDATE_TIME_REQUEST
                && code != UPDATE_TIME_RESPONSE
                && code != HANDSHAKE_REQUEST
                && code != SAMPLES_REQUEST
                && code != SAMPLES_RESPONSE
                && code != SCHEDULE_REQUEST
            ) ==> r
                == Err::<(usize, Response), DecodeError>(
                DecodeError::UnknownCommand { command: code },
            )
        },
{
    if input.len() < FRAME_PEEK_LEN {
        return Err(DecodeError::Incomplete { needed: FRAME_PEEK_LEN });
    }
    let code = get_be16(input, 1);
    if code == BOOT_RESPONSE {
        match BootResponse::read(input) {
            Ok((k, m)) => Ok((k, Response::Boot(m))),
            Err(e) => Err(e),
        }
    } else if code == BOOT_CONFIRM_RESPONSE {
        match BootConfirmResponse::read(input) {
            Ok((k, m)) => Ok((k, Response::BootConfirm(m))),
            Err(e) => Err(e),
        }
    } else if code == BROADCAST {
        match BroadcastResponse::read(input) {
            Ok((k, m)) => Ok((k, Response::Broadcast(m))),
            Err(e) => Err(e),
        }
    } else if code == LOCK_RESPONSE {
        match LockResponse::read(input) {
            Ok((k, m)) => Ok((k, Response::Lock(m))),
            Err(e) => Err(e),
        }
    } else if code == UPDATE_TIME_REQUEST {
        match UpdateTimeAckResponse::read(input) {
            Ok((k, m)) => Ok((k, Response::UpdateTimeAck(m))),
            Err(e) => Err(e),
        }
    } else if code == UPDATE_TIME_RESPONSE {
        match UpdateTimeResponse::read(input) {
            Ok((k, m)) => Ok((k, Response::UpdateTime(m))),
            Err(e) => Err(e),
        }
    } else if code == HANDSHAKE_REQUEST {
        match HandshakeResponse::read(input) {
            Ok((k, m)) => Ok((k, Response::Handshake(m))),
            Err(e) => Err(e),
        }
    } else if code == SAMPLES_REQUEST {
        match AckResponse::read(input) {
            Ok((k, m)) => Ok((k, Response::Ack(m))),
            Err(e) => Err(e),
        }
    } else if code == SAMPLES_RESPONSE {
        match SamplesResponse::read(input) {
            Ok((k, m)) => Ok((k, Response::Samples(m))),
            Err(e) => Err(e),
        }
    } else if code == SCHEDULE_REQUEST {
        match ScheduleResponse::read(input) {
            Ok((k, m)) => Ok((k, Response::Schedule(m))),
            Err(e) => Err(e),
        }
    } else {
        Err(DecodeError::UnknownCommand { command: code })
    }
}

} // verus!
