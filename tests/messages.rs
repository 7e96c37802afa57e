use hacklet::dispatch::{decode_response, Response};
use hacklet::requests::{
    BootConfirmRequest, BootRequest, HandshakeRequest, LockRequest, SamplesRequest,
    ScheduleRequest, UnlockRequest, UpdateTimeRequest,
};
use hacklet::responses::{
    AckResponse, BootConfirmResponse, BootResponse, BroadcastResponse, HandshakeResponse,
    LockResponse, SampleReading, SamplesResponse, ScheduleResponse, UpdateTimeAckResponse,
    UpdateTimeResponse,
};
use hacklet::wire::DecodeError;

#[test]
fn boot_confirm_response_detects_invalid_checksum() {
    let bad_checksum = vec![0x02, 0x40, 0x80, 0x01, 0x10, 0x01];

    // Expect an error when reading the invalid checksum
    let result = BootConfirmResponse::read(&bad_checksum);
    assert!(result.is_err());
    assert_eq!(result.unwrap_err().as_str(), "Invalid checksum");
}

#[test]
fn boot_request_has_proper_checksum() {
    let request = BootRequest::new();
    assert_eq!(request.checksum, 0x44); // Check the checksum
}

#[test]
fn boot_request_frame_bytes() {
    assert_eq!(BootRequest::new().as_bytes(), vec![0x02, 0x40, 0x04, 0x00, 0x44]);
    assert_eq!(BootConfirmRequest::new().as_bytes(), vec![0x02, 0x40, 0x00, 0x01, 0x41]);
}

#[test]
fn lock_and_unlock_requests_differ_only_in_magic() {
    assert_eq!(
        LockRequest::new().as_bytes(),
        vec![0x02, 0xa2, 0x36, 0x04, 0xfc, 0xff, 0x00, 0x01, 0x92]
    );
    assert_eq!(
        UnlockRequest::new().as_bytes(),
        vec![0x02, 0xa2, 0x36, 0x04, 0xfc, 0xff, 0x90, 0x01, 0x02]
    );
}

#[test]
fn handshake_and_samples_request_bytes() {
    assert_eq!(
        HandshakeRequest::new(0x0010).as_bytes(),
        vec![0x02, 0x40, 0x03, 0x04, 0x00, 0x10, 0x05, 0x00, 0x52]
    );
    assert_eq!(
        SamplesRequest::new(0x0010, 1).as_bytes(),
        vec![0x02, 0x40, 0x24, 0x06, 0x00, 0x10, 0x00, 0x01, 0x0a, 0x00, 0x79]
    );
}

#[test]
fn update_time_is_little_endian() {
    assert_eq!(
        UpdateTimeRequest::new(0x0010, 0x12345678).as_bytes(),
        vec![0x02, 0x40, 0x22, 0x06, 0x00, 0x10, 0x78, 0x56, 0x34, 0x12, 0x7c]
    );
}

#[test]
fn schedule_bitmaps_are_full_size() {
    let mut on = ScheduleRequest::new(0x0010, 1);
    assert_eq!(on.schedule, vec![0u8; 56]);
    on.always_on();
    let bytes = on.as_bytes();
    assert_eq!(bytes.len(), 65);
    assert_eq!(bytes[8 + 5], 0x25);
    assert_eq!(bytes[8], 0x7f);
    assert_eq!(bytes[63], 0x7f);
    assert_eq!(bytes[64], 0x13);
    let mut off = ScheduleRequest::new(0x0010, 1);
    off.always_off();
    let bytes = off.as_bytes();
    assert_eq!(bytes[8 + 5], 0xa5);
    assert_eq!(bytes[64], 0x93);
    assert_eq!(off.checksum, off.calculate_checksum());
}

#[test]
fn requests_round_trip() {
    let m = UpdateTimeRequest::new(0xBEEF, 0xDEADBEEF);
    let (n, d) = UpdateTimeRequest::read(&m.as_bytes()).unwrap();
    assert_eq!(n, 11);
    assert_eq!((d.network_id, d.time, d.checksum), (0xBEEF, 0xDEADBEEF, m.checksum));

    let m = SamplesRequest::new(0x1234, 0x5678);
    let (n, d) = SamplesRequest::read(&m.as_bytes()).unwrap();
    assert_eq!(n, 11);
    assert_eq!((d.network_id, d.channel_id, d.data), (0x1234, 0x5678, 0x0A00));

    let mut m = ScheduleRequest::new(7, 9);
    m.always_off();
    let (n, d) = ScheduleRequest::read(&m.as_bytes()).unwrap();
    assert_eq!(n, 65);
    assert_eq!(d.schedule, m.schedule);
    assert_eq!((d.network_id, d.channel_id, d.payload_length), (7, 9, 59));

    let m = HandshakeRequest::new(0xFFFF);
    let (_, d) = HandshakeRequest::read(&m.as_bytes()).unwrap();
    assert_eq!((d.network_id, d.data), (0xFFFF, 0x0500));

    let (_, d) = LockRequest::read(&LockRequest::new().as_bytes()).unwrap();
    assert_eq!(d.data, 0xFCFF0001);
    let (_, d) = UnlockRequest::read(&UnlockRequest::new().as_bytes()).unwrap();
    assert_eq!(d.data, 0xFCFF9001);
    let (n, d) = BootRequest::read(&BootRequest::new().as_bytes()).unwrap();
    assert_eq!((n, d.command, d.checksum), (5, 0x4004, 0x44));
    let (_, d) = BootConfirmRequest::read(&BootConfirmRequest::new().as_bytes()).unwrap();
    assert_eq!((d.command, d.payload_length), (0x4000, 1));
}

#[test]
fn responses_round_trip() {
    let data: Vec<u8> = (1..=12).collect();
    let m = BootResponse::new(data.clone(), 0x0102030405060708, 0xA1B2);
    let bytes = m.as_bytes();
    assert_eq!(bytes.len(), 27);
    let (n, d) = BootResponse::read(&bytes).unwrap();
    assert_eq!(n, 27);
    assert_eq!((d.data, d.device_id, d.data2), (data, 0x0102030405060708, 0xA1B2));

    let m = BroadcastResponse::new(0x0010, 0xFEDCBA9876543210, 0x33);
    let (n, d) = BroadcastResponse::read(&m.as_bytes()).unwrap();
    assert_eq!(n, 16);
    assert_eq!((d.network_id, d.device_id, d.data), (0x0010, 0xFEDCBA9876543210, 0x33));

    let m = UpdateTimeResponse::new(0x4321);
    let (n, d) = UpdateTimeResponse::read(&m.as_bytes()).unwrap();
    assert_eq!((n, d.network_id, d.command), (8, 0x4321, 0x40A2));

    let (n, d) = BootConfirmResponse::read(&BootConfirmResponse::new().as_bytes()).unwrap();
    assert_eq!((n, d.data), (6, 0x10));
    let (_, d) = LockResponse::read(&LockResponse::new().as_bytes()).unwrap();
    assert_eq!(d.command, 0xA0F9);
    let (_, d) = UpdateTimeAckResponse::read(&UpdateTimeAckResponse::new().as_bytes()).unwrap();
    assert_eq!(d.command, 0x4022);
    let (_, d) = HandshakeResponse::read(&HandshakeResponse::new().as_bytes()).unwrap();
    assert_eq!(d.command, 0x4003);
    let (_, d) = AckResponse::read(&AckResponse::new().as_bytes()).unwrap();
    assert_eq!(d.command, 0x4024);
    let (_, d) = ScheduleResponse::read(&ScheduleResponse::new().as_bytes()).unwrap();
    assert_eq!(d.command, 0x4023);
}

fn two_samples() -> SamplesResponse {
    SamplesResponse::new(18, 0x0010, 1, 0, 2, 1, 5, vec![0x0328, 0x042A])
}

#[test]
fn samples_response_layout() {
    assert_eq!(
        two_samples().as_bytes(),
        vec![
            0x02, 0x40, 0xa4, 0x12, 0x00, 0x10, 0x00, 0x01, 0x00, 0x00, 0x01, 0x00, 0x00, 0x00,
            0x02, 0x05, 0x00, 0x00, 0x28, 0x03, 0x2a, 0x04, 0xe4
        ]
    );
}

#[test]
fn samples_response_decodes_readings() {
    let (n, d) = SamplesResponse::read(&two_samples().as_bytes()).unwrap();
    assert_eq!(n, 23);
    assert_eq!(d.sample_count, 2);
    assert_eq!(d.stored_sample_count, 5);
    assert_eq!(d.time, 1);
    assert_eq!(
        d.readings(),
        vec![SampleReading { time: 3, wattage: 40 }, SampleReading { time: 4, wattage: 42 }]
    );
}

#[test]
fn samples_response_with_no_samples() {
    let m = SamplesResponse::new(14, 1, 2, 3, 0, 4, 0x0A0B0C, vec![]);
    let mut bytes = m.as_bytes();
    assert_eq!(bytes.len(), 19);
    bytes.extend_from_slice(&[0xAA, 0xBB]);
    let (n, d) = SamplesResponse::read(&bytes).unwrap();
    assert_eq!(n, 19);
    assert!(d.samples.is_empty());
    assert!(d.readings().is_empty());
    assert_eq!(d.stored_sample_count, 0x0A0B0C);
}

#[test]
fn prefixes_are_incomplete() {
    let bytes = two_samples().as_bytes();
    for k in 0..bytes.len() {
        let needed = if k < 18 { 18 } else { 23 };
        assert_eq!(
            SamplesResponse::read(&bytes[..k]).unwrap_err(),
            DecodeError::Incomplete { needed }
        );
    }
    let bytes = BroadcastResponse::new(1, 2, 3).as_bytes();
    for k in 0..bytes.len() {
        assert_eq!(
            BroadcastResponse::read(&bytes[..k]).unwrap_err(),
            DecodeError::Incomplete { needed: 16 }
        );
    }
    let bytes = UpdateTimeRequest::new(1, 2).as_bytes();
    for k in 0..bytes.len() {
        assert!(UpdateTimeRequest::read(&bytes[..k]).is_err());
    }
}

#[test]
fn flipped_bits_are_rejected() {
    let bytes = BroadcastResponse::new(0x0010, 0x1122334455667788, 1).as_bytes();
    for i in 1..bytes.len() - 1 {
        for bit in 0..8 {
            let mut bad = bytes.clone();
            bad[i] ^= 1 << bit;
            assert_eq!(
                BroadcastResponse::read(&bad).unwrap_err(),
                DecodeError::ChecksumMismatch
            );
        }
    }
    let mut bad = two_samples().as_bytes();
    bad[19] ^= 0x10;
    assert_eq!(SamplesResponse::read(&bad).unwrap_err(), DecodeError::ChecksumMismatch);
}

#[test]
fn dispatch_by_command_code() {
    match decode_response(&BroadcastResponse::new(0x0010, 5, 0).as_bytes()) {
        Ok((16, Response::Broadcast(b))) => assert_eq!(b.network_id, 0x0010),
        other => panic!("unexpected {:?}", other),
    }
    match decode_response(&two_samples().as_bytes()) {
        Ok((23, Response::Samples(s))) => assert_eq!(s.samples, vec![0x0328, 0x042A]),
        other => panic!("unexpected {:?}", other),
    }
    match decode_response(&LockResponse::new().as_bytes()) {
        Ok((6, Response::Lock(_))) => {}
        other => panic!("unexpected {:?}", other),
    }
    assert_eq!(
        decode_response(&[0x02, 0x12, 0x34, 0x00, 0x26]).unwrap_err(),
        DecodeError::UnknownCommand { command: 0x1234 }
    );
    assert_eq!(
        decode_response(&[0x02, 0x40]).unwrap_err(),
        DecodeError::Incomplete { needed: 4 }
    );
}

#[test]
fn typed_readers_reject_other_kinds() {
    let handshake = HandshakeResponse::new().as_bytes();
    assert_eq!(
        LockResponse::read(&handshake).unwrap_err(),
        DecodeError::UnexpectedCommand { expected: 0xA0F9, found: 0x4003 }
    );
    assert_eq!(
        ScheduleResponse::read(&handshake).unwrap_err(),
        DecodeError::UnexpectedCommand { expected: 0x4023, found: 0x4003 }
    );
    let lock = LockRequest::new().as_bytes();
    assert_eq!(
        HandshakeRequest::read(&lock).unwrap_err(),
        DecodeError::UnexpectedCommand { expected: 0x4003, found: 0xA236 }
    );
    let mut relabelled = SamplesResponse::new(14, 1, 2, 3, 0, 4, 5, vec![]);
    relabelled.command = 0x40A5;
    relabelled.checksum = relabelled.calculate_checksum();
    assert_eq!(
        SamplesResponse::read(&relabelled.as_bytes()).unwrap_err(),
        DecodeError::UnexpectedCommand { expected: 0x40A4, found: 0x40A5 }
    );
}

#[test]
fn error_descriptions() {
    assert_eq!(DecodeError::Incomplete { needed: 4 }.as_str(), "Incomplete frame");
    assert_eq!(DecodeError::ChecksumMismatch.as_str(), "Invalid checksum");
    assert_eq!(DecodeError::UnknownCommand { command: 1 }.as_str(), "Unknown command");
    assert_eq!(
        DecodeError::UnexpectedCommand { expected: 1, found: 2 }.as_str(),
        "Unexpected command"
    );
}
