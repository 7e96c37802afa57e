//! Responses the dongle sends to the host.
use vstd::prelude::*;
use crate::catalog::{
    BOOT_CONFIRM_RESPONSE, BOOT_RESPONSE, BROADCAST, HANDSHAKE_REQUEST, LOCK_RESPONSE,
    SAMPLES_REQUEST, SAMPLES_RESPONSE, SCHEDULE_REQUEST, UPDATE_TIME_REQUEST,
    UPDATE_TIME_RESPONSE,
};
use crate::wire::{
    DecodeError, FRAME_HEADER, be16, be16_at, be64, be64_at, check_kind, kind_status,
    get_be16, get_be64, get_bytes, get_le16, get_le24, get_le32, le16, le16_at, le24, le24_at,
    le32, le32_at, lemma_be16, lemma_be64, lemma_framed, lemma_le16, lemma_le24, lemma_le32,
    put_be16, put_be64, put_bytes, put_le16, put_le24, put_le32, put_u8, xor_fold, xor_range,
};

verus! {

/// The dongle's reply to a boot request.
#[derive(Debug)]
pub struct BootResponse {
    pub header: u8,
    pub command: u16,
    pub payload_length: u8,
    /// Leading payload bytes that precede the device id.
    pub data: Vec<u8>,
    pub device_id: u64,
    pub data2: u16,
    pub checksum: u8,
}

/// Length in bytes of a whole [`BootResponse`] frame.
pub const BOOT_RESPONSE_LEN: usize = 27;

impl BootResponse {
    /// The bytes the checksum covers: command, payload length and payload.
    pub open spec fn body(&self) -> Seq<u8> {
        be16(self.command) + seq![self.payload_length] + self.data@ + be64(self.device_id) + be16(self.data2)
    }

    /// The frame as it travels on the wire.
    pub open spec fn frame(&self) -> Seq<u8> {
        seq![self.header] + self.body() + seq![self.checksum]
    }

    /// The checksum field agrees with the other fields.
    pub open spec fn wf(&self) -> bool {
        self.checksum == xor_fold(self.body())
    }

    /// `self` is the message held by the first 27 bytes of `s`.
    pub open spec fn decodes_from(&self, s: Seq<u8>) -> bool {
        &&& self.header == s[0]
        &&& self.command == be16_at(s, 1)
        &&& self.payload_length == s[3]
        &&& self.data@ == s.subrange(4, 16)
        &&& self.device_id == be64_at(s, 16)
        &&& self.data2 == be16_at(s, 24)
        &&& self.checksum == s[26]
    }

    /// A well-formed message with the fixed fields of its kind.
    pub fn new(data: Vec<u8>, device_id: u64, data2: u16) -> (r: Self)
        ensures
            r.header == FRAME_HEADER,
            r.command == BOOT_RESPONSE,
            r.payload_length == 22,
            r.data@ == data@,
            r.device_id == device_id,
            r.data2 == data2,
            r.wf(),
    {
        let mut m = BootResponse {
            header: FRAME_HEADER,
            command: BOOT_RESPONSE,
            payload_length: 22,
            data,
            device_id,
            data2,
            checksum: 0,
        };
        m.checksum = m.calculate_checksum();
        m
    }

    fn body_bytes(&self) -> (r: Vec<u8>)
        ensures
            r@ == self.body(),
    {
        let mut b: Vec<u8> = Vec::new();
        put_be16(&mut b, self.command);
        put_u8(&mut b, self.payload_length);
        put_bytes(&mut b, self.data.as_slice());
        put_be64(&mut b, self.device_id);
        put_be16(&mut b, self.data2);
        assert(b@ =~= self.body());
        b
    }

    /// Encodes the message as one frame.
    pub fn as_bytes(&self) -> (r: Vec<u8>)
        ensures
            r@ == self.frame(),
    {
        let mut b: Vec<u8> = Vec::new();
        put_u8(&mut b, self.header);
        let body = self.body_bytes();
        put_bytes(&mut b, body.as_slice());
        put_u8(&mut b, self.checksum);
        b
    }

    /// XOR of the command, payload length and payload bytes.
    pub fn calculate_checksum(&self) -> (r: u8)
        ensures
            r == xor_fold(self.body()),
    {
        let body = self.body_bytes();
        assert(body@.subrange(0, body@.len() as int) =~= body@);
        xor_range(body.as_slice(), 0, body.len())
    }

    /// Decodes one frame from the start of `input`; on success also returns
    /// the number of bytes it took.
    pub fn read(input: &[u8]) -> (r: Result<(usize, Self), DecodeError>)
        ensures
            be16_at(input@, 1) != BOOT_RESPONSE ==> r is Err,
            match r {
                Ok((n, m)) => kind_status(input@, BOOT_RESPONSE_LEN as int, BOOT_RESPONSE) == Ok::<(), DecodeError>(())
                    && n == BOOT_RESPONSE_LEN && m.decodes_from(input@),
                Err(e) => kind_status(input@, BOOT_RESPONSE_LEN as int, BOOT_RESPONSE)
                    == Err::<(), DecodeError>(e),
            },
    {
        match check_kind(input, BOOT_RESPONSE_LEN, BOOT_RESPONSE) {
            Err(e) => Err(e),
            Ok(()) => {
                let m = BootResponse {
                    header: input[0],
                    command: get_be16(input, 1),
                    payload_length: input[3],
                    data: get_bytes(input, 4, 16),
                    device_id: get_be64(input, 16),
                    data2: get_be16(input, 24),
                    checksum: input[26],
                };
                Ok((BOOT_RESPONSE_LEN, m))
            }
        }
    }
}

/// Decoding the frame of a well-formed [`BootResponse`] gives the message back
/// and consumes the whole frame.
pub proof fn lemma_boot_response_round_trip(m: BootResponse)
    requires
        m.wf(),
        m.command == BOOT_RESPONSE,
        m.data@.len() == 12,
    ensures
        m.frame().len() == BOOT_RESPONSE_LEN,
        kind_status(m.frame(), BOOT_RESPONSE_LEN as int, BOOT_RESPONSE) == Ok::<(), DecodeError>(()),
        m.decodes_from(m.frame()),
        forall|d: BootResponse| #[trigger] d.decodes_from(m.frame()) ==> (
            d.header == m.header
            && d.command == m.command
            && d.payload_length == m.payload_length
            && d.data@ == m.data@
            && d.device_id == m.device_id
            && d.data2 == m.data2
            && d.checksum == m.checksum
        ),
{
    let f = m.frame();
    lemma_framed(m.header, m.body());
    assert(f.subrange(1, 3) =~= be16(m.command));
    lemma_be16(m.command, f, 1);
    assert(f.subrange(4, 16) =~= m.data@);
    assert(f.subrange(16, 24) =~= be64(m.device_id));
    lemma_be64(m.device_id, f, 16);
    assert(f.subrange(24, 26) =~= be16(m.data2));
    lemma_be16(m.data2, f, 24);
}

/// The dongle's reply to a boot confirmation.
#[derive(Debug, Clone, Copy)]
pub struct BootConfirmResponse {
    pub header: u8,
    pub command: u16,
    pub payload_length: u8,
    pub data: u8,
    pub checksum: u8,
}

/// Length in bytes of a whole [`BootConfirmResponse`] frame.
pub const BOOT_CONFIRM_RESPONSE_LEN: usize = 6;

impl BootConfirmResponse {
    /// The bytes the checksum covers: command, payload length and payload.
    pub open spec fn body(&self) -> Seq<u8> {
        be16(self.command) + seq![self.payload_length] + seq![self.data]
    }

    /// The frame as it travels on the wire.
    pub open spec fn frame(&self) -> Seq<u8> {
        seq![self.header] + self.body() + seq![self.checksum]
    }

    /// The checksum field agrees with the other fields.
    pub open spec fn wf(&self) -> bool {
        self.checksum == xor_fold(self.body())
    }

    /// `self` is the message held by the first 6 bytes of `s`.
    pub open spec fn decodes_from(&self, s: Seq<u8>) -> bool {
        &&& self.header == s[0]
        &&& self.command == be16_at(s, 1)
        &&& self.payload_length == s[3]
        &&& self.data == s[4]
        &&& self.checksum == s[5]
    }

    /// A well-formed message with the fixed fields of its kind.
    pub fn new() -> (r: Self)
        ensures
            r.header == FRAME_HEADER,
            r.command == BOOT_CONFIRM_RESPONSE,
            r.payload_length == 1,
            r.data == 0x10,
            r.wf(),
    {
        let mut m = BootConfirmResponse {
            header: FRAME_HEADER,
            command: BOOT_CONFIRM_RESPONSE,
            payload_length: 1,
            data: 0x10,
            checksum: 0,
        };
        m.checksum = m.calculate_checksum();
        m
    }

    fn body_bytes(&self) -> (r: Vec<u8>)
        ensures
            r@ == self.body(),
    {
        let mut b: Vec<u8> = Vec::new();
        put_be16(&mut b, self.command);
        put_u8(&mut b, self.payload_length);
        put_u8(&mut b, self.data);
        assert(b@ =~= self.body());
        b
    }

    /// Encodes the message as one frame.
    pub fn as_bytes(&self) -> (r: Vec<u8>)
        ensures
            r@ == self.frame(),
    {
        let mut b: Vec<u8> = Vec::new();
        put_u8(&mut b, self.header);
        let body = self.body_bytes();
        put_bytes(&mut b, body.as_slice());
        put_u8(&mut b, self.checksum);
        b
    }

    /// XOR of the command, payload length and payload bytes.
    pub fn calculate_checksum(&self) -> (r: u8)
        ensures
            r == xor_fold(self.body()),
    {
        let body = self.body_bytes();
        assert(body@.subrange(0, body@.len() as int) =~= body@);
        xor_range(body.as_slice(), 0, body.len())
    }

    /// Decodes one frame from the start of `input`; on success also returns
    /// the number of bytes it took.
    pub fn read(input: &[u8]) -> (r: Result<(usize, Self), DecodeError>)
        ensures
            be16_at(input@, 1) != BOOT_CONFIRM_RESPONSE ==> r is Err,
            match r {
                Ok((n, m)) => kind_status(input@, BOOT_CONFIRM_RESPONSE_LEN as int, BOOT_CONFIRM_RESPONSE) == Ok::<(), DecodeError>(())
                    && n == BOOT_CONFIRM_RESPONSE_LEN && m.decodes_from(input@),
                Err(e) => kind_status(input@, BOOT_CONFIRM_RESPONSE_LEN as int, BOOT_CONFIRM_RESPONSE)
                    == Err::<(), DecodeError>(e),
            },
    {
        match check_kind(input, BOOT_CONFIRM_RESPONSE_LEN, BOOT_CONFIRM_RESPONSE) {
            Err(e) => Err(e),
            Ok(()) => {
                let m = BootConfirmResponse {
                    header: input[0],
                    command: get_be16(input, 1),
                    payload_length: input[3],
                    data: input[4],
                    checksum: input[5],
                };
                Ok((BOOT_CONFIRM_RESPONSE_LEN, m))
            }
        }
    }
}

/// Decoding the frame of a well-formed [`BootConfirmResponse`] gives the message back
/// and consumes the whole frame.
pub proof fn lemma_boot_confirm_response_round_trip(m: BootConfirmResponse)
    requires
        m.wf(),
        m.command == BOOT_CONFIRM_RESPONSE,
    ensures
        m.frame().len() == BOOT_CONFIRM_RESPONSE_LEN,
        kind_status(m.frame(), BOOT_CONFIRM_RESPONSE_LEN as int, BOOT_CONFIRM_RESPONSE) == Ok::<(), DecodeError>(()),
        m.decodes_from(m.frame()),
        forall|d: BootConfirmResponse| #[trigger] d.decodes_from(m.frame()) ==> d == m,
{
    let f = m.frame();
    lemma_framed(m.header, m.body());
    assert(f.subrange(1, 3) =~= be16(m.command));
    lemma_be16(m.command, f, 1);
    assert(f.subrange(4, 5) =~= seq![m.data]);
    assert(f[4] == f.subrange(4, 5)[0]);
}

/// Unsolicited announcement of a device, heard while commissioning.
#[derive(Debug, Clone, Copy)]
pub struct BroadcastResponse {
    pub header: u8,
    pub command: u16,
    pub payload_length: u8,
    pub network_id: u16,
    pub device_id: u64,
    pub data: u8,
    pub checksum: u8,
}

/// Length in bytes of a whole [`BroadcastResponse`] frame.
pub const BROADCAST_LEN: usize = 16;

impl BroadcastResponse {
    /// The bytes the checksum covers: command, payload length and payload.
    pub open spec fn body(&self) -> Seq<u8> {
        be16(self.command) + seq![self.payload_length] + be16(self.network_id) + be64(self.device_id) + seq![self.data]
    }

    /// The frame as it travels on the wire.
    pub open spec fn frame(&self) -> Seq<u8> {
        seq![self.header] + self.body() + seq![self.checksum]
    }

    /// The checksum field agrees with the other fields.
    pub open spec fn wf(&self) -> bool {
        self.checksum == xor_fold(self.body())
    }

    /// `self` is the message held by the first 16 bytes of `s`.
    pub open spec fn decodes_from(&self, s: Seq<u8>) -> bool {
        &&& self.header == s[0]
        &&& self.command == be16_at(s, 1)
        &&& self.payload_length == s[3]
        &&& self.network_id == be16_at(s, 4)
        &&& self.device_id == be64_at(s, 6)
        &&& self.data == s[14]
        &&& self.checksum == s[15]
    }

    /// A well-formed message with the fixed fields of its kind.
    pub fn new(network_id: u16, device_id: u64, data: u8) -> (r: Self)
        ensures
            r.header == FRAME_HEADER,
            r.command == BROADCAST,
            r.payload_length == 11,
            r.network_id == network_id,
            r.device_id == device_id,
            r.data == data,
            r.wf(),
    {
        let mut m = BroadcastResponse {
            header: FRAME_HEADER,
            command: BROADCAST,
            payload_length: 11,
            network_id,
            device_id,
            data,
            checksum: 0,
        };
        m.checksum = m.calculate_checksum();
        m
    }

    fn body_bytes(&self) -> (r: Vec<u8>)
        ensures
            r@ == self.body(),
    {
        let mut b: Vec<u8> = Vec::new();
        put_be16(&mut b, self.command);
        put_u8(&mut b, self.payload_length);
        put_be16(&mut b, self.network_id);
        put_be64(&mut b, self.device_id);
        put_u8(&mut b, self.data);
        assert(b@ =~= self.body());
        b
    }

    /// Encodes the message as one frame.
    pub fn as_bytes(&self) -> (r: Vec<u8>)
        ensures
            r@ == self.frame(),
    {
        let mut b: Vec<u8> = Vec::new();
        put_u8(&mut b, self.header);
        let body = self.body_bytes();
        put_bytes(&mut b, body.as_slice());
        put_u8(&mut b, self.checksum);
        b
    }

    /// XOR of the command, payload length and payload bytes.
    pub fn calculate_checksum(&self) -> (r: u8)
        ensures
            r == xor_fold(self.body()),
    {
        let body = self.body_bytes();
        assert(body@.subrange(0, body@.len() as int) =~= body@);
        xor_range(body.as_slice(), 0, body.len())
    }

    /// Decodes one frame from the start of `input`; on success also returns
    /// the number of bytes it took.
    pub fn read(input: &[u8]) -> (r: Result<(usize, Self), DecodeError>)
        ensures
            be16_at(input@, 1) != BROADCAST ==> r is Err,
            match r {
                Ok((n, m)) => kind_status(input@, BROADCAST_LEN as int, BROADCAST) == Ok::<(), DecodeError>(())
                    && n == BROADCAST_LEN && m.decodes_from(input@),
                Err(e) => kind_status(input@, BROADCAST_LEN as int, BROADCAST)
                    == Err::<(), DecodeError>(e),
            },
    {
        match check_kind(input, BROADCAST_LEN, BROADCAST) {
            Err(e) => Err(e),
            Ok(()) => {
                let m = BroadcastResponse {
                    header: input[0],
                    command: get_be16(input, 1),
                    payload_length: input[3],
                    network_id: get_be16(input, 4),
                    device_id: get_be64(input, 6),
                    data: input[14],
                    checksum: input[15],
                };
                Ok((BROADCAST_LEN, m))
            }
        }
    }
}

/// Decoding the frame of a well-formed [`BroadcastResponse`] gives the message back
/// and consumes the whole frame.
pub proof fn lemma_broadcast_response_round_trip(m: BroadcastResponse)
    requires
        m.wf(),
        m.command == BROADCAST,
    ensures
        m.frame().len() == BROADCAST_LEN,
        kind_status(m.frame(), BROADCAST_LEN as int, BROADCAST) == Ok::<(), DecodeError>(()),
        m.decodes_from(m.frame()),
        forall|d: BroadcastResponse| #[trigger] d.decodes_from(m.frame()) ==> d == m,
{
    let f = m.frame();
    lemma_framed(m.header, m.body());
    assert(f.subrange(1, 3) =~= be16(m.command));
    lemma_be16(m.command, f, 1);
    assert(f.subrange(4, 6) =~= be16(m.network_id));
    lemma_be16(m.network_id, f, 4);
    assert(f.subrange(6, 14) =~= be64(m.device_id));
    lemma_be64(m.device_id, f, 6);
    assert(f.subrange(14, 15) =~= seq![m.data]);
    assert(f[14] == f.subrange(14, 15)[0]);
}

/// The reply to a lock or unlock request.
#[derive(Debug, Clone, Copy)]
pub struct LockResponse {
    pub header: u8,
    pub command: u16,
    pub payload_length: u8,
    pub data: u8,
    pub checksum: u8,
}

/// Length in bytes of a whole [`LockResponse`] frame.
pub const LOCK_RESPONSE_LEN: usize = 6;

impl LockResponse {
    /// The bytes the checksum covers: command, payload length and payload.
    pub open spec fn body(&self) -> Seq<u8> {
        be16(self.command) + seq![self.payload_length] + seq![self.data]
    }

    /// The frame as it travels on the wire.
    pub open spec fn frame(&self) -> Seq<u8> {
        seq![self.header] + self.body() + seq![self.checksum]
    }

    /// The checksum field agrees with the other fields.
    pub open spec fn wf(&self) -> bool {
        self.checksum == xor_fold(self.body())
    }

    /// `self` is the message held by the first 6 bytes of `s`.
    pub open spec fn decodes_from(&self, s: Seq<u8>) -> bool {
        &&& self.header == s[0]
        &&& self.command == be16_at(s, 1)
        &&& self.payload_length == s[3]
        &&& self.data == s[4]
        &&& self.checksum == s[5]
    }

    /// A well-formed message with the fixed fields of its kind.
    pub fn new() -> (r: Self)
        ensures
            r.header == FRAME_HEADER,
            r.command == LOCK_RESPONSE,
            r.payload_length == 1,
            r.data == 0x00,
            r.wf(),
    {
        let mut m = LockResponse {
            header: FRAME_HEADER,
            command: LOCK_RESPONSE,
            payload_length: 1,
            data: 0x00,
            checksum: 0,
        };
        m.checksum = m.calculate_checksum();
        m
    }

    fn body_bytes(&self) -> (r: Vec<u8>)
        ensures
            r@ == self.body(),
    {
        let mut b: Vec<u8> = Vec::new();
        put_be16(&mut b, self.command);
        put_u8(&mut b, self.payload_length);
        put_u8(&mut b, self.data);
        assert(b@ =~= self.body());
        b
    }

    /// Encodes the message as one frame.
    pub fn as_bytes(&self) -> (r: Vec<u8>)
        ensures
            r@ == self.frame(),
    {
        let mut b: Vec<u8> = Vec::new();
        put_u8(&mut b, self.header);
        let body = self.body_bytes();
        put_bytes(&mut b, body.as_slice());
        put_u8(&mut b, self.checksum);
        b
    }

    /// XOR of the command, payload length and payload bytes.
    pub fn calculate_checksum(&self) -> (r: u8)
        ensures
            r == xor_fold(self.body()),
    {
        let body = self.body_bytes();
        assert(body@.subrange(0, body@.len() as int) =~= body@);
        xor_range(body.as_slice(), 0, body.len())
    }

    /// Decodes one frame from the start of `input`; on success also returns
    /// the number of bytes it took.
    pub fn read(input: &[u8]) -> (r: Result<(usize, Self), DecodeError>)
        ensures
            be16_at(input@, 1) != LOCK_RESPONSE ==> r is Err,
            match r {
                Ok((n, m)) => kind_status(input@, LOCK_RESPONSE_LEN as int, LOCK_RESPONSE) == Ok::<(), DecodeError>(())
                    && n == LOCK_RESPONSE_LEN && m.decodes_from(input@),
                Err(e) => kind_status(input@, LOCK_RESPONSE_LEN as int, LOCK_RESPONSE)
                    == Err::<(), DecodeError>(e),
            },
    {
        match check_kind(input, LOCK_RESPONSE_LEN, LOCK_RESPONSE) {
            Err(e) => Err(e),
            Ok(()) => {
                let m = LockResponse {
                    header: input[0],
                    command: get_be16(input, 1),
                    payload_length: input[3],
                    data: input[4],
                    checksum: input[5],
                };
                Ok((LOCK_RESPONSE_LEN, m))
            }
        }
    }
}

/// Decoding the frame of a well-formed [`LockResponse`] gives the message back
/// and consumes the whole frame.
pub proof fn lemma_lock_response_round_trip(m: LockResponse)
    requires
        m.wf(),
        m.command == LOCK_RESPONSE,
    ensures
        m.frame().len() == LOCK_RESPONSE_LEN,
        kind_status(m.frame(), LOCK_RESPONSE_LEN as int, LOCK_RESPONSE) == Ok::<(), DecodeError>(()),
        m.decodes_from(m.frame()),
        forall|d: LockResponse| #[trigger] d.decodes_from(m.frame()) ==> d == m,
{
    let f = m.frame();
    lemma_framed(m.header, m.body());
    assert(f.subrange(1, 3) =~= be16(m.command));
    lemma_be16(m.command, f, 1);
    assert(f.subrange(4, 5) =~= seq![m.data]);
    assert(f[4] == f.subrange(4, 5)[0]);
}

/// Acknowledges an update-time request.
#[derive(Debug, Clone, Copy)]
pub struct UpdateTimeAckResponse {
    pub header: u8,
    pub command: u16,
    pub payload_length: u8,
    pub data: u8,
    pub checksum: u8,
}

/// Length in bytes of a whole [`UpdateTimeAckResponse`] frame.
pub const UPDATE_TIME_ACK_LEN: usize = 6;

impl UpdateTimeAckResponse {
    /// The bytes the checksum covers: command, payload length and payload.
    pub open spec fn body(&self) -> Seq<u8> {
        be16(self.command) + seq![self.payload_length] + seq![self.data]
    }

    /// The frame as it travels on the wire.
    pub open spec fn frame(&self) -> Seq<u8> {
        seq![self.header] + self.body() + seq![self.checksum]
    }

    /// The checksum field agrees with the other fields.
    pub open spec fn wf(&self) -> bool {
        self.checksum == xor_fold(self.body())
    }

    /// `self` is the message held by the first 6 bytes of `s`.
    pub open spec fn decodes_from(&self, s: Seq<u8>) -> bool {
        &&& self.header == s[0]
        &&& self.command == be16_at(s, 1)
        &&& self.payload_length == s[3]
        &&& self.data == s[4]
        &&& self.checksum == s[5]
    }

    /// A well-formed message with the fixed fields of its kind.
    pub fn new() -> (r: Self)
        ensures
            r.header == FRAME_HEADER,
            r.command == UPDATE_TIME_REQUEST,
            r.payload_length == 1,
            r.data == 0x00,
            r.wf(),
    {
        let mut m = UpdateTimeAckResponse {
            header: FRAME_HEADER,
            command: UPDATE_TIME_REQUEST,
            payload_length: 1,
            data: 0x00,
            checksum: 0,
        };
        m.checksum = m.calculate_checksum();
        m
    }

    fn body_bytes(&self) -> (r: Vec<u8>)
        ensures
            r@ == self.body(),
    {
        let mut b: Vec<u8> = Vec::new();
        put_be16(&mut b, self.command);
        put_u8(&mut b, self.payload_length);
        put_u8(&mut b, self.data);
        assert(b@ =~= self.body());
        b
    }

    /// Encodes the message as one frame.
    pub fn as_bytes(&self) -> (r: Vec<u8>)
        ensures
            r@ == self.frame(),
    {
        let mut b: Vec<u8> = Vec::new();
        put_u8(&mut b, self.header);
        let body = self.body_bytes();
        put_bytes(&mut b, body.as_slice());
        put_u8(&mut b, self.checksum);
        b
    }

    /// XOR of the command, payload length and payload bytes.
    pub fn calculate_checksum(&self) -> (r: u8)
        ensures
            r == xor_fold(self.body()),
    {
        let body = self.body_bytes();
        assert(body@.subrange(0, body@.len() as int) =~= body@);
        xor_range(body.as_slice(), 0, body.len())
    }

    /// Decodes one frame from the start of `input`; on success also returns
    /// the number of bytes it took.
    pub fn read(input: &[u8]) -> (r: Result<(usize, Self), DecodeError>)
        ensures
            be16_at(input@, 1) != UPDATE_TIME_REQUEST ==> r is Err,
            match r {
                Ok((n, m)) => kind_status(input@, UPDATE_TIME_ACK_LEN as int, UPDATE_TIME_REQUEST) == Ok::<(), DecodeError>(())
                    && n == UPDATE_TIME_ACK_LEN && m.decodes_from(input@),
                Err(e) => kind_status(input@, UPDATE_TIME_ACK_LEN as int, UPDATE_TIME_REQUEST)
                    == Err::<(), DecodeError>(e),
            },
    {
        match check_kind(input, UPDATE_TIME_ACK_LEN, UPDATE_TIME_REQUEST) {
            Err(e) => Err(e),
            Ok(()) => {
                let m = UpdateTimeAckResponse {
                    header: input[0],
                    command: get_be16(input, 1),
                    payload_length: input[3],
                    data: input[4],
                    checksum: input[5],
                };
                Ok((UPDATE_TIME_ACK_LEN, m))
            }
        }
    }
}

/// Decoding the frame of a well-formed [`UpdateTimeAckResponse`] gives the message back
/// and consumes the whole frame.
pub proof fn lemma_update_time_ack_response_round_trip(m: UpdateTimeAckResponse)
    requires
        m.wf(),
        m.command == UPDATE_TIME_REQUEST,
    ensures
        m.frame().len() == UPDATE_TIME_ACK_LEN,
        kind_status(m.frame(), UPDATE_TIME_ACK_LEN as int, UPDATE_TIME_REQUEST) == Ok::<(), DecodeError>(()),
        m.decodes_from(m.frame()),
        forall|d: UpdateTimeAckResponse| #[trigger] d.decodes_from(m.frame()) ==> d == m,
{
    let f = m.frame();
    lemma_framed(m.header, m.body());
    assert(f.subrange(1, 3) =~= be16(m.command));
    lemma_be16(m.command, f, 1);
    assert(f.subrange(4, 5) =~= seq![m.data]);
    assert(f[4] == f.subrange(4, 5)[0]);
}

/// Reports that a network took the new time.
#[derive(Debug, Clone, Copy)]
pub struct UpdateTimeResponse {
    pub header: u8,
    pub command: u16,
    pub payload_length: u8,
    pub network_id: u16,
    pub data: u8,
    pub checksum: u8,
}

/// Length in bytes of a whole [`UpdateTimeResponse`] frame.
pub const UPDATE_TIME_RESPONSE_LEN: usize = 8;

impl UpdateTimeResponse {
    /// The bytes the checksum covers: command, payload length and payload.
    pub open spec fn body(&self) -> Seq<u8> {
        be16(self.command) + seq![self.payload_length] + be16(self.network_id) + seq![self.data]
    }

    /// The frame as it travels on the wire.
    pub open spec fn frame(&self) -> Seq<u8> {
        seq![self.header] + self.body() + seq![self.checksum]
    }

    /// The checksum field agrees with the other fields.
    pub open spec fn wf(&self) -> bool {
        self.checksum == xor_fold(self.body())
    }

    /// `self` is the message held by the first 8 bytes of `s`.
    pub open spec fn decodes_from(&self, s: Seq<u8>) -> bool {
        &&& self.header == s[0]
        &&& self.command == be16_at(s, 1)
        &&& self.payload_length == s[3]
        &&& self.network_id == be16_at(s, 4)
        &&& self.data == s[6]
        &&& self.checksum == s[7]
    }

    /// A well-formed message with the fixed fields of its kind.
    pub fn new(network_id: u16) -> (r: Self)
        ensures
            r.header == FRAME_HEADER,
            r.command == UPDATE_TIME_RESPONSE,
            r.payload_length == 3,
            r.network_id == network_id,
            r.data == 0x00,
            r.wf(),
    {
        let mut m = UpdateTimeResponse {
            header: FRAME_HEADER,
            command: UPDATE_TIME_RESPONSE,
            payload_length: 3,
            network_id,
            data: 0x00,
            checksum: 0,
        };
        m.checksum = m.calculate_checksum();
        m
    }

    fn body_bytes(&self) -> (r: Vec<u8>)
        ensures
            r@ == self.body(),
    {
        let mut b: Vec<u8> = Vec::new();
        put_be16(&mut b, self.command);
        put_u8(&mut b, self.payload_length);
        put_be16(&mut b, self.network_id);
        put_u8(&mut b, self.data);
        assert(b@ =~= self.body());
        b
    }

    /// Encodes the message as one frame.
    pub fn as_bytes(&self) -> (r: Vec<u8>)
        ensures
            r@ == self.frame(),
    {
        let mut b: Vec<u8> = Vec::new();
        put_u8(&mut b, self.header);
        let body = self.body_bytes();
        put_bytes(&mut b, body.as_slice());
        put_u8(&mut b, self.checksum);
        b
    }

    /// XOR of the command, payload length and payload bytes.
    pub fn calculate_checksum(&self) -> (r: u8)
        ensures
            r == xor_fold(self.body()),
    {
        let body = self.body_bytes();
        assert(body@.subrange(0, body@.len() as int) =~= body@);
        xor_range(body.as_slice(), 0, body.len())
    }

    /// Decodes one frame from the start of `input`; on success also returns
    /// the number of bytes it took.
    pub fn read(input: &[u8]) -> (r: Result<(usize, Self), DecodeError>)
        ensures
            be16_at(input@, 1) != UPDATE_TIME_RESPONSE ==> r is Err,
            match r {
                Ok((n, m)) => kind_status(input@, UPDATE_TIME_RESPONSE_LEN as int, UPDATE_TIME_RESPONSE) == Ok::<(), DecodeError>(())
                    && n == UPDATE_TIME_RESPONSE_LEN && m.decodes_from(input@),
                Err(e) => kind_status(input@, UPDATE_TIME_RESPONSE_LEN as int, UPDATE_TIME_RESPONSE)
                    == Err::<(), DecodeError>(e),
            },
    {
        match check_kind(input, UPDATE_TIME_RESPONSE_LEN, UPDATE_TIME_RESPONSE) {
            Err(e) => Err(e),
            Ok(()) => {
                let m = UpdateTimeResponse {
                    header: input[0],
                    command: get_be16(input, 1),
                    payload_length: input[3],
                    network_id: get_be16(input, 4),
                    data: input[6],
                    checksum: input[7],
                };
                Ok((UPDATE_TIME_RESPONSE_LEN, m))
            }
        }
    }
}

/// Decoding the frame of a well-formed [`UpdateTimeResponse`] gives the message back
/// and consumes the whole frame.
pub proof fn lemma_update_time_response_round_trip(m: UpdateTimeResponse)
    requires
        m.wf(),
        m.command == UPDATE_TIME_RESPONSE,
    ensures
        m.frame().len() == UPDATE_TIME_RESPONSE_LEN,
        kind_status(m.frame(), UPDATE_TIME_RESPONSE_LEN as int, UPDATE_TIME_RESPONSE) == Ok::<(), DecodeError>(()),
        m.decodes_from(m.frame()),
        forall|d: UpdateTimeResponse| #[trigger] d.decodes_from(m.frame()) ==> d == m,
{
    let f = m.frame();
    lemma_framed(m.header, m.body());
    assert(f.subrange(1, 3) =~= be16(m.command));
    lemma_be16(m.command, f, 1);
    assert(f.subrange(4, 6) =~= be16(m.network_id));
    lemma_be16(m.network_id, f, 4);
    assert(f.subrange(6, 7) =~= seq![m.data]);
    assert(f[6] == f.subrange(6, 7)[0]);
}

/// The reply to a handshake request.
#[derive(Debug, Clone, Copy)]
pub struct HandshakeResponse {
    pub header: u8,
    pub command: u16,
    pub payload_length: u8,
    pub data: u8,
    pub checksum: u8,
}

/// Length in bytes of a whole [`HandshakeResponse`] frame.
pub const HANDSHAKE_RESPONSE_LEN: usize = 6;

impl HandshakeResponse {
    /// The bytes the checksum covers: command, payload length and payload.
    pub open spec fn body(&self) -> Seq<u8> {
        be16(self.command) + seq![self.payload_length] + seq![self.data]
    }

    /// The frame as it travels on the wire.
    pub open spec fn frame(&self) -> Seq<u8> {
        seq![self.header] + self.body() + seq![self.checksum]
    }

    /// The checksum field agrees with the other fields.
    pub open spec fn wf(&self) -> bool {
        self.checksum == xor_fold(self.body())
    }

    /// `self` is the message held by the first 6 bytes of `s`.
    pub open spec fn decodes_from(&self, s: Seq<u8>) -> bool {
        &&& self.header == s[0]
        &&& self.command == be16_at(s, 1)
        &&& self.payload_length == s[3]
        &&& self.data == s[4]
        &&& self.checksum == s[5]
    }

    /// A well-formed message with the fixed fields of its kind.
    pub fn new() -> (r: Self)
        ensures
            r.header == FRAME_HEADER,
            r.command == HANDSHAKE_REQUEST,
            r.payload_length == 1,
            r.data == 0x00,
            r.wf(),
    {
        let mut m = HandshakeResponse {
            header: FRAME_HEADER,
            command: HANDSHAKE_REQUEST,
            payload_length: 1,
            data: 0x00,
            checksum: 0,
        };
        m.checksum = m.calculate_checksum();
        m
    }

    fn body_bytes(&self) -> (r: Vec<u8>)
        ensures
            r@ == self.body(),
    {
        let mut b: Vec<u8> = Vec::new();
        put_be16(&mut b, self.command);
        put_u8(&mut b, self.payload_length);
        put_u8(&mut b, self.data);
        assert(b@ =~= self.body());
        b
    }

    /// Encodes the message as one frame.
    pub fn as_bytes(&self) -> (r: Vec<u8>)
        ensures
            r@ == self.frame(),
    {
        let mut b: Vec<u8> = Vec::new();
        put_u8(&mut b, self.header);
        let body = self.body_bytes();
        put_bytes(&mut b, body.as_slice());
        put_u8(&mut b, self.checksum);
        b
    }

    /// XOR of the command, payload length and payload bytes.
    pub fn calculate_checksum(&self) -> (r: u8)
        ensures
            r == xor_fold(self.body()),
    {
        let body = self.body_bytes();
        assert(body@.subrange(0, body@.len() as int) =~= body@);
        xor_range(body.as_slice(), 0, body.len())
    }

    /// Decodes one frame from the start of `input`; on success also returns
    /// the number of bytes it took.
    pub fn read(input: &[u8]) -> (r: Result<(usize, Self), DecodeError>)
        ensures
            be16_at(input@, 1) != HANDSHAKE_REQUEST ==> r is Err,
            match r {
                Ok((n, m)) => kind_status(input@, HANDSHAKE_RESPONSE_LEN as int, HANDSHAKE_REQUEST) == Ok::<(), DecodeError>(())
                    && n == HANDSHAKE_RESPONSE_LEN && m.decodes_from(input@),
                Err(e) => kind_status(input@, HANDSHAKE_RESPONSE_LEN as int, HANDSHAKE_REQUEST)
                    == Err::<(), DecodeError>(e),
            },
    {
        match check_kind(input, HANDSHAKE_RESPONSE_LEN, HANDSHAKE_REQUEST) {
            Err(e) => Err(e),
            Ok(()) => {
                let m = HandshakeResponse {
                    header: input[0],
                    command: get_be16(input, 1),
                    payload_length: input[3],
                    data: input[4],
                    checksum: input[5],
                };
                Ok((HANDSHAKE_RESPONSE_LEN, m))
            }
        }
    }
}

/// Decoding the frame of a well-formed [`HandshakeResponse`] gives the message back
/// and consumes the whole frame.
pub proof fn lemma_handshake_response_round_trip(m: HandshakeResponse)
    requires
        m.wf(),
        m.command == HANDSHAKE_REQUEST,
    ensures
        m.frame().len() == HANDSHAKE_RESPONSE_LEN,
        kind_status(m.frame(), HANDSHAKE_RESPONSE_LEN as int, HANDSHAKE_REQUEST) == Ok::<(), DecodeError>(()),
        m.decodes_from(m.frame()),
        forall|d: HandshakeResponse| #[trigger] d.decodes_from(m.frame()) ==> d == m,
{
    let f = m.frame();
    lemma_framed(m.header, m.body());
    assert(f.subrange(1, 3) =~= be16(m.command));
    lemma_be16(m.command, f, 1);
    assert(f.subrange(4, 5) =~= seq![m.data]);
    assert(f[4] == f.subrange(4, 5)[0]);
}

/// Acknowledges a samples request.
#[derive(Debug, Clone, Copy)]
pub struct AckResponse {
    pub header: u8,
    pub command: u16,
    pub payload_length: u8,
    pub data: u8,
    pub checksum: u8,
}

/// Length in bytes of a whole [`AckResponse`] frame.
pub const ACK_RESPONSE_LEN: usize = 6;

impl AckResponse {
    /// The bytes the checksum covers: command, payload length and payload.
    pub open spec fn body(&self) -> Seq<u8> {
        be16(self.command) + seq![self.payload_length] + seq![self.data]
    }

    /// The frame as it travels on the wire.
    pub open spec fn frame(&self) -> Seq<u8> {
        seq![self.header] + self.body() + seq![self.checksum]
    }

    /// The checksum field agrees with the other fields.
    pub open spec fn wf(&self) -> bool {
        self.checksum == xor_fold(self.body())
    }

    /// `self` is the message held by the first 6 bytes of `s`.
    pub open spec fn decodes_from(&self, s: Seq<u8>) -> bool {
        &&& self.header == s[0]
        &&& self.command == be16_at(s, 1)
        &&& self.payload_length == s[3]
        &&& self.data == s[4]
        &&& self.checksum == s[5]
    }

    /// A well-formed message with the fixed fields of its kind.
    pub fn new() -> (r: Self)
        ensures
            r.header == FRAME_HEADER,
            r.command == SAMPLES_REQUEST,
            r.payload_length == 1,
            r.data == 0x00,
            r.wf(),
    {
        let mut m = AckResponse {
            header: FRAME_HEADER,
            command: SAMPLES_REQUEST,
            payload_length: 1,
            data: 0x00,
            checksum: 0,
        };
        m.checksum = m.calculate_checksum();
        m
    }

    fn body_bytes(&self) -> (r: Vec<u8>)
        ensures
            r@ == self.body(),
    {
        let mut b: Vec<u8> = Vec::new();
        put_be16(&mut b, self.command);
        put_u8(&mut b, self.payload_length);
        put_u8(&mut b, self.data);
        assert(b@ =~= self.body());
        b
    }

    /// Encodes the message as one frame.
    pub fn as_bytes(&self) -> (r: Vec<u8>)
        ensures
            r@ == self.frame(),
    {
        let mut b: Vec<u8> = Vec::new();
        put_u8(&mut b, self.header);
        let body = self.body_bytes();
        put_bytes(&mut b, body.as_slice());
        put_u8(&mut b, self.checksum);
        b
    }

    /// XOR of the command, payload length and payload bytes.
    pub fn calculate_checksum(&self) -> (r: u8)
        ensures
            r == xor_fold(self.body()),
    {
        let body = self.body_bytes();
        assert(body@.subrange(0, body@.len() as int) =~= body@);
        xor_range(body.as_slice(), 0, body.len())
    }

    /// Decodes one frame from the start of `input`; on success also returns
    /// the number of bytes it took.
    pub fn read(input: &[u8]) -> (r: Result<(usize, Self), DecodeError>)
        ensures
            be16_at(input@, 1) != SAMPLES_REQUEST ==> r is Err,
            match r {
                Ok((n, m)) => kind_status(input@, ACK_RESPONSE_LEN as int, SAMPLES_REQUEST) == Ok::<(), DecodeError>(())
                    && n == ACK_RESPONSE_LEN && m.decodes_from(input@),
                Err(e) => kind_status(input@, ACK_RESPONSE_LEN as int, SAMPLES_REQUEST)
                    == Err::<(), DecodeError>(e),
            },
    {
        match check_kind(input, ACK_RESPONSE_LEN, SAMPLES_REQUEST) {
            Err(e) => Err(e),
            Ok(()) => {
                let m = AckResponse {
                    header: input[0],
                    command: get_be16(input, 1),
                    payload_length: input[3],
                    data: input[4],
                    checksum: input[5],
                };
                Ok((ACK_RESPONSE_LEN, m))
            }
        }
    }
}

/// Decoding the frame of a well-formed [`AckResponse`] gives the message back
/// and consumes the whole frame.
pub proof fn lemma_ack_response_round_trip(m: AckResponse)
    requires
        m.wf(),
        m.command == SAMPLES_REQUEST,
    ensures
        m.frame().len() == ACK_RESPONSE_LEN,
        kind_status(m.frame(), ACK_RESPONSE_LEN as int, SAMPLES_REQUEST) == Ok::<(), DecodeError>(()),
        m.decodes_from(m.frame()),
        forall|d: AckResponse| #[trigger] d.decodes_from(m.frame()) ==> d == m,
{
    let f = m.frame();
    lemma_framed(m.header, m.body());
    assert(f.subrange(1, 3) =~= be16(m.command));
    lemma_be16(m.command, f, 1);
    assert(f.subrange(4, 5) =~= seq![m.data]);
    assert(f[4] == f.subrange(4, 5)[0]);
}

/// The reply to a schedule request.
#[derive(Debug, Clone, Copy)]
pub struct ScheduleResponse {
    pub header: u8,
    pub command: u16,
    pub payload_length: u8,
    pub data: u8,
    pub checksum: u8,
}

/// Length in bytes of a whole [`ScheduleResponse`] frame.
pub const SCHEDULE_RESPONSE_LEN: usize = 6;

impl ScheduleResponse {
    /// The bytes the checksum covers: command, payload length and payload.
    pub open spec fn body(&self) -> Seq<u8> {
        be16(self.command) + seq![self.payload_length] + seq![self.data]
    }

    /// The frame as it travels on the wire.
    pub open spec fn frame(&self) -> Seq<u8> {
        seq![self.header] + self.body() + seq![self.checksum]
    }

    /// The checksum field agrees with the other fields.
    pub open spec fn wf(&self) -> bool {
        self.checksum == xor_fold(self.body())
    }

    /// `self` is the message held by the first 6 bytes of `s`.
    pub open spec fn decodes_from(&self, s: Seq<u8>) -> bool {
        &&& self.header == s[0]
        &&& self.command == be16_at(s, 1)
        &&& self.payload_length == s[3]
        &&& self.data == s[4]
        &&& self.checksum == s[5]
    }

    /// A well-formed message with the fixed fields of its kind.
    pub fn new() -> (r: Self)
        ensures
            r.header == FRAME_HEADER,
            r.command == SCHEDULE_REQUEST,
            r.payload_length == 1,
            r.data == 0x00,
            r.wf(),
    {
        let mut m = ScheduleResponse {
            header: FRAME_HEADER,
            command: SCHEDULE_REQUEST,
            payload_length: 1,
            data: 0x00,
            checksum: 0,
        };
        m.checksum = m.calculate_checksum();
        m
    }

    fn body_bytes(&self) -> (r: Vec<u8>)
        ensures
            r@ == self.body(),
    {
        let mut b: Vec<u8> = Vec::new();
        put_be16(&mut b, self.command);
        put_u8(&mut b, self.payload_length);
        put_u8(&mut b, self.data);
        assert(b@ =~= self.body());
        b
    }

    /// Encodes the message as one frame.
    pub fn as_bytes(&self) -> (r: Vec<u8>)
        ensures
            r@ == self.frame(),
    {
        let mut b: Vec<u8> = Vec::new();
        put_u8(&mut b, self.header);
        let body = self.body_bytes();
        put_bytes(&mut b, body.as_slice());
        put_u8(&mut b, self.checksum);
        b
    }

    /// XOR of the command, payload length and payload bytes.
    pub fn calculate_checksum(&self) -> (r: u8)
        ensures
            r == xor_fold(self.body()),
    {
        let body = self.body_bytes();
        assert(body@.subrange(0, body@.len() as int) =~= body@);
        xor_range(body.as_slice(), 0, body.len())
    }

    /// Decodes one frame from the start of `input`; on success also returns
    /// the number of bytes it took.
    pub fn read(input: &[u8]) -> (r: Result<(usize, Self), DecodeError>)
        ensures
            be16_at(input@, 1) != SCHEDULE_REQUEST ==> r is Err,
            match r {
                Ok((n, m)) => kind_status(input@, SCHEDULE_RESPONSE_LEN as int, SCHEDULE_REQUEST) == Ok::<(), DecodeError>(())
                    && n == SCHEDULE_RESPONSE_LEN && m.decodes_from(input@),
                Err(e) => kind_status(input@, SCHEDULE_RESPONSE_LEN as int, SCHEDULE_REQUEST)
                    == Err::<(), DecodeError>(e),
            },
    {
        match check_kind(input, SCHEDULE_RESPONSE_LEN, SCHEDULE_REQUEST) {
            Err(e) => Err(e),
            Ok(()) => {
                let m = ScheduleResponse {
                    header: input[0],
                    command: get_be16(input, 1),
                    payload_length: input[3],
                    data: input[4],
                    checksum: input[5],
                };
                Ok((SCHEDULE_RESPONSE_LEN, m))
            }
        }
    }
}

/// Decoding the frame of a well-formed [`ScheduleResponse`] gives the message back
/// and consumes the whole frame.
pub proof fn lemma_schedule_response_round_trip(m: ScheduleResponse)
    requires
        m.wf(),
        m.command == SCHEDULE_REQUEST,
    ensures
        m.frame().len() == SCHEDULE_RESPONSE_LEN,
        kind_status(m.frame(), SCHEDULE_RESPONSE_LEN as int, SCHEDULE_REQUEST) == Ok::<(), DecodeError>(()),
        m.decodes_from(m.frame()),
        forall|d: ScheduleResponse| #[trigger] d.decodes_from(m.frame()) ==> d == m,
{
    let f = m.frame();
    lemma_framed(m.header, m.body());
    assert(f.subrange(1, 3) =~= be16(m.command));
    lemma_be16(m.command, f, 1);
    assert(f.subrange(4, 5) =~= seq![m.data]);
    assert(f[4] == f.subrange(4, 5)[0]);
}

/// Little-endian bytes of each value of `v`, in order.
pub open spec fn le16_seq(v: Seq<u16>) -> Seq<u8>
    decreases v.len(),
{
    if v.len() == 0 {
        Seq::empty()
    } else {
        le16_seq(v.drop_last()) + le16(v.last())
    }
}

/// The `j`-th pair of bytes of `le16_seq(v)` encodes `v[j]`.
pub proof fn lemma_le16_seq(v: Seq<u16>, j: int)
    requires
        0 <= j < v.len(),
    ensures
        le16_seq(v).len() == 2 * v.len(),
        le16_seq(v).subrange(2 * j, 2 * j + 2) == le16(v[j]),
    decreases v.len(),
{
    lemma_le16_seq_len(v);
    let w = v.drop_last();
    lemma_le16_seq_len(w);
    if j < v.len() - 1 {
        lemma_le16_seq(w, j);
        assert(le16_seq(v).subrange(2 * j, 2 * j + 2) =~= le16_seq(w).subrange(2 * j, 2 * j + 2));
    } else {
        assert(le16_seq(v).subrange(2 * j, 2 * j + 2) =~= le16(v.last()));
    }
}

/// `le16_seq(v)` holds two bytes per value.
pub proof fn lemma_le16_seq_len(v: Seq<u16>)
    ensures
        le16_seq(v).len() == 2 * v.len(),
    decreases v.len(),
{
    if v.len() > 0 {
        lemma_le16_seq_len(v.drop_last());
    }
}

/// Length of the part of a samples response that precedes the sample words.
pub const SAMPLES_FIXED_LEN: usize = 18;

/// Length of the samples response frame that starts `s`, as far as `s`
/// tells it: the fixed part alone until the sample count byte is at hand.
pub open spec fn samples_frame_len(s: Seq<u8>) -> int {
    if s.len() < 18 {
        18
    } else {
        19 + 2 * s[14]
    }
}

/// One historical power measurement.
#[derive(Debug, Clone, Copy, PartialEq, Eq, Structural)]
pub struct SampleReading {
    pub time: u8,
    pub wattage: u8,
}

/// The reading packed in one sample word: time in the high byte, wattage in
/// the low one.
pub open spec fn reading_of(word: u16) -> SampleReading {
    SampleReading { time: (word / 256) as u8, wattage: (word % 256) as u8 }
}

/// The stored samples of one socket, with the count of those left on the
/// device.
#[derive(Debug)]
pub struct SamplesResponse {
    pub header: u8,
    pub command: u16,
    pub payload_length: u8,
    pub network_id: u16,
    pub channel_id: u16,
    pub data: u16,
    /// Little-endian on the wire.
    pub time: u32,
    /// Number of sample words in this frame.
    pub sample_count: u8,
    /// Samples left on the device: three little-endian bytes on the wire.
    pub stored_sample_count: u32,
    pub samples: Vec<u16>,
    pub checksum: u8,
}

impl SamplesResponse {
    /// The bytes the checksum covers: command, payload length and payload.
    pub open spec fn body(&self) -> Seq<u8> {
        be16(self.command) + seq![self.payload_length] + be16(self.network_id) + be16(
            self.channel_id,
        ) + be16(self.data) + le32(self.time) + seq![self.sample_count] + le24(
            self.stored_sample_count,
        ) + le16_seq(self.samples@)
    }

    /// The frame as it travels on the wire.
    pub open spec fn frame(&self) -> Seq<u8> {
        seq![self.header] + self.body() + seq![self.checksum]
    }

    /// The checksum field agrees with the other fields.
    pub open spec fn wf(&self) -> bool {
        self.checksum == xor_fold(self.body())
    }

    /// `self` is the message held by the first `samples_frame_len(s)` bytes
    /// of `s`: exactly `s[14]` sample words follow the fixed part.
    pub open spec fn decodes_from(&self, s: Seq<u8>) -> bool {
        &&& self.header == s[0]
        &&& self.command == be16_at(s, 1)
        &&& self.payload_length == s[3]
        &&& self.network_id == be16_at(s, 4)
        &&& self.channel_id == be16_at(s, 6)
        &&& self.data == be16_at(s, 8)
        &&& self.time == le32_at(s, 10)
        &&& self.sample_count == s[14]
        &&& self.stored_sample_count == le24_at(s, 15)
        &&& self.samples@ == Seq::new(s[14] as nat, |j: int| le16_at(s, 18 + 2 * j))
        &&& self.checksum == s[18 + 2 * s[14]]
    }

    /// A well-formed samples response with the given fields.
    pub fn new(
        payload_length: u8,
        network_id: u16,
        channel_id: u16,
        data: u16,
        sample_count: u8,
        time: u32,
        stored_sample_count: u32,
        samples: Vec<u16>,
    ) -> (r: Self)
        ensures
            r.header == FRAME_HEADER,
            r.command == SAMPLES_RESPONSE,
            r.payload_length == payload_length,
            r.network_id == network_id,
            r.channel_id == channel_id,
            r.data == data,
            r.time == time,
            r.sample_count == sample_count,
            r.stored_sample_count == stored_sample_count,
            r.samples@ == samples@,
            r.wf(),
    {
        let mut m = SamplesResponse {
            header: FRAME_HEADER,
            command: SAMPLES_RESPONSE,
            payload_length,
            network_id,
            channel_id,
            data,
            time,
            sample_count,
            stored_sample_count,
            samples,
            checksum: 0,
        };
        m.checksum = m.calculate_checksum();
        m
    }

    fn body_bytes(&self) -> (r: Vec<u8>)
        ensures
            r@ == self.body(),
    {
        let mut b: Vec<u8> = Vec::new();
        put_be16(&mut b, self.command);
        put_u8(&mut b, self.payload_length);
        put_be16(&mut b, self.network_id);
        put_be16(&mut b, self.channel_id);
        put_be16(&mut b, self.data);
        put_le32(&mut b, self.time);
        put_u8(&mut b, self.sample_count);
        put_le24(&mut b, self.stored_sample_count);
        let ghost fixed = b@;
        let mut i: usize = 0;
        while i < self.samples.len()
            invariant
                i <= self.samples@.len(),
                b@ == fixed + le16_seq(self.samples@.subrange(0, i as int)),
            decreases self.samples@.len() - i,
        {
            put_le16(&mut b, self.samples[i]);
            assert(self.samples@.subrange(0, i as int + 1).drop_last()
                =~= self.samples@.subrange(0, i as int));
            i = i + 1;
            assert(b@ =~= fixed + le16_seq(self.samples@.subrange(0, i as int)));
        }
        assert(self.samples@.subrange(0, i as int) =~= self.samples@);
        assert(b@ =~= self.body());
        b
    }

    /// Encodes the message as one frame.
    pub fn as_bytes(&self) -> (r: Vec<u8>)
        ensures
            r@ == self.frame(),
    {
        let mut b: Vec<u8> = Vec::new();
        put_u8(&mut b, self.header);
        let body = self.body_bytes();
        put_bytes(&mut b, body.as_slice());
        put_u8(&mut b, self.checksum);
        b
    }

    /// XOR of the command, payload length and payload bytes.
    pub fn calculate_checksum(&self) -> (r: u8)
        ensures
            r == xor_fold(self.body()),
    {
        let body = self.body_bytes();
        assert(body@.subrange(0, body@.len() as int) =~= body@);
        xor_range(body.as_slice(), 0, body.len())
    }

    /// Decodes one frame from the start of `input`, its length given by the
    /// sample count byte; on success also returns the number of bytes it took.
    pub fn read(input: &[u8]) -> (r: Result<(usize, Self), DecodeError>)
        ensures
            be16_at(input@, 1) != SAMPLES_RESPONSE ==> r is Err,
            match r {
                Ok((n, m)) => kind_status(input@, samples_frame_len(input@), SAMPLES_RESPONSE)
                    == Ok::<(), DecodeError>(()) && n == samples_frame_len(input@)
                    && m.decodes_from(input@),
                Err(e) => kind_status(input@, samples_frame_len(input@), SAMPLES_RESPONSE)
                    == Err::<(), DecodeError>(e),
            },
    {
        if input.len() < SAMPLES_FIXED_LEN {
            return Err(DecodeError::Incomplete { needed: SAMPLES_FIXED_LEN });
        }
        let count = input[14];
        let n: usize = 19 + 2 * (count as usize);
        match check_kind(input, n, SAMPLES_RESPONSE) {
            Err(e) => Err(e),
            Ok(()) => {
                let mut samples: Vec<u16> = Vec::new();
                let mut j: usize = 0;
                while j < count as usize
                    invariant
                        j <= count,
                        n == 19 + 2 * count,
                        n <= input@.len(),
                        samples@ == Seq::new(j as nat, |t: int| le16_at(input@, 18 + 2 * t)),
                    decreases count - j,
                {
                    samples.push(get_le16(input, 18 + 2 * j));
                    j = j + 1;
                    assert(samples@ =~= Seq::new(j as nat, |t: int| le16_at(input@, 18 + 2 * t)));
                }
                let m = SamplesResponse {
                    header: input[0],
                    command: get_be16(input, 1),
                    payload_length: input[3],
                    network_id: get_be16(input, 4),
                    channel_id: get_be16(input, 6),
                    data: get_be16(input, 8),
                    time: get_le32(input, 10),
                    sample_count: count,
                    stored_sample_count: get_le24(input, 15),
                    samples,
                    checksum: input[n - 1],
                };
                Ok((n, m))
            },
        }
    }

    /// The readings packed in the sample words, in order.
    pub fn readings(&self) -> (r: Vec<SampleReading>)
        ensures
            r@ == self.samples@.map_values(|w: u16| reading_of(w)),
    {
        let mut r: Vec<SampleReading> = Vec::new();
        let mut i: usize = 0;
        while i < self.samples.len()
            invariant
                i <= self.samples@.len(),
                r@ == self.samples@.subrange(0, i as int).map_values(|w: u16| reading_of(w)),
            decreases self.samples@.len() - i,
        {
            let w = self.samples[i];
            r.push(SampleReading { time: (w / 256) as u8, wattage: (w % 256) as u8 });
            i = i + 1;
            assert(r@ =~= self.samples@.subrange(0, i as int).map_values(|w: u16| reading_of(w)));
        }
        assert(self.samples@.subrange(0, i as int) =~= self.samples@);
        r
    }
}

/// Decoding the frame of a well-formed [`SamplesResponse`] whose count field
/// matches its samples gives the message back, reading exactly
/// `sample_count` sample words before the checksum byte.
pub proof fn lemma_samples_response_round_trip(m: SamplesResponse)
    requires
        m.wf(),
        m.command == SAMPLES_RESPONSE,
        m.samples@.len() == m.sample_count,
        m.stored_sample_count < 0x100_0000,
    ensures
        m.frame().len() == 19 + 2 * m.sample_count,
        samples_frame_len(m.frame()) == m.frame().len(),
        kind_status(m.frame(), samples_frame_len(m.frame()), SAMPLES_RESPONSE) == Ok::<
            (),
            DecodeError,
        >(()),
        m.decodes_from(m.frame()),
        forall|d: SamplesResponse| #[trigger] d.decodes_from(m.frame()) ==> (
            d.header == m.header
            && d.command == m.command
            && d.payload_length == m.payload_length
            && d.network_id == m.network_id
            && d.channel_id == m.channel_id
            && d.data == m.data
            && d.time == m.time
            && d.sample_count == m.sample_count
            && d.stored_sample_count == m.stored_sample_count
            && d.samples@ == m.samples@
            && d.checksum == m.checksum
        ),
{
    let f = m.frame();
    let k = m.sample_count as int;
    lemma_le16_seq_len(m.samples@);
    lemma_framed(m.header, m.body());
    assert(f.subrange(1, 3) =~= be16(m.command));
    lemma_be16(m.command, f, 1);
    assert(f.subrange(3, 4) =~= seq![m.payload_length]);
    assert(f[3] == f.subrange(3, 4)[0]);
    assert(f.subrange(4, 6) =~= be16(m.network_id));
    lemma_be16(m.network_id, f, 4);
    assert(f.subrange(6, 8) =~= be16(m.channel_id));
    lemma_be16(m.channel_id, f, 6);
    assert(f.subrange(8, 10) =~= be16(m.data));
    lemma_be16(m.data, f, 8);
    assert(f.subrange(10, 14) =~= le32(m.time));
    lemma_le32(m.time, f, 10);
    assert(f.subrange(14, 15) =~= seq![m.sample_count]);
    assert(f[14] == f.subrange(14, 15)[0]);
    assert(f.subrange(15, 18) =~= le24(m.stored_sample_count));
    lemma_le24(m.stored_sample_count, f, 15);
    let words = f.subrange(18, 18 + 2 * k);
    assert(words =~= le16_seq(m.samples@));
    assert forall|j: int| 0 <= j < k implies le16_at(f, 18 + 2 * j) == m.samples@[j] by {
        lemma_le16_seq(m.samples@, j);
        assert(f.subrange(18 + 2 * j, 18 + 2 * j + 2) =~= words.subrange(2 * j, 2 * j + 2));
        lemma_le16(m.samples@[j], f, 18 + 2 * j);
    }
    assert(m.samples@ =~= Seq::new(f[14] as nat, |j: int| le16_at(f, 18 + 2 * j)));
}

/// Every proper prefix of a well-formed samples response frame is reported
/// as incomplete, never as a frame.
pub proof fn lemma_samples_response_prefix_incomplete(m: SamplesResponse, len: int)
    requires
        m.wf(),
        m.command == SAMPLES_RESPONSE,
        m.samples@.len() == m.sample_count,
        m.stored_sample_count < 0x100_0000,
        0 <= len < m.frame().len(),
    ensures
        kind_status(
            m.frame().subrange(0, len),
            samples_frame_len(m.frame().subrange(0, len)),
            SAMPLES_RESPONSE,
        ) == Err::<(), DecodeError>(DecodeError::Incomplete {
            needed: samples_frame_len(m.frame().subrange(0, len)) as usize,
        }),
{
    lemma_samples_response_round_trip(m);
    let p = m.frame().subrange(0, len);
    if len >= 18 {
        assert(p[14] == m.frame()[14]);
    }
}

} // verus!
