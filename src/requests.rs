//! Requests the host sends to the dongle.
use vstd::prelude::*;
use crate::catalog::{
    BOOT_CONFIRM_REQUEST, BOOT_REQUEST, HANDSHAKE_FLAGS, HANDSHAKE_REQUEST, LOCK_MAGIC,
    LOCK_REQUEST, SAMPLES_FLAGS, SAMPLES_REQUEST, SCHEDULE_REQUEST, UNLOCK_MAGIC,
    UPDATE_TIME_REQUEST,
};
use crate::wire::{
    DecodeError, FRAME_HEADER, be16, be16_at, be32, be32_at, check_kind, get_be16, get_be32,
    get_bytes, get_le32, kind_status, le32, le32_at, lemma_be16, lemma_be16_bit_flip,
    lemma_be32, lemma_flip_changes_checksum, lemma_framed, lemma_le32, put_be16, put_be32,
    put_bytes, put_le32, put_u8, xor_fold, xor_range,
};

verus! {

/// Asks the dongle to boot.
#[derive(Debug, Clone, Copy)]
pub struct BootRequest {
    pub header: u8,
    pub command: u16,
    pub payload_length: u8,
    pub checksum: u8,
}

/// Length in bytes of a whole [`BootRequest`] frame.
pub const BOOT_REQUEST_LEN: usize = 5;

impl BootRequest {
    /// The bytes the checksum covers: command, payload length and payload.
    pub open spec fn body(&self) -> Seq<u8> {
        be16(self.command) + seq![self.payload_length]
    }

    /// The frame as it travels on the wire.
    pub open spec fn frame(&self) -> Seq<u8> {
        seq![self.header] + self.body() + seq![self.checksum]
    }

    /// The checksum field agrees with the other fields.
    pub open spec fn wf(&self) -> bool {
        self.checksum == xor_fold(self.body())
    }

    /// `self` is the message held by the first 5 bytes of `s`.
    pub open spec fn decodes_from(&self, s: Seq<u8>) -> bool {
        &&& self.header == s[0]
        &&& self.command == be16_at(s, 1)
        &&& self.payload_length == s[3]
        &&& self.checksum == s[4]
    }

    /// A well-formed message with the fixed fields of its kind.
    pub fn new() -> (r: Self)
        ensures
            r.header == FRAME_HEADER,
            r.command == BOOT_REQUEST,
            r.payload_length == 0,
            r.wf(),
    {
        let mut m = BootRequest {
            header: FRAME_HEADER,
            command: BOOT_REQUEST,
            payload_length: 0,
            checksum: 0,
        };
        m.checksum = m.calculate_checksum();
        m
    }

    fn body_bytes(&self) -> (r: Vec<u8>)
        ensures
            r@ == self.body(),
    {
        let mut b: Vec<u8> = Vec::new();
        put_be16(&mut b, self.command);
        put_u8(&mut b, self.payload_length);
        assert(b@ =~= self.body());
        b
    }

    /// Encodes the message as one frame.
    pub fn as_bytes(&self) -> (r: Vec<u8>)
        ensures
            r@ == self.frame(),
    {
        let mut b: Vec<u8> = Vec::new();
        put_u8(&mut b, self.header);
        let body = self.body_bytes();
        put_bytes(&mut b, body.as_slice());
        put_u8(&mut b, self.checksum);
        b
    }

    /// XOR of the command, payload length and payload bytes.
    pub fn calculate_checksum(&self) -> (r: u8)
        ensures
            r == xor_fold(self.body()),
    {
        let body = self.body_bytes();
        assert(body@.subrange(0, body@.len() as int) =~= body@);
        xor_range(body.as_slice(), 0, body.len())
    }

    /// Decodes one frame from the start of `input`; on success also returns
    /// the number of bytes it took.
    pub fn read(input: &[u8]) -> (r: Result<(usize, Self), DecodeError>)
        ensures
            be16_at(input@, 1) != BOOT_REQUEST ==> r is Err,
            match r {
                Ok((n, m)) => kind_status(input@, BOOT_REQUEST_LEN as int, BOOT_REQUEST) == Ok::<(), DecodeError>(())
                    && n == BOOT_REQUEST_LEN && m.decodes_from(input@),
                Err(e) => kind_status(input@, BOOT_REQUEST_LEN as int, BOOT_REQUEST)
                    == Err::<(), DecodeError>(e),
            },
    {
        match check_kind(input, BOOT_REQUEST_LEN, BOOT_REQUEST) {
            Err(e) => Err(e),
            Ok(()) => {
                let m = BootRequest {
                    header: input[0],
                    command: get_be16(input, 1),
                    payload_length: input[3],
                    checksum: input[4],
                };
                Ok((BOOT_REQUEST_LEN, m))
            }
        }
    }
}

/// Decoding the frame of a well-formed [`BootRequest`] gives the message back
/// and consumes the whole frame.
pub proof fn lemma_boot_request_round_trip(m: BootRequest)
    requires
        m.wf(),
        m.command == BOOT_REQUEST,
    ensures
        m.frame().len() == BOOT_REQUEST_LEN,
        kind_status(m.frame(), BOOT_REQUEST_LEN as int, BOOT_REQUEST) == Ok::<(), DecodeError>(()),
        m.decodes_from(m.frame()),
        forall|d: BootRequest| #[trigger] d.decodes_from(m.frame()) ==> d == m,
{
    let f = m.frame();
    lemma_framed(m.header, m.body());
    assert(f.subrange(1, 3) =~= be16(m.command));
    lemma_be16(m.command, f, 1);
}

/// Confirms the boot handshake.
#[derive(Debug, Clone, Copy)]
pub struct BootConfirmRequest {
    pub header: u8,
    pub command: u16,
    pub payload_length: u8,
    pub checksum: u8,
}

/// Length in bytes of a whole [`BootConfirmRequest`] frame.
pub const BOOT_CONFIRM_REQUEST_LEN: usize = 5;

impl BootConfirmRequest {
    /// The bytes the checksum covers: command, payload length and payload.
    pub open spec fn body(&self) -> Seq<u8> {
        be16(self.command) + seq![self.payload_length]
    }

    /// The frame as it travels on the wire.
    pub open spec fn frame(&self) -> Seq<u8> {
        seq![self.header] + self.body() + seq![self.checksum]
    }

    /// The checksum field agrees with the other fields.
    pub open spec fn wf(&self) -> bool {
        self.checksum == xor_fold(self.body())
    }

    /// `self` is the message held by the first 5 bytes of `s`.
    pub open spec fn decodes_from(&self, s: Seq<u8>) -> bool {
        &&& self.header == s[0]
        &&& self.command == be16_at(s, 1)
        &&& self.payload_length == s[3]
        &&& self.checksum == s[4]
    }

    /// A well-formed message with the fixed fields of its kind.
    pub fn new() -> (r: Self)
        ensures
            r.header == FRAME_HEADER,
            r.command == BOOT_CONFIRM_REQUEST,
            r.payload_length == 1,
            r.wf(),
    {
        let mut m = BootConfirmRequest {
            header: FRAME_HEADER,
            command: BOOT_CONFIRM_REQUEST,
            payload_length: 1,
            checksum: 0,
        };
        m.checksum = m.calculate_checksum();
        m
    }

    fn body_bytes(&self) -> (r: Vec<u8>)
        ensures
            r@ == self.body(),
    {
        let mut b: Vec<u8> = Vec::new();
        put_be16(&mut b, self.command);
        put_u8(&mut b, self.payload_length);
        assert(b@ =~= self.body());
        b
    }

    /// Encodes the message as one frame.
    pub fn as_bytes(&self) -> (r: Vec<u8>)
        ensures
            r@ == self.frame(),
    {
        let mut b: Vec<u8> = Vec::new();
        put_u8(&mut b, self.header);
        let body = self.body_bytes();
        put_bytes(&mut b, body.as_slice());
        put_u8(&mut b, self.checksum);
        b
    }

    /// XOR of the command, payload length and payload bytes.
    pub fn calculate_checksum(&self) -> (r: u8)
        ensures
            r == xor_fold(self.body()),
    {
        let body = self.body_bytes();
        assert(body@.subrange(0, body@.len() as int) =~= body@);
        xor_range(body.as_slice(), 0, body.len())
    }

    /// Decodes one frame from the start of `input`; on success also returns
    /// the number of bytes it took.
    pub fn read(input: &[u8]) -> (r: Result<(usize, Self), DecodeError>)
        ensures
            be16_at(input@, 1) != BOOT_CONFIRM_REQUEST ==> r is Err,
            match r {
                Ok((n, m)) => kind_status(input@, BOOT_CONFIRM_REQUEST_LEN as int, BOOT_CONFIRM_REQUEST) == Ok::<(), DecodeError>(())
                    && n == BOOT_CONFIRM_REQUEST_LEN && m.decodes_from(input@),
                Err(e) => kind_status(input@, BOOT_CONFIRM_REQUEST_LEN as int, BOOT_CONFIRM_REQUEST)
                    == Err::<(), DecodeError>(e),
            },
    {
        match check_kind(input, BOOT_CONFIRM_REQUEST_LEN, BOOT_CONFIRM_REQUEST) {
            Err(e) => Err(e),
            Ok(()) => {
                let m = BootConfirmRequest {
                    header: input[0],
                    command: get_be16(input, 1),
                    payload_length: input[3],
                    checksum: input[4],
                };
                Ok((BOOT_CONFIRM_REQUEST_LEN, m))
            }
        }
    }
}

/// Decoding the frame of a well-formed [`BootConfirmRequest`] gives the message back
/// and consumes the whole frame.
pub proof fn lemma_boot_confirm_request_round_trip(m: BootConfirmRequest)
    requires
        m.wf(),
        m.command == BOOT_CONFIRM_REQUEST,
    ensures
        m.frame().len() == BOOT_CONFIRM_REQUEST_LEN,
        kind_status(m.frame(), BOOT_CONFIRM_REQUEST_LEN as int, BOOT_CONFIRM_REQUEST) == Ok::<(), DecodeError>(()),
        m.decodes_from(m.frame()),
        forall|d: BootConfirmRequest| #[trigger] d.decodes_from(m.frame()) ==> d == m,
{
    let f = m.frame();
    lemma_framed(m.header, m.body());
    assert(f.subrange(1, 3) =~= be16(m.command));
    lemma_be16(m.command, f, 1);
}

/// Opens the network to new devices.
#[derive(Debug, Clone, Copy)]
pub struct UnlockRequest {
    pub header: u8,
    pub command: u16,
    pub payload_length: u8,
    /// Magic constant that asks for the network to be unlocked.
    pub data: u32,
    pub checksum: u8,
}

/// Length in bytes of a whole [`UnlockRequest`] frame.
pub const UNLOCK_REQUEST_LEN: usize = 9;

impl UnlockRequest {
    /// The bytes the checksum covers: command, payload length and payload.
    pub open spec fn body(&self) -> Seq<u8> {
        be16(self.command) + seq![self.payload_length] + be32(self.data)
    }

    /// The frame as it travels on the wire.
    pub open spec fn frame(&self) -> Seq<u8> {
        seq![self.header] + self.body() + seq![self.checksum]
    }

    /// The checksum field agrees with the other fields.
    pub open spec fn wf(&self) -> bool {
        self.checksum == xor_fold(self.body())
    }

    /// `self` is the message held by the first 9 bytes of `s`.
    pub open spec fn decodes_from(&self, s: Seq<u8>) -> bool {
        &&& self.header == s[0]
        &&& self.command == be16_at(s, 1)
        &&& self.payload_length == s[3]
        &&& self.data == be32_at(s, 4)
        &&& self.checksum == s[8]
    }

    /// A well-formed message with the fixed fields of its kind.
    pub fn new() -> (r: Self)
        ensures
            r.header == FRAME_HEADER,
            r.command == LOCK_REQUEST,
            r.payload_length == 4,
            r.data == UNLOCK_MAGIC,
            r.wf(),
    {
        let mut m = UnlockRequest {
            header: FRAME_HEADER,
            command: LOCK_REQUEST,
            payload_length: 4,
            data: UNLOCK_MAGIC,
            checksum: 0,
        };
        m.checksum = m.calculate_checksum();
        m
    }

    fn body_bytes(&self) -> (r: Vec<u8>)
        ensures
            r@ == self.body(),
    {
        let mut b: Vec<u8> = Vec::new();
        put_be16(&mut b, self.command);
        put_u8(&mut b, self.payload_length);
        put_be32(&mut b, self.data);
        assert(b@ =~= self.body());
        b
    }

    /// Encodes the message as one frame.
    pub fn as_bytes(&self) -> (r: Vec<u8>)
        ensures
            r@ == self.frame(),
    {
        let mut b: Vec<u8> = Vec::new();
        put_u8(&mut b, self.header);
        let body = self.body_bytes();
        put_bytes(&mut b, body.as_slice());
        put_u8(&mut b, self.checksum);
        b
    }

    /// XOR of the command, payload length and payload bytes.
    pub fn calculate_checksum(&self) -> (r: u8)
        ensures
            r == xor_fold(self.body()),
    {
        let body = self.body_bytes();
        assert(body@.subrange(0, body@.len() as int) =~= body@);
        xor_range(body.as_slice(), 0, body.len())
    }

    /// Decodes one frame from the start of `input`; on success also returns
    /// the number of bytes it took.
    pub fn read(input: &[u8]) -> (r: Result<(usize, Self), DecodeError>)
        ensures
            be16_at(input@, 1) != LOCK_REQUEST ==> r is Err,
            match r {
                Ok((n, m)) => kind_status(input@, UNLOCK_REQUEST_LEN as int, LOCK_REQUEST) == Ok::<(), DecodeError>(())
                    && n == UNLOCK_REQUEST_LEN && m.decodes_from(input@),
                Err(e) => kind_status(input@, UNLOCK_REQUEST_LEN as int, LOCK_REQUEST)
                    == Err::<(), DecodeError>(e),
            },
    {
        match check_kind(input, UNLOCK_REQUEST_LEN, LOCK_REQUEST) {
            Err(e) => Err(e),
            Ok(()) => {
                let m = UnlockRequest {
                    header: input[0],
                    command: get_be16(input, 1),
                    payload_length: input[3],
                    data: get_be32(input, 4),
                    checksum: input[8],
                };
                Ok((UNLOCK_REQUEST_LEN, m))
            }
        }
    }
}

/// Decoding the frame of a well-formed [`UnlockRequest`] gives the message back
/// and consumes the whole frame.
pub proof fn lemma_unlock_request_round_trip(m: UnlockRequest)
    requires
        m.wf(),
        m.command == LOCK_REQUEST,
    ensures
        m.frame().len() == UNLOCK_REQUEST_LEN,
        kind_status(m.frame(), UNLOCK_REQUEST_LEN as int, LOCK_REQUEST) == Ok::<(), DecodeError>(()),
        m.decodes_from(m.frame()),
        forall|d: UnlockRequest| #[trigger] d.decodes_from(m.frame()) ==> d == m,
{
    let f = m.frame();
    lemma_framed(m.header, m.body());
    assert(f.subrange(1, 3) =~= be16(m.command));
    lemma_be16(m.command, f, 1);
    assert(f.subrange(4, 8) =~= be32(m.data));
    lemma_be32(m.data, f, 4);
}

/// Closes the network to new devices.
#[derive(Debug, Clone, Copy)]
pub struct LockRequest {
    pub header: u8,
    pub command: u16,
    pub payload_length: u8,
    /// Magic constant that asks for the network to be locked.
    pub data: u32,
    pub checksum: u8,
}

/// Length in bytes of a whole [`LockRequest`] frame.
pub const LOCK_REQUEST_LEN: usize = 9;

impl LockRequest {
    /// The bytes the checksum covers: command, payload length and payload.
    pub open spec fn body(&self) -> Seq<u8> {
        be16(self.command) + seq![self.payload_length] + be32(self.data)
    }

    /// The frame as it travels on the wire.
    pub open spec fn frame(&self) -> Seq<u8> {
        seq![self.header] + self.body() + seq![self.checksum]
    }

    /// The checksum field agrees with the other fields.
    pub open spec fn wf(&self) -> bool {
        self.checksum == xor_fold(self.body())
    }

    /// `self` is the message held by the first 9 bytes of `s`.
    pub open spec fn decodes_from(&self, s: Seq<u8>) -> bool {
        &&& self.header == s[0]
        &&& self.command == be16_at(s, 1)
        &&& self.payload_length == s[3]
        &&& self.data == be32_at(s, 4)
        &&& self.checksum == s[8]
    }

    /// A well-formed message with the fixed fields of its kind.
    pub fn new() -> (r: Self)
        ensures
            r.header == FRAME_HEADER,
            r.command == LOCK_REQUEST,
            r.payload_length == 4,
            r.data == LOCK_MAGIC,
            r.wf(),
    {
        let mut m = LockRequest {
            header: FRAME_HEADER,
            command: LOCK_REQUEST,
            payload_length: 4,
            data: LOCK_MAGIC,
            checksum: 0,
        };
        m.checksum = m.calculate_checksum();
        m
    }

    fn body_bytes(&self) -> (r: Vec<u8>)
        ensures
            r@ == self.body(),
    {
        let mut b: Vec<u8> = Vec::new();
        put_be16(&mut b, self.command);
        put_u8(&mut b, self.payload_length);
        put_be32(&mut b, self.data);
        assert(b@ =~= self.body());
        b
    }

    /// Encodes the message as one frame.
    pub fn as_bytes(&self) -> (r: Vec<u8>)
        ensures
            r@ == self.frame(),
    {
        let mut b: Vec<u8> = Vec::new();
        put_u8(&mut b, self.header);
        let body = self.body_bytes();
        put_bytes(&mut b, body.as_slice());
        put_u8(&mut b, self.checksum);
        b
    }

    /// XOR of the command, payload length and payload bytes.
    pub fn calculate_checksum(&self) -> (r: u8)
        ensures
            r == xor_fold(self.body()),
    {
        let body = self.body_bytes();
        assert(body@.subrange(0, body@.len() as int) =~= body@);
        xor_range(body.as_slice(), 0, body.len())
    }

    /// Decodes one frame from the start of `input`; on success also returns
    /// the number of bytes it took.
    pub fn read(input: &[u8]) -> (r: Result<(usize, Self), DecodeError>)
        ensures
            be16_at(input@, 1) != LOCK_REQUEST ==> r is Err,
            match r {
                Ok((n, m)) => kind_status(input@, LOCK_REQUEST_LEN as int, LOCK_REQUEST) == Ok::<(), DecodeError>(())
                    && n == LOCK_REQUEST_LEN && m.decodes_from(input@),
                Err(e) => kind_status(input@, LOCK_REQUEST_LEN as int, LOCK_REQUEST)
                    == Err::<(), DecodeError>(e),
            },
    {
        match check_kind(input, LOCK_REQUEST_LEN, LOCK_REQUEST) {
            Err(e) => Err(e),
            Ok(()) => {
                let m = LockRequest {
                    header: input[0],
                    command: get_be16(input, 1),
                    payload_length: input[3],
                    data: get_be32(input, 4),
                    checksum: input[8],
                };
                Ok((LOCK_REQUEST_LEN, m))
            }
        }
    }
}

/// Decoding the frame of a well-formed [`LockRequest`] gives the message back
/// and consumes the whole frame.
pub proof fn lemma_lock_request_round_trip(m: LockRequest)
    requires
        m.wf(),
        m.command == LOCK_REQUEST,
    ensures
        m.frame().len() == LOCK_REQUEST_LEN,
        kind_status(m.frame(), LOCK_REQUEST_LEN as int, LOCK_REQUEST) == Ok::<(), DecodeError>(()),
        m.decodes_from(m.frame()),
        forall|d: LockRequest| #[trigger] d.decodes_from(m.frame()) ==> d == m,
{
    let f = m.frame();
    lemma_framed(m.header, m.body());
    assert(f.subrange(1, 3) =~= be16(m.command));
    lemma_be16(m.command, f, 1);
    assert(f.subrange(4, 8) =~= be32(m.data));
    lemma_be32(m.data, f, 4);
}

/// Sets the clock of the devices of one network.
#[derive(Debug, Clone, Copy)]
pub struct UpdateTimeRequest {
    pub header: u8,
    pub command: u16,
    pub payload_length: u8,
    pub network_id: u16,
    /// Seconds since the Unix epoch, little-endian on the wire.
    pub time: u32,
    pub checksum: u8,
}

/// Length in bytes of a whole [`UpdateTimeRequest`] frame.
pub const UPDATE_TIME_REQUEST_LEN: usize = 11;

impl UpdateTimeRequest {
    /// The bytes the checksum covers: command, payload length and payload.
    pub open spec fn body(&self) -> Seq<u8> {
        be16(self.command) + seq![self.payload_length] + be16(self.network_id) + le32(self.time)
    }

    /// The frame as it travels on the wire.
    pub open spec fn frame(&self) -> Seq<u8> {
        seq![self.header] + self.body() + seq![self.checksum]
    }

    /// The checksum field agrees with the other fields.
    pub open spec fn wf(&self) -> bool {
        self.checksum == xor_fold(self.body())
    }

    /// `self` is the message held by the first 11 bytes of `s`.
    pub open spec fn decodes_from(&self, s: Seq<u8>) -> bool {
        &&& self.header == s[0]
        &&& self.command == be16_at(s, 1)
        &&& self.payload_length == s[3]
        &&& self.network_id == be16_at(s, 4)
        &&& self.time == le32_at(s, 6)
        &&& self.checksum == s[10]
    }

    /// A well-formed message with the fixed fields of its kind.
    pub fn new(network_id: u16, time: u32) -> (r: Self)
        ensures
            r.header == FRAME_HEADER,
            r.command == UPDATE_TIME_REQUEST,
            r.payload_length == 6,
            r.network_id == network_id,
            r.time == time,
            r.wf(),
    {
        let mut m = UpdateTimeRequest {
            header: FRAME_HEADER,
            command: UPDATE_TIME_REQUEST,
            payload_length: 6,
            network_id,
            time,
            checksum: 0,
        };
        m.checksum = m.calculate_checksum();
        m
    }

    fn body_bytes(&self) -> (r: Vec<u8>)
        ensures
            r@ == self.body(),
    {
        let mut b: Vec<u8> = Vec::new();
        put_be16(&mut b, self.command);
        put_u8(&mut b, self.payload_length);
        put_be16(&mut b, self.network_id);
        put_le32(&mut b, self.time);
        assert(b@ =~= self.body());
        b
    }

    /// Encodes the message as one frame.
    pub fn as_bytes(&self) -> (r: Vec<u8>)
        ensures
            r@ == self.frame(),
    {
        let mut b: Vec<u8> = Vec::new();
        put_u8(&mut b, self.header);
        let body = self.body_bytes();
        put_bytes(&mut b, body.as_slice());
        put_u8(&mut b, self.checksum);
        b
    }

    /// XOR of the command, payload length and payload bytes.
    pub fn calculate_checksum(&self) -> (r: u8)
        ensures
            r == xor_fold(self.body()),
    {
        let body = self.body_bytes();
        assert(body@.subrange(0, body@.len() as int) =~= body@);
        xor_range(body.as_slice(), 0, body.len())
    }

    /// Decodes one frame from the start of `input`; on success also returns
    /// the number of bytes it took.
    pub fn read(input: &[u8]) -> (r: Result<(usize, Self), DecodeError>)
        ensures
            be16_at(input@, 1) != UPDATE_TIME_REQUEST ==> r is Err,
            match r {
                Ok((n, m)) => kind_status(input@, UPDATE_TIME_REQUEST_LEN as int, UPDATE_TIME_REQUEST) == Ok::<(), DecodeError>(())
                    && n == UPDATE_TIME_REQUEST_LEN && m.decodes_from(input@),
                Err(e) => kind_status(input@, UPDATE_TIME_REQUEST_LEN as int, UPDATE_TIME_REQUEST)
                    == Err::<(), DecodeError>(e),
            },
    {
        match check_kind(input, UPDATE_TIME_REQUEST_LEN, UPDATE_TIME_REQUEST) {
            Err(e) => Err(e),
            Ok(()) => {
                let m = UpdateTimeRequest {
                    header: input[0],
                    command: get_be16(input, 1),
                    payload_length: input[3],
                    network_id: get_be16(input, 4),
                    time: get_le32(input, 6),
                    checksum: input[10],
                };
                Ok((UPDATE_TIME_REQUEST_LEN, m))
            }
        }
    }
}

/// Decoding the frame of a well-formed [`UpdateTimeRequest`] gives the message back
/// and consumes the whole frame.
pub proof fn lemma_update_time_request_round_trip(m: UpdateTimeRequest)
    requires
        m.wf(),
        m.command == UPDATE_TIME_REQUEST,
    ensures
        m.frame().len() == UPDATE_TIME_REQUEST_LEN,
        kind_status(m.frame(), UPDATE_TIME_REQUEST_LEN as int, UPDATE_TIME_REQUEST) == Ok::<(), DecodeError>(()),
        m.decodes_from(m.frame()),
        forall|d: UpdateTimeRequest| #[trigger] d.decodes_from(m.frame()) ==> d == m,
{
    let f = m.frame();
    lemma_framed(m.header, m.body());
    assert(f.subrange(1, 3) =~= be16(m.command));
    lemma_be16(m.command, f, 1);
    assert(f.subrange(4, 6) =~= be16(m.network_id));
    lemma_be16(m.network_id, f, 4);
    assert(f.subrange(6, 10) =~= le32(m.time));
    lemma_le32(m.time, f, 6);
}

/// Selects the network that later commands address.
#[derive(Debug, Clone, Copy)]
pub struct HandshakeRequest {
    pub header: u8,
    pub command: u16,
    pub payload_length: u8,
    pub network_id: u16,
    pub data: u16,
    pub checksum: u8,
}

/// Length in bytes of a whole [`HandshakeRequest`] frame.
pub const HANDSHAKE_REQUEST_LEN: usize = 9;

impl HandshakeRequest {
    /// The bytes the checksum covers: command, payload length and payload.
    pub open spec fn body(&self) -> Seq<u8> {
        be16(self.command) + seq![self.payload_length] + be16(self.network_id) + be16(self.data)
    }

    /// The frame as it travels on the wire.
    pub open spec fn frame(&self) -> Seq<u8> {
        seq![self.header] + self.body() + seq![self.checksum]
    }

    /// The checksum field agrees with the other fields.
    pub open spec fn wf(&self) -> bool {
        self.checksum == xor_fold(self.body())
    }

    /// `self` is the message held by the first 9 bytes of `s`.
    pub open spec fn decodes_from(&self, s: Seq<u8>) -> bool {
        &&& self.header == s[0]
        &&& self.command == be16_at(s, 1)
        &&& self.payload_length == s[3]
        &&& self.network_id == be16_at(s, 4)
        &&& self.data == be16_at(s, 6)
        &&& self.checksum == s[8]
    }

    /// A well-formed message with the fixed fields of its kind.
    pub fn new(network_id: u16) -> (r: Self)
        ensures
            r.header == FRAME_HEADER,
            r.command == HANDSHAKE_REQUEST,
            r.payload_length == 4,
            r.network_id == network_id,
            r.data == HANDSHAKE_FLAGS,
            r.wf(),
    {
        let mut m = HandshakeRequest {
            header: FRAME_HEADER,
            command: HANDSHAKE_REQUEST,
            payload_length: 4,
            network_id,
            data: HANDSHAKE_FLAGS,
            checksum: 0,
        };
        m.checksum = m.calculate_checksum();
        m
    }

    fn body_bytes(&self) -> (r: Vec<u8>)
        ensures
            r@ == self.body(),
    {
        let mut b: Vec<u8> = Vec::new();
        put_be16(&mut b, self.command);
        put_u8(&mut b, self.payload_length);
        put_be16(&mut b, self.network_id);
        put_be16(&mut b, self.data);
        assert(b@ =~= self.body());
        b
    }

    /// Encodes the message as one frame.
    pub fn as_bytes(&self) -> (r: Vec<u8>)
        ensures
            r@ == self.frame(),
    {
        let mut b: Vec<u8> = Vec::new();
        put_u8(&mut b, self.header);
        let body = self.body_bytes();
        put_bytes(&mut b, body.as_slice());
        put_u8(&mut b, self.checksum);
        b
    }

    /// XOR of the command, payload length and payload bytes.
    pub fn calculate_checksum(&self) -> (r: u8)
        ensures
            r == xor_fold(self.body()),
    {
        let body = self.body_bytes();
        assert(body@.subrange(0, body@.len() as int) =~= body@);
        xor_range(body.as_slice(), 0, body.len())
    }

    /// Decodes one frame from the start of `input`; on success also returns
    /// the number of bytes it took.
    pub fn read(input: &[u8]) -> (r: Result<(usize, Self), DecodeError>)
        ensures
            be16_at(input@, 1) != HANDSHAKE_REQUEST ==> r is Err,
            match r {
                Ok((n, m)) => kind_status(input@, HANDSHAKE_REQUEST_LEN as int, HANDSHAKE_REQUEST) == Ok::<(), DecodeError>(())
                    && n == HANDSHAKE_REQUEST_LEN && m.decodes_from(input@),
                Err(e) => kind_status(input@, HANDSHAKE_REQUEST_LEN as int, HANDSHAKE_REQUEST)
                    == Err::<(), DecodeError>(e),
            },
    {
        match check_kind(input, HANDSHAKE_REQUEST_LEN, HANDSHAKE_REQUEST) {
            Err(e) => Err(e),
            Ok(()) => {
                let m = HandshakeRequest {
                    header: input[0],
                    command: get_be16(input, 1),
                    payload_length: input[3],
                    network_id: get_be16(input, 4),
                    data: get_be16(input, 6),
                    checksum: input[8],
                };
                Ok((HANDSHAKE_REQUEST_LEN, m))
            }
        }
    }
}

/// Decoding the frame of a well-formed [`HandshakeRequest`] gives the message back
/// and consumes the whole frame.
pub proof fn lemma_handshake_request_round_trip(m: HandshakeRequest)
    requires
        m.wf(),
        m.command == HANDSHAKE_REQUEST,
    ensures
        m.frame().len() == HANDSHAKE_REQUEST_LEN,
        kind_status(m.frame(), HANDSHAKE_REQUEST_LEN as int, HANDSHAKE_REQUEST) == Ok::<(), DecodeError>(()),
        m.decodes_from(m.frame()),
        forall|d: HandshakeRequest| #[trigger] d.decodes_from(m.frame()) ==> d == m,
{
    let f = m.frame();
    lemma_framed(m.header, m.body());
    assert(f.subrange(1, 3) =~= be16(m.command));
    lemma_be16(m.command, f, 1);
    assert(f.subrange(4, 6) =~= be16(m.network_id));
    lemma_be16(m.network_id, f, 4);
    assert(f.subrange(6, 8) =~= be16(m.data));
    lemma_be16(m.data, f, 6);
}

/// Asks a socket for its stored power samples.
#[derive(Debug, Clone, Copy)]
pub struct SamplesRequest {
    pub header: u8,
    pub command: u16,
    pub payload_length: u8,
    pub network_id: u16,
    pub channel_id: u16,
    pub data: u16,
    pub checksum: u8,
}

/// Length in bytes of a whole [`SamplesRequest`] frame.
pub const SAMPLES_REQUEST_LEN: usize = 11;

impl SamplesRequest {
    /// The bytes the checksum covers: command, payload length and payload.
    pub open spec fn body(&self) -> Seq<u8> {
        be16(self.command) + seq![self.payload_length] + be16(self.network_id) + be16(self.channel_id) + be16(self.data)
    }

    /// The frame as it travels on the wire.
    pub open spec fn frame(&self) -> Seq<u8> {
        seq![self.header] + self.body() + seq![self.checksum]
    }

    /// The checksum field agrees with the other fields.
    pub open spec fn wf(&self) -> bool {
        self.checksum == xor_fold(self.body())
    }

    /// `self` is the message held by the first 11 bytes of `s`.
    pub open spec fn decodes_from(&self, s: Seq<u8>) -> bool {
        &&& self.header == s[0]
        &&& self.command == be16_at(s, 1)
        &&& self.payload_length == s[3]
        &&& self.network_id == be16_at(s, 4)
        &&& self.channel_id == be16_at(s, 6)
        &&& self.data == be16_at(s, 8)
        &&& self.checksum == s[10]
    }

    /// A well-formed message with the fixed fields of its kind.
    pub fn new(network_id: u16, channel_id: u16) -> (r: Self)
        ensures
            r.header == FRAME_HEADER,
            r.command == SAMPLES_REQUEST,
            r.payload_length == 6,
            r.network_id == network_id,
            r.channel_id == channel_id,
            r.data == SAMPLES_FLAGS,
            r.wf(),
    {
        let mut m = SamplesRequest {
            header: FRAME_HEADER,
            command: SAMPLES_REQUEST,
            payload_length: 6,
            network_id,
            channel_id,
            data: SAMPLES_FLAGS,
            checksum: 0,
        };
        m.checksum = m.calculate_checksum();
        m
    }

    fn body_bytes(&self) -> (r: Vec<u8>)
        ensures
            r@ == self.body(),
    {
        let mut b: Vec<u8> = Vec::new();
        put_be16(&mut b, self.command);
        put_u8(&mut b, self.payload_length);
        put_be16(&mut b, self.network_id);
        put_be16(&mut b, self.channel_id);
        put_be16(&mut b, self.data);
        assert(b@ =~= self.body());
        b
    }

    /// Encodes the message as one frame.
    pub fn as_bytes(&self) -> (r: Vec<u8>)
        ensures
            r@ == self.frame(),
    {
        let mut b: Vec<u8> = Vec::new();
        put_u8(&mut b, self.header);
        let body = self.body_bytes();
        put_bytes(&mut b, body.as_slice());
        put_u8(&mut b, self.checksum);
        b
    }

    /// XOR of the command, payload length and payload bytes.
    pub fn calculate_checksum(&self) -> (r: u8)
        ensures
            r == xor_fold(self.body()),
    {
        let body = self.body_bytes();
        assert(body@.subrange(0, body@.len() as int) =~= body@);
        xor_range(body.as_slice(), 0, body.len())
    }

    /// Decodes one frame from the start of `input`; on success also returns
    /// the number of bytes it took.
    pub fn read(input: &[u8]) -> (r: Result<(usize, Self), DecodeError>)
        ensures
            be16_at(input@, 1) != SAMPLES_REQUEST ==> r is Err,
            match r {
                Ok((n, m)) => kind_status(input@, SAMPLES_REQUEST_LEN as int, SAMPLES_REQUEST) == Ok::<(), DecodeError>(())
                    && n == SAMPLES_REQUEST_LEN && m.decodes_from(input@),
                Err(e) => kind_status(input@, SAMPLES_REQUEST_LEN as int, SAMPLES_REQUEST)
                    == Err::<(), DecodeError>(e),
            },
    {
        match check_kind(input, SAMPLES_REQUEST_LEN, SAMPLES_REQUEST) {
            Err(e) => Err(e),
            Ok(()) => {
                let m = SamplesRequest {
                    header: input[0],
                    command: get_be16(input, 1),
                    payload_length: input[3],
                    network_id: get_be16(input, 4),
                    channel_id: get_be16(input, 6),
                    data: get_be16(input, 8),
                    checksum: input[10],
                };
                Ok((SAMPLES_REQUEST_LEN, m))
            }
        }
    }
}

/// Decoding the frame of a well-formed [`SamplesRequest`] gives the message back
/// and consumes the whole frame.
pub proof fn lemma_samples_request_round_trip(m: SamplesRequest)
    requires
        m.wf(),
        m.command == SAMPLES_REQUEST,
    ensures
        m.frame().len() == SAMPLES_REQUEST_LEN,
        kind_status(m.frame(), SAMPLES_REQUEST_LEN as int, SAMPLES_REQUEST) == Ok::<(), DecodeError>(()),
        m.decodes_from(m.frame()),
        forall|d: SamplesRequest| #[trigger] d.decodes_from(m.frame()) ==> d == m,
{
    let f = m.frame();
    lemma_framed(m.header, m.body());
    assert(f.subrange(1, 3) =~= be16(m.command));
    lemma_be16(m.command, f, 1);
    assert(f.subrange(4, 6) =~= be16(m.network_id));
    lemma_be16(m.network_id, f, 4);
    assert(f.subrange(6, 8) =~= be16(m.channel_id));
    lemma_be16(m.channel_id, f, 6);
    assert(f.subrange(8, 10) =~= be16(m.data));
    lemma_be16(m.data, f, 8);
}

/// Sets the switching schedule of one socket.
#[derive(Debug)]
pub struct ScheduleRequest {
    pub header: u8,
    pub command: u16,
    pub payload_length: u8,
    pub network_id: u16,
    pub channel_id: u16,
    /// On/off schedule bitmap.
    pub schedule: Vec<u8>,
    pub checksum: u8,
}

/// Length in bytes of a whole [`ScheduleRequest`] frame.
pub const SCHEDULE_REQUEST_LEN: usize = 65;

impl ScheduleRequest {
    /// The bytes the checksum covers: command, payload length and payload.
    pub open spec fn body(&self) -> Seq<u8> {
        be16(self.command) + seq![self.payload_length] + be16(self.network_id) + be16(self.channel_id) + self.schedule@
    }

    /// The frame as it travels on the wire.
    pub open spec fn frame(&self) -> Seq<u8> {
        seq![self.header] + self.body() + seq![self.checksum]
    }

    /// The checksum field agrees with the other fields.
    pub open spec fn wf(&self) -> bool {
        self.checksum == xor_fold(self.body())
    }

    /// `self` is the message held by the first 65 bytes of `s`.
    pub open spec fn decodes_from(&self, s: Seq<u8>) -> bool {
        &&& self.header == s[0]
        &&& self.command == be16_at(s, 1)
        &&& self.payload_length == s[3]
        &&& self.network_id == be16_at(s, 4)
        &&& self.channel_id == be16_at(s, 6)
        &&& self.schedule@ == s.subrange(8, 64)
        &&& self.checksum == s[64]
    }

    /// A well-formed message with the fixed fields of its kind.
    pub fn new(network_id: u16, channel_id: u16) -> (r: Self)
        ensures
            r.header == FRAME_HEADER,
            r.command == SCHEDULE_REQUEST,
            r.payload_length == 59,
            r.network_id == network_id,
            r.channel_id == channel_id,
            r.schedule@ == Seq::new(56, |i: int| 0u8),
            r.wf(),
    {
        let mut m = ScheduleRequest {
            header: FRAME_HEADER,
            command: SCHEDULE_REQUEST,
            payload_length: 59,
            network_id,
            channel_id,
            schedule: vec![0u8; 56],
            checksum: 0,
        };
        m.checksum = m.calculate_checksum();
        m
    }

    fn body_bytes(&self) -> (r: Vec<u8>)
        ensures
            r@ == self.body(),
    {
        let mut b: Vec<u8> = Vec::new();
        put_be16(&mut b, self.command);
        put_u8(&mut b, self.payload_length);
        put_be16(&mut b, self.network_id);
        put_be16(&mut b, self.channel_id);
        put_bytes(&mut b, self.schedule.as_slice());
        assert(b@ =~= self.body());
        b
    }

    /// Encodes the message as one frame.
    pub fn as_bytes(&self) -> (r: Vec<u8>)
        ensures
            r@ == self.frame(),
    {
        let mut b: Vec<u8> = Vec::new();
        put_u8(&mut b, self.header);
        let body = self.body_bytes();
        put_bytes(&mut b, body.as_slice());
        put_u8(&mut b, self.checksum);
        b
    }

    /// XOR of the command, payload length and payload bytes.
    pub fn calculate_checksum(&self) -> (r: u8)
        ensures
            r == xor_fold(self.body()),
    {
        let body = self.body_bytes();
        assert(body@.subrange(0, body@.len() as int) =~= body@);
        xor_range(body.as_slice(), 0, body.len())
    }

    /// Decodes one frame from the start of `input`; on success also returns
    /// the number of bytes it took.
    pub fn read(input: &[u8]) -> (r: Result<(usize, Self), DecodeError>)
        ensures
            be16_at(input@, 1) != SCHEDULE_REQUEST ==> r is Err,
            match r {
                Ok((n, m)) => kind_status(input@, SCHEDULE_REQUEST_LEN as int, SCHEDULE_REQUEST) == Ok::<(), DecodeError>(())
                    && n == SCHEDULE_REQUEST_LEN && m.decodes_from(input@),
                Err(e) => kind_status(input@, SCHEDULE_REQUEST_LEN as int, SCHEDULE_REQUEST)
                    == Err::<(), DecodeError>(e),
            },
    {
        match check_kind(input, SCHEDULE_REQUEST_LEN, SCHEDULE_REQUEST) {
            Err(e) => Err(e),
            Ok(()) => {
                let m = ScheduleRequest {
                    header: input[0],
                    command: get_be16(input, 1),
                    payload_length: input[3],
                    network_id: get_be16(input, 4),
                    channel_id: get_be16(input, 6),
                    schedule: get_bytes(input, 8, 64),
                    checksum: input[64],
                };
                Ok((SCHEDULE_REQUEST_LEN, m))
            }
        }
    }
}

/// Decoding the frame of a well-formed [`ScheduleRequest`] gives the message back
/// and consumes the whole frame.
pub proof fn lemma_schedule_request_round_trip(m: ScheduleRequest)
    requires
        m.wf(),
        m.command == SCHEDULE_REQUEST,
        m.schedule@.len() == 56,
    ensures
        m.frame().len() == SCHEDULE_REQUEST_LEN,
        kind_status(m.frame(), SCHEDULE_REQUEST_LEN as int, SCHEDULE_REQUEST) == Ok::<(), DecodeError>(()),
        m.decodes_from(m.frame()),
        forall|d: ScheduleRequest| #[trigger] d.decodes_from(m.frame()) ==> (
            d.header == m.header
            && d.command == m.command
            && d.payload_length == m.payload_length
            && d.network_id == m.network_id
            && d.channel_id == m.channel_id
            && d.schedule@ == m.schedule@
            && d.checksum == m.checksum
        ),
{
    let f = m.frame();
    lemma_framed(m.header, m.body());
    assert(f.subrange(1, 3) =~= be16(m.command));
    lemma_be16(m.command, f, 1);
    assert(f.subrange(4, 6) =~= be16(m.network_id));
    lemma_be16(m.network_id, f, 4);
    assert(f.subrange(6, 8) =~= be16(m.channel_id));
    lemma_be16(m.channel_id, f, 6);
    assert(f.subrange(8, 64) =~= m.schedule@);
}

/// Marker byte of the canned "always on" schedule.
pub const ALWAYS_ON_MARKER: u8 = 0x25;
/// Marker byte of the canned "always off" schedule.
pub const ALWAYS_OFF_MARKER: u8 = 0xa5;

/// A canned 56-byte schedule: every byte `0x7f` but the sixth, which holds
/// `marker`.
pub open spec fn canned_schedule(marker: u8) -> Seq<u8> {
    Seq::new(56, |i: int| if i == 5 { marker } else { 0x7fu8 })
}

fn canned_schedule_bytes(marker: u8) -> (r: Vec<u8>)
    ensures
        r@ == canned_schedule(marker),
{
    let mut bitmap = vec![0x7fu8; 56];
    bitmap.set(5, marker);
    assert(bitmap@ =~= canned_schedule(marker));
    bitmap
}

impl ScheduleRequest {
    /// Replaces the schedule with the canned "always on" bitmap and brings
    /// the checksum up to date.
    pub fn always_on(&mut self)
        ensures
            final(self).schedule@ == canned_schedule(ALWAYS_ON_MARKER),
            final(self).header == old(self).header,
            final(self).command == old(self).command,
            final(self).payload_length == old(self).payload_length,
            final(self).network_id == old(self).network_id,
            final(self).channel_id == old(self).channel_id,
            final(self).wf(),
    {
        self.schedule = canned_schedule_bytes(ALWAYS_ON_MARKER);
        self.checksum = self.calculate_checksum();
    }

    /// Replaces the schedule with the canned "always off" bitmap and brings
    /// the checksum up to date.
    pub fn always_off(&mut self)
        ensures
            final(self).schedule@ == canned_schedule(ALWAYS_OFF_MARKER),
            final(self).header == old(self).header,
            final(self).command == old(self).command,
            final(self).payload_length == old(self).payload_length,
            final(self).network_id == old(self).network_id,
            final(self).channel_id == old(self).channel_id,
            final(self).wf(),
    {
        self.schedule = canned_schedule_bytes(ALWAYS_OFF_MARKER);
        self.checksum = self.calculate_checksum();
    }
}

/// Flipping any single bit of a schedule request's network id, of its
/// channel id, or of one byte of its schedule changes the checksum that
/// `calculate_checksum` computes.
pub proof fn lemma_schedule_checksum_sees_every_bit(
    r1: ScheduleRequest,
    r2: ScheduleRequest,
    bit: u16,
    j: int,
)
    requires
        r2.command == r1.command,
        r2.payload_length == r1.payload_length,
        bit < 16,
        ({
            ||| r2.network_id == r1.network_id ^ (1u16 << bit) && r2.channel_id == r1.channel_id
                && r2.schedule@ == r1.schedule@
            ||| r2.network_id == r1.network_id && r2.channel_id == r1.channel_id ^ (1u16 << bit)
                && r2.schedule@ == r1.schedule@
            ||| bit < 8 && 0 <= j < r1.schedule@.len() && r2.network_id == r1.network_id
                && r2.channel_id == r1.channel_id && r2.schedule@ == r1.schedule@.update(
                j,
                r1.schedule@[j] ^ (1u8 << bit as u8),
            )
        }),
    ensures
        xor_fold(r1.body()) != xor_fold(r2.body()),
{
    let b1 = r1.body();
    let b2 = r2.body();
    if r2.network_id == r1.network_id ^ (1u16 << bit) && r2.channel_id == r1.channel_id
        && r2.schedule@ == r1.schedule@ {
        lemma_be16_bit_flip(r1.network_id, bit);
        if bit >= 8 {
            let m = (1u16 << (bit - 8) as u16) as u8;
            assert(b2 =~= b1.update(3, b1[3] ^ m));
            lemma_flip_changes_checksum(b1, 3, m);
        } else {
            let m = (1u16 << bit) as u8;
            assert(b2 =~= b1.update(4, b1[4] ^ m));
            lemma_flip_changes_checksum(b1, 4, m);
        }
    } else if r2.network_id == r1.network_id && r2.channel_id == r1.channel_id ^ (1u16 << bit)
        && r2.schedule@ == r1.schedule@ {
        lemma_be16_bit_flip(r1.channel_id, bit);
        if bit >= 8 {
            let m = (1u16 << (bit - 8) as u16) as u8;
            assert(b2 =~= b1.update(5, b1[5] ^ m));
            lemma_flip_changes_checksum(b1, 5, m);
        } else {
            let m = (1u16 << bit) as u8;
            assert(b2 =~= b1.update(6, b1[6] ^ m));
            lemma_flip_changes_checksum(b1, 6, m);
        }
    } else {
        let b = bit as u8;
        let m = 1u8 << b;
        assert(m != 0) by (bit_vector)
            requires
                m == 1u8 << b,
                b < 8,
        ;
        assert(b2 =~= b1.update(7 + j, b1[7 + j] ^ m));
        lemma_flip_changes_checksum(b1, 7 + j, m);
    }
}

} // verus!
