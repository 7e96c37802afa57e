//! Byte-level building blocks shared by every frame: big- and little-endian
//! field encodings, the XOR checksum and the frame check run on decode.
use vstd::prelude::*;

verus! {

/// Sentinel byte that opens every frame.
pub const FRAME_HEADER: u8 = 0x02;

/// Big-endian bytes of a 16-bit value.
pub open spec fn be16(x: u16) -> Seq<u8> {
    seq![(x / 256) as u8, (x % 256) as u8]
}

/// Little-endian bytes of a 16-bit value.
pub open spec fn le16(x: u16) -> Seq<u8> {
    seq![(x % 256) as u8, (x / 256) as u8]
}

/// Big-endian bytes of a 32-bit value.
pub open spec fn be32(x: u32) -> Seq<u8> {
    be16((x / 0x10000) as u16) + be16((x % 0x10000) as u16)
}

/// Little-endian bytes of a 32-bit value.
pub open spec fn le32(x: u32) -> Seq<u8> {
    le16((x % 0x10000) as u16) + le16((x / 0x10000) as u16)
}

/// Little-endian bytes of a 24-bit value held in a `u32`.
pub open spec fn le24(x: u32) -> Seq<u8> {
    seq![(x % 256) as u8, ((x / 256) % 256) as u8, ((x / 0x10000) % 256) as u8]
}

/// Big-endian bytes of a 64-bit value.
pub open spec fn be64(x: u64) -> Seq<u8> {
    be32((x / 0x1_0000_0000) as u32) + be32((x % 0x1_0000_0000) as u32)
}

/// The 16-bit value whose big-endian bytes stand at `s[i]`, `s[i + 1]`.
pub open spec fn be16_at(s: Seq<u8>, i: int) -> u16 {
    (s[i] as int * 256 + s[i + 1] as int) as u16
}

/// The 16-bit value whose little-endian bytes stand at `s[i]`, `s[i + 1]`.
pub open spec fn le16_at(s: Seq<u8>, i: int) -> u16 {
    (s[i] as int + s[i + 1] as int * 256) as u16
}

/// The 32-bit value whose big-endian bytes start at `s[i]`.
pub open spec fn be32_at(s: Seq<u8>, i: int) -> u32 {
    (be16_at(s, i) as int * 0x10000 + be16_at(s, i + 2) as int) as u32
}

/// The 32-bit value whose little-endian bytes start at `s[i]`.
pub open spec fn le32_at(s: Seq<u8>, i: int) -> u32 {
    (le16_at(s, i) as int + le16_at(s, i + 2) as int * 0x10000) as u32
}

/// The 24-bit value whose little-endian bytes start at `s[i]`.
pub open spec fn le24_at(s: Seq<u8>, i: int) -> u32 {
    (s[i] as int + s[i + 1] as int * 256 + s[i + 2] as int * 0x10000) as u32
}

/// The 64-bit value whose big-endian bytes start at `s[i]`.
pub open spec fn be64_at(s: Seq<u8>, i: int) -> u64 {
    (be32_at(s, i) as int * 0x1_0000_0000 + be32_at(s, i + 4) as int) as u64
}

/// Reading back the big-endian bytes of a 16-bit value gives the value.
pub proof fn lemma_be16(x: u16, s: Seq<u8>, i: int)
    requires
        0 <= i,
        i + 2 <= s.len(),
        s.subrange(i, i + 2) == be16(x),
    ensures
        be16_at(s, i) == x,
{
    assert(s[i] == s.subrange(i, i + 2)[0]);
    assert(s[i + 1] == s.subrange(i, i + 2)[1]);
}

/// Reading back the little-endian bytes of a 16-bit value gives the value.
pub proof fn lemma_le16(x: u16, s: Seq<u8>, i: int)
    requires
        0 <= i,
        i + 2 <= s.len(),
        s.subrange(i, i + 2) == le16(x),
    ensures
        le16_at(s, i) == x,
{
    assert(s[i] == s.subrange(i, i + 2)[0]);
    assert(s[i + 1] == s.subrange(i, i + 2)[1]);
}

/// Reading back the big-endian bytes of a 32-bit value gives the value.
pub proof fn lemma_be32(x: u32, s: Seq<u8>, i: int)
    requires
        0 <= i,
        i + 4 <= s.len(),
        s.subrange(i, i + 4) == be32(x),
    ensures
        be32_at(s, i) == x,
{
    assert(s.subrange(i, i + 2) =~= s.subrange(i, i + 4).subrange(0, 2));
    assert(s.subrange(i + 2, i + 4) =~= s.subrange(i, i + 4).subrange(2, 4));
    assert(be32(x).subrange(0, 2) =~= be16((x / 0x10000) as u16));
    assert(be32(x).subrange(2, 4) =~= be16((x % 0x10000) as u16));
    lemma_be16((x / 0x10000) as u16, s, i);
    lemma_be16((x % 0x10000) as u16, s, i + 2);
}

/// Reading back the little-endian bytes of a 32-bit value gives the value.
pub proof fn lemma_le32(x: u32, s: Seq<u8>, i: int)
    requires
        0 <= i,
        i + 4 <= s.len(),
        s.subrange(i, i + 4) == le32(x),
    ensures
        le32_at(s, i) == x,
{
    assert(s.subrange(i, i + 2) =~= s.subrange(i, i + 4).subrange(0, 2));
    assert(s.subrange(i + 2, i + 4) =~= s.subrange(i, i + 4).subrange(2, 4));
    assert(le32(x).subrange(0, 2) =~= le16((x % 0x10000) as u16));
    assert(le32(x).subrange(2, 4) =~= le16((x / 0x10000) as u16));
    lemma_le16((x % 0x10000) as u16, s, i);
    lemma_le16((x / 0x10000) as u16, s, i + 2);
}

/// Reading back the little-endian bytes of a 24-bit value gives the value.
pub proof fn lemma_le24(x: u32, s: Seq<u8>, i: int)
    requires
        x < 0x100_0000,
        0 <= i,
        i + 3 <= s.len(),
        s.subrange(i, i + 3) == le24(x),
    ensures
        le24_at(s, i) == x,
{
    assert(s[i] == s.subrange(i, i + 3)[0]);
    assert(s[i + 1] == s.subrange(i, i + 3)[1]);
    assert(s[i + 2] == s.subrange(i, i + 3)[2]);
}

/// Reading back the big-endian bytes of a 64-bit value gives the value.
pub proof fn lemma_be64(x: u64, s: Seq<u8>, i: int)
    requires
        0 <= i,
        i + 8 <= s.len(),
        s.subrange(i, i + 8) == be64(x),
    ensures
        be64_at(s, i) == x,
{
    assert(s.subrange(i, i + 4) =~= s.subrange(i, i + 8).subrange(0, 4));
    assert(s.subrange(i + 4, i + 8) =~= s.subrange(i, i + 8).subrange(4, 8));
    assert(be64(x).subrange(0, 4) =~= be32((x / 0x1_0000_0000) as u32));
    assert(be64(x).subrange(4, 8) =~= be32((x % 0x1_0000_0000) as u32));
    lemma_be32((x / 0x1_0000_0000) as u32, s, i);
    lemma_be32((x % 0x1_0000_0000) as u32, s, i + 4);
}

/// Appends one byte.
pub fn put_u8(buf: &mut Vec<u8>, x: u8)
    ensures
        final(buf)@ == old(buf)@ + seq![x],
{
    buf.push(x);
    assert(final(buf)@ =~= old(buf)@ + seq![x]);
}

/// Appends the big-endian bytes of `x`.
pub fn put_be16(buf: &mut Vec<u8>, x: u16)
    ensures
        final(buf)@ == old(buf)@ + be16(x),
{
    buf.push((x / 256) as u8);
    buf.push((x % 256) as u8);
    assert(final(buf)@ =~= old(buf)@ + be16(x));
}

/// Appends the little-endian bytes of `x`.
pub fn put_le16(buf: &mut Vec<u8>, x: u16)
    ensures
        final(buf)@ == old(buf)@ + le16(x),
{
    buf.push((x % 256) as u8);
    buf.push((x / 256) as u8);
    assert(final(buf)@ =~= old(buf)@ + le16(x));
}

/// Appends the big-endian bytes of `x`.
pub fn put_be32(buf: &mut Vec<u8>, x: u32)
    ensures
        final(buf)@ == old(buf)@ + be32(x),
{
    put_be16(buf, (x / 0x10000) as u16);
    put_be16(buf, (x % 0x10000) as u16);
    assert(final(buf)@ =~= old(buf)@ + be32(x));
}

/// Appends the little-endian bytes of `x`.
pub fn put_le32(buf: &mut Vec<u8>, x: u32)
    ensures
        final(buf)@ == old(buf)@ + le32(x),
{
    put_le16(buf, (x % 0x10000) as u16);
    put_le16(buf, (x / 0x10000) as u16);
    assert(final(buf)@ =~= old(buf)@ + le32(x));
}

/// Appends the low three bytes of `x`, least significant first.
pub fn put_le24(buf: &mut Vec<u8>, x: u32)
    ensures
        final(buf)@ == old(buf)@ + le24(x),
{
    buf.push((x % 256) as u8);
    buf.push(((x / 256) % 256) as u8);
    buf.push(((x / 0x10000) % 256) as u8);
    assert(final(buf)@ =~= old(buf)@ + le24(x));
}

/// Appends the big-endian bytes of `x`.
pub fn put_be64(buf: &mut Vec<u8>, x: u64)
    ensures
        final(buf)@ == old(buf)@ + be64(x),
{
    put_be32(buf, (x / 0x1_0000_0000) as u32);
    put_be32(buf, (x % 0x1_0000_0000) as u32);
    assert(final(buf)@ =~= old(buf)@ + be64(x));
}

/// Appends every byte of `bytes`.
pub fn put_bytes(buf: &mut Vec<u8>, bytes: &[u8])
    ensures
        final(buf)@ == old(buf)@ + bytes@,
{
    let ghost start = buf@;
    let mut i: usize = 0;
    while i < bytes.len()
        invariant
            i <= bytes@.len(),
            buf@ == start + bytes@.subrange(0, i as int),
        decreases bytes@.len() - i,
    {
        buf.push(bytes[i]);
        i = i + 1;
        assert(buf@ =~= start + bytes@.subrange(0, i as int));
    }
    assert(bytes@.subrange(0, i as int) =~= bytes@);
}

/// The big-endian 16-bit value at `s[i]`, `s[i + 1]`.
pub fn get_be16(s: &[u8], i: usize) -> (r: u16)
    requires
        i + 2 <= s.len(),
    ensures
        r == be16_at(s@, i as int),
{
    (s[i] as u16) * 256 + (s[i + 1] as u16)
}

/// The little-endian 16-bit value at `s[i]`, `s[i + 1]`.
pub fn get_le16(s: &[u8], i: usize) -> (r: u16)
    requires
        i + 2 <= s.len(),
    ensures
        r == le16_at(s@, i as int),
{
    (s[i] as u16) + (s[i + 1] as u16) * 256
}

/// The big-endian 32-bit value that starts at `s[i]`.
pub fn get_be32(s: &[u8], i: usize) -> (r: u32)
    requires
        i + 4 <= s.len(),
    ensures
        r == be32_at(s@, i as int),
{
    (get_be16(s, i) as u32) * 0x10000 + (get_be16(s, i + 2) as u32)
}

/// The little-endian 32-bit value that starts at `s[i]`.
pub fn get_le32(s: &[u8], i: usize) -> (r: u32)
    requires
        i + 4 <= s.len(),
    ensures
        r == le32_at(s@, i as int),
{
    (get_le16(s, i) as u32) + (get_le16(s, i + 2) as u32) * 0x10000
}

/// The little-endian 24-bit value that starts at `s[i]`.
pub fn get_le24(s: &[u8], i: usize) -> (r: u32)
    requires
        i + 3 <= s.len(),
    ensures
        r == le24_at(s@, i as int),
        r < 0x100_0000,
{
    (s[i] as u32) + (s[i + 1] as u32) * 256 + (s[i + 2] as u32) * 0x10000
}

/// The big-endian 64-bit value that starts at `s[i]`.
pub fn get_be64(s: &[u8], i: usize) -> (r: u64)
    requires
        i + 8 <= s.len(),
    ensures
        r == be64_at(s@, i as int),
{
    (get_be32(s, i) as u64) * 0x1_0000_0000 + (get_be32(s, i + 4) as u64)
}

/// Copies `s[start..end]` into a new vector.
pub fn get_bytes(s: &[u8], start: usize, end: usize) -> (r: Vec<u8>)
    requires
        start <= end <= s@.len(),
    ensures
        r@ == s@.subrange(start as int, end as int),
{
    let mut r: Vec<u8> = Vec::new();
    let mut i: usize = start;
    while i < end
        invariant
            start <= i <= end,
            end <= s@.len(),
            r@ == s@.subrange(start as int, i as int),
        decreases end - i,
    {
        r.push(s[i]);
        i = i + 1;
        assert(r@ =~= s@.subrange(start as int, i as int));
    }
    r
}

/// XOR of every byte of `s`.
pub open spec fn xor_fold(s: Seq<u8>) -> u8
    decreases s.len(),
{
    if s.len() == 0 {
        0
    } else {
        xor_fold(s.drop_last()) ^ s.last()
    }
}

/// XOR of the bytes `s[start..end]`.
pub fn xor_range(s: &[u8], start: usize, end: usize) -> (r: u8)
    requires
        start <= end <= s@.len(),
    ensures
        r == xor_fold(s@.subrange(start as int, end as int)),
{
    let mut acc: u8 = 0;
    let mut i: usize = start;
    while i < end
        invariant
            start <= i <= end,
            end <= s@.len(),
            acc == xor_fold(s@.subrange(start as int, i as int)),
        decreases end - i,
    {
        assert(s@.subrange(start as int, i as int + 1).drop_last()
            == s@.subrange(start as int, i as int));
        acc = acc ^ s[i];
        i = i + 1;
    }
    acc
}

/// The XOR checksum distributes over concatenation.
pub proof fn lemma_xor_fold_concat(a: Seq<u8>, b: Seq<u8>)
    ensures
        xor_fold(a + b) == xor_fold(a) ^ xor_fold(b),
    decreases b.len(),
{
    let x = xor_fold(a);
    if b.len() == 0 {
        assert(a + b =~= a);
        assert(x ^ 0u8 == x) by (bit_vector);
    } else {
        let y = xor_fold(b.drop_last());
        let z = b.last();
        lemma_xor_fold_concat(a, b.drop_last());
        assert((a + b).drop_last() =~= a + b.drop_last());
        assert((x ^ y) ^ z == x ^ (y ^ z)) by (bit_vector);
    }
}

proof fn lemma_xor_fold_single(v: u8)
    ensures
        xor_fold(seq![v]) == 0u8 ^ v,
{
    assert(seq![v].drop_last() =~= Seq::<u8>::empty());
    assert(xor_fold(Seq::<u8>::empty()) == 0);
}

/// Flipping bits of one byte flips the same bits of the XOR checksum.
pub proof fn lemma_xor_fold_update(s: Seq<u8>, i: int, mask: u8)
    requires
        0 <= i < s.len(),
    ensures
        xor_fold(s.update(i, s[i] ^ mask)) == xor_fold(s) ^ mask,
{
    let t = s.update(i, s[i] ^ mask);
    let a = s.subrange(0, i);
    let c = s.subrange(i + 1, s.len() as int);
    assert(s =~= a + seq![s[i]] + c);
    assert(t =~= a + seq![s[i] ^ mask] + c);
    lemma_xor_fold_concat(a + seq![s[i]], c);
    lemma_xor_fold_concat(a + seq![s[i] ^ mask], c);
    lemma_xor_fold_concat(a, seq![s[i]]);
    lemma_xor_fold_concat(a, seq![s[i] ^ mask]);
    lemma_xor_fold_single(s[i]);
    lemma_xor_fold_single(s[i] ^ mask);
    let x = xor_fold(a);
    let y = xor_fold(c);
    let v = s[i];
    assert(((x ^ (0u8 ^ (v ^ mask))) ^ y) == ((x ^ (0u8 ^ v)) ^ y) ^ mask) by (bit_vector);
}

/// Flipping one or more bits of one byte always changes the XOR checksum.
pub proof fn lemma_flip_changes_checksum(s: Seq<u8>, i: int, mask: u8)
    requires
        0 <= i < s.len(),
        mask != 0,
    ensures
        xor_fold(s.update(i, s[i] ^ mask)) != xor_fold(s),
{
    lemma_xor_fold_update(s, i, mask);
    let x = xor_fold(s);
    assert(x ^ mask != x) by (bit_vector)
        requires
            mask != 0,
    ;
}

/// Flipping bit `bit` of a 16-bit value flips one bit of exactly one of its
/// big-endian bytes: the first when `bit >= 8`, the second otherwise.
pub proof fn lemma_be16_bit_flip(x: u16, bit: u16)
    requires
        bit < 16,
    ensures
        bit >= 8 ==> be16(x ^ (1u16 << bit)) == be16(x).update(
            0,
            be16(x)[0] ^ ((1u16 << (bit - 8) as u16) as u8),
        ) && ((1u16 << (bit - 8) as u16) as u8) != 0,
        bit < 8 ==> be16(x ^ (1u16 << bit)) == be16(x).update(
            1,
            be16(x)[1] ^ ((1u16 << bit) as u8),
        ) && ((1u16 << bit) as u8) != 0,
{
    let y = x ^ (1u16 << bit);
    if bit >= 8 {
        let b = (bit - 8) as u16;
        assert(((y / 256) as u8) == ((x / 256) as u8) ^ ((1u16 << b) as u8)
            && (y % 256) as u8 == (x % 256) as u8 && ((1u16 << b) as u8) != 0) by (bit_vector)
            requires
                y == x ^ (1u16 << bit),
                b == bit - 8,
                8 <= bit < 16,
        ;
        assert(be16(y) =~= be16(x).update(0, be16(x)[0] ^ ((1u16 << b) as u8)));
    } else {
        assert(((y / 256) as u8) == ((x / 256) as u8) && (y % 256) as u8 == ((x % 256) as u8)
            ^ ((1u16 << bit) as u8) && ((1u16 << bit) as u8) != 0) by (bit_vector)
            requires
                y == x ^ (1u16 << bit),
                bit < 8,
        ;
        assert(be16(y) =~= be16(x).update(1, be16(x)[1] ^ ((1u16 << bit) as u8)));
    }
}

/// Why a frame could not be decoded.
#[derive(Debug, Clone, Copy, PartialEq, Eq, Structural)]
pub enum DecodeError {
    /// Fewer bytes are at hand than the frame needs; `needed` is the
    /// length known so far to be required.
    Incomplete { needed: usize },
    /// The trailing byte differs from the XOR of the frame's inner bytes.
    ChecksumMismatch,
    /// The command code names no known message.
    UnknownCommand { command: u16 },
    /// The frame is sound but carries another command code than the kind
    /// it was decoded as.
    UnexpectedCommand { expected: u16, found: u16 },
}

impl DecodeError {
    /// A short human-readable description.
    pub fn as_str(&self) -> (r: &'static str)
        ensures
            self is Incomplete ==> r@ == "Incomplete frame"@,
            self is ChecksumMismatch ==> r@ == "Invalid checksum"@,
            self is UnknownCommand ==> r@ == "Unknown command"@,
            self is UnexpectedCommand ==> r@ == "Unexpected command"@,
    {
        match self {
            DecodeError::Incomplete { .. } => "Incomplete frame",
            DecodeError::ChecksumMismatch => "Invalid checksum",
            DecodeError::UnknownCommand { .. } => "Unknown command",
            DecodeError::UnexpectedCommand { .. } => "Unexpected command",
        }
    }
}

/// The bytes of a frame that its checksum covers: everything between the
/// header byte and the checksum byte.
pub open spec fn checked_bytes(frame: Seq<u8>) -> Seq<u8> {
    frame.subrange(1, frame.len() - 1)
}

/// The trailing byte of `frame` is the XOR of its inner bytes.
pub open spec fn checksum_ok(frame: Seq<u8>) -> bool {
    xor_fold(checked_bytes(frame)) == frame.last()
}

/// What checking the first `n` bytes of `s` as one frame yields.
pub open spec fn frame_status(s: Seq<u8>, n: int) -> Result<(), DecodeError> {
    if s.len() < n {
        Err(DecodeError::Incomplete { needed: n as usize })
    } else if !checksum_ok(s.subrange(0, n)) {
        Err(DecodeError::ChecksumMismatch)
    } else {
        Ok(())
    }
}

/// Checks that `input` holds at least `n` bytes and that the `n`-th of them
/// is the checksum of the ones between the header and it.
pub fn check_frame(input: &[u8], n: usize) -> (r: Result<(), DecodeError>)
    requires
        2 <= n,
    ensures
        r == frame_status(input@, n as int),
{
    if input.len() < n {
        return Err(DecodeError::Incomplete { needed: n });
    }
    let sum = xor_range(input, 1, n - 1);
    assert(checked_bytes(input@.subrange(0, n as int)) =~= input@.subrange(1, n - 1));
    if sum != input[n - 1] {
        Err(DecodeError::ChecksumMismatch)
    } else {
        Ok(())
    }
}

/// Given fewer bytes than a frame of `n` bytes takes, the frame check reports
/// the frame incomplete and names the length it needs, whatever the bytes are.
pub proof fn lemma_short_input_incomplete(s: Seq<u8>, n: int)
    requires
        s.len() < n,
        n <= usize::MAX,
    ensures
        frame_status(s, n) == Err::<(), DecodeError>(DecodeError::Incomplete { needed: n as usize }),
{
}

/// What decoding the first `n` bytes of `s` as a frame of the kind whose
/// command code is `code` yields: the frame check first, then the code.
pub open spec fn kind_status(s: Seq<u8>, n: int, code: u16) -> Result<(), DecodeError> {
    match frame_status(s, n) {
        Err(e) => Err(e),
        Ok(()) => if be16_at(s, 1) == code {
            Ok(())
        } else {
            Err(DecodeError::UnexpectedCommand { expected: code, found: be16_at(s, 1) })
        },
    }
}

/// Checks the first `n` bytes of `input` as one frame, then that it carries
/// command code `code`.
pub fn check_kind(input: &[u8], n: usize, code: u16) -> (r: Result<(), DecodeError>)
    requires
        4 <= n,
    ensures
        r == kind_status(input@, n as int, code),
{
    match check_frame(input, n) {
        Err(e) => Err(e),
        Ok(()) => {
            let found = get_be16(input, 1);
            if found == code {
                Ok(())
            } else {
                Err(DecodeError::UnexpectedCommand { expected: code, found })
            }
        },
    }
}

/// A frame laid out as header, checked bytes and their checksum passes the
/// frame check.
pub proof fn lemma_framed(header: u8, body: Seq<u8>)
    ensures
        ({
            let f = seq![header] + body + seq![xor_fold(body)];
            &&& f.len() == body.len() + 2
            &&& checked_bytes(f) == body
            &&& frame_status(f, body.len() + 2int) == Ok::<(), DecodeError>(())
        }),
{
    let f = seq![header] + body + seq![xor_fold(body)];
    assert(checked_bytes(f) =~= body);
    assert(f.subrange(0, f.len() as int) =~= f);
}

/// The checksum written at encode time is the one a decoder recomputes from
/// the same bytes; and a frame one of whose checked bytes has any bit flipped
/// fails the frame check with a checksum mismatch.
pub proof fn lemma_checksum_detects_bit_flip(header: u8, body: Seq<u8>, i: int, bit: u8)
    requires
        0 <= i < body.len(),
        bit < 8,
    ensures
        ({
            let f = seq![header] + body + seq![xor_fold(body)];
            let g = f.update(i + 1, f[i + 1] ^ (1u8 << bit));
            &&& xor_fold(checked_bytes(f)) == f.last()
            &&& xor_fold(checked_bytes(g)) != xor_fold(checked_bytes(f))
            &&& frame_status(g, f.len() as int) == Err::<(), DecodeError>(DecodeError::ChecksumMismatch)
        }),
{
    let f = seq![header] + body + seq![xor_fold(body)];
    let mask: u8 = 1u8 << bit;
    let g = f.update(i + 1, f[i + 1] ^ mask);
    lemma_framed(header, body);
    assert(checked_bytes(g) =~= body.update(i, body[i] ^ mask));
    lemma_xor_fold_update(body, i, mask);
    let x = xor_fold(body);
    assert(mask != 0) by (bit_vector)
        requires mask == 1u8 << bit, bit < 8;
    assert(x ^ mask != x) by (bit_vector)
        requires mask != 0;
    assert(g.subrange(0, f.len() as int) =~= g);
    assert(g.last() == f.last());
}

} // verus!
