//! Large content in binary chunks: the frame format, cutting data up, and putting it
//! together again under a size limit and a digest.

use vstd::prelude::*;

use crate::hashing;
use crate::hashing::Hasher;
use crate::encoding;
use crate::text;

verus! {

pub const BINARY_VERSION: u8 = 1;

pub const MAX_CHUNK_BYTES: usize = 65_536;

pub const MAX_TRANSFER_BYTES: u64 = 268_435_456;

/// How many full chunks make the largest transfer.
pub const MAX_CHUNKS: u32 = 4_096;

/// The length of what stands before a chunk's bytes.
pub const HEADER_BYTES: usize = 38;

/// One piece of a transfer.
#[derive(Debug, PartialEq, Eq)]
pub struct BinaryChunk {
    pub transfer_id: [u8; 16],
    pub index: u32,
    pub total_chunks: u32,
    pub total_size: u64,
    pub bytes: Vec<u8>,
}

/// The contents of a `BinaryChunk`.
pub struct ChunkView {
    pub transfer_id: Seq<u8>,
    pub index: u32,
    pub total_chunks: u32,
    pub total_size: u64,
    pub bytes: Seq<u8>,
}

impl View for BinaryChunk {
    type V = ChunkView;

    open spec fn view(&self) -> ChunkView {
        ChunkView {
            transfer_id: self.transfer_id@,
            index: self.index,
            total_chunks: self.total_chunks,
            total_size: self.total_size,
            bytes: self.bytes@,
        }
    }
}

impl Clone for BinaryChunk {
    fn clone(&self) -> (r: Self)
        ensures
            r@ == self@,
    {
        BinaryChunk {
            transfer_id: self.transfer_id,
            index: self.index,
            total_chunks: self.total_chunks,
            total_size: self.total_size,
            bytes: vstd::slice::slice_to_vec(self.bytes.as_slice()),
        }
    }
}

#[derive(Debug, PartialEq, Eq)]
pub enum TransferError {
    Malformed,
    ChunkTooLarge,
    TransferTooLarge,
    OutOfOrder,
    HashMismatch,
    Io(String),
}

impl TransferError {
    /// What the error says.
    pub open spec fn text(self) -> Seq<char> {
        match self {
            TransferError::Malformed => "binary frame is malformed"@,
            TransferError::ChunkTooLarge => "binary chunk exceeds limit"@,
            TransferError::TransferTooLarge => "transfer exceeds limit"@,
            TransferError::OutOfOrder => "unexpected chunk order"@,
            TransferError::HashMismatch => "transfer hash mismatch"@,
            TransferError::Io(e) => "I/O error: "@ + e@,
        }
    }

    pub fn to_string(&self) -> (r: String)
        ensures
            r@ == self.text(),
    {
        match self {
            TransferError::Malformed => "binary frame is malformed".to_owned(),
            TransferError::ChunkTooLarge => "binary chunk exceeds limit".to_owned(),
            TransferError::TransferTooLarge => "transfer exceeds limit".to_owned(),
            TransferError::OutOfOrder => "unexpected chunk order".to_owned(),
            TransferError::HashMismatch => "transfer hash mismatch".to_owned(),
            TransferError::Io(e) => "I/O error: ".to_owned().concat(e.as_str()),
        }
    }
}

/// The first four bytes of a frame: `CSB1`.
pub open spec fn magic() -> Seq<u8> {
    seq![67u8, 83u8, 66u8, 49u8]
}

/// `n` as four bytes, the highest first.
pub open spec fn be4(n: u32) -> Seq<u8> {
    seq![
        (n / 16_777_216) as u8,
        (n / 65_536 % 256) as u8,
        (n / 256 % 256) as u8,
        (n % 256) as u8,
    ]
}

/// `n` as eight bytes, the highest first.
pub open spec fn be8(n: u64) -> Seq<u8> {
    be4((n / 4_294_967_296) as u32) + be4((n % 4_294_967_296) as u32)
}

/// The number that four bytes stand for, the highest first.
pub open spec fn from_be4(b: Seq<u8>) -> u32 {
    (b[0] as int * 16_777_216 + b[1] as int * 65_536 + b[2] as int * 256 + b[3] as int) as u32
}

/// The number that eight bytes stand for, the highest first.
pub open spec fn from_be8(b: Seq<u8>) -> u64 {
    (from_be4(b.take(4)) as int * 4_294_967_296 + from_be4(b.skip(4)) as int) as u64
}

proof fn lemma_be4(n: u32)
    ensures
        be4(n).len() == 4,
        from_be4(be4(n)) == n,
{
}

proof fn lemma_digits(n: int, w: int, x: int, y: int, z: int)
    requires
        0 <= w < 256,
        0 <= x < 256,
        0 <= y < 256,
        0 <= z < 256,
        n == w * 16_777_216 + x * 65_536 + y * 256 + z,
    ensures
        n / 16_777_216 == w,
        n / 65_536 % 256 == x,
        n / 256 % 256 == y,
        n % 256 == z,
{
    assert(n / 16_777_216 == w);
    assert(n / 65_536 == w * 256 + x);
    assert(n / 256 == (w * 256 + x) * 256 + y);
}

proof fn lemma_from_be4(b: Seq<u8>)
    requires
        b.len() == 4,
    ensures
        be4(from_be4(b)) == b,
{
    let (w, x, y, z) = (b[0] as int, b[1] as int, b[2] as int, b[3] as int);
    let n = w * 16_777_216 + x * 65_536 + y * 256 + z;
    assert(from_be4(b) == n);
    lemma_digits(n, w, x, y, z);
    let d = be4(from_be4(b));
    assert(d[0] == b[0] && d[1] == b[1] && d[2] == b[2] && d[3] == b[3]);
    assert(d =~= b);
}

proof fn lemma_be8(n: u64)
    ensures
        be8(n).len() == 8,
        from_be8(be8(n)) == n,
{
    lemma_be4((n / 4_294_967_296) as u32);
    lemma_be4((n % 4_294_967_296) as u32);
    assert(be8(n).take(4) =~= be4((n / 4_294_967_296) as u32));
    assert(be8(n).skip(4) =~= be4((n % 4_294_967_296) as u32));
}

proof fn lemma_from_be8(b: Seq<u8>)
    requires
        b.len() == 8,
    ensures
        be8(from_be8(b)) == b,
{
    lemma_from_be4(b.take(4));
    lemma_from_be4(b.skip(4));
    let hi = from_be4(b.take(4)) as int;
    let lo = from_be4(b.skip(4)) as int;
    assert(from_be8(b) == hi * 4_294_967_296 + lo);
    assert(from_be8(b) / 4_294_967_296 == hi);
    assert(from_be8(b) % 4_294_967_296 == lo);
    assert(b =~= b.take(4) + b.skip(4));
}

impl ChunkView {
    /// What keeps a chunk from being sent, if anything.
    pub open spec fn flaw(self) -> Option<TransferError> {
        if self.bytes.len() > MAX_CHUNK_BYTES {
            Some(TransferError::ChunkTooLarge)
        } else if self.total_size > MAX_TRANSFER_BYTES {
            Some(TransferError::TransferTooLarge)
        } else if self.total_chunks == 0 || self.total_chunks > MAX_CHUNKS || self.index
            >= self.total_chunks {
            Some(TransferError::Malformed)
        } else {
            None
        }
    }

    /// The frame that carries the chunk.
    pub open spec fn frame(self) -> Seq<u8> {
        magic() + seq![BINARY_VERSION, 0u8] + self.transfer_id + be4(self.index) + be4(
            self.total_chunks,
        ) + be8(self.total_size) + self.bytes
    }
}

/// The chunk that a frame's fields spell, whatever the limits say.
pub open spec fn fields_of(frame: Seq<u8>) -> ChunkView {
    ChunkView {
        transfer_id: frame.subrange(6, 22),
        index: from_be4(frame.subrange(22, 26)),
        total_chunks: from_be4(frame.subrange(26, 30)),
        total_size: from_be8(frame.subrange(30, 38)),
        bytes: frame.skip(38),
    }
}

/// The chunk that a frame carries.
pub open spec fn decoded(frame: Seq<u8>) -> Result<ChunkView, TransferError> {
    let c = fields_of(frame);
    if frame.len() < HEADER_BYTES || frame.take(4) != magic() || frame[4] != BINARY_VERSION {
        Err(TransferError::Malformed)
    } else if let Some(e) = c.flaw() {
        Err(e)
    } else if c.total_size < c.bytes.len() {
        Err(TransferError::Malformed)
    } else {
        Ok(c)
    }
}

fn push_be4(out: &mut Vec<u8>, n: u32)
    ensures
        final(out)@ == old(out)@ + be4(n),
{
    let ghost before = out@;
    out.push((n / 16_777_216) as u8);
    out.push((n / 65_536 % 256) as u8);
    out.push((n / 256 % 256) as u8);
    out.push((n % 256) as u8);
    assert(out@ =~= before + be4(n));
}

fn read_be4(b: &[u8], at: usize) -> (r: u32)
    requires
        at + 4 <= b@.len(),
    ensures
        r == from_be4(b@.subrange(at as int, at + 4)),
{
    let ghost s = b@.subrange(at as int, at + 4);
    assert(s[0] == b@[at as int] && s[1] == b@[at + 1] && s[2] == b@[at + 2] && s[3] == b@[at + 3]);
    b[at] as u32 * 16_777_216 + b[at + 1] as u32 * 65_536 + b[at + 2] as u32 * 256 + b[at + 3] as u32
}

fn push_all(out: &mut Vec<u8>, b: &[u8])
    ensures
        final(out)@ == old(out)@ + b@,
{
    let ghost before = out@;
    let mut i: usize = 0;
    while i < b.len()
        invariant
            i <= b@.len(),
            out@ == before + b@.take(i as int),
        decreases b@.len() - i,
    {
        out.push(b[i]);
        i = i + 1;
        assert(out@ =~= before + b@.take(i as int));
    }
    assert(b@.take(i as int) =~= b@);
}

impl BinaryChunk {
    /// The frame that carries the chunk, where it is within the limits.
    pub fn encode(&self) -> (r: Result<Vec<u8>, TransferError>)
        ensures
            r matches Ok(f) ==> self@.flaw() is None && f@ == self@.frame(),
            r matches Err(e) ==> self@.flaw() == Some(e),
    {
        if self.bytes.len() > MAX_CHUNK_BYTES || self.total_size > MAX_TRANSFER_BYTES {
            return Err(
                if self.bytes.len() > MAX_CHUNK_BYTES {
                    TransferError::ChunkTooLarge
                } else {
                    TransferError::TransferTooLarge
                },
            );
        }
        if self.total_chunks == 0 || self.total_chunks > MAX_CHUNKS || self.index
            >= self.total_chunks {
            return Err(TransferError::Malformed);
        }
        let mut out: Vec<u8> = Vec::with_capacity(HEADER_BYTES + self.bytes.len());
        out.push(67u8);
        out.push(83u8);
        out.push(66u8);
        out.push(49u8);
        out.push(BINARY_VERSION);
        out.push(0u8);
        assert(out@ =~= magic() + seq![BINARY_VERSION, 0u8]);
        push_all(&mut out, self.transfer_id.as_slice());
        push_be4(&mut out, self.index);
        push_be4(&mut out, self.total_chunks);
        let hi: u32 = (self.total_size / 4_294_967_296) as u32;
        let lo: u32 = (self.total_size % 4_294_967_296) as u32;
        let ghost before = out@;
        push_be4(&mut out, hi);
        push_be4(&mut out, lo);
        assert(out@ =~= before + be8(self.total_size));
        push_all(&mut out, self.bytes.as_slice());
        Ok(out)
    }

    /// The chunk that a frame carries, where the frame is whole and within the limits.
    /// The sixth byte is reserved and not looked at.
    pub fn decode(frame: &[u8]) -> (r: Result<Self, TransferError>)
        ensures
            r matches Ok(c) ==> decoded(frame@) == Ok::<ChunkView, TransferError>(c@),
            r matches Err(e) ==> decoded(frame@) == Err::<ChunkView, TransferError>(e),
    {
        if frame.len() < HEADER_BYTES {
            return Err(TransferError::Malformed);
        }
        if frame[0] != 67 || frame[1] != 83 || frame[2] != 66 || frame[3] != 49 || frame[4]
            != BINARY_VERSION {
            assert(frame@.take(4)[0] == frame@[0] && frame@.take(4)[1] == frame@[1] && frame@.take(
                4,
            )[2] == frame@[2] && frame@.take(4)[3] == frame@[3]);
            return Err(TransferError::Malformed);
        }
        assert(frame@.take(4) =~= magic());
        let mut transfer_id: [u8; 16] = [0u8;16];
        let mut i: usize = 0;
        while i < 16
            invariant
                i <= 16,
                frame@.len() >= HEADER_BYTES,
                forall|k: int| 0 <= k < i ==> #[trigger] transfer_id@[k] == frame@[6 + k],
            decreases 16 - i,
        {
            transfer_id[i] = frame[6 + i];
            i = i + 1;
        }
        assert(transfer_id@ =~= frame@.subrange(6, 22));
        let index: u32 = read_be4(frame, 22);
        let total_chunks: u32 = read_be4(frame, 26);
        let hi: u32 = read_be4(frame, 30);
        let lo: u32 = read_be4(frame, 34);
        assert(frame@.subrange(30, 38).take(4) =~= frame@.subrange(30, 34));
        assert(frame@.subrange(30, 38).skip(4) =~= frame@.subrange(34, 38));
        let total_size: u64 = hi as u64 * 4_294_967_296 + lo as u64;
        let bytes = vstd::slice::slice_to_vec(
            vstd::slice::slice_subrange(frame, HEADER_BYTES, frame.len()),
        );
        assert(bytes@ =~= frame@.skip(38));
        let value = BinaryChunk { transfer_id, index, total_chunks, total_size, bytes };
        assert(value@ == fields_of(frame@));
        match value.encode() {
            Err(e) => Err(e),
            Ok(_) => {
                if value.total_size < value.bytes.len() as u64 {
                    Err(TransferError::Malformed)
                } else {
                    Ok(value)
                }
            },
        }
    }
}

/// What was encoded decodes to the same chunk, provided that it claims no fewer bytes
/// than it holds.
pub proof fn law_chunk_round_trip(c: ChunkView)
    requires
        c.transfer_id.len() == 16,
        c.flaw() is None,
        c.bytes.len() <= c.total_size,
    ensures
        decoded(c.frame()) == Ok::<ChunkView, TransferError>(c),
{
    let f = c.frame();
    lemma_be4(c.index);
    lemma_be4(c.total_chunks);
    lemma_be8(c.total_size);
    assert(f.take(4) =~= magic());
    assert(f.subrange(6, 22) =~= c.transfer_id);
    assert(f.subrange(22, 26) =~= be4(c.index));
    assert(f.subrange(26, 30) =~= be4(c.total_chunks));
    assert(f.subrange(30, 38) =~= be8(c.total_size));
    assert(f.skip(38) =~= c.bytes);
}

/// A frame that decodes is the encoding of what it decodes to, but for the reserved
/// byte, which encoding sets to 0.
pub proof fn law_frame_round_trip(f: Seq<u8>)
    requires
        decoded(f) is Ok,
    ensures
        decoded(f)->Ok_0.flaw() is None,
        decoded(f)->Ok_0.frame() == f.update(5, 0),
{
    let c = fields_of(f);
    lemma_from_be4(f.subrange(22, 26));
    lemma_from_be4(f.subrange(26, 30));
    lemma_from_be8(f.subrange(30, 38));
    assert(be4(c.index) == f.subrange(22, 26));
    assert(be8(c.total_size) == f.subrange(30, 38));
    assert forall|i: int| 0 <= i < 4 implies f[i] == magic()[i] by {
        assert(f.take(4)[i] == f[i]);
    }
    assert(c.frame() =~= f.update(5, 0));
}

/// How many chunks `n` bytes make.
pub open spec fn chunk_count(n: nat) -> nat {
    (n + 65_535) / 65_536
}

/// Chunk `i` of `data`.
pub open spec fn chunk_of(data: Seq<u8>, id: Seq<u8>, i: int) -> ChunkView {
    let end = if (i + 1) * 65_536 < data.len() { (i + 1) * 65_536 } else { data.len() as int };
    ChunkView {
        transfer_id: id,
        index: i as u32,
        total_chunks: chunk_count(data.len()) as u32,
        total_size: data.len() as u64,
        bytes: data.subrange(i * 65_536, end),
    }
}

/// The chunks of `data` in order, each full but for the last. Data that needs more than
/// `u32::MAX` chunks has its numbers cut to 32 bits; no transfer is that large.
pub fn chunks(data: &[u8], transfer_id: [u8; 16]) -> (r: Vec<BinaryChunk>)
    ensures
        r@.len() == chunk_count(data@.len()),
        forall|i: int|
            0 <= i < r@.len() ==> (#[trigger] r@[i])@ == chunk_of(data@, transfer_id@, i),
{
    let n: usize = data.len();
    let whole: usize = n / MAX_CHUNK_BYTES;
    let count: usize = if n % MAX_CHUNK_BYTES == 0 { whole } else { whole + 1 };
    assert(count == chunk_count(n as nat));
    let mut out: Vec<BinaryChunk> = Vec::new();
    let mut i: usize = 0;
    while i < count
        invariant
            i <= count,
            n == data@.len(),
            count == chunk_count(n as nat),
            out@.len() == i,
            forall|k: int|
                0 <= k < i ==> (#[trigger] out@[k])@ == chunk_of(data@, transfer_id@, k),
        decreases count - i,
    {
        let start: usize = i * MAX_CHUNK_BYTES;
        let end: usize = if n - start > MAX_CHUNK_BYTES { start + MAX_CHUNK_BYTES } else { n };
        let bytes = vstd::slice::slice_to_vec(vstd::slice::slice_subrange(data, start, end));
        let c = BinaryChunk {
            transfer_id,
            index: i as u32,
            total_chunks: count as u32,
            total_size: n as u64,
            bytes,
        };
        assert(c@ == chunk_of(data@, transfer_id@, i as int));
        out.push(c);
        i = i + 1;
    }
    out
}

/// The bytes of the first `n` chunks of `data`, one after the other.
pub open spec fn joined(data: Seq<u8>, id: Seq<u8>, n: nat) -> Seq<u8>
    decreases n,
{
    if n == 0 {
        Seq::empty()
    } else {
        joined(data, id, (n - 1) as nat) + chunk_of(data, id, n - 1).bytes
    }
}

proof fn lemma_joined(data: Seq<u8>, id: Seq<u8>, n: nat)
    requires
        n <= chunk_count(data.len()),
    ensures
        joined(data, id, n) == data.take(
            if n * 65_536 < data.len() { (n * 65_536) as int } else { data.len() as int },
        ),
    decreases n,
{
    if n > 0 {
        lemma_joined(data, id, (n - 1) as nat);
        assert((n - 1) * 65_536 < data.len());
    }
    assert(joined(data, id, n) =~= data.take(
        if n * 65_536 < data.len() { (n * 65_536) as int } else { data.len() as int },
    ));
}

/// The chunks of `data`, put together, are `data`.
pub proof fn law_chunks_hold_the_data(data: Seq<u8>, id: Seq<u8>)
    ensures
        joined(data, id, chunk_count(data.len())) == data,
{
    lemma_joined(data, id, chunk_count(data.len()));
    assert(joined(data, id, chunk_count(data.len())) =~= data);
}

/// Every chunk of data within the transfer limit can be sent and read back.
pub proof fn law_chunks_can_be_sent(data: Seq<u8>, id: Seq<u8>, i: int)
    requires
        id.len() == 16,
        data.len() <= MAX_TRANSFER_BYTES,
        0 <= i < chunk_count(data.len()),
    ensures
        chunk_of(data, id, i).flaw() is None,
        decoded(chunk_of(data, id, i).frame()) == Ok::<ChunkView, TransferError>(
            chunk_of(data, id, i),
        ),
{
    let c = chunk_of(data, id, i);
    assert(i * 65_536 < data.len());
    assert(c.bytes.len() <= 65_536);
    law_chunk_round_trip(c);
}

/// A transfer on its way in. It takes chunks in order and keeps a running digest, never
/// the data; the caller writes each chunk's bytes where they belong.
pub struct Receiver {
    expected_id: [u8; 16],
    expected_hash: [u8; 32],
    expected_size: u64,
    total_chunks: u32,
    next_index: u32,
    received: u64,
    hasher: Hasher,
}

/// The contents of a `Receiver`: what it waits for, and the bytes that it took.
pub struct ReceiverView {
    pub id: Seq<u8>,
    pub hash: Seq<u8>,
    pub size: u64,
    pub total_chunks: u32,
    pub next_index: u32,
    pub data: Seq<u8>,
}

impl View for Receiver {
    type V = ReceiverView;

    closed spec fn view(&self) -> ReceiverView {
        ReceiverView {
            id: self.expected_id@,
            hash: self.expected_hash@,
            size: self.expected_size,
            total_chunks: self.total_chunks,
            next_index: self.next_index,
            data: hashing::absorbed(self.hasher),
        }
    }
}

impl ReceiverView {
    /// Why the next chunk cannot be `c`, if so. The largest number is none that a chunk
    /// can have.
    pub open spec fn refusal(self, c: ChunkView) -> Option<TransferError> {
        if c.transfer_id != self.id || c.total_chunks != self.total_chunks || c.total_size
            != self.size || c.index != self.next_index || c.index == u32::MAX {
            Some(TransferError::OutOfOrder)
        } else if c.bytes.len() > MAX_CHUNK_BYTES || self.data.len() + c.bytes.len() > self.size {
            Some(TransferError::TransferTooLarge)
        } else {
            None
        }
    }

    /// The transfer after chunk `c`.
    pub open spec fn taking(self, c: ChunkView) -> ReceiverView {
        ReceiverView {
            next_index: (self.next_index + 1) as u32,
            data: self.data + c.bytes,
            ..self
        }
    }

    /// Whether everything came, as it was announced.
    pub open spec fn intact(self) -> bool {
        self.data.len() == self.size && hashing::sha256(self.data) == self.hash
    }

    /// What taking `c` gives: whether the transfer is complete, or an error.
    pub open spec fn outcome(self, c: ChunkView) -> Result<bool, TransferError> {
        if let Some(e) = self.refusal(c) {
            Err(e)
        } else if self.taking(c).next_index != self.total_chunks {
            Ok(false)
        } else if self.taking(c).intact() {
            Ok(true)
        } else {
            Err(TransferError::HashMismatch)
        }
    }
}

/// Whether two 16-byte identifiers are equal.
fn same_id(a: &[u8; 16], b: &[u8; 16]) -> (r: bool)
    ensures
        r == (a@ == b@),
{
    text::same_bytes(a.as_slice(), b.as_slice())
}

impl Receiver {
    pub closed spec fn wf(&self) -> bool {
        &&& self.received == hashing::absorbed(self.hasher).len()
        &&& self.received <= self.expected_size <= MAX_TRANSFER_BYTES
        &&& 0 < self.total_chunks <= MAX_CHUNKS
    }

    /// A transfer of `size` bytes in `total_chunks` chunks that must have digest `hash`.
    pub fn create(id: [u8; 16], hash: [u8; 32], size: u64, total_chunks: u32) -> (r: Result<
        Self,
        TransferError,
    >)
        ensures
            r is Ok == (size <= MAX_TRANSFER_BYTES && 0 < total_chunks <= MAX_CHUNKS),
            r matches Err(e) ==> e == TransferError::TransferTooLarge,
            r matches Ok(v) ==> v.wf() && v@ == (ReceiverView {
                id: id@,
                hash: hash@,
                size,
                total_chunks,
                next_index: 0,
                data: Seq::empty(),
            }),
    {
        if size > MAX_TRANSFER_BYTES || total_chunks == 0 || total_chunks > MAX_CHUNKS {
            return Err(TransferError::TransferTooLarge);
        }
        Ok(
            Receiver {
                expected_id: id,
                expected_hash: hash,
                expected_size: size,
                total_chunks,
                next_index: 0,
                received: 0,
                hasher: hashing::start(),
            },
        )
    }

    /// Whether `chunk` can come next. Its bytes are written only then.
    pub fn check(&self, chunk: &BinaryChunk) -> (r: Result<(), TransferError>)
        requires
            self.wf(),
        ensures
            r is Ok == self@.refusal(chunk@) is None,
            r matches Err(e) ==> self@.refusal(chunk@) == Some(e),
    {
        if !same_id(&chunk.transfer_id, &self.expected_id) || chunk.total_chunks
            != self.total_chunks || chunk.total_size != self.expected_size || chunk.index
            != self.next_index || chunk.index == u32::MAX {
            return Err(TransferError::OutOfOrder);
        }
        if chunk.bytes.len() > MAX_CHUNK_BYTES || self.received + chunk.bytes.len() as u64
            > self.expected_size {
            return Err(TransferError::TransferTooLarge);
        }
        Ok(())
    }

    /// Takes `chunk`, where it can come next; whether the transfer is now complete. The
    /// last chunk is an error where size or digest is not as announced.
    pub fn push(&mut self, chunk: &BinaryChunk) -> (r: Result<bool, TransferError>)
        requires
            old(self).wf(),
        ensures
            final(self).wf(),
            r == old(self)@.outcome(chunk@),
            final(self)@ == if old(self)@.refusal(chunk@) is None {
                old(self)@.taking(chunk@)
            } else {
                old(self)@
            },
    {
        match self.check(chunk) {
            Err(e) => {
                return Err(e);
            },
            Ok(()) => {},
        }
        hashing::update(&mut self.hasher, chunk.bytes.as_slice());
        self.received = self.received + chunk.bytes.len() as u64;
        self.next_index = self.next_index + 1;
        if self.next_index == self.total_chunks {
            let actual = hashing::finish(hashing::fork(&self.hasher));
            if self.received != self.expected_size || !text::same_bytes(
                actual.as_slice(),
                self.expected_hash.as_slice(),
            ) {
                return Err(TransferError::HashMismatch);
            }
            return Ok(true);
        }
        Ok(false)
    }
}

/// The transfer after the first `n` chunks of `data`.
pub open spec fn after_chunks(v: ReceiverView, data: Seq<u8>, n: nat) -> ReceiverView
    decreases n,
{
    if n == 0 {
        v
    } else {
        after_chunks(v, data, (n - 1) as nat).taking(chunk_of(data, v.id, n - 1))
    }
}

/// The transfer that waits for `data`.
pub open spec fn waiting_for(data: Seq<u8>, id: Seq<u8>) -> ReceiverView {
    ReceiverView {
        id,
        hash: hashing::sha256(data),
        size: data.len() as u64,
        total_chunks: chunk_count(data.len()) as u32,
        next_index: 0,
        data: Seq::empty(),
    }
}

/// The chunks of `data`, sent in order to a receiver that waits for `data`, are all
/// accepted; the last completes the transfer, and what was received is `data`.
pub proof fn law_transfer_delivers(data: Seq<u8>, id: Seq<u8>, n: nat)
    requires
        0 < data.len() <= MAX_TRANSFER_BYTES,
        n < chunk_count(data.len()),
    ensures
        ({
            let v = after_chunks(waiting_for(data, id), data, n);
            let c = chunk_of(data, id, n as int);
            &&& v.outcome(c) == Ok::<bool, TransferError>(n + 1 == chunk_count(data.len()))
            &&& n + 1 == chunk_count(data.len()) ==> v.taking(c).data == data
        }),
{
    lemma_after_chunks(data, id, n);
    lemma_joined(data, id, n);
    lemma_joined(data, id, n + 1);
    let v = after_chunks(waiting_for(data, id), data, n);
    let c = chunk_of(data, id, n as int);
    assert(v.data + c.bytes == joined(data, id, n + 1));
    assert(n * 65_536 < data.len());
    if n + 1 == chunk_count(data.len()) {
        law_chunks_hold_the_data(data, id);
    }
}

proof fn lemma_after_chunks(data: Seq<u8>, id: Seq<u8>, n: nat)
    requires
        data.len() <= MAX_TRANSFER_BYTES,
        n <= chunk_count(data.len()),
    ensures
        after_chunks(waiting_for(data, id), data, n) == (ReceiverView {
            next_index: n as u32,
            data: joined(data, id, n),
            ..waiting_for(data, id)
        }),
    decreases n,
{
    if n > 0 {
        lemma_after_chunks(data, id, (n - 1) as nat);
    }
}

/// A transfer that completes holds exactly bytes of the announced length and digest.
pub proof fn law_complete_transfer_is_intact(v: ReceiverView, c: ChunkView)
    requires
        v.outcome(c) == Ok::<bool, TransferError>(true),
    ensures
        v.taking(c).data.len() == v.size,
        hashing::sha256(v.taking(c).data) == v.hash,
{
}

/// A chunk of another transfer, or one whose number is not that of the chunks taken so
/// far, is out of order; so is one with the largest number.
pub proof fn law_stray_chunk_is_refused(v: ReceiverView, c: ChunkView)
    requires
        c.transfer_id != v.id || c.total_chunks != v.total_chunks || c.total_size != v.size
            || c.index != v.next_index || c.index == u32::MAX,
    ensures
        v.outcome(c) == Err::<bool, TransferError>(TransferError::OutOfOrder),
{
}

/// Where what came has not the announced digest, the last chunk is refused.
pub proof fn law_tampering_is_detected(v: ReceiverView, c: ChunkView)
    requires
        v.refusal(c) is None,
        v.next_index + 1 == v.total_chunks,
        hashing::sha256(v.data + c.bytes) != v.hash,
    ensures
        v.outcome(c) == Err::<bool, TransferError>(TransferError::HashMismatch),
{
}

/// A byte as one or two small hexadecimal digits.
pub open spec fn short_hex(b: u8) -> Seq<char> {
    if b < 16 {
        seq![encoding::hex_digit(b as int)]
    } else {
        seq![encoding::hex_digit(b as int / 16), encoding::hex_digit(b as int % 16)]
    }
}

/// Bytes in hexadecimal with commas between them.
pub open spec fn listed_hex(b: Seq<u8>) -> Seq<char>
    decreases b.len(),
{
    if b.len() == 0 {
        Seq::empty()
    } else if b.len() == 1 {
        short_hex(b[0])
    } else {
        listed_hex(b.drop_last()) + ", "@ + short_hex(b.last())
    }
}

fn hex_char(n: u8) -> (r: char)
    requires
        n < 16,
    ensures
        r == encoding::hex_digit(n as int),
{
    if n < 10 {
        (48 + n) as char
    } else {
        (87 + n) as char
    }
}

/// The name of the file that an unfinished transfer is written to.
pub fn part_name(id: &[u8; 16]) -> (r: String)
    ensures
        r@ == "clipsync-["@ + listed_hex(id@) + "].part"@,
{
    let mut r = "clipsync-[".to_owned();
    let mut i: usize = 0;
    assert(r@ =~= "clipsync-["@ + listed_hex(id@.take(0)));
    while i < 16
        invariant
            i <= 16,
            r@ == "clipsync-["@ + listed_hex(id@.take(i as int)),
        decreases 16 - i,
    {
        let ghost before = r@;
        if i > 0 {
            r.append(", ");
        }
        let b: u8 = id[i];
        if b >= 16 {
            r.push(hex_char(b / 16));
        }
        r.push(hex_char(b % 16));
        assert(id@.take(i + 1).drop_last() =~= id@.take(i as int));
        assert(id@.take(i + 1).last() == b);
        assert(r@ =~= "clipsync-["@ + listed_hex(id@.take(i + 1)));
        i = i + 1;
    }
    assert(id@.take(16) =~= id@);
    r.append("].part");
    r
}

/// The SHA-256 digest of `data`.
pub fn hash(data: &[u8]) -> (r: [u8; 32])
    ensures
        r@ == hashing::sha256(data@),
{
    hashing::digest_bytes(data)
}

/// A frame is laid out byte by byte: `CSB1`, the version 1, a 0, the 16 bytes of the
/// identifier, number, count and size with their highest byte first, and the chunk's bytes.
/// It is made exactly where the chunk has at most 64 KiB of at most 256 MiB, and a number
/// below a count of 1 to 4096.
pub proof fn law_frame_layout(c: &BinaryChunk, r: Result<Vec<u8>, TransferError>)
    requires
        call_ensures(BinaryChunk::encode, (c,), r),
    ensures
        r is Ok <==> c.bytes@.len() <= 65_536 && c.total_size <= 268_435_456 && 0 < c.total_chunks
            <= 4_096 && c.index < c.total_chunks,
        c.bytes@.len() > 65_536 ==> r->Err_0 == TransferError::ChunkTooLarge,
        c.bytes@.len() <= 65_536 && c.total_size > 268_435_456 ==> r->Err_0
            == TransferError::TransferTooLarge,
        r is Ok ==> {
            let f = r->Ok_0@;
            &&& f.len() == 38 + c.bytes@.len()
            &&& f[0] == 67 && f[1] == 83 && f[2] == 66 && f[3] == 49 && f[4] == 1 && f[5] == 0
            &&& f.subrange(6, 22) == c.transfer_id@
            &&& f[22] * 16_777_216 + f[23] * 65_536 + f[24] * 256 + f[25] == c.index
            &&& f[26] * 16_777_216 + f[27] * 65_536 + f[28] * 256 + f[29] == c.total_chunks
            &&& (f[30] * 16_777_216 + f[31] * 65_536 + f[32] * 256 + f[33]) * 4_294_967_296 + (f[34]
                * 16_777_216 + f[35] * 65_536 + f[36] * 256 + f[37]) == c.total_size
            &&& f.skip(38) == c.bytes@
        },
{
    if r is Ok {
        let f = r->Ok_0@;
        let v = c@;
        let hi = (v.total_size / 4_294_967_296) as u32;
        let lo = (v.total_size % 4_294_967_296) as u32;
        lemma_be4(v.index);
        lemma_be4(v.total_chunks);
        lemma_be4(hi);
        lemma_be4(lo);
        lemma_be8(v.total_size);
        assert(f.subrange(22, 26) =~= be4(v.index));
        assert(f.subrange(26, 30) =~= be4(v.total_chunks));
        assert(f.subrange(30, 34) =~= be4(hi));
        assert(f.subrange(34, 38) =~= be4(lo));
        assert(f.subrange(6, 22) =~= v.transfer_id);
        assert(f.skip(38) =~= v.bytes);
        assert forall|i: int| 0 <= i < 4 implies f[22 + i] == be4(v.index)[i] && f[26 + i] == be4(
            v.total_chunks,
        )[i] && f[30 + i] == be4(hi)[i] && f[34 + i] == be4(lo)[i] by {
            assert(f.subrange(22, 26)[i] == f[22 + i]);
            assert(f.subrange(26, 30)[i] == f[26 + i]);
            assert(f.subrange(30, 34)[i] == f[30 + i]);
            assert(f.subrange(34, 38)[i] == f[34 + i]);
        }
        assert(f[22] == be4(v.index)[0] && f[26] == be4(v.total_chunks)[0] && f[30] == be4(hi)[0]
            && f[34] == be4(lo)[0]);
        assert(f[23] == be4(v.index)[1] && f[27] == be4(v.total_chunks)[1] && f[31] == be4(hi)[1]
            && f[35] == be4(lo)[1]);
        assert(f[24] == be4(v.index)[2] && f[28] == be4(v.total_chunks)[2] && f[32] == be4(hi)[2]
            && f[36] == be4(lo)[2]);
        assert(f[25] == be4(v.index)[3] && f[29] == be4(v.total_chunks)[3] && f[33] == be4(hi)[3]
            && f[37] == be4(lo)[3]);
        lemma_be4_sum(v.index);
        lemma_be4_sum(v.total_chunks);
        lemma_be4_sum(hi);
        lemma_be4_sum(lo);
        assert(hi as int * 4_294_967_296 + lo == v.total_size);
    }
}

proof fn lemma_be4_sum(n: u32)
    ensures
        be4(n)[0] * 16_777_216 + be4(n)[1] * 65_536 + be4(n)[2] * 256 + be4(n)[3] == n,
{
}

/// What was encoded is decoded to the same chunk, where it claims no fewer bytes than it has.
pub proof fn law_encode_decode(
    c: &BinaryChunk,
    frame: Vec<u8>,
    bytes: &[u8],
    r: Result<BinaryChunk, TransferError>,
)
    requires
        call_ensures(BinaryChunk::encode, (c,), Ok(frame)),
        bytes@ == frame@,
        call_ensures(BinaryChunk::decode, (bytes,), r),
        c.bytes@.len() <= c.total_size,
    ensures
        r is Ok,
        r->Ok_0.transfer_id@ == c.transfer_id@ && r->Ok_0.index == c.index && r->Ok_0.total_chunks
            == c.total_chunks && r->Ok_0.total_size == c.total_size && r->Ok_0.bytes@ == c.bytes@,
{
    law_chunk_round_trip(c@);
    assert(r->Ok_0@ == c@);
}

/// A frame that does not begin as frames do, or is shorter than what stands before the
/// bytes, is malformed.
pub proof fn law_strange_frames(bytes: &[u8], r: Result<BinaryChunk, TransferError>)
    requires
        call_ensures(BinaryChunk::decode, (bytes,), r),
        bytes@.len() < 38 || bytes@[0] != 67 || bytes@[1] != 83 || bytes@[2] != 66 || bytes@[3] != 49
            || bytes@[4] != 1,
    ensures
        r is Err,
        r->Err_0 == TransferError::Malformed,
{
    let f = bytes@;
    if f.len() >= 38 && f.take(4) == magic() {
        assert(f.take(4)[0] == 67 && f.take(4)[1] == 83 && f.take(4)[2] == 66 && f.take(4)[3] == 49);
        assert(f[0] == 67 && f[1] == 83 && f[2] == 66 && f[3] == 49);
    }
}

/// Data is cut into chunks of 64 KiB in order, the last holding the rest, so that they hold
/// the data and nothing else; each knows its number, their count and the size of the whole.
pub proof fn law_cutting(data: &[u8], id: [u8; 16], r: Vec<BinaryChunk>, i: int, at: int)
    requires
        call_ensures(chunks, (data, id), r),
        data@.len() <= MAX_TRANSFER_BYTES,
    ensures
        data@.len() == 0 <==> r@.len() == 0,
        (r@.len() - 1) * 65_536 < data@.len() <= r@.len() * 65_536 || data@.len() == 0,
        0 <= i < r@.len() ==> {
            &&& r@[i].transfer_id@ == id@
            &&& r@[i].index == i
            &&& r@[i].total_chunks == r@.len()
            &&& r@[i].total_size == data@.len()
            &&& i + 1 < r@.len() ==> r@[i].bytes@.len() == 65_536
            &&& i + 1 == r@.len() ==> r@[i].bytes@.len() == data@.len() - i * 65_536
            &&& 0 <= at < r@[i].bytes@.len() ==> r@[i].bytes@[at] == data@[i * 65_536 + at]
        },
{
    if 0 <= i < r@.len() {
        assert(r@[i]@ == chunk_of(data@, id@, i));
        assert(r@[i]@.bytes == r@[i].bytes@);
    }
}

/// A transfer is taken up where its size and count are within the limits, and has nothing
/// yet. The chunk whose turn it is is taken where it fits; the last completes the transfer
/// where size and digest are as announced and is an error where they are not. A chunk that
/// is refused changes nothing.
pub proof fn law_receiving(
    id: [u8; 16],
    hash: [u8; 32],
    size: u64,
    count: u32,
    made: Result<Receiver, TransferError>,
    v: &mut Receiver,
    c: &BinaryChunk,
    r: Result<bool, TransferError>,
)
    requires
        call_ensures(Receiver::create, (id, hash, size, count), made),
        call_ensures(Receiver::push, (v, c), r),
    ensures
        made is Ok <==> size <= 268_435_456 && 0 < count <= 4_096,
        made is Ok ==> made->Ok_0@.next_index == 0 && made->Ok_0@.data.len() == 0
            && made->Ok_0@.hash == hash@ && made->Ok_0@.id == id@ && made->Ok_0@.size == size
            && made->Ok_0@.total_chunks == count,
        ({
            let was = old(v)@;
            let mine = c.transfer_id@ == was.id && c.total_chunks == was.total_chunks
                && c.total_size == was.size && c.index == was.next_index && c.index < u32::MAX;
            let fits = c.bytes@.len() <= 65_536 && was.data.len() + c.bytes@.len() <= was.size;
            let all = was.data + c.bytes@;
            &&& !mine ==> r == Err::<bool, TransferError>(TransferError::OutOfOrder) && final(v)@
                == was
            &&& mine && !fits ==> r == Err::<bool, TransferError>(TransferError::TransferTooLarge)
                && final(v)@ == was
            &&& mine && fits ==> final(v)@.data == all && final(v)@.next_index == was.next_index + 1
                && final(v)@.id == was.id && final(v)@.hash == was.hash && final(v)@.size
                == was.size && final(v)@.total_chunks == was.total_chunks
            &&& mine && fits && was.next_index + 1 != was.total_chunks ==> r == Ok::<
                bool,
                TransferError,
            >(false)
            &&& mine && fits && was.next_index + 1 == was.total_chunks ==> r == if all.len()
                == was.size && hashing::sha256(all) == was.hash {
                Ok::<bool, TransferError>(true)
            } else {
                Err(TransferError::HashMismatch)
            }
        }),
{
}

/// The hexadecimal digits of a byte, without a zero before them.
pub open spec fn digits_of(b: u8) -> Seq<char> {
    if b < 16 {
        seq![encoding::hex_digit(b as int)]
    } else {
        encoding::hex_of(seq![b])
    }
}

proof fn lemma_listed_hex(b: Seq<u8>)
    ensures
        listed_hex(b) == crate::discovery::joined(b.map_values(|x: u8| digits_of(x))),
    decreases b.len(),
{
    let m = b.map_values(|x: u8| digits_of(x));
    if b.len() > 0 {
        let last = b.last();
        assert(m.last() == digits_of(last));
        assert(short_hex(last) =~= digits_of(last));
        if b.len() > 1 {
            lemma_listed_hex(b.drop_last());
            assert(b.drop_last().map_values(|x: u8| digits_of(x)) =~= m.drop_last());
        } else {
            assert(m[0] == digits_of(b[0]));
        }
    }
}

/// A file that is being received is named by its identifier's bytes, one after the other.
pub proof fn law_part_names(id: &[u8; 16], r: String)
    requires
        call_ensures(part_name, (id,), r),
    ensures
        r@ == "clipsync-["@ + crate::discovery::joined(id@.map_values(|x: u8| digits_of(x)))
            + "].part"@,
{
    lemma_listed_hex(id@);
}

/// A check says beforehand whether a chunk is refused as out of order or too large.
pub proof fn law_checking(v: &Receiver, c: &BinaryChunk, r: Result<(), TransferError>)
    requires
        call_ensures(Receiver::check, (v, c), r),
    ensures
        ({
            let mine = c.transfer_id@ == v@.id && c.total_chunks == v@.total_chunks && c.total_size
                == v@.size && c.index == v@.next_index && c.index < u32::MAX;
            let fits = c.bytes@.len() <= 65_536 && v@.data.len() + c.bytes@.len() <= v@.size;
            &&& r is Ok <==> mine && fits
            &&& r is Err ==> r->Err_0 == if mine {
                TransferError::TransferTooLarge
            } else {
                TransferError::OutOfOrder
            }
        }),
{
}

} // verus!
