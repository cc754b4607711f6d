use clipsync::transfer::{
    chunks, hash, part_name, BinaryChunk, Receiver, TransferError, MAX_CHUNKS, MAX_CHUNK_BYTES,
    MAX_TRANSFER_BYTES,
};

#[test]
fn codec_and_chunking_round_trip() {
    let data = vec![7; MAX_CHUNK_BYTES * 2 + 3];
    let decoded: Vec<_> = chunks(&data, [4; 16])
        .iter()
        .map(|c| BinaryChunk::decode(&c.encode().unwrap()).unwrap())
        .collect();
    assert_eq!(
        decoded.iter().flat_map(|c| c.bytes.iter()).copied().collect::<Vec<_>>(),
        data
    );
    assert_eq!(decoded.len(), 3);
}

#[test]
fn tamper_and_limits_are_rejected() {
    let mut frame = BinaryChunk {
        transfer_id: [0; 16],
        index: 0,
        total_chunks: 1,
        total_size: 1,
        bytes: vec![1],
    }
    .encode()
    .unwrap();
    frame[3] = b'X';
    assert_eq!(BinaryChunk::decode(&frame), Err(TransferError::Malformed));
    assert_eq!(
        BinaryChunk {
            transfer_id: [0; 16],
            index: 0,
            total_chunks: 1,
            total_size: 1,
            bytes: vec![0; MAX_CHUNK_BYTES + 1]
        }
        .encode(),
        Err(TransferError::ChunkTooLarge)
    );
}

#[test]
fn frame_layout_is_exact() {
    let chunk = BinaryChunk {
        transfer_id: [9; 16],
        index: 0x0102,
        total_chunks: 0x0304,
        total_size: 0x0506_0708,
        bytes: vec![0xaa, 0xbb],
    };
    let frame = chunk.encode().unwrap();
    let mut want = b"CSB1".to_vec();
    want.extend_from_slice(&[1, 0]);
    want.extend_from_slice(&[9; 16]);
    want.extend_from_slice(&[0, 0, 1, 2]);
    want.extend_from_slice(&[0, 0, 3, 4]);
    want.extend_from_slice(&[0, 0, 0, 0, 5, 6, 7, 8]);
    want.extend_from_slice(&[0xaa, 0xbb]);
    assert_eq!(frame, want);
    assert_eq!(BinaryChunk::decode(&frame), Ok(chunk.clone()));
    let mut reserved = frame.clone();
    reserved[5] = 77;
    assert_eq!(BinaryChunk::decode(&reserved), Ok(chunk));
}

#[test]
fn frame_errors_are_told_apart() {
    let good = BinaryChunk {
        transfer_id: [1; 16],
        index: 0,
        total_chunks: 1,
        total_size: 2,
        bytes: vec![1, 2],
    };
    let with = |f: &dyn Fn(&mut BinaryChunk)| {
        let mut c = good.clone();
        f(&mut c);
        c.encode()
    };
    assert_eq!(
        with(&|c| c.total_size = MAX_TRANSFER_BYTES + 1),
        Err(TransferError::TransferTooLarge)
    );
    assert_eq!(with(&|c| c.total_chunks = 0), Err(TransferError::Malformed));
    assert_eq!(with(&|c| c.total_chunks = MAX_CHUNKS + 1), Err(TransferError::Malformed));
    assert_eq!(with(&|c| c.index = 1), Err(TransferError::Malformed));
    let mut short = good.clone();
    short.total_size = 1;
    assert_eq!(BinaryChunk::decode(&short.encode().unwrap()), Err(TransferError::Malformed));
    let frame = good.encode().unwrap();
    assert_eq!(BinaryChunk::decode(&frame[..37]), Err(TransferError::Malformed));
    let mut version = frame.clone();
    version[4] = 2;
    assert_eq!(BinaryChunk::decode(&version), Err(TransferError::Malformed));
}

#[test]
fn receiver_detects_tampering() {
    let id = [9; 16];
    let data = b"streamed";
    let mut receiver = Receiver::create(id, hash(data), data.len() as u64, 1).unwrap();
    let mut chunk = chunks(data, id).into_iter().next().unwrap();
    chunk.bytes[0] ^= 1;
    assert_eq!(receiver.push(&chunk), Err(TransferError::HashMismatch));
}

#[test]
fn receiver_takes_chunks_in_order() {
    let id = [3; 16];
    let data: Vec<u8> = (0..(MAX_CHUNK_BYTES + 10)).map(|i| (i % 251) as u8).collect();
    let parts = chunks(&data, id);
    assert_eq!(parts.len(), 2);
    let mut receiver = Receiver::create(id, hash(&data), data.len() as u64, 2).unwrap();
    assert_eq!(receiver.push(&parts[1]), Err(TransferError::OutOfOrder));
    assert_eq!(receiver.check(&parts[0]), Ok(()));
    assert_eq!(receiver.push(&parts[0]), Ok(false));
    assert_eq!(receiver.push(&parts[0]), Err(TransferError::OutOfOrder));
    assert_eq!(receiver.push(&parts[1]), Ok(true));
    let mut extra = parts[1].clone();
    extra.index = 2;
    extra.bytes.clear();
    assert_eq!(receiver.push(&extra), Ok(false));
    assert_eq!(receiver.push(&extra), Err(TransferError::OutOfOrder));
    extra.index = u32::MAX;
    assert_eq!(receiver.push(&extra), Err(TransferError::OutOfOrder));
}

#[test]
fn receiver_limits() {
    assert!(matches!(
        Receiver::create([0; 16], [0; 32], MAX_TRANSFER_BYTES + 1, 1),
        Err(TransferError::TransferTooLarge)
    ));
    assert!(matches!(
        Receiver::create([0; 16], [0; 32], 1, 0),
        Err(TransferError::TransferTooLarge)
    ));
    assert!(matches!(
        Receiver::create([0; 16], [0; 32], 1, MAX_CHUNKS + 1),
        Err(TransferError::TransferTooLarge)
    ));
    let mut r = Receiver::create([0; 16], [0; 32], 1, 1).unwrap();
    let big = BinaryChunk {
        transfer_id: [0; 16],
        index: 0,
        total_chunks: 1,
        total_size: 1,
        bytes: vec![1, 2],
    };
    assert_eq!(r.push(&big), Err(TransferError::TransferTooLarge));
}

#[test]
fn digest_of_known_text() {
    let h = hash(b"abc");
    assert_eq!(h[0], 0xba);
    assert_eq!(h[1], 0x78);
    assert_eq!(h[31], 0xad);
}

#[test]
fn part_name_lists_the_identifier() {
    let mut id = [0u8; 16];
    id[0] = 0xab;
    id[15] = 9;
    assert_eq!(
        part_name(&id),
        "clipsync-[ab, 0, 0, 0, 0, 0, 0, 0, 0, 0, 0, 0, 0, 0, 0, 9].part"
    );
    assert_eq!(part_name(&id), format!("clipsync-{:x?}.part", id));
}

#[test]
fn transfer_errors_in_words() {
    assert_eq!(TransferError::Malformed.to_string(), "binary frame is malformed");
    assert_eq!(TransferError::ChunkTooLarge.to_string(), "binary chunk exceeds limit");
    assert_eq!(TransferError::TransferTooLarge.to_string(), "transfer exceeds limit");
    assert_eq!(TransferError::OutOfOrder.to_string(), "unexpected chunk order");
    assert_eq!(TransferError::HashMismatch.to_string(), "transfer hash mismatch");
    assert_eq!(TransferError::Io("x".into()).to_string(), "I/O error: x");
}
