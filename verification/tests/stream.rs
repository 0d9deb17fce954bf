use watch_party::player::{MpvPlayer, RejectedChunk};
use watch_party::protocol::manifest::ChunkBoundary;
use watch_party::protocol::messages::{MessageKind, StreamChunk, SyncBeacon, WireMessage};
use watch_party::stream::encode::{encode_args, encode_chunk, make_stream_chunk, EncodeError};
use watch_party::stream::framing::{
    compute_hmac, decode_frame, encode_frame, frame_length, kind_of_tag, tag, verify_hmac,
    FrameError, MAX_FRAME_BYTES,
};

fn chunk(session_id: [u8; 32], sequence: u64, payload: Vec<u8>, hmac: [u8; 32]) -> StreamChunk {
    StreamChunk { session_id, sequence, chapter_index: 0, pts_us: 0, keyframe: true, payload, hmac }
}

#[test]
fn rejects_tampered_chunk() {
    let session_id = [0xBE; 32];
    let payload = vec![0x47u8; 188]; // one TS packet (0x47 = sync byte)
    let sequence = 3u64;
    let good_hmac = compute_hmac(&session_id, sequence, &payload);
    let mut chunk = StreamChunk {
        session_id,
        sequence,
        chapter_index: 0,
        pts_us: 6_000_000,
        keyframe: true,
        payload: payload.clone(),
        hmac: good_hmac,
    };
    assert!(verify_hmac(&chunk, &session_id));
    // Flip one payload byte.
    chunk.payload[0] ^= 0xFF;
    assert!(!verify_hmac(&chunk, &session_id));
}

#[test]
fn wrong_session_id_rejected() {
    let session_id = [0xCA; 32];
    let wrong_id = [0xFE; 32];
    let payload = b"ts-bytes".to_vec();
    let hmac = compute_hmac(&session_id, 0, &payload);
    let chunk = chunk(session_id, 0, payload, hmac);
    assert!(!verify_hmac(&chunk, &wrong_id));
}

#[test]
fn roundtrip_sync_beacon() {
    let beacon = SyncBeacon {
        session_id: [0xAB; 32],
        host_pts_us: 42_500_000,
        host_chunk_seq: 21,
        playing: true,
        timestamp_utc: 1_700_000_000,
    };
    let msg = WireMessage::SyncBeacon(beacon);
    let content = (
        beacon.session_id,
        beacon.host_pts_us as f64 / 1e6,
        beacon.host_chunk_seq,
        beacon.playing,
        beacon.timestamp_utc,
    );
    let frame = encode_frame(msg.kind(), &bincode::serialize(&content).unwrap());

    let length = frame_length([frame[0], frame[1], frame[2], frame[3]]).unwrap() as usize;
    assert_eq!(frame.len(), 4 + length);
    let (kind, payload) = decode_frame(&frame[4..]).unwrap();
    match kind {
        MessageKind::SyncBeacon => {
            let b: ([u8; 32], f64, u64, bool, u64) = bincode::deserialize(payload).unwrap();
            assert_eq!(b.0, [0xAB; 32]);
            assert_eq!(b.1, 42.5);
            assert_eq!(b.2, 21);
            assert!(b.3);
            assert_eq!(b.4, 1_700_000_000);
        }
        other => panic!("expected SyncBeacon, got {other:?}"),
    }
}

#[test]
fn hmac_compute_and_verify() {
    let session_id = [0x1A; 32];
    let payload = b"hello chunk";
    let sequence = 7u64;
    let tag = compute_hmac(&session_id, sequence, payload);
    let chunk = chunk(session_id, sequence, payload.to_vec(), tag);
    assert!(verify_hmac(&chunk, &session_id));

    let mut tampered = chunk.clone();
    tampered.payload[0] ^= 0xFF;
    assert!(!verify_hmac(&tampered, &session_id));
}

#[test]
fn rejects_oversized_frame() {
    let oversized_len = (MAX_FRAME_BYTES + 1).to_le_bytes();
    let err = frame_length(oversized_len).unwrap_err();
    assert!(err.message().contains("frame too large"));
}

#[test]
fn hmac_has_the_known_value() {
    let expected = "2c431eb2b8d78d37273852dd445921416644ca5bc7228a166be75184854cc2f4";
    let code = compute_hmac(&[0x1A; 32], 7, b"hello chunk");
    let hex: String = code.iter().map(|b| format!("{b:02x}")).collect();
    assert_eq!(hex, expected);
}

#[test]
fn code_covers_the_sequence() {
    let session_id = [7; 32];
    let hmac = compute_hmac(&session_id, 1, b"x");
    assert!(verify_hmac(&chunk(session_id, 1, b"x".to_vec(), hmac), &session_id));
    assert!(!verify_hmac(&chunk(session_id, 2, b"x".to_vec(), hmac), &session_id));
}

#[test]
fn changed_code_is_refused() {
    let session_id = [7; 32];
    let mut hmac = compute_hmac(&session_id, 1, b"x");
    hmac[31] ^= 1;
    assert!(!verify_hmac(&chunk(session_id, 1, b"x".to_vec(), hmac), &session_id));
}

#[test]
fn frames_have_length_tag_and_payload() {
    assert_eq!(encode_frame(MessageKind::Pause, b"abc"), vec![4, 0, 0, 0, 0x20, b'a', b'b', b'c']);
    assert_eq!(encode_frame(MessageKind::End, b""), vec![1, 0, 0, 0, 0x23]);
    let long = encode_frame(MessageKind::Chunk, &vec![9; 0x1_0203]);
    assert_eq!(&long[..5], &[0x04, 0x02, 0x01, 0x00, 0x10]);
}

#[test]
fn frames_read_back() {
    let frame = encode_frame(MessageKind::Seek, b"payload");
    let length = frame_length([frame[0], frame[1], frame[2], frame[3]]);
    assert_eq!(length, Ok(8));
    assert_eq!(decode_frame(&frame[4..]), Ok((MessageKind::Seek, &b"payload"[..])));
}

#[test]
fn lengths_at_the_limits() {
    assert_eq!(frame_length([0, 0, 0, 0]), Err(FrameError::Empty));
    assert_eq!(FrameError::Empty.message(), "received zero-length frame");
    assert_eq!(frame_length(MAX_FRAME_BYTES.to_le_bytes()), Ok(16_777_216));
    let error = frame_length([1, 0, 0, 1]).unwrap_err();
    assert_eq!(error, FrameError::TooLarge(16_777_217));
    assert_eq!(error.message(), "frame too large: 16777217 bytes (max 16777216)");
}

#[test]
fn unknown_tags_are_refused() {
    let error = decode_frame(&[0x0f, 1, 2]).unwrap_err();
    assert_eq!(error, FrameError::UnknownTag(0x0f));
    assert_eq!(error.message(), "unknown wire type tag: 0x0f");
}

#[test]
fn tags_are_stable_and_distinct() {
    let tags = [
        (MessageKind::Manifest, 0x01),
        (MessageKind::ManifestAck, 0x02),
        (MessageKind::CapabilityChallenge, 0x03),
        (MessageKind::CapabilityResponse, 0x04),
        (MessageKind::SessionRoles, 0x05),
        (MessageKind::StreamReady, 0x06),
        (MessageKind::Chunk, 0x10),
        (MessageKind::SyncBeacon, 0x11),
        (MessageKind::PeerStatus, 0x12),
        (MessageKind::Pause, 0x20),
        (MessageKind::Resume, 0x21),
        (MessageKind::Seek, 0x22),
        (MessageKind::End, 0x23),
    ];
    for (kind, value) in tags {
        assert_eq!(tag(kind), value);
        assert_eq!(kind_of_tag(value), Some(kind));
    }
    let known = (0..=255u8).filter(|t| kind_of_tag(*t).is_some()).count();
    assert_eq!(known, tags.len());
}

fn boundary() -> ChunkBoundary {
    ChunkBoundary {
        sequence: 4,
        pts_us: 8_041_708,
        duration_us: 2_000_000,
        byte_offset: None,
        byte_length: None,
        keyframe_snapped: true,
        snap_delta_ms: 42,
        is_chapter_start: false,
        chapter_index: Some(3),
        chapter_title: None,
    }
}

#[test]
fn encode_arguments() {
    let args = encode_args(&["-f", "v4l2"], "/dev/video0", &boundary());
    let expected = [
        "-ss", "8.041708", "-f", "v4l2", "-i", "/dev/video0", "-t", "2.000000", "-c", "copy",
        "-map", "0", "-f", "mpegts", "-mpegts_copyts", "1", "pipe:1",
    ];
    assert_eq!(args, expected);
}

#[test]
fn output_becomes_an_authentic_message() {
    let encoded = encode_chunk(&boundary(), vec![1, 2, 3]).unwrap();
    assert_eq!((encoded.sequence, encoded.pts_us, encoded.chapter_index), (4, 8_041_708, 3));
    let session_id = [9; 32];
    let message = make_stream_chunk(encoded, &session_id);
    assert_eq!(message.payload, vec![1, 2, 3]);
    assert!(message.keyframe);
    assert_eq!(message.session_id, session_id);
    assert!(verify_hmac(&message, &session_id));
}

#[test]
fn no_output_is_an_error() {
    let error = encode_chunk(&boundary(), vec![]).unwrap_err();
    assert_eq!(error, EncodeError::NoOutput { sequence: 4, pts_us: 8_041_708 });
}

#[test]
fn unset_chapter_counts_as_zero() {
    let encoded = encode_chunk(&ChunkBoundary { chapter_index: None, ..boundary() }, vec![0]);
    assert_eq!(encoded.unwrap().chapter_index, 0);
}

#[test]
fn player_drops_and_counts_forged_chunks() {
    let session_id = [5; 32];
    let mut player = MpvPlayer::new(&session_id);
    let forged = chunk(session_id, 11, b"x".to_vec(), [0; 32]);
    assert_eq!(
        player.play_chunk(&forged),
        Err(RejectedChunk { sequence: 11, total_rejected: 1 })
    );
    let error = player.play_chunk(&forged).unwrap_err();
    assert_eq!(
        error.message(),
        "HMAC verification failed — dropping chunk seq=11 (total rejected: 2)"
    );
    assert_eq!((player.chunks_fed, player.chunks_rejected), (0, 2));
    let good = chunk(session_id, 12, b"x".to_vec(), compute_hmac(&session_id, 12, b"x"));
    assert_eq!(player.play_chunk(&good), Ok(()));
    assert_eq!(player.chunks_rejected, 2);
}
