use framestream::{
    bgra_to_rgba, concat_chunks, datagram_header, datagram_packet_bytes, encode_chunks,
    encode_datagram_frame, encode_stream_frame, num_chunks_of, reassemble, remaining_delay,
    stream_chunk_message, stream_header, Frame, Pacer, Packet, PixelFormat, Profile, Session,
    SessionStatus, StreamError,
};

#[test]
fn chunking_scenario_lengths() {
    // chunk size 4, payload 10 bytes -> chunks of lengths [4, 4, 2]
    let payload: Vec<u8> = (0u8..10).collect();
    let chunks = encode_chunks(&payload, 4);
    let lens: Vec<usize> = chunks.iter().map(|c| c.len()).collect();
    assert_eq!(lens, vec![4, 4, 2]);
    assert_eq!(num_chunks_of(10, 4), 3);
    assert_eq!(chunks[0], vec![0, 1, 2, 3]);
    assert_eq!(chunks[1], vec![4, 5, 6, 7]);
    assert_eq!(chunks[2], vec![8, 9]);
}

#[test]
fn chunking_empty_payload() {
    let payload: Vec<u8> = Vec::new();
    let chunks = encode_chunks(&payload, 4);
    assert!(chunks.is_empty());
    assert_eq!(num_chunks_of(0, 4), 0);
    assert_eq!(concat_chunks(&chunks), Vec::<u8>::new());
}

#[test]
fn chunking_exact_multiple() {
    let payload: Vec<u8> = (0u8..8).collect();
    let chunks = encode_chunks(&payload, 4);
    let lens: Vec<usize> = chunks.iter().map(|c| c.len()).collect();
    assert_eq!(lens, vec![4, 4]);
}

#[test]
fn chunking_sum_of_lengths() {
    let payload: Vec<u8> = (0u8..=255).collect();
    for c in [1usize, 3, 7, 64, 255, 256, 1000] {
        let chunks = encode_chunks(&payload, c);
        let sum: usize = chunks.iter().map(|ch| ch.len()).sum();
        assert_eq!(sum, payload.len());
        assert_eq!(chunks.len(), (payload.len() + c - 1) / c);
        for (i, ch) in chunks.iter().enumerate() {
            if i + 1 < chunks.len() {
                assert_eq!(ch.len(), c);
            } else {
                assert!(ch.len() > 0 && ch.len() <= c);
            }
        }
    }
}

#[test]
fn stream_round_trip() {
    let payload: Vec<u8> = (0u8..=200).collect();
    let chunks = encode_chunks(&payload, 7);
    assert_eq!(concat_chunks(&chunks), payload);
}

#[test]
fn datagram_round_trip_out_of_order() {
    let payload: Vec<u8> = (0u8..50).collect();
    let chunks = encode_chunks(&payload, 8);
    let n = chunks.len();
    // deliver the chunks in reversed order
    let packets: Vec<Packet> = chunks
        .into_iter()
        .enumerate()
        .rev()
        .map(|(i, data)| Packet { index: i as u32, data })
        .collect();
    let out = reassemble(&packets, payload.len(), 8);
    assert_eq!(out, Some(payload));
    assert_eq!(n, 7);
}

#[test]
fn datagram_round_trip_interleaved_order() {
    let payload: Vec<u8> = (0u8..100).collect();
    let chunks = encode_chunks(&payload, 9);
    let mut indexed: Vec<Packet> = chunks
        .into_iter()
        .enumerate()
        .map(|(i, data)| Packet { index: i as u32, data })
        .collect();
    // odd indices first, then even ones
    indexed.sort_by_key(|p| (p.index % 2 == 0, p.index));
    let out = reassemble(&indexed, payload.len(), 9);
    assert_eq!(out, Some(payload));
}

#[test]
fn reassemble_empty_frame() {
    let packets: Vec<Packet> = Vec::new();
    assert_eq!(reassemble(&packets, 0, 4), Some(Vec::new()));
}

#[test]
fn reassemble_in_natural_order() {
    let payload: Vec<u8> = (0u8..10).collect();
    let chunks = encode_chunks(&payload, 4);
    let packets: Vec<Packet> = chunks
        .into_iter()
        .enumerate()
        .map(|(i, data)| Packet { index: i as u32, data })
        .collect();
    assert_eq!(reassemble(&packets, 10, 4), Some(payload));
}

#[test]
fn reassemble_rejects_duplicate_index() {
    let payload: Vec<u8> = (0u8..10).collect();
    let chunks = encode_chunks(&payload, 4);
    let packets = vec![
        Packet { index: 0, data: chunks[0].clone() },
        Packet { index: 0, data: chunks[0].clone() },
        Packet { index: 2, data: chunks[2].clone() },
    ];
    assert_eq!(reassemble(&packets, 10, 4), None);
}

#[test]
fn reassemble_rejects_missing_packet() {
    let payload: Vec<u8> = (0u8..10).collect();
    let chunks = encode_chunks(&payload, 4);
    let packets = vec![
        Packet { index: 0, data: chunks[0].clone() },
        Packet { index: 2, data: chunks[2].clone() },
    ];
    assert_eq!(reassemble(&packets, 10, 4), None);
}

#[test]
fn reassemble_rejects_out_of_range_index() {
    let payload: Vec<u8> = (0u8..10).collect();
    let chunks = encode_chunks(&payload, 4);
    let packets = vec![
        Packet { index: 0, data: chunks[0].clone() },
        Packet { index: 1, data: chunks[1].clone() },
        Packet { index: 3, data: chunks[2].clone() },
    ];
    assert_eq!(reassemble(&packets, 10, 4), None);
}

#[test]
fn reassemble_rejects_wrong_chunk_length() {
    let payload: Vec<u8> = (0u8..10).collect();
    let chunks = encode_chunks(&payload, 4);
    let packets = vec![
        Packet { index: 0, data: chunks[0].clone() },
        Packet { index: 1, data: vec![1, 2, 3] },
        Packet { index: 2, data: chunks[2].clone() },
    ];
    assert_eq!(reassemble(&packets, 10, 4), None);
}

#[test]
fn pixel_conversion_swaps_first_and_third() {
    // for every 4-byte group: out[0]=in[2], out[1]=in[1], out[2]=in[0], out[3]=in[3]
    let bgra = vec![10, 20, 30, 40, 50, 60, 70, 80];
    let rgba = bgra_to_rgba(&bgra).unwrap();
    assert_eq!(rgba, vec![30, 20, 10, 40, 70, 60, 50, 80]);
}

#[test]
fn pixel_conversion_involution() {
    let bgra: Vec<u8> = (0u8..64).collect();
    let once = bgra_to_rgba(&bgra).unwrap();
    let twice = bgra_to_rgba(&once).unwrap();
    assert_eq!(twice, bgra);
}

#[test]
fn pixel_conversion_rejects_ragged_buffer() {
    let bad = vec![1, 2, 3, 4, 5];
    assert_eq!(bgra_to_rgba(&bad), Err(StreamError::InvalidBufferLength));
    let empty: Vec<u8> = Vec::new();
    assert_eq!(bgra_to_rgba(&empty), Ok(Vec::new()));
}

#[test]
fn pacing_scenario_candidates() {
    // target interval ~16.67 ms, in microseconds; candidates at
    // t = 0, 5, 10, 17, 34 ms -> accepted at 0, 17, 34; dropped at 5, 10
    let mut pacer = Pacer::new(16_670);
    let mut accepted_at: Vec<u64> = Vec::new();
    let mut dropped_at: Vec<u64> = Vec::new();
    for t in [0u64, 5_000, 10_000, 17_000, 34_000] {
        if pacer.offer(t) {
            accepted_at.push(t);
            pacer.complete(t);
        } else {
            dropped_at.push(t);
        }
    }
    assert_eq!(accepted_at, vec![0, 17_000, 34_000]);
    assert_eq!(dropped_at, vec![5_000, 10_000]);
    assert_eq!(pacer.accepted, 3);
    assert_eq!(pacer.dropped, 2);
    assert_eq!(pacer.accepted + pacer.dropped, pacer.offered);
}

#[test]
fn pacing_unconstrained_accepts_every_candidate() {
    let mut pacer = Pacer::new(0);
    for t in [0u64, 1, 1, 2, 1000] {
        assert!(pacer.offer(t));
        pacer.complete(t);
    }
    assert_eq!(pacer.accepted, 5);
    assert_eq!(pacer.dropped, 0);
}

#[test]
fn pacing_counters_always_sum() {
    let mut pacer = Pacer::new(100);
    let times = [0u64, 10, 110, 120, 250, 260, 400];
    for t in times {
        if pacer.offer(t) {
            pacer.complete(t);
        }
        assert_eq!(pacer.accepted + pacer.dropped, pacer.offered);
    }
    assert_eq!(pacer.offered, times.len() as u64);
}

#[test]
fn single_in_flight_gate_drops_new_frames() {
    // a frame that arrives while the prior one is still being sent is
    // dropped and counted, never queued
    let mut pacer = Pacer::new(10);
    assert!(pacer.offer(0));
    // the first frame has not completed: a much later candidate still loses
    assert!(!pacer.offer(1_000_000));
    assert_eq!(pacer.dropped, 1);
    pacer.complete(1_000_000);
    assert!(pacer.offer(1_000_010));
    assert_eq!(pacer.accepted, 2);
    assert_eq!(pacer.accepted + pacer.dropped, pacer.offered);
}

#[test]
fn pacing_clock_resets_on_completion_not_capture() {
    let mut pacer = Pacer::new(100);
    assert!(pacer.offer(0));
    // the send finishes late, at t = 500
    pacer.complete(500);
    // 100 units after capture but only 50 after completion: dropped
    assert!(!pacer.offer(550));
    assert!(pacer.offer(600));
}

#[test]
fn stream_failure_terminates_session() {
    // a write failure on chunk 2 of 3 aborts the frame and the session
    let mut session = Session::new(Profile::Stream);
    session.begin_frame(3);
    session.record_chunk_send(true);
    session.record_chunk_send(false);
    assert_eq!(session.status, SessionStatus::Terminated);
    assert_eq!(session.frames_aborted, 1);
    assert_eq!(session.frames_completed, 0);
}

#[test]
fn datagram_failure_aborts_only_the_frame() {
    // a send failure on chunk 2 of 3 aborts that frame; the next frame is
    // sent normally
    let mut session = Session::new(Profile::Datagram);
    session.begin_frame(3);
    session.record_chunk_send(true);
    session.record_chunk_send(false);
    assert_eq!(session.status, SessionStatus::Idle);
    assert_eq!(session.frames_aborted, 1);
    session.begin_frame(3);
    session.record_chunk_send(true);
    session.record_chunk_send(true);
    session.record_chunk_send(true);
    assert_eq!(session.status, SessionStatus::Idle);
    assert_eq!(session.frames_completed, 1);
    assert_eq!(session.frames_aborted, 1);
}

#[test]
fn stream_session_completes_frames() {
    let mut session = Session::new(Profile::Stream);
    session.begin_frame(2);
    session.record_chunk_send(true);
    assert_eq!(session.status, SessionStatus::Sending);
    session.record_chunk_send(true);
    assert_eq!(session.status, SessionStatus::Idle);
    assert_eq!(session.frames_completed, 1);
}

#[test]
fn empty_frame_is_complete_at_once() {
    let mut session = Session::new(Profile::Datagram);
    session.begin_frame(0);
    assert_eq!(session.status, SessionStatus::Idle);
    assert_eq!(session.frames_completed, 1);
}

#[test]
fn stream_header_layout() {
    let h = stream_header(1280, 720, 10, 3);
    let mut expected = Vec::new();
    expected.extend_from_slice(&1280u32.to_le_bytes());
    expected.extend_from_slice(&720u32.to_le_bytes());
    expected.extend_from_slice(&10u32.to_le_bytes());
    expected.extend_from_slice(&3u32.to_le_bytes());
    assert_eq!(h, expected);
    assert_eq!(h.len(), 16);
}

#[test]
fn datagram_header_layout() {
    let h = datagram_header(10, 3);
    let mut expected = Vec::new();
    expected.extend_from_slice(&10u32.to_le_bytes());
    expected.extend_from_slice(&3u32.to_le_bytes());
    assert_eq!(h, expected);
    assert_eq!(h.len(), 8);
}

#[test]
fn stream_chunk_message_layout() {
    let msg = stream_chunk_message(&vec![9, 8, 7]);
    assert_eq!(msg, vec![3, 0, 0, 0, 9, 8, 7]);
}

#[test]
fn datagram_packet_layout() {
    let pkt = datagram_packet_bytes(7, &vec![1, 2]);
    assert_eq!(pkt, vec![7, 0, 0, 0, 1, 2]);
}

#[test]
fn stream_frame_wire_shape() {
    let payload: Vec<u8> = (0u8..10).collect();
    let (header, messages) = encode_stream_frame(1280, 720, &payload, 4);
    assert_eq!(header, stream_header(1280, 720, 10, 3));
    assert_eq!(messages.len(), 3);
    assert_eq!(messages[0], vec![4, 0, 0, 0, 0, 1, 2, 3]);
    assert_eq!(messages[1], vec![4, 0, 0, 0, 4, 5, 6, 7]);
    assert_eq!(messages[2], vec![2, 0, 0, 0, 8, 9]);
}

#[test]
fn datagram_frame_wire_shape() {
    let payload: Vec<u8> = (0u8..10).collect();
    let (header, packets) = encode_datagram_frame(&payload, 4);
    assert_eq!(header, datagram_header(10, 3));
    assert_eq!(packets.len(), 3);
    assert_eq!(packets[0], vec![0, 0, 0, 0, 0, 1, 2, 3]);
    assert_eq!(packets[1], vec![1, 0, 0, 0, 4, 5, 6, 7]);
    assert_eq!(packets[2], vec![2, 0, 0, 0, 8, 9]);
}

#[test]
fn frame_checks_payload_length() {
    let ok = Frame::new(2, 2, PixelFormat::Bgra, vec![0; 16]);
    assert!(ok.is_ok());
    let bad = Frame::new(2, 2, PixelFormat::Bgra, vec![0; 15]);
    assert!(matches!(bad, Err(StreamError::InvalidBufferLength)));
}

#[test]
fn frame_prepare_converts_bgra() {
    let frame = Frame::new(1, 1, PixelFormat::Bgra, vec![10, 20, 30, 40]).unwrap();
    assert_eq!(frame.prepare_payload(), Ok(vec![30, 20, 10, 40]));
}

#[test]
fn frame_prepare_rejects_other_layouts() {
    let frame = Frame::new(1, 1, PixelFormat::Rgbx, vec![10, 20, 30, 40]).unwrap();
    assert_eq!(frame.prepare_payload(), Err(StreamError::UnexpectedFrameFormat));
}

#[test]
fn remaining_delay_keeps_cadence() {
    assert_eq!(remaining_delay(5, 16), 11);
    assert_eq!(remaining_delay(16, 16), 0);
    assert_eq!(remaining_delay(100, 16), 0);
    assert_eq!(remaining_delay(0, 0), 0);
}
