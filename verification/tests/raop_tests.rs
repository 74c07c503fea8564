use raop::ntp::NtpTime;
use raop::pairing::{hex_decode, pair_verify_step1, pair_verify_step2, PairingError};
use raop::rtp::{
    RtpAudioPacket, RtpLostPacket, RtpSyncPacket, RtpTimingPacket, WireDecodeError,
    wrap_retransmission,
};
use raop::rtsp::{
    parse_decimal, parse_header_line, parse_status_line, trim_bytes, RtspError, RtspSession,
};
use raop::status::{Sane, Status, MAX_BACKLOG};
use raop::sync::{handle_lost_request, process_control_datagram, process_timing_datagram};
use raop::units::{Frames, SampleRate};

fn fresh_session() -> RtspSession {
    RtspSession::new(
        &b"10.0.0.1".to_vec(),
        &b"3413821438".to_vec(),
        &b"iTunes/7.6.2 (Windows; N;)".to_vec(),
        Vec::new(),
    )
}

fn contains(haystack: &[u8], needle: &[u8]) -> bool {
    haystack.windows(needle.len()).any(|w| w == needle)
}

#[test]
fn ntp_serialize_is_eight_bytes_big_endian() {
    let t = NtpTime::new(0x01020304, 0xA1B2C3D4);
    let bytes = t.serialize();
    assert_eq!(bytes, vec![0x01, 0x02, 0x03, 0x04, 0xA1, 0xB2, 0xC3, 0xD4]);
    let back = NtpTime::deserialize(&bytes, 0);
    assert_eq!(back, t);
}

#[test]
fn ntp_millis_exact() {
    // One second is exactly 1000 milliseconds.
    assert_eq!(NtpTime::new(1, 0).millis(), 1000);
    assert_eq!(NtpTime::new(0, 0).millis(), 0);
}

#[test]
fn ntp_epoch_to_frames() {
    // The Unix epoch in NTP seconds, at 44100 Hz.
    let t = NtpTime::new(0x83AA_7E80, 0);
    assert_eq!(t.into_timestamp(SampleRate::new(44100)).value(), 97_416_406_080_000);
    // One second later is exactly 44100 frames later.
    let u = NtpTime::new(0x83AA_7E81, 0);
    assert_eq!(u.into_timestamp(SampleRate::new(44100)).value(), 97_416_406_080_000 + 44_100);
}

#[test]
fn ntp_from_timestamp_exact() {
    let t = NtpTime::from_timestamp(Frames::new(1000), SampleRate::new(44100));
    assert_eq!(t.seconds, 0);
    assert_eq!(t.fraction, 97_386_496);
}

#[test]
fn ntp_round_trip_is_close() {
    let rate = SampleRate::new(44100);
    let t = NtpTime::new(0x83AA_7E80, 0x12345678);
    let frames = t.into_timestamp(rate);
    let back = NtpTime::from_timestamp(frames, rate);
    let orig = ((t.seconds as u64) << 32) | t.fraction as u64;
    let redo = ((back.seconds as u64) << 32) | back.fraction as u64;
    assert!(redo <= orig);
    // Within a few 2^-16 second steps.
    assert!(orig - redo <= 0x10000 * (2 + 0x10000 / 44100));
}

#[test]
fn ntp_sub_without_borrow() {
    let d = NtpTime::new(2, 0x8000_0000).sub(NtpTime::new(1, 0x4000_0000));
    assert_eq!(d.seconds, 1);
    assert_eq!(d.fraction, 0x4000_0000);
}

#[test]
fn ntp_sub_with_borrow() {
    let d = NtpTime::new(2, 0).sub(NtpTime::new(1, 1));
    assert_eq!(d.seconds, 0);
    assert_eq!(d.fraction, 0xFFFF_FFFF);
}

#[test]
fn ntp_from_unix_projects_epoch() {
    let t = NtpTime::from_unix(0, 500_000);
    assert_eq!(t.seconds, 0x83AA_7E80);
    assert_eq!(t.fraction, 0x8000_0000);
}

#[test]
fn ntp_now_is_after_1970() {
    let t = NtpTime::now();
    assert!(t.seconds > 0x83AA_7E80);
}

#[test]
fn audio_packet_round_trip() {
    let p = RtpAudioPacket {
        marker: true,
        seq_number: 0xFFFE,
        timestamp: 0xDEADBEEF,
        ssrc: 42,
        payload: vec![1, 2, 3, 4, 5],
    };
    let bytes = p.as_bytes();
    assert_eq!(bytes.len(), 17);
    assert_eq!(bytes[0], 0x80);
    assert_eq!(bytes[1], 0xE0);
    let q = RtpAudioPacket::deserialize(&bytes).unwrap();
    assert_eq!(q, p);
    assert_eq!(q.as_bytes(), bytes);
}

#[test]
fn audio_packet_decode_errors() {
    assert_eq!(
        RtpAudioPacket::deserialize(&vec![0x80, 0x60, 0]),
        Err(WireDecodeError::BadLength)
    );
    let mut bad = vec![0u8; 12];
    bad[0] = 0x80;
    bad[1] = 0x55;
    assert_eq!(RtpAudioPacket::deserialize(&bad), Err(WireDecodeError::BadFlags));
}

#[test]
fn sync_packet_round_trip() {
    let now = NtpTime::new(0x83AA_7E90, 0x1234_5678);
    let p = RtpSyncPacket::build(Frames::new(1000), now, Frames::new(100), true);
    let bytes = p.as_bytes();
    assert_eq!(bytes.len(), 20);
    assert_eq!(bytes[0], 0x84);
    assert_eq!(bytes[1], 0x54);
    let q = RtpSyncPacket::deserialize(&bytes).unwrap();
    assert_eq!(q, p);
    assert_eq!(q.as_bytes(), bytes);
}

#[test]
fn sync_packet_reference_is_head_less_latency() {
    let now = NtpTime::new(7, 9);
    let p = RtpSyncPacket::build(Frames::new(1000), now, Frames::new(100), false);
    assert_eq!(p.rtp_timestamp_latency, 900);
    assert_eq!(p.rtp_timestamp, 1000);
    // The clock field is the wall-clock reading handed in at build time.
    assert_eq!(p.curr_time, now);
}

#[test]
fn timing_packet_round_trip() {
    let p = RtpTimingPacket {
        response: false,
        origin: NtpTime::new(1, 2),
        receive: NtpTime::new(3, 4),
        transmit: NtpTime::new(5, 6),
    };
    let bytes = p.as_bytes();
    assert_eq!(bytes.len(), 32);
    assert_eq!(bytes[0], 0x80);
    assert_eq!(bytes[1], 0x52);
    let q = RtpTimingPacket::deserialize(&bytes).unwrap();
    assert_eq!(q, p);
    assert_eq!(q.as_bytes(), bytes);
}

#[test]
fn lost_packet_round_trip() {
    let p = RtpLostPacket { seq_number: 0xFFFE, n: 4 };
    let bytes = p.as_bytes();
    assert_eq!(bytes.len(), 8);
    assert_eq!(bytes, vec![0x80, 0x55, 0, 0, 0xFF, 0xFE, 0, 4]);
    let q = RtpLostPacket::deserialize(&bytes).unwrap();
    assert_eq!(q, p);
}

#[test]
fn lost_packet_decode_errors() {
    assert_eq!(
        RtpLostPacket::deserialize(&vec![0x80, 0x55, 0]),
        Err(WireDecodeError::BadLength)
    );
    assert_eq!(
        RtpLostPacket::deserialize(&vec![0x80, 0x54, 0, 0, 0, 1, 0, 1]),
        Err(WireDecodeError::BadFlags)
    );
}

#[test]
fn retransmission_wrapper_prepends_envelope() {
    let wrapped = wrap_retransmission(&vec![9, 8, 7]);
    assert_eq!(wrapped, vec![0x80, 0x56, 0, 0, 9, 8, 7]);
}

#[test]
fn streamer_advances_seq_and_ts_together() {
    let mut status = Status::new(0, Frames::new(1000));
    let b0 = status.next_packet(vec![1], 352, 7);
    let b1 = status.next_packet(vec![2], 352, 7);
    let p0 = RtpAudioPacket::deserialize(&b0).unwrap();
    let p1 = RtpAudioPacket::deserialize(&b1).unwrap();
    // Consecutive packets: seq steps by one, ts by the chunk size.
    assert_eq!(p1.seq_number.wrapping_sub(p0.seq_number), 1);
    assert_eq!(p1.timestamp - p0.timestamp, 352);
    // The first packet of a run carries the marker, later ones do not.
    assert!(p0.marker);
    assert!(!p1.marker);
}

#[test]
fn streamer_wraps_seq_while_ts_grows() {
    let mut status = Status::new(0xFFFE, Frames::new(5000));
    let b0 = status.next_packet(vec![0], 352, 1);
    let b1 = status.next_packet(vec![0], 352, 1);
    let b2 = status.next_packet(vec![0], 352, 1);
    let s0 = RtpAudioPacket::deserialize(&b0).unwrap();
    let s1 = RtpAudioPacket::deserialize(&b1).unwrap();
    let s2 = RtpAudioPacket::deserialize(&b2).unwrap();
    assert_eq!(s0.seq_number, 0xFFFE);
    assert_eq!(s1.seq_number, 0xFFFF);
    assert_eq!(s2.seq_number, 0x0000);
    assert_eq!(s0.timestamp, 5000);
    assert_eq!(s1.timestamp, 5352);
    assert_eq!(s2.timestamp, 5704);
    assert_eq!(status.head_ts.value(), 5000 + 3 * 352);
}

#[test]
fn retransmit_hit_returns_exact_bytes() {
    let mut status = Status::new(0, Frames::new(0));
    let mut sent: Vec<Vec<u8>> = Vec::new();
    for i in 0..10u8 {
        sent.push(status.next_packet(vec![i, i, i], 352, 99));
    }
    let reply = handle_lost_request(&status, &RtpLostPacket { seq_number: 4, n: 2 });
    assert_eq!(reply.packets.len(), 2);
    assert_eq!(reply.missed, 0);
    assert_eq!(reply.out_of_backlog, 0);
    assert_eq!(reply.packets[0], wrap_retransmission(&sent[4]));
    assert_eq!(reply.packets[1], wrap_retransmission(&sent[5]));
}

#[test]
fn retransmit_miss_out_of_window() {
    // Fill the whole ring and two slots more, so seqs 0 and 1 are overwritten.
    let mut status = Status::new(0, Frames::new(0));
    for _ in 0..(MAX_BACKLOG + 2) {
        status.next_packet(vec![0], 352, 99);
    }
    let reply = handle_lost_request(&status, &RtpLostPacket { seq_number: 1, n: 1 });
    assert_eq!(reply.packets.len(), 0);
    assert_eq!(reply.out_of_backlog, 1);
    assert_eq!(reply.missed, 0);
}

#[test]
fn retransmit_request_spanning_wrap() {
    let mut status = Status::new(0xFFFE, Frames::new(0));
    let mut sent: Vec<Vec<u8>> = Vec::new();
    for i in 0..4u8 {
        sent.push(status.next_packet(vec![i], 352, 99));
    }
    // Seqs 0xFFFE, 0xFFFF, 0x0000, 0x0001: the request spans the wrap.
    let reply = handle_lost_request(&status, &RtpLostPacket { seq_number: 0xFFFE, n: 4 });
    assert_eq!(reply.packets.len(), 4);
    for i in 0..4 {
        assert_eq!(reply.packets[i], wrap_retransmission(&sent[i]));
    }
}

#[test]
fn retransmit_missed_after_flush() {
    let mut status = Status::new(0, Frames::new(0));
    for _ in 0..4 {
        status.next_packet(vec![0], 352, 99);
    }
    status.flush_backlog();
    assert_eq!(status.pause_ts.value(), status.head_ts.value());
    let reply = handle_lost_request(&status, &RtpLostPacket { seq_number: 0, n: 4 });
    assert_eq!(reply.packets.len(), 0);
    assert_eq!(reply.missed, 4);
    // The next packet after a flush carries the marker again.
    let b = status.next_packet(vec![0], 352, 99);
    assert_eq!(b[1], 0xE0);
}

#[test]
fn control_datagram_drives_sane_counter() {
    let status = Status::new(0, Frames::new(0));
    let mut sane = Sane::new();
    assert!(process_control_datagram(&status, &mut sane, &vec![1, 2, 3]).is_none());
    assert_eq!(sane.ctrl, 1);
    assert!(process_control_datagram(&status, &mut sane, &vec![0, 0, 0, 0, 0, 0, 0, 0]).is_none());
    assert_eq!(sane.ctrl, 2);
    let good = RtpLostPacket { seq_number: 0, n: 0 }.as_bytes();
    let reply = process_control_datagram(&status, &mut sane, &good).unwrap();
    assert_eq!(sane.ctrl, 0);
    assert_eq!(reply.packets.len(), 0);
    assert!(!sane.is_unhealthy(2));
}

#[test]
fn timing_datagram_echoes_transmit_as_origin() {
    let mut sane = Sane::new();
    let request = RtpTimingPacket {
        response: false,
        origin: NtpTime::new(0, 0),
        receive: NtpTime::new(0, 0),
        transmit: NtpTime::new(77, 88),
    };
    let r1 = NtpTime::new(100, 1);
    let r2 = NtpTime::new(100, 2);
    let resp = process_timing_datagram(&mut sane, &request.as_bytes(), r1, r2).unwrap();
    assert!(resp.response);
    assert_eq!(resp.origin, NtpTime::new(77, 88));
    assert_eq!(resp.receive, r1);
    assert_eq!(resp.transmit, r2);
    assert_eq!(sane.timing, 0);
    assert!(process_timing_datagram(&mut sane, &vec![0; 31], r1, r2).is_none());
    assert_eq!(sane.timing, 1);
}

#[test]
fn handshake_happy_path() {
    let mut s = fresh_session();
    assert_eq!(s.cseq, 0);
    let opt = s.options(&Vec::new());
    assert_eq!(
        opt,
        b"OPTIONS * RTSP/1.0\r\nCSeq: 1\r\nUser-Agent: iTunes/7.6.2 (Windows; N;)\r\n\r\n"
            .to_vec()
    );
    let ann = s.announce_sdp(&b"v=0\r\n".to_vec());
    assert!(contains(&ann, b"ANNOUNCE rtsp://10.0.0.1/3413821438 RTSP/1.0\r\n"));
    assert!(contains(&ann, b"Content-Type: application/sdp\r\n"));
    assert!(contains(&ann, b"Content-Length: 5\r\n"));
    assert!(contains(&ann, b"CSeq: 2\r\n"));
    let set = s.setup(6001, 6002);
    assert!(contains(
        &set,
        b"Transport: RTP/AVP/UDP;unicast;interleaved=0-1;mode=record;control_port=6001;timing_port=6002\r\n"
    ));
    assert!(contains(&set, b"CSeq: 3\r\n"));
    assert!(!contains(&set, b"Session: "));
    // The peer answers SETUP with a session token.
    let headers = vec![(b"Session".to_vec(), b"1A2B".to_vec())];
    s.setup_apply(&headers).unwrap();
    assert_eq!(s.session, Some(b"1A2B".to_vec()));
    let rec = s.record(0, 0);
    assert!(contains(&rec, b"RECORD rtsp://10.0.0.1/3413821438 RTSP/1.0\r\n"));
    assert!(contains(&rec, b"Range: npt=0-\r\n"));
    assert!(contains(&rec, b"RTP-Info: seq=0;rtptime=0\r\n"));
    assert!(contains(&rec, b"CSeq: 4\r\n"));
    // Every request after SETUP carries the session header.
    assert!(contains(&rec, b"Session: 1A2B\r\n"));
    assert_eq!(s.cseq, 4);
}

#[test]
fn cseq_strictly_increases() {
    let mut s = fresh_session();
    let mut last: u64 = 0;
    for _ in 0..5 {
        s.teardown();
        assert!(s.cseq > last);
        last = s.cseq;
    }
}

#[test]
fn setup_without_session_header_fails() {
    let mut s = fresh_session();
    let headers = vec![(b"Audio-Jack-Status".to_vec(), b"connected".to_vec())];
    assert_eq!(s.setup_apply(&headers), Err(RtspError::MissingSession));
    assert_eq!(s.session, None);
}

#[test]
fn session_header_found_case_insensitively() {
    let mut s = fresh_session();
    let headers = vec![(b"SESSION".to_vec(), b"DEAD".to_vec())];
    s.setup_apply(&headers).unwrap();
    assert_eq!(s.session, Some(b"DEAD".to_vec()));
}

#[test]
fn flush_and_parameter_requests() {
    let mut s = fresh_session();
    let f = s.flush(0xFFFE, 123456);
    assert!(contains(&f, b"FLUSH rtsp://10.0.0.1/3413821438 RTSP/1.0\r\n"));
    assert!(contains(&f, b"RTP-Info: seq=65534;rtptime=123456\r\n"));
    let p = s.set_parameter(&b"volume: -12.0\r\n".to_vec());
    assert!(contains(&p, b"Content-Type: text/parameters\r\n"));
    let m = s.set_meta_data(42, &b"blob".to_vec());
    assert!(contains(&m, b"RTP-Info: rtptime=42\r\n"));
    assert!(contains(&m, b"Content-Type: application/x-dmap-tagged\r\n"));
    assert!(contains(&m, b"Content-Length: 4\r\n"));
}

#[test]
fn persistent_headers_added_and_removed() {
    let mut s = fresh_session();
    s.add_exthds(b"Client-Instance".to_vec(), b"cafe".to_vec());
    s.add_exthds(b"DACP-ID".to_vec(), b"cafe".to_vec());
    let r = s.teardown();
    assert!(contains(&r, b"Client-Instance: cafe\r\n"));
    assert!(contains(&r, b"DACP-ID: cafe\r\n"));
    s.mark_del_exthds(&b"DACP-ID".to_vec());
    let r2 = s.teardown();
    assert!(contains(&r2, b"Client-Instance: cafe\r\n"));
    assert!(!contains(&r2, b"DACP-ID"));
}

#[test]
fn status_line_parsing() {
    assert_eq!(
        parse_status_line(&b"RTSP/1.0 200 OK\r\n".to_vec()),
        Ok((200, b"OK".to_vec()))
    );
    assert_eq!(
        parse_status_line(&b"RTSP/1.0 453 Not Enough Bandwidth\r\n".to_vec()),
        Ok((453, b"Not Enough Bandwidth".to_vec()))
    );
    assert_eq!(
        parse_status_line(&b"garbage".to_vec()),
        Err(RtspError::MalformedResponse)
    );
    assert_eq!(
        parse_status_line(&b"RTSP/1.0 abc OK\r\n".to_vec()),
        Err(RtspError::MalformedResponse)
    );
}

#[test]
fn header_line_parsing() {
    let (k, v) = parse_header_line(&b"Content-Length:  42 \r\n".to_vec()).unwrap();
    assert_eq!(k, b"Content-Length".to_vec());
    assert_eq!(v, b"42".to_vec());
    assert_eq!(parse_header_line(&b"no colon here".to_vec()), None);
    // The value keeps later colons.
    let (k2, v2) = parse_header_line(&b"Where: rtsp://1.2.3.4/x\r\n".to_vec()).unwrap();
    assert_eq!(k2, b"Where".to_vec());
    assert_eq!(v2, b"rtsp://1.2.3.4/x".to_vec());
}

#[test]
fn decimal_and_trim_helpers() {
    assert_eq!(parse_decimal(&b"42".to_vec()), Some(42));
    assert_eq!(parse_decimal(&b"".to_vec()), None);
    assert_eq!(parse_decimal(&b"4x2".to_vec()), None);
    assert_eq!(parse_decimal(&b"18446744073709551615".to_vec()), None);
    assert_eq!(trim_bytes(&b"  a b\t\r\n".to_vec()), b"a b".to_vec());
    assert_eq!(trim_bytes(&b" \t ".to_vec()), Vec::<u8>::new());
}

#[test]
fn hex_decode_pairs() {
    assert_eq!(hex_decode(&b"00ff10Ab".to_vec()), Some(vec![0x00, 0xFF, 0x10, 0xAB]));
    assert_eq!(hex_decode(&b"0".to_vec()), None);
    assert_eq!(hex_decode(&b"zz".to_vec()), None);
}

#[test]
fn pair_verify_builds_messages() {
    let secret: Vec<u8> = b"00112233445566778899aabbccddeeff00112233445566778899aabbccddeeff"
        .to_vec();
    let (st, body) = pair_verify_step1(&secret).unwrap();
    assert_eq!(body.len(), 4 + 32 + 32);
    assert_eq!(&body[0..4], &[1, 0, 0, 0]);
    assert_eq!(&body[4..36], st.verify_public.as_slice());
    assert_eq!(&body[36..68], st.auth_public.as_slice());
    // The identity seed is a digest, not the secret itself.
    assert_ne!(st.auth_seed, hex_decode(&secret).unwrap());
    // The ephemeral public key is derived, not the secret echoed back.
    assert_ne!(st.verify_public, st.verify_secret);
    // Same secret, same identity; fresh ephemeral key each time.
    let (st2, _) = pair_verify_step1(&secret).unwrap();
    assert_eq!(st2.auth_seed, st.auth_seed);
    assert_eq!(st2.auth_public, st.auth_public);
    assert_ne!(st2.verify_public, st.verify_public);

    let response = vec![7u8; 96];
    let second = pair_verify_step2(&st, &response).unwrap();
    assert_eq!(second.len(), 4 + 64);
    assert_eq!(&second[0..4], &[0, 0, 0, 0]);
    assert_eq!(pair_verify_step2(&st, &vec![1, 2, 3]), Err(PairingError::ShortResponse));
}

#[test]
fn pair_verify_rejects_bad_secret() {
    assert!(matches!(
        pair_verify_step1(&b"abcd".to_vec()),
        Err(PairingError::BadSecret)
    ));
    let bad = vec![b'z'; 64];
    assert!(matches!(pair_verify_step1(&bad), Err(PairingError::BadSecret)));
}

#[test]
fn auth_setup_message_shape() {
    let body = raop::pairing::auth_setup_body().unwrap();
    assert_eq!(body.len(), 33);
    assert_eq!(body[0], 1);
}

#[test]
fn content_length_lookup() {
    let headers = vec![
        (b"Audio-Jack-Status".to_vec(), b"connected".to_vec()),
        (b"CONTENT-LENGTH".to_vec(), b"96".to_vec()),
        (b"Content-Length".to_vec(), b"7".to_vec()),
    ];
    // The first matching header wins, case-insensitively.
    assert_eq!(raop::rtsp::find_content_length(&headers), Some(96));
    let none = vec![(b"Session".to_vec(), b"1A2B".to_vec())];
    assert_eq!(raop::rtsp::find_content_length(&none), None);
    let bad = vec![(b"Content-Length".to_vec(), b"9x".to_vec())];
    assert_eq!(raop::rtsp::find_content_length(&bad), None);
}

#[test]
fn status_code_rule() {
    assert_eq!(raop::rtsp::check_status(200, &b"OK".to_vec()), Ok(()));
    assert_eq!(
        raop::rtsp::check_status(453, &b"Not Enough Bandwidth".to_vec()),
        Err(RtspError::ProtocolFailure {
            code: 453,
            reason: b"Not Enough Bandwidth".to_vec(),
        })
    );
}

#[test]
fn pair_verify_rejects_oversized_response() {
    let secret: Vec<u8> = b"00112233445566778899aabbccddeeff00112233445566778899aabbccddeeff"
        .to_vec();
    let (st, _) = pair_verify_step1(&secret).unwrap();
    let response = vec![0u8; 32 + raop::pairing::MAX_CIPHER_INPUT];
    assert_eq!(
        pair_verify_step2(&st, &response),
        Err(PairingError::OversizedResponse)
    );
}
