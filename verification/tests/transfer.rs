use std::collections::BTreeSet;

use p2pshare_core::crypto::handshake::{
    Handshake, HandshakeResult, HandshakeRole, HandshakeStep,
};
use p2pshare_core::error::Error;
use p2pshare_core::session::peer_session::read_chunk_header;
use p2pshare_core::identity::keypair::Keypair;
use p2pshare_core::session::relay_session::{RelayHeader, RelayKind};
use p2pshare_core::session::{PeerSession, RelaySession};
use p2pshare_core::transfer::conn_status;
use p2pshare_core::transfer::manifest::{
    actual_chunk_size, build_manifest, chunk_size_for, guess_mime, manifest_with, mime_for,
    starts_in_file, ControlMessage, FileManifest, StreamingConfig, TransferMode,
};
use p2pshare_core::transfer::progress;
use p2pshare_core::transfer::progress::Progress;
use p2pshare_core::transfer::receiver::{accept_manifest, plain_name, ChunkAction, Receiver};
use p2pshare_core::transfer::resume::{find_resumable, listed, TransferState};
use p2pshare_core::transfer::sender::{
    is_reply_consistent, on_control, plan, span, ControlAction, SendLoop, SendStep,
};

/// The receiver, who begins, and the sender.
fn shake(receiver: &[u8; 32], sender: &[u8; 32]) -> (HandshakeResult, HandshakeResult) {
    let mut left = Handshake::begin(receiver, HandshakeRole::Initiator).unwrap();
    let mut right = Handshake::begin(sender, HandshakeRole::Responder).unwrap();
    for _ in 0..3 {
        if let HandshakeStep::Send(frame) = left.step().unwrap() {
            right.receive(&frame[2..]).unwrap();
        }
        if let HandshakeStep::Send(frame) = right.step().unwrap() {
            left.receive(&frame[2..]).unwrap();
        }
    }
    (left.finish().unwrap(), right.finish().unwrap())
}

fn manifest(total_size: u64, chunk_size: u32, chunk_count: u32) -> FileManifest {
    FileManifest {
        session_id: [7; 20],
        filename: "f.bin".to_string(),
        mime_type: "application/octet-stream".to_string(),
        total_size,
        chunk_size,
        chunk_count,
        transfer_mode: TransferMode::Bulk,
        created_at: 5,
    }
}

fn state(m: &FileManifest, done: &[u32]) -> TransferState {
    let mut s = TransferState::new(m.clone(), "out/f.bin".to_string());
    s.chunks_done = done.iter().copied().collect::<BTreeSet<u32>>();
    s
}

fn zero() -> Progress {
    Progress { done: 0, total: 0 }
}

#[test]
fn chunk_sizes() {
    assert_eq!(chunk_size_for(0), 65_536);
    assert_eq!(chunk_size_for(10_000_000), 65_536);
    assert_eq!(chunk_size_for(10_000_001), 262_144);
    assert_eq!(chunk_size_for(500_000_000), 262_144);
    assert_eq!(chunk_size_for(500_000_001), 1_048_576);
    assert_eq!(chunk_size_for(u64::MAX), 1_048_576);
    assert_eq!(actual_chunk_size(0, 10, 25), 10);
    assert_eq!(actual_chunk_size(2, 10, 25), 5);
    assert_eq!(actual_chunk_size(2, 10, 20), 0);
    assert!(starts_in_file(2, 10, 20));
    assert!(!starts_in_file(3, 10, 20));
}

#[test]
fn manifests_cover_their_files() {
    let m = manifest_with([1; 20], "a.MP4".to_string(), 1_048_577, 99);
    assert_eq!(m.chunk_size, 65_536);
    assert_eq!(m.chunk_count, 17);
    assert_eq!(m.mime_type, "video/mp4");
    assert_eq!(m.created_at, 99);
    assert_eq!(m.session_id, [1; 20]);
    assert_eq!(manifest_with([1; 20], "a".to_string(), 0, 0).chunk_count, 0);
    assert_eq!(manifest_with([1; 20], "a".to_string(), 16_777_216, 0).chunk_count, 64);
    let large = manifest_with([1; 20], "large.bin".to_string(), 104_857_600, 0);
    assert_eq!((large.chunk_size, large.chunk_count), (262_144, 400));
    let a = build_manifest("x.txt".to_string(), 3);
    let b = build_manifest("x.txt".to_string(), 3);
    assert_ne!(a.session_id, b.session_id);
    assert_eq!(a.chunk_count, 1);
    assert!(a.created_at > 1_577_836_800);
}

#[test]
fn mime_types() {
    for (name, mime) in [
        ("a.mp4", "video/mp4"),
        ("a.MOV", "video/mp4"),
        ("a.m4v", "video/mp4"),
        ("a.mkv", "video/x-matroska"),
        ("a.b.JPeg", "image/jpeg"),
        ("a.jpg", "image/jpeg"),
        ("a.png", "image/png"),
        ("a.gif", "image/gif"),
        ("a.pdf", "application/pdf"),
        ("a.txt", "text/plain"),
        ("zip", "application/zip"),
        ("a.tar", "application/x-tar"),
        ("a.tar.gz", "application/octet-stream"),
        ("", "application/octet-stream"),
        ("a.", "application/octet-stream"),
        ("a.\u{212a}", "application/octet-stream"),
    ] {
        assert_eq!(guess_mime(name), mime, "{name}");
    }
    assert_eq!(mime_for("pdf"), "application/pdf");
    assert_eq!(mime_for("PDF"), "application/octet-stream");
}

#[test]
fn messages_for_developers() {
    assert_eq!(ControlMessage::ManifestAck.show(), "ManifestAck");
    assert_eq!(
        ControlMessage::ResumeRequest { have_chunks: vec![1, 20, 3] }.show(),
        "ResumeRequest { have_chunks: [1, 20, 3] }"
    );
    let error = ControlMessage::Error { code: 3, message: "a \"b\"\n".to_string() };
    assert_eq!(error.show(), format!("{:?}", error));
    let mut m = manifest(20, 10, 2);
    let msg = ControlMessage::Manifest(m.clone());
    assert_eq!(msg.show(), format!("{:?}", msg));
    m.transfer_mode = TransferMode::Streaming(StreamingConfig { buffer_chunks: 4, local_port: 9 });
    let msg = ControlMessage::Manifest(m);
    assert_eq!(msg.show(), format!("{:?}", msg));
    let msg = ControlMessage::ResumeRequest { have_chunks: vec![] };
    assert_eq!(msg.show(), format!("{:?}", msg));
    let msg = ControlMessage::Progress { bytes: u64::MAX };
    assert_eq!(msg.show(), format!("{:?}", msg));
    let msg = ControlMessage::ChunkNack { index: 0 };
    assert_eq!(msg.show(), format!("{:?}", msg));
    assert_eq!(ControlMessage::Complete.show(), "Complete");
}

#[test]
fn progress_counts() {
    let mut p = zero();
    progress::reset(&mut p, 100);
    progress::advance(&mut p, 30);
    assert_eq!(progress::get(&p), (30, 100));
    progress::retract(&mut p, 10);
    assert_eq!(progress::get(&p), (20, 100));
    progress::retract(&mut p, 30);
    assert_eq!(progress::get(&p), (0, 100));
    progress::set_done(&mut p, 99);
    progress::advance(&mut p, u64::MAX);
    assert_eq!(progress::get(&p), (98, 100));
    progress::reset(&mut p, 5);
    assert_eq!(progress::get(&p), (0, 5));
}

#[test]
fn connection_phases() {
    let mut s = conn_status::ConnStatus { phase: conn_status::IDLE };
    conn_status::set(&mut s, conn_status::HOLE_PUNCHING);
    assert_eq!(conn_status::get(&s), 4);
    conn_status::reset(&mut s);
    assert_eq!(conn_status::get(&s), 0);
}

#[test]
fn states_know_what_is_missing() {
    let m = manifest(45, 10, 5);
    let s = state(&m, &[1, 4]);
    assert_eq!(s.missing_chunks(), vec![0, 2, 3]);
    assert!(!s.is_complete());
    assert_eq!(s.bytes_done(10, 45), 15);
    assert_eq!(listed(&s.chunks_done), vec![1, 4]);
    let full = state(&m, &[0, 1, 2, 3, 4]);
    assert!(full.is_complete());
    assert!(full.missing_chunks().is_empty());
    assert_eq!(full.bytes_done(10, 45), 45);
    let fresh = TransferState::new(m, "p".to_string());
    assert_eq!(fresh.session_id, [7; 20]);
    assert_eq!(fresh.missing_chunks(), vec![0, 1, 2, 3, 4]);
}

#[test]
fn saved_state_needs_its_output_file() {
    let m = manifest(45, 10, 5);
    assert!(find_resumable(false, Some(state(&m, &[1]))).is_none());
    assert!(find_resumable(true, Some(state(&m, &[1]))).is_some());
    assert!(find_resumable(true, None).is_none());
}

#[test]
fn first_message_must_be_a_bulk_manifest() {
    assert!(accept_manifest(ControlMessage::Manifest(manifest(1, 1, 1)), '/').is_ok());
    let mut m = manifest(1, 1, 1);
    m.transfer_mode = TransferMode::Streaming(StreamingConfig { buffer_chunks: 1, local_port: 1 });
    let refusal = accept_manifest(ControlMessage::Manifest(m), '/').err().unwrap();
    assert!(matches!(
        refusal.reply,
        Some(ControlMessage::Error { code: 1, ref message })
            if message == "Streaming mode not implemented"
    ));
    assert_eq!(refusal.error.message(), "Connection failed: streaming mode not supported");
    for name in ["", ".", "..", "../evil.txt", "/etc/passwd", "a/b", "a/"] {
        let mut m = manifest(1, 1, 1);
        m.filename = name.to_string();
        let refusal = accept_manifest(ControlMessage::Manifest(m), '/').err().unwrap();
        assert!(matches!(
            refusal.reply,
            Some(ControlMessage::Error { code: 2, ref message }) if message == "Invalid file name"
        ));
        assert_eq!(refusal.error.message(), "Connection failed: file name is not a plain name");
    }
    for name in ["...", ".hidden", "a b.txt", "\u{e9}", "a\\b", "c:d"] {
        assert!(plain_name(name, '/'), "{name}");
    }
    for name in ["a\\b", "..\\evil.txt", "a/b", "c:d", ".."] {
        assert!(!plain_name(name, '\\'), "{name}");
    }
    assert!(plain_name("a b.txt", '\\'));
    let refusal = accept_manifest(ControlMessage::Complete, '/').err().unwrap();
    assert!(refusal.reply.is_none());
    assert_eq!(refusal.error.message(), "Connection failed: expected Manifest, got Complete");
}

#[test]
fn receiver_resumes() {
    let m = manifest(45, 10, 5);
    let saved = state(&m, &[3, 0]);
    let (r, reply) = Receiver::start(m.clone(), Some(saved), "o".to_string());
    assert!(matches!(reply, ControlMessage::ResumeRequest { ref have_chunks } if *have_chunks == vec![0, 3]));
    let mut p = zero();
    assert!(r.is_done_in_file());
    r.begin_progress(&mut p);
    assert_eq!(progress::get(&p), (20, 45));
    assert!(matches!(r.report(), ControlMessage::Progress { bytes: 20 }));
    assert_eq!(r.pending.len(), 3);
    assert!(!r.is_done());
    let (_, reply) = Receiver::start(m.clone(), None, "o".to_string());
    assert!(matches!(reply, ControlMessage::ManifestAck));
    let (r, _) = Receiver::start(m.clone(), Some(state(&m, &[9])), "o".to_string());
    assert!(!r.is_done_in_file());
    let (r, _) = Receiver::start(m.clone(), Some(state(&m, &[])), "o".to_string());
    assert!(r.is_done_in_file());
}

#[test]
fn chunks_behind_the_end_are_waited_for() {
    let (mut r, reply) = Receiver::start(manifest(20, 10, 4), None, "o".to_string());
    assert!(matches!(reply, ControlMessage::ManifestAck));
    assert_eq!(r.pending.len(), 4);
    let mut p = zero();
    let bad = r.on_chunk(&mut p, 3, Err(Error::Noise("decrypt error".to_string())));
    assert!(matches!(bad, ChunkAction::Nack));
    assert!(matches!(r.on_chunk(&mut p, 2, Ok(vec![])), ChunkAction::Write { offset: 20, .. }));
    assert_eq!(r.pending.len(), 3);
}

#[test]
fn frames_have_a_longest_length() {
    let (r, _) = Receiver::start(manifest(8192, 4096, 2), None, "o".to_string());
    assert!(r.check_frame(1, 4096 + 2 + 4096).is_ok());
    match r.check_frame(1, 4096 + 2 + 4097) {
        Err(Error::ConnectionFailed(e)) => {
            assert_eq!(e, "chunk 1 payload_len 8195 exceeds max 8194")
        }
        _ => panic!("expected an error"),
    }
}

#[test]
fn bad_chunks_are_asked_for_again() {
    let (mut r, _) = Receiver::start(manifest(15, 10, 2), None, "o".to_string());
    let mut p = zero();
    let bad = r.on_chunk(&mut p, 0, Err(Error::Noise("decrypt error".to_string())));
    assert!(matches!(bad, ChunkAction::Nack));
    assert!(matches!(r.on_chunk(&mut p, 1, Ok(vec![0; 10])), ChunkAction::Nack));
    assert!(matches!(r.on_chunk(&mut p, 2, Ok(vec![])), ChunkAction::Skip));
    assert_eq!(progress::get(&p).0, 0);
    match r.on_chunk(&mut p, 1, Ok(vec![9; 5])) {
        ChunkAction::Write { offset, data, save } => {
            assert_eq!((offset, data, save), (10, vec![9; 5], false));
        }
        _ => panic!("expected a write"),
    }
    assert!(matches!(r.on_chunk(&mut p, 1, Ok(vec![9; 5])), ChunkAction::Skip));
    assert_eq!(progress::get(&p).0, 5);
    assert!(!r.is_done());
    assert!(matches!(r.on_chunk(&mut p, 0, Ok(vec![1; 10])), ChunkAction::Write { .. }));
    assert!(r.is_done());
    assert!(r.state.is_complete());
}

#[test]
fn state_is_saved_once_in_sixteen_chunks() {
    let (mut r, _) = Receiver::start(manifest(40, 1, 40), None, "o".to_string());
    let (mut relay, _) = Receiver::start(manifest(40, 1, 40), None, "o".to_string());
    let mut p = zero();
    for i in 0..40u32 {
        let expected = i % 16 == 15;
        match r.on_chunk(&mut p, i, Ok(vec![0])) {
            ChunkAction::Write { save, .. } => assert_eq!(save, expected),
            _ => panic!("expected a write"),
        }
        match relay.on_relay_chunk(i, Ok(vec![0])) {
            ChunkAction::Write { save, .. } => assert_eq!(save, expected),
            _ => panic!("expected a write"),
        }
    }
}

#[test]
fn relayed_chunks_may_come_twice() {
    let (mut r, _) = Receiver::start(manifest(15, 10, 2), None, "o".to_string());
    assert!(matches!(r.report(), ControlMessage::Progress { bytes: 0 }));
    assert!(matches!(r.on_relay_chunk(0, Ok(vec![0; 10])), ChunkAction::Write { offset: 0, .. }));
    assert!(matches!(r.on_relay_chunk(0, Ok(vec![0; 10])), ChunkAction::Write { offset: 0, .. }));
    assert!(matches!(r.report(), ControlMessage::Progress { bytes: 10 }));
    assert!(matches!(r.on_relay_chunk(1, Ok(vec![0; 4])), ChunkAction::Nack));
    let bad = r.on_relay_chunk(9, Err(Error::Noise("decrypt error".to_string())));
    assert!(matches!(bad, ChunkAction::Nack));
    assert!(matches!(r.on_relay_chunk(1, Ok(vec![0; 5])), ChunkAction::Write { offset: 10, .. }));
    assert!(r.is_done());
}

#[test]
fn sender_leaves_out_what_is_there() {
    let m = manifest(45, 10, 5);
    let reply = ControlMessage::ResumeRequest { have_chunks: vec![4, 0, 4] };
    assert!(is_reply_consistent(&m, &reply));
    let p = plan(&m, reply).unwrap();
    assert_eq!(p.to_send, vec![1, 2, 3]);
    assert_eq!(p.initial_done, 15);
    let mut bar = zero();
    p.begin_progress(&mut bar, 45);
    assert_eq!(progress::get(&bar), (15, 45));
    assert_eq!(plan(&m, ControlMessage::ManifestAck).unwrap().to_send, vec![0, 1, 2, 3, 4]);
    assert!(!is_reply_consistent(&m, &ControlMessage::ResumeRequest { have_chunks: vec![5] }));
    match plan(&m, ControlMessage::Progress { bytes: 3 }) {
        Err(Error::ConnectionFailed(e)) => {
            assert_eq!(e, "unexpected response to manifest: Progress { bytes: 3 }")
        }
        _ => panic!("expected an error"),
    }
    let s = span(4, 10, 45);
    assert_eq!((s.offset, s.len), (40, 5));
}

#[test]
fn sender_follows_control_messages() {
    let mut p = Progress { done: 1, total: 45 };
    let go = on_control(ControlMessage::Progress { bytes: 9 }, &mut p, 45);
    assert!(matches!(go, ControlAction::Continue));
    assert_eq!(p.done, 9);
    let again = on_control(ControlMessage::ChunkNack { index: 2 }, &mut p, 45);
    assert!(matches!(again, ControlAction::Resend(2)));
    assert!(matches!(
        on_control(ControlMessage::ManifestAck, &mut p, 45),
        ControlAction::Continue
    ));
    let error = ControlMessage::Error { code: 1, message: "full".to_string() };
    match on_control(error, &mut p, 45) {
        ControlAction::Fail(e) => assert_eq!(e.message(), "Connection failed: receiver: full"),
        _ => panic!("expected a failure"),
    }
    assert_eq!(p.done, 9);
    let end = on_control(ControlMessage::Complete, &mut p, 45);
    assert!(matches!(end, ControlAction::Finished));
    assert_eq!(p.done, 45);
}

#[test]
fn requests_are_served_between_planned_chunks() {
    let mut s = SendLoop::new(vec![0, 1, 2]);
    s.request(7);
    assert!(matches!(s.next_step(), SendStep::Send(0)));
    assert_eq!(s.read_ahead(), Some(1));
    assert!(matches!(s.next_step(), SendStep::Resend(7)));
    assert!(matches!(s.next_step(), SendStep::Send(1)));
    assert!(matches!(s.next_step(), SendStep::Send(2)));
    assert_eq!(s.read_ahead(), None);
    assert!(matches!(s.next_step(), SendStep::Wait));
    s.request(1);
    s.close();
    assert!(matches!(s.next_step(), SendStep::Resend(1)));
    assert!(matches!(s.next_step(), SendStep::Finished));
}

/// Sends a file from memory to memory; every frame listed in `damaged` arrives damaged
/// the first time.
fn transfer(content: &[u8], chunk_size: u32, have: &[u32], damaged: &[u32]) -> Vec<u8> {
    let receiver_keys = Keypair::generate();
    let (b, a) = shake(&receiver_keys.secret, &Keypair::generate().secret);
    assert_eq!(a.remote_pubkey, receiver_keys.public, "sender sees receiver's pubkey");
    let a = PeerSession::new(a.remote_pubkey, a.transport);
    let b = PeerSession::new(b.remote_pubkey, b.transport);
    let count = ((content.len() as u32) + chunk_size - 1) / chunk_size;
    let m = manifest(content.len() as u64, chunk_size, count);
    let mut out = vec![0u8; content.len()];
    for &i in have {
        let s = span(i, chunk_size, content.len() as u64);
        let (from, to) = (s.offset as usize, s.offset as usize + s.len as usize);
        out[from..to].copy_from_slice(&content[from..to]);
    }
    let saved = if have.is_empty() { None } else { Some(state(&m, have)) };
    let (mut receiver, reply) = Receiver::start(m.clone(), saved, "o".to_string());
    let mut sender = SendLoop::new(plan(&m, reply).unwrap().to_send);
    let mut damaged = damaged.to_vec();
    let mut p = zero();
    receiver.begin_progress(&mut p);
    while !receiver.is_done() {
        let index = match sender.next_step() {
            SendStep::Send(i) | SendStep::Resend(i) => i,
            _ => panic!("the sender has nothing to send"),
        };
        let s = span(index, chunk_size, content.len() as u64);
        let plain = &content[s.offset as usize..s.offset as usize + s.len as usize];
        let mut frame = a.encode_chunk_frame(index, plain).unwrap();
        if let Some(k) = damaged.iter().position(|&d| d == index) {
            damaged.remove(k);
            let last = frame.len() - 1;
            frame[last] ^= 0x80;
        }
        let (index, len) = read_chunk_header(&frame[..8]);
        receiver.check_frame(index, len).unwrap();
        let opened = receiver.open_pending(&b, index, &frame[8..]).unwrap();
        match receiver.on_chunk(&mut p, index, opened) {
            ChunkAction::Write { offset, data, .. } => {
                out[offset as usize..offset as usize + data.len()].copy_from_slice(&data);
            }
            ChunkAction::Nack => sender.request(index),
            ChunkAction::Skip => panic!("sent in vain"),
        }
    }
    assert!(receiver.open_pending(&b, 0, &[]).is_none());
    let size = content.len() as u64;
    assert!(matches!(receiver.report(), ControlMessage::Progress { bytes } if bytes == size));
    assert_eq!(progress::get(&p), (content.len() as u64, content.len() as u64));
    out
}

#[test]
fn loopback_file_transfer() {
    let content = b"Hello, P2PShare! This is a test file for loopback transfer.";
    assert_eq!(transfer(content, 65_536, &[], &[]), content);
}

#[test]
fn file_crosses_unchanged() {
    let content: Vec<u8> = (0u8..=255).cycle().take(512 * 1024).collect();
    assert_eq!(transfer(&content, 100_000, &[], &[]), content);
}

#[test]
fn file_crosses_in_spite_of_damage() {
    let content: Vec<u8> = (0u8..=255).cycle().take(5000).collect();
    assert_eq!(transfer(&content, 300, &[], &[0, 3, 3, 16]), content);
}

#[test]
fn file_is_completed_after_an_interruption() {
    let content: Vec<u8> = (0u8..=255).cycle().take(5000).collect();
    assert_eq!(transfer(&content, 300, &[0, 2, 16], &[5]), content);
}

#[test]
fn empty_file_needs_no_chunk() {
    assert_eq!(transfer(&[], 300, &[], &[]), Vec::<u8>::new());
}

/// Sends a file from memory to memory in the frames of the relay stream; every second
/// chunk arrives damaged the first time.
fn relayed(content: &[u8], chunk_size: u32) -> Vec<u8> {
    let (b, a) = shake(&[1; 32], &[2; 32]);
    let sender = RelaySession::new(a.remote_pubkey, String::new(), a.transport);
    let session = RelaySession::new(b.remote_pubkey, String::new(), b.transport);
    let count = ((content.len() as u32) + chunk_size - 1) / chunk_size;
    let m = manifest(content.len() as u64, chunk_size, count);
    let mut out = vec![0u8; content.len()];
    let (mut receiver, reply) = Receiver::start(m.clone(), None, "o".to_string());
    let mut queue = plan(&m, reply).unwrap().to_send;
    let mut damaged: Vec<u32> = (0..count).filter(|i| i % 2 == 1).collect();
    while !receiver.is_done() {
        let index = queue.remove(0);
        let s = span(index, chunk_size, content.len() as u64);
        let plain = &content[s.offset as usize..s.offset as usize + s.len as usize];
        let sealed = sender.encrypt_chunk(index, plain).unwrap();
        let mut frame = sender.send_chunk_raw(index, &sealed);
        if let Some(k) = damaged.iter().position(|&d| d == index) {
            damaged.remove(k);
            let last = frame.len() - 1;
            frame[last] ^= 1;
        }
        let kind = RelayKind::from_byte(frame[0]).unwrap();
        let (header, payload) = frame[1..].split_at(kind.header_len());
        let index = match kind.read_header(header) {
            RelayHeader::Chunk { index, len } => {
                assert_eq!(len as usize, payload.len());
                index
            }
            _ => panic!("expected a chunk"),
        };
        match receiver.on_relay_chunk(index, session.decrypt_chunk(index, payload)) {
            ChunkAction::Write { offset, data, .. } => {
                out[offset as usize..offset as usize + data.len()].copy_from_slice(&data);
            }
            ChunkAction::Nack => queue.push(index),
            ChunkAction::Skip => panic!("sent in vain"),
        }
    }
    out
}

#[test]
fn relay_roundtrip_sends_file() {
    let content = b"xend relay integration test payload";
    assert_eq!(relayed(content, 65_536), content);
}

#[test]
fn file_crosses_the_relay_in_spite_of_damage() {
    let content: Vec<u8> = (0u8..=255).cycle().take(200_000).collect();
    assert_eq!(relayed(&content, 70_000), content);
}
