use simplepass::chat::{
    chat_message, clear_messages, list_messages, make_chat_message, make_file_message,
    make_link_message, receive_link, receive_message, record_chat_message, record_sent_message,
    send_message, send_profile_to_peer, send_typing,
};
use simplepass::codec::base64_decode;
use simplepass::discovery::{hear_announcement, local_discovery_packet};
use simplepass::dispatch::{handle_message, Reaction};
use simplepass::incoming::{
    chunk_written, file_reserved, receive_file_cancel, receive_file_chunk, receive_file_end,
    receive_file_start, receiving_row, ChunkPlan, IncomingFiles,
};
use simplepass::model::{
    PeerDevice, PersistedState, TransferProgress, WireMessage, FILE_CHUNK_SIZE, MAX_AVATAR_LEN,
    MAX_CONNECTION_THREADS, MAX_INCOMING_FILE_SIZE, MAX_LINE_BYTES, MAX_PERSISTED_TRANSFERS,
    TRANSPORT_PORT,
};
use simplepass::outgoing::{
    send_files, send_staged_file, staged_source, FileSend, Stream, StreamEvent,
};
use simplepass::peers::{get_peer, pair_peer};
use simplepass::transfers::{
    clear_transfers, file_row, link_done, link_queued, link_sending, link_to_send, make_transfers,
    peer_row, record_transfers, send_link, transfer_row_id, trim_transfers,
};
use simplepass::widget::{
    edges_are_known, set_widget_active, side_name, widget_grow_plan, Position, Screen, Widget,
};
use simplepass::wire::{
    admits_connection, frame_line, read_line, send_plain_wire, send_wire, BindRetry, Line,
};

fn peer(id: &str, trust: &str) -> PeerDevice {
    PeerDevice {
        id: id.to_string(),
        name: format!("Name of {id}"),
        host: "10.0.0.2".to_string(),
        port: TRANSPORT_PORT,
        public_key: None,
        os: "windows".to_string(),
        status: "online".to_string(),
        trust_state: trust.to_string(),
        asked: false,
        shared_secret: Some("secret".to_string()),
        avatar: None,
        last_seen: 0,
    }
}

fn state_with(peers: Vec<PeerDevice>) -> PersistedState {
    let mut state = PersistedState::default();
    state.setup.device_id = "me".to_string();
    state.peers = peers;
    state
}

fn ids(list: &[&str]) -> Vec<String> {
    list.iter().map(|id| id.to_string()).collect()
}

fn row(id: &str) -> TransferProgress {
    TransferProgress {
        id: id.to_string(),
        peer_id: "p".to_string(),
        peer_name: "p".to_string(),
        label: "l".to_string(),
        kind: "file".to_string(),
        progress: 100,
        state: "complete".to_string(),
        error: None,
    }
}

#[test]
fn trim_transfers_caps_history() {
    let mut state = PersistedState::default();
    for index in 0..(MAX_PERSISTED_TRANSFERS + 25) {
        state.transfers.push(row(&index.to_string()));
    }
    trim_transfers(&mut state);
    assert_eq!(state.transfers.len(), MAX_PERSISTED_TRANSFERS);
    // Oldest dropped, newest kept.
    assert_eq!(state.transfers.last().unwrap().id, (MAX_PERSISTED_TRANSFERS + 24).to_string());
}

#[test]
fn recorded_rows_push_out_the_oldest() {
    let mut state = PersistedState::default();
    for index in 0..MAX_PERSISTED_TRANSFERS {
        state.transfers.push(row(&index.to_string()));
    }
    record_transfers(&mut state, &vec![row("x"), row("y")]);
    assert_eq!(state.transfers.len(), MAX_PERSISTED_TRANSFERS);
    assert_eq!(state.transfers[0].id, "2");
    assert_eq!(state.transfers.last().unwrap().id, "y");
    clear_transfers(&mut state);
    assert!(state.transfers.is_empty());
}

#[test]
fn rows_name_their_peer_and_file() {
    assert_eq!(transfer_row_id("t", "p"), "t:p");
    let one = peer_row("t", "p", "Desk", "a.txt", 40, "sending", None);
    assert_eq!((one.id.as_str(), one.peer_id.as_str()), ("t:p", "p"));
    assert_eq!((one.peer_name.as_str(), one.label.as_str()), ("Desk", "a.txt"));
    assert_eq!((one.kind.as_str(), one.progress, one.state.as_str()), ("file", 40, "sending"));
    let other = file_row("t", &peer("q", "paired"), "a.txt", 0, "failed", Some("why".to_string()));
    assert_eq!((other.id.as_str(), other.peer_name.as_str()), ("t:q", "Name of q"));
    assert_eq!(other.error.as_deref(), Some("why"));
}

#[test]
fn transfers_are_made_for_paired_peers_only() {
    let state = state_with(vec![peer("a", "paired"), peer("b", "pending")]);
    let rows = make_transfers(&state, &ids(&["a", "a"]), "x", "link").unwrap();
    assert_eq!(rows.len(), 2);
    assert_ne!(rows[0].id, rows[1].id);
    assert_eq!((rows[0].progress, rows[0].state.as_str()), (100, "complete"));
    assert_eq!(
        make_transfers(&state, &ids(&["a", "b", "z"]), "x", "link").unwrap_err(),
        "Name of b is not paired."
    );
    assert_eq!(
        make_transfers(&state, &ids(&["z", "b"]), "x", "link").unwrap_err(),
        "Peer not found: z"
    );
}

#[test]
fn links_are_shared_step_by_step() {
    let mut state = state_with(vec![peer("a", "paired")]);
    assert!(send_link(&state, &[], "file:///x").unwrap().is_empty());
    assert_eq!(
        send_link(&state, &ids(&["a"]), "file:///x").unwrap_err(),
        "Only http(s) links can be shared."
    );
    let mut rows = send_link(&state, &ids(&["a"]), "http://x").unwrap();
    assert_eq!(rows[0].kind, "link");
    link_queued(&mut rows[0]);
    assert_eq!((rows[0].progress, rows[0].state.as_str()), (0, "queued"));
    link_sending(&mut rows[0]);
    assert_eq!((rows[0].progress, rows[0].state.as_str()), (35, "sending"));
    let out = link_to_send(&state, &rows[0], "http://x").unwrap();
    assert_eq!(out.peer.id, "a");
    match out.message {
        WireMessage::Link { peer_id, url } => {
            assert_eq!((peer_id.as_str(), url.as_str()), ("me", "http://x"))
        }
        other => panic!("unexpected {other:?}"),
    }
    assert_eq!(
        link_to_send(&PersistedState::default(), &rows[0], "http://x").unwrap_err(),
        "Peer not found."
    );
    let mut failed = rows[0].clone();
    assert!(link_done(&mut state, &mut failed, "http://x", Err("no".to_string())).is_none());
    assert_eq!((failed.progress, failed.state.as_str()), (35, "failed"));
    assert_eq!(failed.error.as_deref(), Some("no"));
    assert!(state.messages.is_empty());
    let message = link_done(&mut state, &mut rows[0], "http://x", Ok(())).unwrap();
    assert_eq!((rows[0].progress, rows[0].state.as_str()), (100, "complete"));
    assert_eq!(message.url.as_deref(), Some("http://x"));
    assert_eq!((message.kind.as_str(), message.direction.as_str()), ("link", "sent"));
    assert_eq!(state.messages.len(), 1);
}

#[test]
fn messages_carry_what_they_are_about() {
    let plain = make_chat_message("p".to_string(), "sent", "text", "hi".to_string());
    let other = make_chat_message("p".to_string(), "sent", "text", "hi".to_string());
    assert_ne!(plain.id, other.id);
    assert_eq!(plain.id.len(), 36);
    assert!(plain.created_at > 1_600_000_000_000);
    let link = make_link_message("p".to_string(), "received", "http://x");
    assert_eq!((link.kind.as_str(), link.text.as_str()), ("link", "http://x"));
    let file = make_file_message("p".to_string(), "sent", "a.txt", 9, None);
    assert_eq!((file.kind.as_str(), file.text.as_str()), ("file", "a.txt"));
    assert_eq!((file.file_name.as_deref(), file.file_size), (Some("a.txt"), Some(9)));
    assert_eq!(file.file_path, None);
    let fixed =
        chat_message("i".to_string(), "p".to_string(), "sent", "text", "hi".to_string(), 4);
    assert_eq!((fixed.id.as_str(), fixed.created_at), ("i", 4));
}

#[test]
fn a_recorded_message_is_listed_in_its_conversation() {
    let mut state = PersistedState::default();
    record_sent_message(&mut state, "a", "one");
    record_sent_message(&mut state, "b", "two");
    record_chat_message(
        &mut state,
        chat_message("i".to_string(), "a".to_string(), "received", "text", "three".to_string(), 4),
    );
    let texts: Vec<String> =
        list_messages(&state, "a").iter().map(|message| message.text.clone()).collect();
    assert_eq!(texts, vec!["one", "three"]);
    clear_messages(&mut state);
    assert!(list_messages(&state, "a").is_empty());
}

#[test]
fn texts_go_to_and_come_from_paired_peers_only() {
    let mut state = state_with(vec![peer("a", "paired"), peer("b", "unpaired")]);
    let out = send_message(&state, "a", "hi").unwrap();
    assert_eq!(out.peer.id, "a");
    match out.message {
        WireMessage::Chat { peer_id, text } => {
            assert_eq!((peer_id.as_str(), text.as_str()), ("me", "hi"))
        }
        other => panic!("unexpected {other:?}"),
    }
    assert_eq!(send_message(&state, "b", "hi").unwrap_err(), "Name of b is not paired.");
    assert_eq!(send_message(&state, "z", "hi").unwrap_err(), "Peer not found.");
    assert_eq!(receive_message(&mut state, "b", "hi").unwrap_err(), "Name of b is not paired.");
    assert!(state.messages.is_empty());
    let message = receive_message(&mut state, "a", "hi").unwrap();
    assert_eq!((message.direction.as_str(), message.kind.as_str()), ("received", "text"));
    assert_eq!(state.messages.len(), 1);
}

#[test]
fn links_are_opened_only_when_asked_for_and_not_too_often() {
    let mut state = state_with(vec![peer("a", "paired")]);
    let mut last: i64 = 0;
    let link = receive_link(&mut state, &mut last, "a", "http://x", 5_000).unwrap().unwrap();
    assert!(!link.open);
    state.setup.auto_open = true;
    assert!(receive_link(&mut state, &mut last, "a", "http://x", 5_000).unwrap().unwrap().open);
    assert_eq!(last, 5_000);
    assert!(!receive_link(&mut state, &mut last, "a", "http://x", 5_001).unwrap().unwrap().open);
    assert!(receive_link(&mut state, &mut last, "a", "file:///x", 9_000).unwrap().is_none());
    assert_eq!(last, 5_000);
    assert_eq!(state.messages.len(), 3);
    assert_eq!(
        receive_link(&mut state, &mut last, "z", "http://x", 9_000).unwrap_err(),
        "Peer not found."
    );
}

#[test]
fn typing_and_profile_go_to_paired_peers_only() {
    let mut state = state_with(vec![peer("a", "paired"), peer("b", "pending")]);
    state.setup.avatar = Some("face".to_string());
    match send_typing(&state, "a", true).unwrap().message {
        WireMessage::Typing { peer_id, is_typing } => {
            assert_eq!(peer_id, "me");
            assert!(is_typing);
        }
        other => panic!("unexpected {other:?}"),
    }
    match send_profile_to_peer(&state, "a").unwrap().message {
        WireMessage::Profile { peer_id, avatar } => {
            assert_eq!((peer_id.as_str(), avatar.as_deref()), ("me", Some("face")))
        }
        other => panic!("unexpected {other:?}"),
    }
    assert!(send_typing(&state, "b", true).is_none());
    assert!(send_profile_to_peer(&state, "z").is_none());
}

#[test]
fn messages_are_addressed_and_sealed_by_their_sender() {
    let message = WireMessage::Chat { peer_id: "me".to_string(), text: "hi".to_string() };
    let send = send_wire(&peer("a", "paired"), message.clone()).unwrap();
    assert_eq!((send.host.as_str(), send.port), ("10.0.0.2", TRANSPORT_PORT));
    assert_eq!((send.peer_id.as_str(), send.secret.as_str()), ("me", "secret"));
    let mut lost = peer("a", "paired");
    lost.host = " ".to_string();
    let complaint = "Name of a does not have a network address yet.";
    assert_eq!(send_wire(&lost, message.clone()).unwrap_err(), complaint);
    assert_eq!(send_plain_wire(&lost, message.clone()).unwrap_err(), complaint);
    let mut bare = peer("a", "paired");
    bare.shared_secret = None;
    assert_eq!(
        send_wire(&bare, message).unwrap_err(),
        "Name of a does not have a shared secret yet."
    );
    let device = local_discovery_packet(&PersistedState::default(), "linux").unwrap();
    let request = WireMessage::PairRequest { device };
    assert_eq!(
        send_wire(&peer("a", "paired"), request.clone()).unwrap_err(),
        "Pairing messages must be sent without encryption."
    );
    assert!(send_plain_wire(&bare, request).is_ok());
}

#[test]
fn lines_are_framed_and_read_back() {
    assert_eq!(frame_line("{}"), "{}\n");
    assert!(matches!(read_line(0, ""), Line::End));
    assert!(matches!(read_line(2, " \n"), Line::Blank));
    match read_line(5, " {} \n") {
        Line::Body(text) => assert_eq!(text, "{}"),
        other => panic!("unexpected {other:?}"),
    }
    let limit = MAX_LINE_BYTES as usize;
    match read_line(limit, "xxx") {
        Line::TooLong(complaint) => {
            assert_eq!(complaint, "Incoming message exceeded the size limit.")
        }
        other => panic!("unexpected {other:?}"),
    }
    assert!(matches!(read_line(limit, "xxx\n"), Line::Body(_)));
    assert!(matches!(read_line(limit - 1, "xxx"), Line::Body(_)));
}

#[test]
fn connections_and_binds_are_bounded() {
    assert!(admits_connection(MAX_CONNECTION_THREADS - 1));
    assert!(!admits_connection(MAX_CONNECTION_THREADS));
    let mut retry = BindRetry::new();
    for _ in 0..9 {
        assert_eq!(retry.attempt_failed(), Some(500));
    }
    assert_eq!(retry.attempt_failed(), None);
}

#[test]
fn a_file_comes_in_chunk_by_chunk() {
    let mut state = state_with(vec![peer("a", "paired")]);
    let mut incoming = IncomingFiles::new();
    let mut last: i64 = 0;
    state.setup.auto_open = true;
    let reservation = receive_file_start(&state, "a", "../x.txt", 5).unwrap();
    assert_eq!(reservation.file_name, "x.txt");
    assert_eq!(reservation.peer_name, "Name of a");
    let first = file_reserved(&mut incoming, "a", "t", reservation, "/d/x.txt".to_string());
    assert_eq!((first.id.as_str(), first.progress, first.state.as_str()), ("t", 0, "receiving"));

    match receive_file_chunk(&state, &mut incoming, "a", "t", "aGVs") {
        ChunkPlan::Write(bytes) => assert_eq!(bytes, b"hel".to_vec()),
        other => panic!("unexpected {other:?}"),
    }
    let file = chunk_written(&mut incoming, "t", 3).unwrap();
    assert_eq!((file.received_size, file.expected_size), (3, 5));
    let shown = receiving_row("t", "a", &file, 60);
    assert_eq!((shown.progress, shown.state.as_str()), (60, "receiving"));
    assert!(matches!(
        receive_file_chunk(&state, &mut incoming, "a", "t", "bG8="),
        ChunkPlan::Write(_)
    ));
    assert!(chunk_written(&mut incoming, "t", 3).is_none());
    assert_eq!(chunk_written(&mut incoming, "t", 2).unwrap().received_size, 5);

    let done = receive_file_end(&mut state, &mut incoming, &mut last, "a", "t", 5_000).unwrap();
    assert_eq!(done.path, "/d/x.txt");
    assert!(done.open);
    assert_eq!(last, 5_000);
    assert_eq!(done.message.file_path.as_deref(), Some("/d/x.txt"));
    assert_eq!(done.message.file_size, Some(5));
    assert_eq!((done.row.progress, done.row.state.as_str()), (100, "complete"));
    assert_eq!(state.messages.len(), 1);
    assert_eq!(state.transfers.len(), 1);
    assert!(incoming.get("t").is_none());
    assert_eq!(
        receive_file_end(&mut state, &mut incoming, &mut last, "a", "t", 9_000).unwrap_err(),
        "Received an end marker for an unknown transfer."
    );
}

#[test]
fn an_executable_is_not_opened_but_counts_as_an_opening() {
    let mut state = state_with(vec![peer("a", "paired")]);
    let mut incoming = IncomingFiles::new();
    let mut last: i64 = 0;
    state.setup.auto_open = true;
    let reservation = receive_file_start(&state, "a", "x.exe", 0).unwrap();
    file_reserved(&mut incoming, "a", "t", reservation, "/d/x.exe".to_string());
    let done = receive_file_end(&mut state, &mut incoming, &mut last, "a", "t", 5_000).unwrap();
    assert!(!done.open);
    assert_eq!(last, 5_000);
}

#[test]
fn a_file_that_exceeds_its_size_is_discarded() {
    let state = state_with(vec![peer("a", "paired"), peer("b", "pending")]);
    let mut incoming = IncomingFiles::new();
    let reservation = receive_file_start(&state, "a", "x", 2).unwrap();
    file_reserved(&mut incoming, "a", "t", reservation, "/d/x".to_string());
    match receive_file_chunk(&state, &mut incoming, "a", "t", "aGVs") {
        ChunkPlan::Discard { path, complaint } => {
            assert_eq!(path, "/d/x");
            assert_eq!(complaint, "Incoming file exceeded its declared size.");
        }
        other => panic!("unexpected {other:?}"),
    }
    assert!(incoming.get("t").is_none());
    assert!(chunk_written(&mut incoming, "t", 0).is_none());
    match receive_file_chunk(&state, &mut incoming, "a", "t", "aGVs") {
        ChunkPlan::Refuse(complaint) => {
            assert_eq!(complaint, "Received a chunk for an unknown transfer.")
        }
        other => panic!("unexpected {other:?}"),
    }
    match receive_file_chunk(&state, &mut incoming, "b", "t", "aGVs") {
        ChunkPlan::Refuse(complaint) => assert_eq!(complaint, "Name of b is not paired."),
        other => panic!("unexpected {other:?}"),
    }
    assert!(matches!(
        receive_file_chunk(&state, &mut incoming, "a", "t", "*"),
        ChunkPlan::Refuse(_)
    ));
}

#[test]
fn oversized_and_unpaired_transfers_are_not_let_in() {
    let state = state_with(vec![peer("a", "paired"), peer("b", "pending")]);
    assert!(receive_file_start(&state, "a", "x", MAX_INCOMING_FILE_SIZE).is_ok());
    assert_eq!(
        receive_file_start(&state, "a", "x", MAX_INCOMING_FILE_SIZE + 1).unwrap_err(),
        "The incoming file is too large."
    );
    assert_eq!(receive_file_start(&state, "b", "x", 1).unwrap_err(), "Name of b is not paired.");
}

#[test]
fn a_cancelled_transfer_is_dropped() {
    let state = state_with(vec![peer("a", "paired")]);
    let mut incoming = IncomingFiles::new();
    assert!(receive_file_cancel(&state, &mut incoming, "a", "t").unwrap().is_none());
    let reservation = receive_file_start(&state, "a", "x", 2).unwrap();
    file_reserved(&mut incoming, "a", "t", reservation, "/d/x".to_string());
    let gone = receive_file_cancel(&state, &mut incoming, "a", "t").unwrap().unwrap();
    assert_eq!(gone.path, "/d/x");
    assert_eq!((gone.row.progress, gone.row.state.as_str()), (0, "cancelled"));
    assert!(incoming.get("t").is_none());
    assert_eq!(
        receive_file_cancel(&state, &mut incoming, "z", "t").unwrap_err(),
        "Peer not found."
    );
}

#[test]
fn files_go_to_reachable_paired_peers_only() {
    let mut lost = peer("c", "paired");
    lost.host = String::new();
    let mut bare = peer("d", "paired");
    bare.shared_secret = None;
    let state = state_with(vec![peer("a", "paired"), peer("b", "pending"), lost, bare]);
    let paths = ids(&["/x"]);
    assert_eq!(send_files(&state, &[], &paths).unwrap_err(), "No target devices.");
    assert!(send_files(&state, &ids(&["z"]), &[]).unwrap().is_none());
    let job = send_files(&state, &ids(&["a"]), &paths).unwrap().unwrap();
    assert_eq!(job.local_id, "me");
    assert_eq!(job.targets[0].secret, "secret");
    for (id, complaint) in [
        ("z", "Peer not found."),
        ("b", "Name of b is not paired."),
        ("c", "Name of c does not have a network address yet."),
        ("d", "Name of d does not have a shared secret yet."),
    ] {
        assert_eq!(send_files(&state, &ids(&["a", id]), &paths).unwrap_err(), complaint);
    }
}

#[test]
fn staged_files_are_sent_under_their_own_name() {
    let state = state_with(vec![peer("a", "paired")]);
    let to = ids(&["a"]);
    assert_eq!(send_staged_file(&state, &[], "", false, "x").unwrap_err(), "No target devices.");
    assert_eq!(send_staged_file(&state, &to, "", true, "x").unwrap_err(), "Invalid staging id.");
    assert_eq!(
        send_staged_file(&state, &to, "s1", false, "x").unwrap_err(),
        "Nothing was staged to send."
    );
    assert_eq!(send_staged_file(&state, &to, "s1", true, "x").unwrap().name, "x");
    assert_eq!(send_staged_file(&state, &to, "s1", true, " ").unwrap().name, "file");
    let copied = staged_source("/tmp/s".to_string(), Some("/d/x".to_string()));
    assert_eq!((copied.send_path.as_str(), copied.record_path.as_deref()), ("/d/x", Some("/d/x")));
    let transient = staged_source("/tmp/s".to_string(), None);
    assert_eq!((transient.send_path.as_str(), transient.record_path), ("/tmp/s", None));
}

#[test]
fn a_file_goes_out_chunk_by_chunk() {
    let mut state = state_with(vec![peer("a", "paired"), peer("b", "paired"), peer("c", "paired")]);
    let job =
        send_files(&state, &ids(&["a", "b", "c"]), &ids(&["/d/x.txt"])).unwrap().unwrap();
    let mut send = FileSend::new(&job.local_id, "/d/x.txt", None);
    assert_eq!(send.file_name, "x.txt");
    send.opened(5);
    match send.start_message() {
        WireMessage::FileStart { peer_id, transfer_id, file_name, total_size } => {
            assert_eq!((peer_id.as_str(), file_name.as_str(), total_size), ("me", "x.txt", 5));
            assert_eq!(transfer_id, send.transfer_id);
        }
        other => panic!("unexpected {other:?}"),
    }
    let first = send.dialed(&job.targets[0], Ok(()));
    assert_eq!(first.state, "sending");
    let second = send.dialed(&job.targets[1], Err("reset".to_string()));
    assert_eq!((second.state.as_str(), second.error.as_deref()), ("failed", Some("reset")));
    let third = send.unreached_row(&job.targets[2], "timeout".to_string());
    assert_eq!((third.state.as_str(), third.error.as_deref()), ("failed", Some("timeout")));
    send.dialed(&job.targets[2], Ok(()));
    assert_eq!(send.sending_rows(0).len(), 2);
    assert_eq!(send.live(), vec![0, 2]);

    match send.next(StreamEvent::Data(b"hello".to_vec())).unwrap() {
        WireMessage::FileChunk { peer_id, transfer_id, data } => {
            assert_eq!((peer_id.as_str(), data.as_str()), ("me", "aGVsbG8="));
            assert_eq!(transfer_id, send.transfer_id);
        }
        other => panic!("unexpected {other:?}"),
    }
    assert_eq!(send.sent, 5);
    let broken = send.write_failed(2, 100, "reset".to_string());
    assert_eq!((broken.peer_id.as_str(), broken.state.as_str()), ("c", "failed"));
    assert_eq!(send.live(), vec![0]);
    let rows = send.sending_rows(100);
    assert_eq!(rows.len(), 1);
    assert_eq!(rows[0].peer_id, "a");
    assert!(send.next(StreamEvent::End).is_none());
    assert!(matches!(send.closing_message(), Some(WireMessage::FileEnd { .. })));

    let path = Some("/d/x.txt".to_string());
    let whole = send.conclude(0, &mut state, &path);
    assert_eq!((whole.row.progress, whole.row.state.as_str()), (100, "complete"));
    let message = whole.message.unwrap();
    assert_eq!((message.file_size, message.file_path.as_deref()), (Some(5), Some("/d/x.txt")));
    let part = send.conclude(1, &mut state, &path);
    assert_eq!((part.row.state.as_str(), part.row.error), ("failed", None));
    assert!(part.message.is_none());
    assert_eq!(state.messages.len(), 1);
    assert_eq!(state.transfers.len(), 2);
}

#[test]
fn a_send_that_does_not_finish_leaves_no_message() {
    let mut state = state_with(vec![peer("a", "paired")]);
    let job = send_files(&state, &ids(&["a"]), &ids(&["/d/x"])).unwrap().unwrap();
    let mut cancelled = FileSend::new("me", "/d/x", Some("shown".to_string()));
    assert_eq!(cancelled.file_name, "shown");
    cancelled.dialed(&job.targets[0], Ok(()));
    assert!(cancelled.next(StreamEvent::Cancelled).is_none());
    assert!(matches!(cancelled.stream, Stream::Cancelled));
    assert!(matches!(cancelled.closing_message(), Some(WireMessage::FileCancel { .. })));
    let end = cancelled.conclude(0, &mut state, &None);
    assert_eq!((end.row.state.as_str(), end.row.error), ("cancelled", None));

    let mut unread = FileSend::new("me", "/d/x", None);
    unread.dialed(&job.targets[0], Ok(()));
    assert!(unread.next(StreamEvent::ReadFailed).is_none());
    assert!(unread.closing_message().is_none());
    let end = unread.conclude(0, &mut state, &None);
    assert_eq!(end.row.state, "failed");
    assert_eq!(end.row.error.as_deref(), Some("Could not read the file."));
    assert!(state.messages.is_empty());
}

#[test]
fn a_full_chunk_is_decoded_to_what_was_read() {
    let mut send = FileSend::new("me", "/d/x", None);
    let bytes: Vec<u8> = (0..FILE_CHUNK_SIZE).map(|i| (i % 251) as u8).collect();
    for piece in [&bytes[..], &bytes[..1]] {
        match send.next(StreamEvent::Data(piece.to_vec())).unwrap() {
            WireMessage::FileChunk { data, .. } => {
                assert_eq!(base64_decode(&data).unwrap(), piece);
            }
            other => panic!("unexpected {other:?}"),
        }
    }
    assert_eq!(send.sent, FILE_CHUNK_SIZE as u64 + 1);
    assert!(matches!(send.stream, Stream::Running));
}

#[test]
fn a_cancel_after_some_data_discards_the_file() {
    let mut state = state_with(vec![peer("a", "paired")]);
    let job = send_files(&state, &ids(&["a"]), &ids(&["/d/x"])).unwrap().unwrap();
    let mut send = FileSend::new("me", "/d/x", None);
    send.opened(4);
    send.dialed(&job.targets[0], Ok(()));
    assert!(send.next(StreamEvent::Data(vec![1, 2])).is_some());
    assert!(send.next(StreamEvent::Cancelled).is_none());
    assert!(!matches!(send.stream, Stream::Running));
    assert_eq!(send.sent, 2);
    match send.closing_message() {
        Some(WireMessage::FileCancel { peer_id, transfer_id }) => {
            assert_eq!(peer_id, "me");
            assert_eq!(transfer_id, send.transfer_id);
        }
        other => panic!("unexpected {other:?}"),
    }
    assert!(send.conclude(0, &mut state, &None).message.is_none());
    assert!(state.messages.is_empty());
}

#[test]
fn an_unsolicited_agreement_is_ignored() {
    let mut state = PersistedState::default();
    let mut incoming = IncomingFiles::new();
    let mut last: i64 = 0;
    let other = PersistedState::default();
    let device = local_discovery_packet(&other, "linux").unwrap();
    let id = device.device_id.clone();
    let agreement = WireMessage::PairAccepted { device: device.clone() };
    let reaction =
        handle_message(&mut state, &mut incoming, &mut last, agreement.clone(), "h", 1).unwrap();
    assert!(matches!(reaction, Reaction::Nothing));
    assert!(state.peers.is_empty());

    let request = WireMessage::PairRequest { device };
    match handle_message(&mut state, &mut incoming, &mut last, request, "10.0.0.3", 2).unwrap() {
        Reaction::PairingRequested(peer) => {
            assert_eq!((peer.trust_state.as_str(), peer.host.as_str()), ("pending", "10.0.0.3"))
        }
        other => panic!("unexpected {other:?}"),
    }
    // The stranger asked for itself: its own agreement pairs nobody.
    let reaction =
        handle_message(&mut state, &mut incoming, &mut last, agreement, "", 3).unwrap();
    assert!(matches!(reaction, Reaction::Nothing));
    let peer = get_peer(&state, &id).unwrap();
    assert_eq!(peer.trust_state, "pending");
    assert_eq!(peer.shared_secret, None);
    assert!(!peer.asked);
}

#[test]
fn an_awaited_agreement_pairs() {
    let mut state = PersistedState::default();
    let mut incoming = IncomingFiles::new();
    let mut last: i64 = 0;
    let other = PersistedState::default();
    let device = local_discovery_packet(&other, "linux").unwrap();
    let id = device.device_id.clone();
    hear_announcement(&mut state, device.clone(), "10.0.0.3", 1);
    pair_peer(&mut state, &id, 2).unwrap();
    // A request of the peer's own does not take back what it was asked.
    let request = WireMessage::PairRequest { device: device.clone() };
    handle_message(&mut state, &mut incoming, &mut last, request, "10.0.0.3", 3).unwrap();
    let agreement = WireMessage::PairAccepted { device };
    match handle_message(&mut state, &mut incoming, &mut last, agreement.clone(), "", 4).unwrap() {
        Reaction::PairingAccepted(Some(send)) => assert_eq!(send.peer.id, id),
        other => panic!("unexpected {other:?}"),
    }
    let peer = get_peer(&state, &id).unwrap();
    assert_eq!(peer.trust_state, "paired");
    assert_eq!(peer.host, "10.0.0.3");
    assert!(peer.shared_secret.is_some());
    assert!(!peer.asked);
    // Answered once, the question is settled.
    let again = handle_message(&mut state, &mut incoming, &mut last, agreement, "", 5).unwrap();
    assert!(matches!(again, Reaction::Nothing));
}

#[test]
fn an_agreement_with_a_bad_key_is_refused() {
    let mut state = state_with(vec![peer("a", "pending")]);
    state.peers[0].asked = true;
    state.setup.identity_secret = simplepass::keys::new_identity_secret();
    let mut incoming = IncomingFiles::new();
    let mut last: i64 = 0;
    let mut device = local_discovery_packet(&PersistedState::default(), "linux").unwrap();
    device.device_id = "a".to_string();
    device.public_key = "AAEC".to_string();
    let agreement = WireMessage::PairAccepted { device };
    assert_eq!(
        handle_message(&mut state, &mut incoming, &mut last, agreement, "h", 1).unwrap_err(),
        "Public key has an invalid length."
    );
    assert_eq!(state.peers[0].trust_state, "pending");
}

#[test]
fn messages_are_dispatched_by_kind() {
    let mut state = state_with(vec![peer("a", "paired")]);
    let mut incoming = IncomingFiles::new();
    let mut last: i64 = 0;
    let a = || "a".to_string();
    let t = || "t".to_string();
    let chat = WireMessage::Chat { peer_id: a(), text: "hi".to_string() };
    let r = handle_message(&mut state, &mut incoming, &mut last, chat, "", 1).unwrap();
    assert!(matches!(r, Reaction::MessageReceived(_)));
    let link = WireMessage::Link { peer_id: a(), url: "http://x".to_string() };
    let r = handle_message(&mut state, &mut incoming, &mut last, link, "", 1).unwrap();
    assert!(matches!(r, Reaction::LinkReceived(_)));
    let bad = WireMessage::Link { peer_id: a(), url: "file:///x".to_string() };
    let r = handle_message(&mut state, &mut incoming, &mut last, bad, "", 1).unwrap();
    assert!(matches!(r, Reaction::Nothing));
    let typing = WireMessage::Typing { peer_id: "z".to_string(), is_typing: true };
    let r = handle_message(&mut state, &mut incoming, &mut last, typing, "", 1).unwrap();
    assert!(matches!(r, Reaction::Typing { is_typing: true, .. }));
    let start = WireMessage::FileStart {
        peer_id: a(),
        transfer_id: t(),
        file_name: "x".to_string(),
        total_size: 3,
    };
    match handle_message(&mut state, &mut incoming, &mut last, start, "", 1).unwrap() {
        Reaction::FileStarted { peer_id, transfer_id, reservation } => {
            file_reserved(&mut incoming, &peer_id, &transfer_id, reservation, "/d/x".to_string());
        }
        other => panic!("unexpected {other:?}"),
    }
    let chunk =
        WireMessage::FileChunk { peer_id: a(), transfer_id: t(), data: "aGVs".to_string() };
    let r = handle_message(&mut state, &mut incoming, &mut last, chunk, "", 1).unwrap();
    assert!(matches!(r, Reaction::FileChunk { plan: ChunkPlan::Write(_), .. }));
    let end = WireMessage::FileEnd { peer_id: a(), transfer_id: t() };
    let r = handle_message(&mut state, &mut incoming, &mut last, end, "", 1).unwrap();
    assert!(matches!(r, Reaction::FileFinished(_)));
    let cancel = WireMessage::FileCancel { peer_id: a(), transfer_id: t() };
    let r = handle_message(&mut state, &mut incoming, &mut last, cancel, "", 1).unwrap();
    assert!(matches!(r, Reaction::Nothing));
    assert_eq!(state.messages.len(), 3);
}

#[test]
fn an_oversized_avatar_is_dropped() {
    let mut state = state_with(vec![peer("a", "paired")]);
    let mut incoming = IncomingFiles::new();
    let mut last: i64 = 0;
    let face = Some("face".to_string());
    let profile = WireMessage::Profile { peer_id: "a".to_string(), avatar: face };
    let r = handle_message(&mut state, &mut incoming, &mut last, profile, "", 1).unwrap();
    assert!(matches!(r, Reaction::ProfileReceived));
    assert_eq!(state.peers[0].avatar.as_deref(), Some("face"));
    let huge = Some("a".repeat(MAX_AVATAR_LEN + 1));
    let profile = WireMessage::Profile { peer_id: "a".to_string(), avatar: huge };
    handle_message(&mut state, &mut incoming, &mut last, profile, "", 1).unwrap();
    assert_eq!(state.peers[0].avatar, None);
}

#[test]
fn the_icon_grows_to_the_side_with_room() {
    let screen = Screen { left: 0, width: 1920, idle: 72, active: 300 };
    let right = widget_grow_plan(Some(screen), 100);
    assert_eq!((right.grow_left, right.new_x), (false, 100));
    let left = widget_grow_plan(Some(screen), 1800);
    assert_eq!((left.grow_left, left.new_x), (true, 1572));
    let edge = widget_grow_plan(Some(screen), 1620);
    assert!(!edge.grow_left);
    let cramped = Screen { left: 0, width: 250, idle: 72, active: 300 };
    assert!(!widget_grow_plan(Some(cramped), 100).grow_left);
    assert_eq!(widget_grow_plan(None, 1800).new_x, 1800);
    assert!(edges_are_known(screen, 1800));
    assert!(!edges_are_known(screen, i32::MAX));
    assert_eq!(side_name(true), "left");
    assert_eq!(side_name(false), "right");
}

#[test]
fn the_icon_returns_to_where_it_rested() {
    let mut widget = Widget::new();
    let rest = Position { x: 1800, y: 40 };
    assert!(widget.collapse().is_none());
    assert_eq!(widget.expand(rest), rest);
    assert!(widget.active);
    assert_eq!(widget.expand(Position { x: 1572, y: 40 }), rest);
    let screen = Screen { left: 0, width: 1920, idle: 72, active: 300 };
    let plan = widget_grow_plan(Some(screen), rest.x);
    let decided = set_widget_active(plan, rest, false);
    assert!(decided.grow_left && decided.move_to.is_none());
    let applied = set_widget_active(plan, rest, true);
    assert_eq!(applied.move_to, Some(Position { x: 1572, y: 40 }));
    assert_eq!(widget.collapse(), Some(rest));
    assert!(!widget.active);
}

#[test]
fn a_file_arrives_as_it_was_sent() {
    let content: Vec<u8> = (0..1000u32).map(|n| (n * 7 % 251) as u8).collect();
    let mut receiver = state_with(vec![peer("sender", "paired")]);
    let mut incoming = IncomingFiles::new();
    let mut last: i64 = 0;
    let mut send = FileSend::new("sender", "/d/data.bin", None);
    send.opened(content.len() as u64);
    let start = send.start_message();
    match handle_message(&mut receiver, &mut incoming, &mut last, start, "", 1).unwrap() {
        Reaction::FileStarted { peer_id, transfer_id, reservation } => {
            assert_eq!(reservation.expected_size, 1000);
            file_reserved(&mut incoming, &peer_id, &transfer_id, reservation, "/r".to_string());
        }
        other => panic!("unexpected {other:?}"),
    }
    let mut written: Vec<u8> = Vec::new();
    for piece in content.chunks(64) {
        let message = send.next(StreamEvent::Data(piece.to_vec())).unwrap();
        match handle_message(&mut receiver, &mut incoming, &mut last, message, "", 2).unwrap() {
            Reaction::FileChunk { transfer_id, plan: ChunkPlan::Write(bytes), .. } => {
                chunk_written(&mut incoming, &transfer_id, bytes.len()).unwrap();
                written.extend(bytes);
            }
            other => panic!("unexpected {other:?}"),
        }
    }
    assert!(send.next(StreamEvent::End).is_none());
    assert_eq!(written, content);
    assert_eq!(send.sent, 1000);
    let end = send.closing_message().unwrap();
    let r = handle_message(&mut receiver, &mut incoming, &mut last, end, "", 3).unwrap();
    assert!(matches!(r, Reaction::FileFinished(_)));
}

#[test]
fn messages_of_unpaired_peers_change_nothing() {
    let mut state = state_with(vec![peer("a", "pending"), peer("b", "paired")]);
    let mut incoming = IncomingFiles::new();
    let mut last: i64 = 0;
    let a = || "a".to_string();
    let t = || "t".to_string();
    for message in [
        WireMessage::Chat { peer_id: a(), text: "hi".to_string() },
        WireMessage::Link { peer_id: a(), url: "http://x".to_string() },
        WireMessage::FileStart {
            peer_id: a(),
            transfer_id: t(),
            file_name: "x".to_string(),
            total_size: 1,
        },
        WireMessage::FileChunk { peer_id: a(), transfer_id: t(), data: "aGk=".to_string() },
        WireMessage::FileEnd { peer_id: a(), transfer_id: t() },
        WireMessage::FileCancel { peer_id: a(), transfer_id: t() },
    ] {
        let complaint =
            handle_message(&mut state, &mut incoming, &mut last, message, "", 1).unwrap_err();
        assert_eq!(complaint, "Name of a is not paired.");
    }
    assert!(state.messages.is_empty() && state.transfers.is_empty());
    assert_eq!(state.peers[1].trust_state, "paired");
}
