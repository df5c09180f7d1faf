use std::collections::VecDeque;

use rsqlite_rsync::error::SyncError;
use rsqlite_rsync::hash::{
    hash_group, hash_group_for, hash_page, hash_page_for, HashAlgorithm, PageHash,
};
use rsqlite_rsync::protocol::messages::{
    decode, encode, frame_len, Message, PageData, MAX_MESSAGE_SIZE, PROTOCOL_VERSION,
};
use rsqlite_rsync::protocol::origin::OriginSession;
use rsqlite_rsync::protocol::pages::Snapshot;
use rsqlite_rsync::protocol::replica::ReplicaSession;
use rsqlite_rsync::protocol::step::Step;

const PAGE_SIZE: u32 = 512;

/// A page that differs from all others by its number and a salt.
fn page(page_no: u32, salt: u8) -> Vec<u8> {
    let mut data = vec![salt; PAGE_SIZE as usize];
    data[..4].copy_from_slice(&page_no.to_le_bytes());
    data
}

fn database(page_count: u32) -> Vec<Vec<u8>> {
    (1..=page_count).map(|p| page(p, 7)).collect()
}

fn snapshot(pages: &[Vec<u8>]) -> Snapshot {
    Snapshot::new(PAGE_SIZE, pages.len() as u32, pages.concat()).expect("snapshot")
}

/// Feed messages to an origin until it ends or they run out.
fn run_origin(pages: &[Vec<u8>], messages: Vec<Message>) -> (Result<(), SyncError>, Vec<Message>) {
    let mut session = OriginSession::new(snapshot(pages));
    let mut sent = Vec::new();
    for msg in messages {
        assert!(session.can_work_on(&msg));
        let step = session.on_message(msg);
        let error = step.error();
        match step {
            Step::Reply(reply) => sent.extend(reply),
            Step::Finish(reply) => {
                sent.extend(reply);
                return (Ok(()), sent);
            }
            Step::Violation(message) | Step::PageSizeMismatch { message, .. } => {
                sent.push(Message::Error { message });
                return (Err(error.unwrap()), sent);
            }
            _ => return (Err(error.unwrap()), sent),
        }
    }
    (
        Err(SyncError::Protocol("mock transport exhausted input".into())),
        sent,
    )
}

fn run_replica(page_count: u32, reply: Message) -> (Result<(), SyncError>, Message) {
    let (mut session, hello) = ReplicaSession::new(PAGE_SIZE, page_count);
    assert!(session.can_work_on(&reply));
    let step = session.on_message(reply);
    match step.error() {
        Some(e) => (Err(e), hello),
        None => (Ok(()), hello),
    }
}

fn protocol_error_with(result: Result<(), SyncError>, part: &str) -> bool {
    matches!(result, Err(SyncError::Protocol(message)) if message.contains(part))
}

fn hello(page_count: u32) -> Message {
    Message::Hello {
        version: PROTOCOL_VERSION,
        page_size: PAGE_SIZE,
        page_count,
    }
}

fn one_group() -> Message {
    Message::GroupHashes {
        first_group: 0,
        hashes: vec![[1u8; 32]],
    }
}

#[test]
fn hash_page_known_output() {
    // The default page hash should be deterministic.
    let data = [0u8; 4];
    let h1 = hash_page(&data);
    let h2 = hash_page(&data);
    assert_eq!(h1, h2);
}

#[test]
fn hash_page_differs_for_different_content() {
    let a = hash_page(&[0u8; 4096]);
    let b = hash_page(&[1u8; 4096]);
    assert_ne!(a, b);
}

#[test]
fn hash_group_deterministic() {
    let h = hash_page(&[42u8; 512]);
    let g1 = hash_group(&[h]);
    let g2 = hash_group(&[h]);
    assert_eq!(g1, g2);
}

#[test]
fn hash_group_order_matters() {
    let h1 = hash_page(&[1u8; 512]);
    let h2 = hash_page(&[2u8; 512]);
    let g_ab = hash_group(&[h1, h2]);
    let g_ba = hash_group(&[h2, h1]);
    assert_ne!(g_ab, g_ba);
}

#[test]
fn hash_group_empty_is_valid() {
    let g = hash_group(&[]);
    assert_eq!(g.len(), 32);
}

fn hex(bytes: &[u8]) -> String {
    rsqlite_rsync::cli::sql::hex_encode(bytes)
}

#[test]
fn page_hashes_are_the_published_digests() {
    assert_eq!(
        hex(&hash_page_for(b"abc", HashAlgorithm::Sha256V1)),
        "ba7816bf8f01cfea414140de5dae2223b00361a396177a9cb410ff61f20015ad"
    );
    assert_eq!(
        hex(&hash_page_for(b"abc", HashAlgorithm::Blake3V2)),
        "6437b3ac38465133ffb63b75273a8db548c558465d79db03fd359c6cd5bd9d85"
    );
}

#[test]
fn group_hash_covers_the_concatenated_page_hashes() {
    for algorithm in [HashAlgorithm::Sha256V1, HashAlgorithm::Blake3V2] {
        let a = hash_page_for(b"a", algorithm);
        let b = hash_page_for(b"b", algorithm);
        let joined = [a, b].concat();
        assert_eq!(
            hash_group_for(&[a, b], algorithm),
            hash_page_for(&joined, algorithm)
        );
    }
}

#[test]
fn first_protocol_version_hashes_with_sha256() {
    assert_eq!(
        HashAlgorithm::from_protocol_version(1),
        Some(HashAlgorithm::Sha256V1)
    );
    assert_eq!(
        HashAlgorithm::from_protocol_version(PROTOCOL_VERSION),
        Some(HashAlgorithm::Blake3V2)
    );
}

#[test]
fn frame_length_is_known_from_the_prefix() {
    let framed = encode(&[9u8; 300]);
    assert_eq!(framed[..4], [44, 1, 0, 0]);
    assert_eq!(frame_len(&framed[..4]).unwrap(), 304);
    assert_eq!(frame_len(&framed).unwrap(), framed.len());

    assert_eq!(
        frame_len(&framed[..3]).unwrap_err(),
        SyncError::Codec("buffer too short for length prefix".to_string())
    );
    let over = (MAX_MESSAGE_SIZE as u32 + 1).to_le_bytes();
    assert_eq!(
        frame_len(&over).unwrap_err(),
        SyncError::Codec(format!(
            "message frame exceeds max size: {} > {}",
            MAX_MESSAGE_SIZE + 1,
            MAX_MESSAGE_SIZE
        ))
    );
}

#[test]
fn decode_truncated_length_prefix_errors() {
    let result = decode(&[0, 0]);
    assert!(result.is_err());
}

#[test]
fn decode_truncated_payload_errors() {
    // 4-byte length saying 100 bytes follow, but nothing actually follows.
    let mut buf = vec![100u8, 0, 0, 0];
    buf.extend_from_slice(&[0u8; 10]); // only 10 bytes of payload
    let result = decode(&buf);
    assert!(result.is_err());
}

#[test]
fn decode_oversized_payload_errors() {
    let len = (MAX_MESSAGE_SIZE as u32).saturating_add(1);
    let buf = len.to_le_bytes().to_vec();
    let result = decode(&buf);
    assert!(result.is_err());
}

#[test]
fn framed_payload_is_read_back() {
    let payload = vec![9u8, 8, 7];
    let mut framed = encode(&payload);
    assert_eq!(framed, vec![3, 0, 0, 0, 9, 8, 7]);
    framed.push(1);
    let (decoded, consumed) = decode(&framed).expect("decode");
    assert_eq!(decoded, payload);
    assert_eq!(consumed, 7);
}

#[test]
fn fine_pass_sends_empty_batch_and_no_duplicate_suffix_pages() {
    let pages = database(90);

    let group0_pages: Vec<u32> = (1..=64).collect();
    let group0_hashes: Vec<PageHash> = group0_pages
        .iter()
        .map(|page_no| hash_page(&pages[*page_no as usize - 1]))
        .collect();

    let group1_pages: Vec<u32> = (65..=70).collect();
    let group1_hashes: Vec<PageHash> = group1_pages
        .iter()
        .map(|page_no| hash_page(&pages[*page_no as usize - 1]))
        .collect();

    let (result, sent) = run_origin(
        &pages,
        vec![
            hello(70),
            Message::GroupHashes {
                first_group: 0,
                hashes: vec![[0u8; 32], [1u8; 32]],
            },
            Message::PageHashes {
                page_nos: group0_pages,
                hashes: group0_hashes,
            },
            Message::PagesAck { page_nos: vec![] },
            Message::PageHashes {
                page_nos: group1_pages,
                hashes: group1_hashes,
            },
            Message::PagesAck {
                page_nos: (71..=90).collect(),
            },
        ],
    );
    assert_eq!(result, Ok(()));

    assert!(matches!(
        &sent[2],
        Message::SendPages { pages } if pages.is_empty()
    ));

    let sent_page_nos: Vec<u32> = sent
        .iter()
        .filter_map(|msg| match msg {
            Message::SendPages { pages } => {
                Some(pages.iter().map(|page| page.page_no).collect::<Vec<_>>())
            }
            _ => None,
        })
        .flatten()
        .collect();
    assert_eq!(sent_page_nos, (71..=90).collect::<Vec<_>>());
}

#[test]
fn fine_pass_rejects_mismatched_pagehash_lengths() {
    let (result, _) = run_origin(
        &database(8),
        vec![
            hello(8),
            one_group(),
            Message::PageHashes {
                page_nos: vec![1, 2],
                hashes: vec![[0u8; 32]],
            },
        ],
    );
    assert!(protocol_error_with(result, "mismatched lengths"));
}

#[test]
fn fine_pass_rejects_page_zero() {
    let (result, _) = run_origin(
        &database(8),
        vec![
            hello(8),
            one_group(),
            Message::PageHashes {
                page_nos: vec![0],
                hashes: vec![[0u8; 32]],
            },
        ],
    );
    assert!(protocol_error_with(result, "invalid page number 0"));
}

#[test]
fn fine_pass_rejects_out_of_group_and_duplicate_pages() {
    let pages = database(8);
    for (page_nos, part) in [
        (vec![65], "outside group"),
        (vec![1, 1], "duplicate page number"),
        (vec![2, 1], "strictly increasing"),
        (vec![1, 3], "contiguous prefix"),
    ] {
        let hashes = vec![[0u8; 32]; page_nos.len()];
        let (result, _) = run_origin(
            &pages,
            vec![hello(8), one_group(), Message::PageHashes { page_nos, hashes }],
        );
        assert!(protocol_error_with(result, part));
    }
}

fn everything_asked_for(ack: Vec<u32>) -> Result<(), SyncError> {
    run_origin(
        &database(8),
        vec![
            hello(0),
            one_group(),
            Message::PageHashes {
                page_nos: vec![],
                hashes: vec![],
            },
            Message::PagesAck { page_nos: ack },
        ],
    )
    .0
}

#[test]
fn fine_pass_rejects_mismatched_pages_ack() {
    assert!(protocol_error_with(
        everything_asked_for(vec![]),
        "PagesAck does not match sent pages"
    ));
}

#[test]
fn fine_pass_rejects_duplicate_pages_ack() {
    assert!(protocol_error_with(
        everything_asked_for(vec![1, 1]),
        "duplicate page numbers"
    ));
}

#[test]
fn coarse_pass_rejects_non_zero_first_group() {
    let (result, _) = run_origin(
        &database(8),
        vec![
            hello(8),
            Message::GroupHashes {
                first_group: 1,
                hashes: vec![[1u8; 32]],
            },
        ],
    );
    assert!(protocol_error_with(result, "first_group=0"));
}

#[test]
fn fine_pass_rejects_early_done_before_all_groups() {
    let (result, _) = run_origin(&database(8), vec![hello(8), one_group(), Message::Done]);
    assert!(protocol_error_with(
        result,
        "before all requested fine-pass groups"
    ));
}

#[test]
fn handshake_rejects_zero_protocol_version() {
    let (result, sent) = run_origin(
        &database(2),
        vec![Message::Hello {
            version: 0,
            page_size: PAGE_SIZE,
            page_count: 2,
        }],
    );
    assert!(protocol_error_with(result, "unsupported protocol version 0"));
    assert!(matches!(
        sent.first(),
        Some(Message::Error { message }) if message.contains("unsupported protocol version 0")
    ));
}

#[test]
fn handshake_rejects_different_page_sizes() {
    let (result, sent) = run_origin(
        &database(2),
        vec![Message::Hello {
            version: PROTOCOL_VERSION,
            page_size: 1024,
            page_count: 2,
        }],
    );
    assert_eq!(
        result,
        Err(SyncError::PageSizeMismatch {
            origin: PAGE_SIZE,
            replica: 1024
        })
    );
    assert!(matches!(sent.first(), Some(Message::Error { .. })));
}

#[test]
fn handshake_rejects_zero_negotiated_version() {
    let (result, sent) = run_replica(
        0,
        Message::HelloAck {
            version: 0,
            page_size: PAGE_SIZE,
            page_count: 0,
        },
    );
    assert!(protocol_error_with(
        result,
        "invalid negotiated protocol version"
    ));
    assert!(matches!(
        sent,
        Message::Hello { version, .. } if version == PROTOCOL_VERSION
    ));
}

#[test]
fn handshake_rejects_future_negotiated_version() {
    let (result, _) = run_replica(
        0,
        Message::HelloAck {
            version: PROTOCOL_VERSION + 1,
            page_size: PAGE_SIZE,
            page_count: 0,
        },
    );
    assert!(protocol_error_with(
        result,
        "invalid negotiated protocol version"
    ));
}

#[test]
fn replica_reports_the_error_of_the_origin() {
    let (result, _) = run_replica(
        0,
        Message::Error {
            message: "something broke".into(),
        },
    );
    assert!(protocol_error_with(result, "something broke"));
}

/// Run a whole session; the pages of the replica after it and the numbers of the
/// pages that travelled.
fn synchronise(origin: &[Vec<u8>], replica: &[Vec<u8>]) -> (Vec<Vec<u8>>, Vec<u32>) {
    let mut pages: Vec<Vec<u8>> = replica.to_vec();
    let mut travelled = Vec::new();
    let mut o = OriginSession::new(snapshot(origin));
    let (mut r, first) = ReplicaSession::new(PAGE_SIZE, replica.len() as u32);
    let mut to_origin = VecDeque::from([first]);
    let mut to_replica: VecDeque<Message> = VecDeque::new();
    let mut origin_over = false;
    let mut replica_over = false;
    while !(origin_over && replica_over) {
        let mut moved = false;
        if let Some(msg) = to_origin.pop_front() {
            moved = true;
            assert!(o.can_work_on(&msg));
            match o.on_message(msg) {
                Step::Reply(reply) => to_replica.extend(reply),
                Step::Finish(reply) => {
                    to_replica.extend(reply);
                    origin_over = true;
                }
                other => panic!("origin: {other:?}"),
            }
        }
        if let Some(msg) = to_replica.pop_front() {
            moved = true;
            assert!(r.can_work_on(&msg));
            let mut step = r.on_message(msg);
            if matches!(step, Step::ReadContent) {
                step = r.on_content(replica.concat());
            }
            match step {
                Step::Reply(reply) => to_origin.extend(reply),
                Step::Finish(reply) => {
                    to_origin.extend(reply);
                    replica_over = true;
                }
                Step::Write { pages: written, reply } => {
                    for PageData { page_no, data } in written {
                        travelled.push(page_no);
                        let at = page_no as usize - 1;
                        if at == pages.len() {
                            pages.push(data);
                        } else {
                            pages[at] = data;
                        }
                    }
                    to_origin.extend(reply);
                }
                Step::Cut { page_count } => {
                    assert!((page_count as usize) < pages.len());
                    pages.truncate(page_count as usize);
                    replica_over = true;
                }
                other => panic!("replica: {other:?}"),
            }
        }
        assert!(moved, "both sides wait");
    }
    (pages, travelled)
}

#[test]
fn session_makes_replica_a_copy() {
    let origin = database(200);
    let mut replica = database(150);
    replica[3] = page(4, 99);
    replica[130] = page(131, 99);
    let (copy, travelled) = synchronise(&origin, &replica);
    assert_eq!(copy, origin);
    let mut expected = vec![4, 131];
    expected.extend(151..=200);
    assert_eq!(travelled, expected);
}

#[test]
fn session_fills_an_empty_replica() {
    let origin = database(70);
    let (copy, travelled) = synchronise(&origin, &[]);
    assert_eq!(copy, origin);
    assert_eq!(travelled, (1..=70).collect::<Vec<_>>());
}

#[test]
fn session_cuts_a_replica_with_more_pages() {
    // Within the last group, by whole groups, and down to nothing.
    for (kept, had) in [(1, 2), (70, 100), (64, 200), (0, 65), (130, 131)] {
        let origin = database(kept);
        let mut replica = database(had);
        let (copy, travelled) = synchronise(&origin, &replica);
        assert_eq!(copy, origin);
        assert!(travelled.is_empty());

        replica[0] = page(1, 99);
        let (copy, travelled) = synchronise(&origin, &replica);
        assert_eq!(copy, origin);
        assert_eq!(travelled, if kept > 0 { vec![1] } else { vec![] });
    }
}

#[test]
fn origin_sends_nothing_for_pages_that_it_does_not_have() {
    let origin = database(2);
    let (result, sent) = run_origin(
        &origin,
        vec![
            hello(3),
            one_group(),
            Message::PageHashes {
                page_nos: vec![1, 2, 3],
                hashes: vec![hash_page(&origin[0]), [5u8; 32], [6u8; 32]],
            },
            Message::PagesAck { page_nos: vec![2] },
        ],
    );
    assert!(result.is_ok());
    match &sent[2] {
        Message::SendPages { pages } => {
            assert_eq!(pages.len(), 1);
            assert_eq!((pages[0].page_no, &pages[0].data), (2, &origin[1]));
        }
        other => panic!("expected SendPages, got {other:?}"),
    }
}

#[test]
fn session_of_equal_databases_moves_no_page() {
    let origin = database(130);
    let (copy, travelled) = synchronise(&origin, &origin);
    assert_eq!(copy, origin);
    assert!(travelled.is_empty());
}

#[test]
fn snapshot_needs_all_its_bytes() {
    assert!(Snapshot::new(PAGE_SIZE, 2, vec![0; 1024]).is_some());
    assert!(Snapshot::new(PAGE_SIZE, 3, vec![0; 1024]).is_none());
}
