//! The session engine against scripted ECUs: erase polling, chunked
//! transfer, the CRC-skip precheck, the FIFO worker and the keep-alive.

use conuds::crc8::crc8;
use conuds::frames::DownloadParams;
use conuds::frames::SupportedResetTypes;
use conuds::frames::UdsClientError;
use conuds::nrc::NrcClass;
use conuds::orchestrator::FlashStatus;
use conuds::queue::CanioCmd;
use conuds::queue::CmdQueue;
use conuds::queue::PrdCmd;
use conuds::queue::WorkerOutcome;
use conuds::queue::keepalive_step;
use conuds::queue::worker_drain;
use conuds::session::UdsClient;
use conuds::session::get_app_crc;
use conuds::transport::ScriptedTransport;

fn client_with(replies: Vec<Option<Vec<u8>>>, interactive: bool) -> UdsClient {
    UdsClient::new(ScriptedTransport::new(replies), interactive)
}

const ROUTINE_OK: [u8; 4] = [0x71, 0x01, 0x0F, 0xF0];
const ERASE_IN_PROGRESS: [u8; 3] = [0x71, 0x03, 0x01];
const ERASE_COMPLETE: [u8; 3] = [0x71, 0x03, 0x02];
const ERASE_FAILED: [u8; 3] = [0x71, 0x03, 0x00];

#[test]
fn erase_succeeds_after_k_plus_one_polls() {
    // Scripted: in-progress for the first K polls, then complete.
    let k = 5;
    let mut replies: Vec<Option<Vec<u8>>> = vec![Some(ROUTINE_OK.to_vec())];
    for _ in 0..k {
        replies.push(Some(ERASE_IN_PROGRESS.to_vec()));
    }
    replies.push(Some(ERASE_COMPLETE.to_vec()));
    let mut client = client_with(replies, true);
    assert!(client.app_erase().is_ok());
    // One start frame, then exactly K + 1 polls.
    assert_eq!(client.transport.sent_count(), 1 + k + 1);
    let sent = client.transport.sent_frames();
    assert_eq!(sent[0], vec![0x31, 0x01, 0x0F, 0xF0]);
    for poll in &sent[1..] {
        assert_eq!(*poll, vec![0x31, 0x03, 0x0F, 0xF0]);
    }
}

#[test]
fn erase_fails_on_first_failed_poll() {
    let replies = vec![Some(ROUTINE_OK.to_vec()), Some(ERASE_FAILED.to_vec())];
    let mut client = client_with(replies, true);
    assert_eq!(client.app_erase(), Err(UdsClientError::EraseFailed));
    // One start frame, one poll: failure is reported on the first poll.
    assert_eq!(client.transport.sent_count(), 2);
}

#[test]
fn erase_times_out_after_retry_budget() {
    // A routine that never completes: the loop must not run forever.
    let mut replies: Vec<Option<Vec<u8>>> = vec![Some(ROUTINE_OK.to_vec())];
    for _ in 0..1000 {
        replies.push(Some(ERASE_IN_PROGRESS.to_vec()));
    }
    let mut client = client_with(replies, true);
    assert_eq!(client.app_erase(), Err(UdsClientError::EraseTimeout));
    // The start frame plus exactly the budget's polls.
    assert_eq!(client.transport.sent_count(), 1 + 1000);
}

#[test]
fn routine_start_interprets_its_acknowledgement() {
    // A negative acknowledgement is classified, never accepted.
    let mut client = client_with(vec![Some(vec![0x7F, 0x31, 0x78])], true);
    assert_eq!(
        client.routine_start(0xF00F, &None),
        Err(UdsClientError::Negative(NrcClass::Busy))
    );
    // A short negative reply is malformed.
    let mut client = client_with(vec![Some(vec![0x7F, 0x31])], true);
    assert_eq!(
        client.routine_start(0xF00F, &None),
        Err(UdsClientError::MalformedNegative)
    );
    // An empty reply and a foreign service id are protocol violations.
    let mut client = client_with(vec![Some(vec![])], true);
    assert_eq!(
        client.routine_start(0xF00F, &None),
        Err(UdsClientError::EmptyResponse)
    );
    let mut client = client_with(vec![Some(vec![0x50, 0x01])], true);
    assert_eq!(
        client.routine_start(0xF00F, &None),
        Err(UdsClientError::UnexpectedSid(0x50))
    );
    // A positive Routine Control reply acknowledges the start.
    let mut client = client_with(vec![Some(ROUTINE_OK.to_vec())], true);
    assert!(client.routine_start(0xF00F, &None).is_ok());
}

#[test]
fn erase_aborts_when_the_start_is_rejected() {
    // The erase attempt ends at the start frame: no poll follows a
    // rejected "start routine".
    let mut client = client_with(vec![Some(vec![0x7F, 0x31, 0x22])], true);
    assert_eq!(
        client.app_erase(),
        Err(UdsClientError::Negative(NrcClass::ConditionsNotCorrect))
    );
    assert_eq!(client.transport.sent_count(), 1);
    assert_eq!(client.transport.sent_frames()[0], vec![0x31, 0x01, 0x0F, 0xF0]);
}

#[test]
fn erase_aborts_on_negative_or_malformed_replies() {
    let mut client = client_with(
        vec![Some(ROUTINE_OK.to_vec()), Some(vec![0x7F, 0x31, 0x22])],
        true,
    );
    assert_eq!(client.app_erase(), Err(UdsClientError::EraseNotStarted));

    let mut client = client_with(
        vec![Some(ROUTINE_OK.to_vec()), Some(vec![0x71, 0x03, 0x01, 0x00])],
        true,
    );
    assert_eq!(client.app_erase(), Err(UdsClientError::EraseWrongLength));

    let mut client = client_with(
        vec![Some(ROUTINE_OK.to_vec()), Some(vec![0x50, 0x03, 0x01])],
        true,
    );
    assert_eq!(client.app_erase(), Err(UdsClientError::EraseWrongSid(0x50)));

    let mut client = client_with(
        vec![Some(ROUTINE_OK.to_vec()), Some(vec![0x71, 0x03, 0x07])],
        true,
    );
    assert_eq!(
        client.app_erase(),
        Err(UdsClientError::EraseUnexpectedStatus(0x07))
    );

    let mut client = client_with(vec![None], true);
    assert_eq!(client.app_erase(), Err(UdsClientError::Transport));
}

#[test]
fn sequence_counter_wraps_after_256_chunks() {
    // 256 accepted chunks bring the counter back to its start, gap-free.
    let replies: Vec<Option<Vec<u8>>> = (0..256).map(|_| Some(vec![0x76])).collect();
    let mut client = client_with(replies, true);
    let mut params = DownloadParams { counter: 0, chunksize_len: 4, chunksize: 2 };
    for i in 0..256u32 {
        assert_eq!(params.counter, (i % 256) as u8);
        let chunk = [i as u8];
        assert!(client.transfer_payload(&mut params, &chunk).is_ok());
    }
    assert_eq!(params.counter, 0);
    let sent = client.transport.sent_frames();
    for (i, frame) in sent.iter().enumerate() {
        assert_eq!(frame[1], (i % 256) as u8);
    }
}

fn test_binary(len: usize) -> Vec<u8> {
    (0..len).map(|i| (i % 251) as u8).collect()
}

#[test]
fn chunking_count_and_reassembly() {
    // ceil(S / (C - 1)) frames, whose payloads concatenate to the file.
    for (len, chunksize) in [(0usize, 8u16), (1, 8), (7, 8), (8, 8), (1025, 8), (100, 3)] {
        let file = test_binary(len);
        let payload = (chunksize - 1) as usize;
        let expected_frames = len.div_ceil(payload);
        let replies: Vec<Option<Vec<u8>>> =
            (0..expected_frames).map(|_| Some(vec![0x76])).collect();
        let mut client = client_with(replies, true);
        let mut params = DownloadParams { counter: 0, chunksize_len: 4, chunksize };
        assert!(client.transfer_file(&mut params, &file).is_ok());
        let sent = client.transport.sent_frames();
        assert_eq!(sent.len(), expected_frames);
        let mut reassembled: Vec<u8> = Vec::new();
        for frame in sent.iter() {
            reassembled.extend_from_slice(&frame[2..frame.len() - 1]);
        }
        assert_eq!(reassembled, file);
    }
}

#[test]
fn end_to_end_1025_bytes_chunk_size_8() {
    // A 1025-byte binary at chunk size 8 (7 payload bytes per frame)
    // crosses in 147 frames with counters 0, 1, ..., 146; by
    // ceil(1025 / 7) = 147 and 146 * 7 = 1022, the last frame carries
    // the remaining 3 payload bytes.
    let file = test_binary(1025);
    let replies: Vec<Option<Vec<u8>>> = (0..147).map(|_| Some(vec![0x76])).collect();
    let mut client = client_with(replies, true);
    let mut params = DownloadParams { counter: 0, chunksize_len: 4, chunksize: 8 };
    assert!(client.transfer_file(&mut params, &file).is_ok());
    let sent = client.transport.sent_frames();
    assert_eq!(sent.len(), 147);
    for (i, frame) in sent.iter().enumerate() {
        assert_eq!(frame[0], 0x36);
        assert_eq!(frame[1], (i % 256) as u8);
        let chunk = &frame[2..frame.len() - 1];
        assert_eq!(*frame.last().unwrap(), crc8(chunk));
        if i < 146 {
            assert_eq!(chunk.len(), 7);
        } else {
            assert_eq!(chunk.len(), 3);
        }
    }
    assert_eq!(params.counter, 147);
}

#[test]
fn transfer_aborts_on_first_rejected_chunk() {
    let file = test_binary(100);
    let replies = vec![
        Some(vec![0x76]),
        Some(vec![0x76]),
        Some(vec![0x7F, 0x36, 0x10]),
    ];
    let mut client = client_with(replies, true);
    let mut params = DownloadParams { counter: 0, chunksize_len: 4, chunksize: 8 };
    assert_eq!(
        client.transfer_file(&mut params, &file),
        Err(UdsClientError::Negative(NrcClass::Other(0x10)))
    );
    assert_eq!(client.transport.sent_count(), 3);
}

fn with_embedded_crc(mut body: Vec<u8>, crc: u32) -> Vec<u8> {
    body.extend_from_slice(&crc.to_le_bytes());
    body
}

#[test]
fn crc_skip_returns_crc_match_and_touches_nothing_else() {
    // The node reports the same CRC the image embeds: zero erase,
    // download or transfer frames may follow the one identifier read.
    let file = with_embedded_crc(test_binary(64), 0xCAFE_F00D);
    let did_reply = vec![0x62, 0x0D, 0xF0, 0xFE, 0xCA];
    let mut client = client_with(vec![Some(did_reply)], false);
    let status = client.download_app_to_target(&file, true);
    assert!(matches!(status, FlashStatus::CrcMatch));
    assert_eq!(client.transport.sent_count(), 1);
    assert_eq!(client.transport.sent_frames()[0], vec![0x22, 0x03, 0x00]);
}

#[test]
fn crc_mismatch_proceeds_with_download() {
    // 10-byte file, chunk size 8: two transfer frames.
    let file = with_embedded_crc(test_binary(6), 0x1111_2222);
    let replies = vec![
        Some(vec![0x62, 0x99, 0x99, 0x99, 0x99]), // node CRC differs
        Some(ROUTINE_OK.to_vec()),                // start erase routine
        Some(ERASE_COMPLETE.to_vec()),            // first poll: complete
        Some(vec![0x74, 0x40, 0x08]),             // download start: chunk size 8
        Some(vec![0x76]),                         // chunk 0
        Some(vec![0x76]),                         // chunk 1
        Some(vec![0x77]),                         // transfer exit
    ];
    let mut client = client_with(replies, true);
    let status = client.download_app_to_target(&file, true);
    assert!(matches!(status, FlashStatus::DownloadSuccess));
    assert_eq!(client.transport.sent_count(), 7);
    let sent = client.transport.sent_frames();
    assert_eq!(sent[3][0], 0x34);
    assert_eq!(sent[4][0], 0x36);
    assert_eq!(sent[6], vec![0x37]);
    // The keep-alive was commanded off for the download.
    assert!(!client.tp_enabled);
}

#[test]
fn crc_read_failure_degrades_to_download() {
    // The precheck is an optimization: an unreadable node CRC proceeds.
    let file = with_embedded_crc(Vec::new(), 0x0000_0001);
    let replies = vec![
        None,                          // CRC read: transport failure
        Some(ROUTINE_OK.to_vec()),     // start erase routine
        Some(ERASE_COMPLETE.to_vec()), // poll: complete
        Some(vec![0x74, 0x40, 0x08]),  // download start
        Some(vec![0x77]),              // transfer exit (file is empty)
    ];
    let mut client = client_with(replies, true);
    let status = client.download_app_to_target(&file, true);
    assert!(matches!(status, FlashStatus::DownloadSuccess));
}

#[test]
fn non_interactive_download_resets_the_node_first() {
    let file = test_binary(4);
    // Reset gets no reply at all: the node is unreachable.
    let mut client = client_with(vec![None], false);
    let status = client.download_app_to_target(&file, false);
    match status {
        FlashStatus::Failed(m) => assert_eq!(m, "Unable to communicate with ECU"),
        _ => panic!("expected failure"),
    }
    assert_eq!(client.transport.sent_frames()[0], vec![0x11, 0x01]);
}

#[test]
fn download_start_negative_replies_classify() {
    let file = test_binary(4);
    let replies = vec![
        Some(ROUTINE_OK.to_vec()),
        Some(ERASE_COMPLETE.to_vec()),
        Some(vec![0x7F, 0x34, 0x78]), // busy
    ];
    let mut client = client_with(replies, true);
    let status = client.download_app_to_target(&file, false);
    match status {
        FlashStatus::Failed(m) => assert_eq!(m, "negative response from the ECU"),
        _ => panic!("expected failure"),
    }
}

#[test]
fn ecu_reset_conditions_not_correct_is_still_issued() {
    // The documented leniency: a `conditions not correct` negative reply
    // after a reset still counts as issued.
    let mut client = client_with(vec![Some(vec![0x7F, 0x11, 0x22])], true);
    assert!(client.ecu_reset(SupportedResetTypes::Hard, true).is_ok());
    // An empty reply fails a non-recoverable session but not a
    // recoverable one.
    let mut client = client_with(vec![Some(vec![])], true);
    assert!(client.ecu_reset(SupportedResetTypes::Hard, true).is_ok());
    let mut client = client_with(vec![Some(vec![])], true);
    assert_eq!(
        client.ecu_reset(SupportedResetTypes::Hard, false),
        Err(UdsClientError::ResetFailed)
    );
}

#[test]
fn reset_node_tolerates_everything_in_interactive_sessions() {
    // An operator is present: the reset counts as issued whatever came
    // back, even nothing at all.
    let mut client = client_with(vec![None], true);
    assert!(client.reset_node(SupportedResetTypes::Hard).is_ok());
    // Unattended, a dead transport is reported.
    let mut client = client_with(vec![None], false);
    assert_eq!(
        client.reset_node(SupportedResetTypes::Hard),
        Err(UdsClientError::Transport)
    );
}

#[test]
fn did_read_decodes_and_classifies() {
    let mut client = client_with(vec![Some(vec![0x62, 0xAA, 0xBB])], true);
    assert_eq!(client.did_read(0x0003), Ok(vec![0xAA, 0xBB]));

    let mut client = client_with(vec![Some(vec![0x7F, 0x22, 0x78])], true);
    assert_eq!(
        client.did_read(0x0003),
        Err(UdsClientError::Negative(NrcClass::Busy))
    );

    let mut client = client_with(vec![Some(vec![0x7F, 0x22])], true);
    assert_eq!(client.did_read(0x0003), Err(UdsClientError::MalformedNegative));

    let mut client = client_with(vec![Some(vec![])], true);
    assert_eq!(client.did_read(0x0003), Err(UdsClientError::EmptyResponse));

    let mut client = client_with(vec![Some(vec![0x50, 0x01])], true);
    assert_eq!(client.did_read(0x0003), Err(UdsClientError::UnexpectedSid(0x50)));

    let mut client = client_with(vec![Some(vec![0x62])], true);
    assert_eq!(client.did_read(0x0003), Err(UdsClientError::TooShort));

    let mut client = client_with(vec![None], true);
    assert_eq!(client.did_read(0x0003), Err(UdsClientError::Transport));
}

#[test]
fn get_app_crc_wants_exactly_four_bytes() {
    let mut client = client_with(vec![Some(vec![0x62, 0x01, 0x02, 0x03, 0x04])], true);
    assert_eq!(get_app_crc(&mut client), Ok(0x0403_0201));

    let mut client = client_with(vec![Some(vec![0x62, 0x01, 0x02, 0x03])], true);
    assert_eq!(get_app_crc(&mut client), Err(UdsClientError::InvalidCrcLength));
}

#[test]
fn worker_services_requests_in_submission_order() {
    // Three concurrent submissions: completion order is submission order,
    // and each round-trip gets the reply the bus served it, one at a time.
    let mut queue = CmdQueue::new();
    assert!(queue
        .send(CanioCmd::UdsCmdWithResponse { buf: vec![0x22, 0x03, 0x00], timeout_ms: 50 })
        .is_ok());
    assert!(queue.send(CanioCmd::UdsCmdNoResponse(vec![0x3E, 0x00])).is_ok());
    assert!(queue
        .send(CanioCmd::UdsCmdWithResponse { buf: vec![0x11, 0x01], timeout_ms: 50 })
        .is_ok());
    let mut transport =
        ScriptedTransport::new(vec![Some(vec![0x62, 0x01]), Some(vec![0x51, 0x01])]);
    let outcomes = worker_drain(&mut queue, &mut transport);
    assert_eq!(outcomes.len(), 3);
    assert!(matches!(&outcomes[0], WorkerOutcome::Replied(Some(r)) if *r == vec![0x62, 0x01]));
    assert!(matches!(&outcomes[1], WorkerOutcome::Sent));
    assert!(matches!(&outcomes[2], WorkerOutcome::Replied(Some(r)) if *r == vec![0x51, 0x01]));
    assert_eq!(queue.len(), 0);
    // The frames went out in submission order.
    let sent = transport.sent_frames();
    assert_eq!(sent[0], vec![0x22, 0x03, 0x00]);
    assert_eq!(sent[1], vec![0x3E, 0x00]);
    assert_eq!(sent[2], vec![0x11, 0x01]);
}

#[test]
fn queue_admission_is_bounded() {
    let mut queue = CmdQueue::new();
    for _ in 0..100 {
        assert!(queue.send(CanioCmd::UdsCmdNoResponse(vec![0x3E, 0x00])).is_ok());
    }
    assert!(queue.send(CanioCmd::UdsCmdNoResponse(vec![0x3E, 0x00])).is_err());
    assert_eq!(queue.len(), 100);
}

#[test]
fn keepalive_emits_only_when_enabled_and_idle() {
    assert_eq!(keepalive_step(false, None), (false, false));
    assert_eq!(keepalive_step(true, None), (true, true));
    assert_eq!(
        keepalive_step(false, Some(PrdCmd::PersistentTesterPresent(true))),
        (true, false)
    );
    assert_eq!(
        keepalive_step(true, Some(PrdCmd::PersistentTesterPresent(false))),
        (false, false)
    );
}
