//! Frame codec and checksum behaviour on concrete values.

use conuds::crc8::crc8;
use conuds::frames::SupportedResetTypes;
use conuds::frames::UdsDownloadStart;
use conuds::frames::did_read_request;
use conuds::frames::ecu_reset_request;
use conuds::frames::routine_results_request;
use conuds::frames::routine_start_request;
use conuds::frames::tester_present_frame;
use conuds::frames::transfer_data_request;
use conuds::frames::transfer_exit_request;
use conuds::frames::u32_from_le;
use conuds::nrc::NrcClass;
use conuds::nrc::classify_nrc;

fn reference_crc8(data: &[u8]) -> u8 {
    crc::Crc::<u8>::new(&crc::CRC_8_SAE_J1850).checksum(data)
}

#[test]
fn crc8_matches_reference_implementation() {
    let cases: Vec<Vec<u8>> = vec![
        vec![],
        vec![0x00],
        vec![0xFF],
        b"123456789".to_vec(),
        vec![0x36, 0x00, 0x01, 0x02],
        (0u16..256).map(|b| b as u8).collect(),
        vec![0xDE, 0xAD, 0xBE, 0xEF, 0x00, 0x01, 0x7F],
    ];
    for payload in cases {
        assert_eq!(crc8(&payload), reference_crc8(&payload));
    }
}

#[test]
fn crc8_check_value() {
    // The catalogued check value of CRC-8/SAE-J1850.
    assert_eq!(crc8(b"123456789"), 0x4B);
}

#[test]
fn crc8_roundtrip_receiver_recomputes_same_byte() {
    let payload = vec![1u8, 2, 3, 4, 5, 6, 7];
    let sender = crc8(&payload);
    let receiver = crc8(&payload);
    assert_eq!(sender, receiver);
}

#[test]
fn ecu_reset_request_bytes() {
    assert_eq!(ecu_reset_request(SupportedResetTypes::Hard), vec![0x11, 0x01]);
    assert_eq!(ecu_reset_request(SupportedResetTypes::Soft), vec![0x11, 0x03]);
}

#[test]
fn routine_requests_encode_id_little_endian() {
    assert_eq!(
        routine_start_request(0xF00F, &None),
        vec![0x31, 0x01, 0x0F, 0xF0]
    );
    assert_eq!(
        routine_start_request(0xF00F, &Some(vec![0xAA, 0xBB])),
        vec![0x31, 0x01, 0x0F, 0xF0, 0xAA, 0xBB]
    );
    assert_eq!(routine_results_request(0xF00F), vec![0x31, 0x03, 0x0F, 0xF0]);
}

#[test]
fn did_read_request_bytes() {
    assert_eq!(did_read_request(0x0003), vec![0x22, 0x03, 0x00]);
    assert_eq!(did_read_request(0xABCD), vec![0x22, 0xCD, 0xAB]);
}

#[test]
fn download_start_descriptor_is_ten_bytes() {
    let d = UdsDownloadStart::default(0x0800_2000, 1025);
    let bytes = d.to_bytes();
    assert_eq!(
        bytes,
        vec![0x00, 0x44, 0x01, 0x04, 0x00, 0x00, 0x00, 0x20, 0x00, 0x08]
    );
    assert_eq!(bytes.len(), 10);
}

#[test]
fn transfer_data_request_appends_counter_and_checksum() {
    let chunk = vec![0xDE, 0xAD, 0xBE];
    let frame = transfer_data_request(7, &chunk);
    assert_eq!(frame[0], 0x36);
    assert_eq!(frame[1], 7);
    assert_eq!(&frame[2..5], &chunk[..]);
    assert_eq!(frame[5], reference_crc8(&chunk));
    assert_eq!(frame.len(), chunk.len() + 3);
}

#[test]
fn transfer_exit_request_bytes() {
    assert_eq!(transfer_exit_request(), vec![0x37]);
}

#[test]
fn tester_present_frame_bytes() {
    assert_eq!(tester_present_frame(), vec![0x3E, 0x00]);
}

#[test]
fn nrc_classification_is_distinct_for_retryable_codes() {
    assert_eq!(classify_nrc(0x78), NrcClass::Busy);
    assert_eq!(classify_nrc(0x21), NrcClass::RepeatRequest);
    assert_eq!(classify_nrc(0x22), NrcClass::ConditionsNotCorrect);
    assert_eq!(classify_nrc(0x10), NrcClass::Other(0x10));
    assert_eq!(classify_nrc(0x33), NrcClass::Other(0x33));
}

#[test]
fn u32_from_le_reads_little_endian() {
    assert_eq!(u32_from_le(&[0x78, 0x56, 0x34, 0x12]), 0x1234_5678);
    assert_eq!(u32_from_le(&0xDEADBEEFu32.to_le_bytes()), 0xDEAD_BEEF);
}
