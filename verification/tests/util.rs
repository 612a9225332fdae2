//! The parsing, matching, escaping and reporting helpers on concrete
//! values.

use conuds::canbridge::Filters;
use conuds::canbridge::IdRange;
use conuds::canbridge::bitmask;
use conuds::canbridge::extract_be_bits;
use conuds::canbridge::extract_le_bits;
use conuds::canbridge::parse_id_range;
use conuds::canbridge::parse_u32_id;
use conuds::canbridge::safe_len;
use conuds::canbridge::sign_extend_u64;
use conuds::frames::SupportedResetTypes;
use conuds::logproc::escape_field_key;
use conuds::logproc::escape_field_string;
use conuds::logproc::escape_measurement;
use conuds::logproc::escape_tag_key_val;
use conuds::logproc::matches_star_only;
use conuds::logproc::parse_index_from_filename;
use conuds::logproc::split_cmd;
use conuds::logproc::split_dir_and_basename_pattern;
use conuds::netdetec::Client;
use conuds::netdetec::parse_txt;
use conuds::orchestrator::FlashStatus;
use conuds::report::UpdateResult;
use conuds::report::average_duration;
use conuds::report::deployment_summary;
use conuds::report::fmt_dur;
use conuds::report::parse_update_pair;
use conuds::report::truncate;
use conuds::strutil::sanitize_filename;

#[test]
fn test_matches_star_only() {
    assert!(matches_star_only("*.rs", "main.rs"));
    assert!(matches_star_only("file.*", "file.txt"));
    assert!(matches_star_only("*", "anything"));
    assert!(matches_star_only("a*b*c", "axxxbxxc"));
    assert!(matches_star_only("no_star", "no_star"));
    assert!(!matches_star_only("no_star", "nope"));
    assert!(!matches_star_only("*.rs", "main.r"));
    assert!(matches_star_only("foo*bar", "foobar"));
    assert!(matches_star_only("foo*bar", "foo___bar"));
    assert!(matches_star_only("foo*bar*", "foo_bar_baz"));
    assert!(matches_star_only("*end", "the_end"));
    assert!(!matches_star_only("*end", "the_end_"));
    assert!(matches_star_only("prefix*", "prefix"));
}

#[test]
fn parse_u32_id_accepts_hex_and_decimal() {
    assert_eq!(parse_u32_id("0x123"), Ok(0x123));
    assert_eq!(parse_u32_id("0X1F"), Ok(0x1F));
    assert_eq!(parse_u32_id("1f"), Ok(0x1F));
    assert_eq!(parse_u32_id("1F"), Ok(0x1F));
    assert_eq!(parse_u32_id("291"), Ok(291));
    assert_eq!(parse_u32_id("  42 "), Ok(42));
    assert_eq!(parse_u32_id("0xFFFFFFFF"), Ok(u32::MAX));
    assert!(parse_u32_id("").is_err());
    assert!(parse_u32_id("0x").is_err());
    assert!(parse_u32_id("1x").is_err());
    assert!(parse_u32_id("0x1G").is_err());
    assert!(parse_u32_id("4294967296").is_err());
    assert!(parse_u32_id("0x100000000").is_err());
}

#[test]
fn parse_id_range_singletons_and_ranges() {
    let r = parse_id_range("0x123").unwrap();
    assert_eq!((r.start, r.end), (0x123, 0x123));
    let r = parse_id_range("0x100-0x1FF").unwrap();
    assert_eq!((r.start, r.end), (0x100, 0x1FF));
    let r = parse_id_range(" 0x1FF - 0x100 ").unwrap();
    assert_eq!((r.start, r.end), (0x100, 0x1FF));
    let r = parse_id_range("10-12").unwrap();
    assert_eq!((r.start, r.end), (10, 12));
    assert!(parse_id_range("10-").is_err());
    assert!(parse_id_range("-").is_err());
}

#[test]
fn filters_match_ids_by_any_range() {
    let f = Filters::from_parts(
        &vec!["0x100-0x1FF".to_string(), "0x300".to_string()],
        &vec!["Motor".to_string()],
        &vec![],
    )
    .unwrap();
    assert!(f.match_id(0x100));
    assert!(f.match_id(0x1FF));
    assert!(f.match_id(0x300));
    assert!(!f.match_id(0x200));
    assert_eq!(f.msg_filters, vec!["motor".to_string()]);

    let empty = Filters::from_parts(&vec![], &vec![], &vec![]).unwrap();
    assert!(empty.match_id(0xABC));

    assert!(Filters::from_parts(&vec!["zzz".to_string()], &vec![], &vec![]).is_err());
}

#[test]
fn id_range_contains_is_inclusive() {
    let r = IdRange { start: 5, end: 7 };
    assert!(!r.contains(4));
    assert!(r.contains(5));
    assert!(r.contains(7));
    assert!(!r.contains(8));
}

#[test]
fn bit_extraction_little_endian() {
    let data: [u8; 8] = [0x78, 0x56, 0x34, 0x12, 0, 0, 0, 0];
    assert_eq!(extract_le_bits(&data, 0, 8), 0x78);
    assert_eq!(extract_le_bits(&data, 8, 8), 0x56);
    assert_eq!(extract_le_bits(&data, 4, 8), 0x67);
    assert_eq!(extract_le_bits(&data, 0, 32), 0x12345678);
    assert_eq!(extract_le_bits(&data, 0, 0), 0);
}

#[test]
fn bit_extraction_big_endian() {
    // Motorola MSB0: start bit 7 with length 8 is the whole first byte.
    let data: [u8; 8] = [0xA5, 0xF0, 0, 0, 0, 0, 0, 0];
    assert_eq!(extract_be_bits(&data, 7, 8), 0xA5);
    assert_eq!(extract_be_bits(&data, 7, 4), 0x0A);
    assert_eq!(extract_be_bits(&data, 3, 4), 0x05);
    assert_eq!(extract_be_bits(&data, 0, 0), 0);
}

#[test]
fn sign_extension() {
    assert_eq!(sign_extend_u64(0xFF, 8), -1);
    assert_eq!(sign_extend_u64(0x7F, 8), 127);
    assert_eq!(sign_extend_u64(0x80, 8), -128);
    assert_eq!(sign_extend_u64(0x01, 1), -1);
    assert_eq!(sign_extend_u64(0, 0), 0);
    assert_eq!(sign_extend_u64(u64::MAX, 64), -1);
}

#[test]
fn safe_len_and_bitmask() {
    assert_eq!(safe_len(0), 0);
    assert_eq!(safe_len(63), 63);
    assert_eq!(safe_len(64), 64);
    assert_eq!(safe_len(200), 64);
    assert_eq!(bitmask(0), 0);
    assert_eq!(bitmask(1), 1);
    assert_eq!(bitmask(8), 0xFF);
    assert_eq!(bitmask(64), u64::MAX);
}

#[test]
fn line_protocol_escaping() {
    assert_eq!(escape_measurement("veh msg,a"), "veh\\ msg\\,a");
    assert_eq!(escape_tag_key_val("k=v, x"), "k\\=v\\,\\ x");
    assert_eq!(escape_field_key("key with space"), "key\\ with\\ space");
    assert_eq!(escape_field_string("say \"hi\" \\ there"), "say \\\"hi\\\" \\\\ there");
    assert_eq!(escape_measurement("plain"), "plain");
}

#[test]
fn split_patterns_into_dir_and_basename() {
    let (dir, base) = split_dir_and_basename_pattern("logs/*.tar.gz").unwrap();
    assert_eq!(dir, "logs");
    assert_eq!(base, "*.tar.gz");
    let (dir, base) = split_dir_and_basename_pattern("*.tar.gz").unwrap();
    assert_eq!(dir, ".");
    assert_eq!(base, "*.tar.gz");
    let (dir, base) = split_dir_and_basename_pattern("/var/log/*.log").unwrap();
    assert_eq!(dir, "/var/log");
    assert_eq!(base, "*.log");
    let (dir, base) = split_dir_and_basename_pattern("/x").unwrap();
    assert_eq!(dir, "/");
    assert_eq!(base, "x");
    assert!(split_dir_and_basename_pattern("dir/").is_err());
    assert!(split_dir_and_basename_pattern("").is_err());
}

#[test]
fn command_lines_split_on_whitespace() {
    let (prog, rest) = split_cmd("gzip -9 -c");
    assert_eq!(prog, "gzip");
    assert_eq!(rest, vec!["-9".to_string(), "-c".to_string()]);
    let (prog, rest) = split_cmd("  spaced   out  ");
    assert_eq!(prog, "spaced");
    assert_eq!(rest, vec!["out".to_string()]);
    let (prog, rest) = split_cmd("solo");
    assert_eq!(prog, "solo");
    assert!(rest.is_empty());
    // A line without any token hands itself back.
    let (prog, rest) = split_cmd("   ");
    assert_eq!(prog, "   ");
    assert!(rest.is_empty());
}

#[test]
fn parse_index_from_rolled_log_names() {
    assert_eq!(
        parse_index_from_filename("can-bridge-20240101T000000-000042.bin"),
        Some(42)
    );
    assert_eq!(parse_index_from_filename("x-999999.bin"), Some(999999));
    assert_eq!(parse_index_from_filename("x-123456.txt"), None);
    assert_eq!(parse_index_from_filename("x-12345.bin"), None);
    assert_eq!(parse_index_from_filename("x-1234567.bin"), None);
    assert_eq!(parse_index_from_filename("x-12a456.bin"), None);
    assert_eq!(parse_index_from_filename("nodash.bin"), None);
    assert_eq!(parse_index_from_filename(".bin"), None);
}

#[test]
fn txt_records_parse_key_value_pairs() {
    let parsed = parse_txt(&vec![
        "api=/firmware".to_string(),
        "plain".to_string(),
        "proto=http=s".to_string(),
    ]);
    assert_eq!(
        parsed,
        vec![
            ("api".to_string(), "/firmware".to_string()),
            ("proto".to_string(), "http=s".to_string()),
        ]
    );
}

#[test]
fn discovery_client_defaults() {
    let c = Client::new(Some("eth0".to_string()), None).unwrap();
    assert_eq!(c.interface.as_deref(), Some("eth0"));
    assert_eq!(c.duration_ms(), 1000);
    let c = Client::new(None, Some(5000)).unwrap();
    assert_eq!(c.duration_ms(), 5000);
}

#[test]
fn sanitize_filenames() {
    assert_eq!(sanitize_filename("app.bin"), "app.bin");
    assert_eq!(sanitize_filename("dir/app v2.bin"), "app_v2.bin");
    assert_eq!(sanitize_filename("../../etc/passwd"), "passwd");
    assert_eq!(sanitize_filename(""), "firmware.bin");
    assert_eq!(sanitize_filename("x/"), "firmware.bin");
    assert_eq!(sanitize_filename("weird*name?"), "weird_name_");
}

#[test]
fn reset_types_parse() {
    assert_eq!(SupportedResetTypes::from_str("hard"), Ok(SupportedResetTypes::Hard));
    assert_eq!(SupportedResetTypes::from_str("soft"), Ok(SupportedResetTypes::Soft));
    assert!(SupportedResetTypes::from_str("warm").is_err());
    assert_eq!(SupportedResetTypes::Hard.code(), 0x01);
    assert_eq!(SupportedResetTypes::Soft.code(), 0x03);
}

#[test]
fn update_pairs_split_at_first_colon() {
    assert_eq!(
        parse_update_pair("mcu:build/app.bin"),
        Some(("mcu".to_string(), "build/app.bin".to_string()))
    );
    assert_eq!(
        parse_update_pair("a:b:c"),
        Some(("a".to_string(), "b:c".to_string()))
    );
    assert_eq!(parse_update_pair("nocolon"), None);
}

#[test]
fn durations_format_and_average() {
    assert_eq!(fmt_dur(0), "0.000s");
    assert_eq!(fmt_dur(1234), "1.234s");
    assert_eq!(fmt_dur(50), "0.050s");
    assert_eq!(fmt_dur(1005), "1.005s");
    assert_eq!(fmt_dur(61234), "61.234s");
    assert_eq!(average_duration(&vec![]), 0);
    assert_eq!(average_duration(&vec![100, 200, 301]), 200);
}

#[test]
fn truncate_keeps_short_and_shortens_long() {
    assert_eq!(truncate("short", 28), "short");
    assert_eq!(truncate("abcdefgh", 5), "abcd…");
    assert_eq!(truncate("abcdefgh", 1), "…");
}

#[test]
fn deployment_summary_counts_failures_exactly() {
    let results = vec![
        UpdateResult {
            bin: "a.bin".to_string(),
            result: FlashStatus::DownloadSuccess,
            duration_ms: 100,
        },
        UpdateResult {
            bin: "b.bin".to_string(),
            result: FlashStatus::Failed("no response received from the ECU".to_string()),
            duration_ms: 200,
        },
        UpdateResult {
            bin: "c.bin".to_string(),
            result: FlashStatus::CrcMatch,
            duration_ms: 390,
        },
    ];
    let report = deployment_summary(&results, 700);
    assert_eq!(report.total, 3);
    assert_eq!(report.succeeded, 2);
    assert_eq!(report.failed, 1);
    assert_eq!(report.total_duration_ms, 700);
    assert_eq!(report.avg_duration_ms, 230);
}
