use marlinbox_rs::card_reader::{extract_card_id, ReadEvent, Reader, ReaderAction, DEBOUNCE_MS};

fn scan_of(bytes: [u8; 8]) -> Vec<u8> {
    let mut buf = vec![0u8; 128];
    for (n, byte) in bytes.iter().enumerate() {
        buf[2 + 16 * n] = *byte;
    }
    buf
}

const CARD: [u8; 8] = [0x04, 0xA1, 0xB2, 0xC3, 0xD4, 0xE5, 0xF6, 0x01];

#[test]
fn identity_is_the_significant_bytes_in_upper_case_hex() {
    assert_eq!(extract_card_id(&scan_of(CARD)), Some("04A1B2C3D4E5F601".to_string()));
}

#[test]
fn identity_pads_small_bytes_with_a_zero() {
    let buf = scan_of([0x01, 0x02, 0x0A, 0x0F, 0x10, 0x7F, 0x80, 0xFF]);
    assert_eq!(extract_card_id(&buf), Some("01020A0F107F80FF".to_string()));
}

#[test]
fn identity_ignores_the_other_bytes() {
    let mut buf = vec![0x5Au8; 128];
    for (n, byte) in CARD.iter().enumerate() {
        buf[2 + 16 * n] = *byte;
    }
    assert_eq!(extract_card_id(&buf), Some("04A1B2C3D4E5F601".to_string()));
}

#[test]
fn a_zero_byte_among_the_significant_ones_shows_no_card() {
    for n in 0..8 {
        let mut bytes = CARD;
        bytes[n] = 0;
        assert_eq!(extract_card_id(&scan_of(bytes)), None);
    }
    assert_eq!(extract_card_id(&[0u8; 128]), None);
}

#[test]
fn a_short_scan_shows_no_card() {
    let buf = scan_of(CARD);
    assert_eq!(extract_card_id(&buf[..114]), None);
    assert_eq!(extract_card_id(&buf[..3]), None);
    assert_eq!(extract_card_id(&[]), None);
}

#[test]
fn the_shortest_complete_scan_has_115_bytes() {
    let buf = scan_of(CARD);
    assert_eq!(extract_card_id(&buf[..115]), Some("04A1B2C3D4E5F601".to_string()));
}

#[test]
fn the_same_payload_half_a_second_later_is_held_back() {
    let buf = scan_of(CARD);
    let mut reader = Reader::new(0);
    assert_eq!(
        reader.on_read(ReadEvent::Scan, &buf, 10_000),
        ReaderAction::Emit("04A1B2C3D4E5F601".to_string())
    );
    assert_eq!(reader.on_read(ReadEvent::Scan, &buf, 10_500), ReaderAction::Retry);
    assert_eq!(reader.last_scan_ms, 10_000);
}

#[test]
fn a_card_that_stays_on_the_reader_is_emitted_once_per_window() {
    let buf = scan_of(CARD);
    let mut reader = Reader::new(0);
    let mut emitted = Vec::new();
    let mut now = 5_000;
    while now <= 11_000 {
        if let ReaderAction::Emit(_) = reader.on_read(ReadEvent::Scan, &buf, now) {
            emitted.push(now);
        }
        now += 500;
    }
    assert_eq!(emitted, vec![5_000, 7_000, 9_000, 11_000]);
}

#[test]
fn the_window_ends_after_exactly_two_seconds() {
    assert_eq!(DEBOUNCE_MS, 2000);
    let buf = scan_of(CARD);
    let mut reader = Reader::new(1_000);
    assert_eq!(reader.on_read(ReadEvent::Scan, &buf, 2_999), ReaderAction::Retry);
    assert_eq!(reader.last_scan_ms, 1_000);
    assert_eq!(
        reader.on_read(ReadEvent::Scan, &buf, 3_000),
        ReaderAction::Emit("04A1B2C3D4E5F601".to_string())
    );
    assert_eq!(reader.last_scan_ms, 3_000);
}

#[test]
fn another_card_within_the_window_is_held_back_too() {
    let mut reader = Reader::new(0);
    assert_eq!(
        reader.on_read(ReadEvent::Scan, &scan_of(CARD), 4_000),
        ReaderAction::Emit("04A1B2C3D4E5F601".to_string())
    );
    let other = scan_of([1, 2, 3, 4, 5, 6, 7, 8]);
    assert_eq!(reader.on_read(ReadEvent::Scan, &other, 5_000), ReaderAction::Retry);
    assert_eq!(
        reader.on_read(ReadEvent::Scan, &other, 6_000),
        ReaderAction::Emit("0102030405060708".to_string())
    );
}

#[test]
fn a_malformed_scan_neither_emits_nor_restarts_the_window() {
    let mut reader = Reader::new(0);
    assert_eq!(reader.on_read(ReadEvent::Scan, &[0u8; 128], 9_000), ReaderAction::Retry);
    assert_eq!(reader.last_scan_ms, 0);
    assert_eq!(reader.on_read(ReadEvent::Scan, &[1u8; 20], 9_000), ReaderAction::Retry);
    assert_eq!(reader.last_scan_ms, 0);
}

#[test]
fn a_timeout_is_retried() {
    let buf = scan_of(CARD);
    let mut reader = Reader::new(0);
    assert_eq!(reader.on_read(ReadEvent::Timeout, &buf, 9_000), ReaderAction::Retry);
    assert_eq!(reader.last_scan_ms, 0);
}

#[test]
fn a_failed_read_is_reported() {
    let buf = scan_of(CARD);
    let mut reader = Reader::new(0);
    assert_eq!(reader.on_read(ReadEvent::Failure, &buf, 9_000), ReaderAction::Report);
    assert_eq!(reader.last_scan_ms, 0);
}

#[test]
fn a_clock_that_ran_backwards_counts_as_no_time() {
    let buf = scan_of(CARD);
    let mut reader = Reader::new(10_000);
    assert_eq!(reader.on_read(ReadEvent::Scan, &buf, 1_000), ReaderAction::Retry);
    assert_eq!(reader.last_scan_ms, 10_000);
    assert_eq!(reader.on_read(ReadEvent::Scan, &buf, u64::MAX), ReaderAction::Emit("04A1B2C3D4E5F601".to_string()));
    assert_eq!(reader.on_read(ReadEvent::Scan, &buf, 0), ReaderAction::Retry);
}

#[test]
fn the_window_runs_from_the_start_of_the_reader() {
    let buf = scan_of(CARD);
    let mut reader = Reader::new(500);
    assert_eq!(reader.on_read(ReadEvent::Scan, &buf, 600), ReaderAction::Retry);
}
