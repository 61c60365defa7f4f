//! Validating bytes as UTF-8 and finding the first NUL in one traversal.
use tgrep::file_search::{FileRead, MAP_MIN_BYTES};
use tgrep::fixups::LossyFixups;
use tgrep::scan::validate_utf8_and_find_nul;

/// What two separate passes give.
fn reference(bytes: &[u8]) -> Option<Option<usize>> {
    std::str::from_utf8(bytes).ok()?;
    Some(memchr::memchr(0, bytes))
}

fn check(bytes: &[u8]) {
    assert_eq!(
        validate_utf8_and_find_nul(bytes),
        reference(bytes),
        "disagreed with a whole-buffer scan on {} bytes",
        bytes.len()
    );
}

#[test]
fn fused_scan_handles_empty_and_ascii() {
    check(b"");
    check(b"hello world");
    check(b"hello\0world");
    check(b"\0");
}

#[test]
fn fused_scan_rejects_invalid_utf8() {
    check(&[0xFF]);
    check(b"ok\xFFbad");
    check(&[0xE2, 0x82]);
    assert_eq!(validate_utf8_and_find_nul(b"ok\xFFbad"), None);
    assert_eq!(validate_utf8_and_find_nul(&[0xE2, 0x82]), None);
}

#[test]
fn fused_scan_carries_a_sequence_across_a_chunk_boundary() {
    const CHUNK: usize = 1 << 20;
    for seq in ["\u{00E9}", "\u{20AC}", "\u{1F600}"] {
        for offset in 1..seq.len() {
            let mut bytes = vec![b'a'; CHUNK - offset];
            bytes.extend_from_slice(seq.as_bytes());
            bytes.extend_from_slice(b"tail");
            check(&bytes);
            let mut with_nul = bytes.clone();
            with_nul.push(0);
            with_nul.extend_from_slice(b"more");
            check(&with_nul);
        }
    }
}

#[test]
fn fused_scan_reports_the_first_nul_not_a_later_one() {
    const CHUNK: usize = 1 << 20;
    let mut bytes = vec![b'a'; CHUNK * 3];
    bytes[7] = 0;
    bytes[CHUNK * 2 + 11] = 0;
    check(&bytes);
    assert_eq!(validate_utf8_and_find_nul(&bytes), Some(Some(7)));
}

#[test]
fn fused_scan_finds_a_nul_exactly_on_a_chunk_boundary() {
    const CHUNK: usize = 1 << 20;
    for at in [CHUNK - 1, CHUNK, CHUNK + 1] {
        let mut bytes = vec![b'a'; CHUNK * 2];
        bytes[at] = 0;
        check(&bytes);
        assert_eq!(validate_utf8_and_find_nul(&bytes), Some(Some(at)));
    }
}

#[test]
fn fused_scan_spans_many_chunks_without_a_nul() {
    const CHUNK: usize = 1 << 20;
    let unit = "héllo wörld €";
    let bytes = unit.repeat((CHUNK * 3) / unit.len()).into_bytes();
    check(&bytes);
    assert_eq!(validate_utf8_and_find_nul(&bytes), Some(None));
}

#[test]
fn only_large_valid_files_are_mapped() {
    let size = MAP_MIN_BYTES as usize;
    assert!(FileRead::mapped(&vec![b'a'; size - 1]).is_none());
    let mut bytes = vec![b'a'; size];
    bytes[9] = 0;
    let read = FileRead::mapped(&bytes).expect("large and valid");
    assert_eq!(read.first_nul, Some(9));
    assert_eq!(read.text.len(), size);
    assert!(read.fixups.is_empty());
    bytes[0] = 0xFF;
    assert!(FileRead::mapped(&bytes).is_none());
}

#[test]
fn decoded_text_is_scanned_for_a_nul() {
    let read = FileRead::decoded("é\0x".to_string(), LossyFixups::default());
    assert_eq!(read.first_nul, Some(2));
    let read = FileRead::decoded("plain".to_string(), LossyFixups::default());
    assert_eq!(read.first_nul, None);
}
