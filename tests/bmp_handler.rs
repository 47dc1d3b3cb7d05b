use fastcarve::carve::bmp::{bmp_declared_size, BmpCarveHandler};
use fastcarve::carve::ExtractionContext;
use fastcarve::digest::{md5_hex, sha256_hex};
use fastcarve::evidence::Evidence;
use fastcarve::scanner::NormalizedHit;

fn create_valid_bmp() -> Vec<u8> {
    let mut bmp = Vec::new();
    let pixel_offset = 54u32;
    let file_size = pixel_offset + 4;
    bmp.extend_from_slice(b"BM");
    bmp.extend_from_slice(&file_size.to_le_bytes());
    bmp.extend_from_slice(&0u16.to_le_bytes());
    bmp.extend_from_slice(&0u16.to_le_bytes());
    bmp.extend_from_slice(&pixel_offset.to_le_bytes());
    bmp.extend_from_slice(&40u32.to_le_bytes());
    bmp.extend_from_slice(&1i32.to_le_bytes());
    bmp.extend_from_slice(&1i32.to_le_bytes());
    bmp.extend_from_slice(&1u16.to_le_bytes());
    bmp.extend_from_slice(&24u16.to_le_bytes());
    bmp.extend_from_slice(&0u32.to_le_bytes());
    bmp.extend_from_slice(&4u32.to_le_bytes());
    bmp.extend_from_slice(&2835i32.to_le_bytes());
    bmp.extend_from_slice(&2835i32.to_le_bytes());
    bmp.extend_from_slice(&0u32.to_le_bytes());
    bmp.extend_from_slice(&0u32.to_le_bytes());
    bmp.extend_from_slice(&[0xFF, 0x00, 0x00, 0x00]);
    bmp
}

fn bmp_hit(offset: u64) -> NormalizedHit {
    NormalizedHit {
        global_offset: offset,
        file_type_id: "bmp".to_string(),
        pattern_id: "bmp_header".to_string(),
    }
}

#[test]
fn carves_minimal_bmp() {
    let bmp = create_valid_bmp();
    let file_size = bmp.len() as u64;
    let evidence = Evidence::new(bmp);
    let ctx = ExtractionContext { run_id: "test", evidence: &evidence };
    let handler = BmpCarveHandler::new("bmp".to_string(), 10, 0);
    let carved = handler.process_hit(&bmp_hit(0), &ctx).expect("carve");
    let carved = carved.expect("carved");
    assert!(carved.record.validated);
    assert_eq!(carved.record.size, file_size);
}

#[test]
fn rejects_invalid_dib_header_size() {
    let mut bmp = Vec::new();
    bmp.extend_from_slice(b"BM");
    bmp.extend_from_slice(&100u32.to_le_bytes());
    bmp.extend_from_slice(&0u16.to_le_bytes());
    bmp.extend_from_slice(&0u16.to_le_bytes());
    bmp.extend_from_slice(&54u32.to_le_bytes());
    bmp.extend_from_slice(&99u32.to_le_bytes());
    bmp.extend_from_slice(&[0u8; 82]);
    let evidence = Evidence::new(bmp);
    let ctx = ExtractionContext { run_id: "test", evidence: &evidence };
    let handler = BmpCarveHandler::new("bmp".to_string(), 10, 0);
    let result = handler.process_hit(&bmp_hit(0), &ctx).expect("carve");
    assert!(result.is_none(), "Should reject invalid DIB header size");
}

#[test]
fn rejects_invalid_bits_per_pixel() {
    let mut bmp = Vec::new();
    bmp.extend_from_slice(b"BM");
    bmp.extend_from_slice(&100u32.to_le_bytes());
    bmp.extend_from_slice(&0u16.to_le_bytes());
    bmp.extend_from_slice(&0u16.to_le_bytes());
    bmp.extend_from_slice(&54u32.to_le_bytes());
    bmp.extend_from_slice(&40u32.to_le_bytes());
    bmp.extend_from_slice(&100i32.to_le_bytes());
    bmp.extend_from_slice(&100i32.to_le_bytes());
    bmp.extend_from_slice(&1u16.to_le_bytes());
    bmp.extend_from_slice(&13u16.to_le_bytes());
    bmp.extend_from_slice(&[0u8; 64]);
    let evidence = Evidence::new(bmp);
    let ctx = ExtractionContext { run_id: "test", evidence: &evidence };
    let handler = BmpCarveHandler::new("bmp".to_string(), 10, 0);
    let result = handler.process_hit(&bmp_hit(0), &ctx).expect("carve");
    assert!(result.is_none(), "Should reject invalid bits per pixel");
}

#[test]
fn minimal_bmp_followed_by_zeros_has_matching_hashes() {
    let bmp = create_valid_bmp();
    let mut data = bmp.clone();
    data.extend_from_slice(&[0u8; 200]);
    let evidence = Evidence::new(data);
    let ctx = ExtractionContext { run_id: "run7", evidence: &evidence };
    let handler = BmpCarveHandler::new("bmp".to_string(), 0, 0);
    let c = handler.process_hit(&bmp_hit(0), &ctx).unwrap().expect("carved");
    assert_eq!(c.record.file_type, "bmp");
    assert_eq!(c.record.size, 58);
    assert_eq!(c.record.global_start, 0);
    assert_eq!(c.record.global_end, 57);
    assert!(c.record.validated);
    assert!(!c.record.truncated);
    assert_eq!(c.record.md5.as_deref(), Some(md5_hex(&bmp).as_str()));
    assert_eq!(c.record.sha256.as_deref(), Some(sha256_hex(&bmp).as_str()));
    assert_eq!(c.record.path, "carved/bmp_0000000000000000.bmp");
    assert_eq!(c.record.run_id, "run7");
    assert_eq!(c.record.pattern_id.as_deref(), Some("bmp_header"));
}

#[test]
fn bmp_at_offset_names_its_path_in_hex() {
    let mut data = vec![0u8; 0x1234];
    data.extend_from_slice(&create_valid_bmp());
    let evidence = Evidence::new(data);
    let ctx = ExtractionContext { run_id: "r", evidence: &evidence };
    let handler = BmpCarveHandler::new("bmp".to_string(), 0, 0);
    let c = handler.process_hit(&bmp_hit(0x1234), &ctx).unwrap().expect("carved");
    assert_eq!(c.record.path, "carved/bmp_0000000000001234.bmp");
    assert_eq!(c.record.global_end, 0x1234 + 57);
}

#[test]
fn dib_size_rejection_scenario() {
    let mut h = Vec::new();
    h.extend_from_slice(b"BM");
    h.extend_from_slice(&100u32.to_le_bytes());
    h.extend_from_slice(&[0u8; 4]);
    h.extend_from_slice(&54u32.to_le_bytes());
    h.extend_from_slice(&99u32.to_le_bytes());
    h.extend_from_slice(&[0u8; 40]);
    assert_eq!(bmp_declared_size(&h), None);
    assert_eq!(bmp_declared_size(&create_valid_bmp()), Some(58));
}

#[test]
fn min_size_above_file_size_emits_nothing() {
    let evidence = Evidence::new(create_valid_bmp());
    let ctx = ExtractionContext { run_id: "r", evidence: &evidence };
    let handler = BmpCarveHandler::new("bmp".to_string(), 59, 0);
    assert!(handler.process_hit(&bmp_hit(0), &ctx).unwrap().is_none());
}

#[test]
fn bmp_past_evidence_end_is_truncated() {
    let bmp = create_valid_bmp();
    let evidence = Evidence::new(bmp[..40].to_vec());
    let ctx = ExtractionContext { run_id: "r", evidence: &evidence };
    let handler = BmpCarveHandler::new("bmp".to_string(), 0, 0);
    let c = handler.process_hit(&bmp_hit(0), &ctx).unwrap().expect("carved");
    assert_eq!(c.record.size, 40);
    assert!(c.record.truncated);
    assert!(!c.record.validated);
}

#[test]
fn carving_twice_gives_identical_output() {
    let mut data = create_valid_bmp();
    data.extend_from_slice(&[9u8; 30]);
    let evidence = Evidence::new(data);
    let ctx = ExtractionContext { run_id: "r", evidence: &evidence };
    let handler = BmpCarveHandler::new("bmp".to_string(), 0, 0);
    let a = handler.process_hit(&bmp_hit(0), &ctx).unwrap().expect("carved");
    let b = handler.process_hit(&bmp_hit(0), &ctx).unwrap().expect("carved");
    assert_eq!(a.data, b.data);
    assert_eq!(a.record.md5, b.record.md5);
    assert_eq!(a.record.sha256, b.record.sha256);
}

#[test]
fn bmp_errors_name_why_it_was_cut() {
    let bmp = create_valid_bmp();
    let evidence = Evidence::new(bmp[..40].to_vec());
    let ctx = ExtractionContext { run_id: "r", evidence: &evidence };
    let handler = BmpCarveHandler::new("bmp".to_string(), 0, 0);
    let c = handler.process_hit(&bmp_hit(0), &ctx).unwrap().expect("carved");
    assert_eq!(c.record.errors, vec!["eof before BMP end".to_string()]);

    let evidence = Evidence::new(bmp.clone());
    let ctx = ExtractionContext { run_id: "r", evidence: &evidence };
    let capped = BmpCarveHandler::new("bmp".to_string(), 0, 30);
    let c = capped.process_hit(&bmp_hit(0), &ctx).unwrap().expect("carved");
    assert_eq!(c.record.size, 30);
    assert_eq!(c.record.errors, vec!["max_size reached before BMP end".to_string()]);

    let whole = BmpCarveHandler::new("bmp".to_string(), 0, 0);
    let c = whole.process_hit(&bmp_hit(0), &ctx).unwrap().expect("carved");
    assert!(c.record.errors.is_empty());
}
