use fastcarve::carve::rar::RarCarveHandler;
use fastcarve::carve::ExtractionContext;
use fastcarve::evidence::Evidence;
use fastcarve::scanner::NormalizedHit;

fn block(kind: u8, flags: u16, head_size: u16, add: Option<u32>) -> Vec<u8> {
    let mut b = vec![0u8, 0u8, kind];
    b.extend_from_slice(&flags.to_le_bytes());
    b.extend_from_slice(&head_size.to_le_bytes());
    if let Some(a) = add {
        b.extend_from_slice(&a.to_le_bytes());
    }
    b.resize(head_size as usize, 0);
    if let Some(a) = add {
        b.extend(std::iter::repeat(0x33u8).take(a as usize));
    }
    b
}

fn rar_archive(with_end: bool) -> Vec<u8> {
    let mut r = vec![0x52, 0x61, 0x72, 0x21, 0x1A, 0x07, 0x00];
    r.extend_from_slice(&block(0x73, 0, 13, None));
    r.extend_from_slice(&block(0x74, 0x8000, 40, Some(100)));
    if with_end {
        r.extend_from_slice(&block(0x7B, 0, 7, None));
    }
    r
}

fn hit() -> NormalizedHit {
    NormalizedHit { global_offset: 0, file_type_id: "rar".to_string(), pattern_id: "rar4_marker".to_string() }
}

#[test]
fn carves_rar_through_end_block() {
    let archive = rar_archive(true);
    let mut data = archive.clone();
    data.extend_from_slice(&[0xEE; 64]);
    let evidence = Evidence::new(data);
    let ctx = ExtractionContext { run_id: "r", evidence: &evidence };
    let h = RarCarveHandler::new("rar".to_string(), 0, 0);
    let c = h.process_hit(&hit(), &ctx).unwrap().expect("carved");
    assert_eq!(c.record.size, archive.len() as u64);
    assert_eq!(c.record.size, 7 + 13 + 140 + 7);
    assert!(c.record.validated);
}

#[test]
fn rar_without_end_block_is_truncated() {
    let archive = rar_archive(false);
    let evidence = Evidence::new(archive.clone());
    let ctx = ExtractionContext { run_id: "r", evidence: &evidence };
    let h = RarCarveHandler::new("rar".to_string(), 0, 0);
    let c = h.process_hit(&hit(), &ctx).unwrap().expect("carved");
    assert_eq!(c.record.size, archive.len() as u64);
    assert!(c.record.truncated);
}

#[test]
fn rar_marker_without_archive_header_is_rejected() {
    let mut data = vec![0x52, 0x61, 0x72, 0x21, 0x1A, 0x07, 0x00];
    data.extend_from_slice(&block(0x74, 0, 13, None));
    let evidence = Evidence::new(data);
    let ctx = ExtractionContext { run_id: "r", evidence: &evidence };
    let h = RarCarveHandler::new("rar".to_string(), 0, 0);
    assert!(h.process_hit(&hit(), &ctx).unwrap().is_none());
}
