use fastcarve::carve::ole::{parse_ole_header, OleCarveHandler};
use fastcarve::carve::ExtractionContext;
use fastcarve::evidence::Evidence;
use fastcarve::scanner::NormalizedHit;

const OLE_SIGNATURE: [u8; 8] = [0xD0, 0xCF, 0x11, 0xE0, 0xA1, 0xB1, 0x1A, 0xE1];

fn header_only() -> Vec<u8> {
    let mut ole = vec![0u8; 512];
    ole[0..8].copy_from_slice(&OLE_SIGNATURE);
    ole[24..26].copy_from_slice(&0x003Eu16.to_le_bytes());
    ole[26..28].copy_from_slice(&3u16.to_le_bytes());
    ole[28..30].copy_from_slice(&0xFFFEu16.to_le_bytes());
    ole[30..32].copy_from_slice(&9u16.to_le_bytes());
    ole[32..34].copy_from_slice(&6u16.to_le_bytes());
    ole[44..48].copy_from_slice(&1u32.to_le_bytes());
    ole[48..52].copy_from_slice(&0u32.to_le_bytes());
    ole[52..56].copy_from_slice(&4096u32.to_le_bytes());
    ole[56..60].copy_from_slice(&0xFFFFFFFEu32.to_le_bytes());
    ole[64..68].copy_from_slice(&0xFFFFFFFEu32.to_le_bytes());
    ole[76..80].copy_from_slice(&1u32.to_le_bytes());
    for i in 1..109 {
        let offset = 76 + i * 4;
        ole[offset..offset + 4].copy_from_slice(&0xFFFFFFFFu32.to_le_bytes());
    }
    ole
}

fn create_minimal_ole() -> Vec<u8> {
    let mut ole = header_only();
    let mut fat_sector = vec![0u8; 512];
    for i in 0..(512 / 4) {
        let offset = i * 4;
        fat_sector[offset..offset + 4].copy_from_slice(&0xFFFFFFFEu32.to_le_bytes());
    }
    ole.extend_from_slice(&fat_sector);
    let mut dir_sector = vec![0u8; 512];
    for (i, ch) in "Root Entry".bytes().enumerate() {
        dir_sector[i * 2] = ch;
    }
    dir_sector[64..66].copy_from_slice(&22u16.to_le_bytes());
    dir_sector[66] = 5;
    ole.extend_from_slice(&dir_sector);
    ole
}

fn ole_hit() -> NormalizedHit {
    NormalizedHit {
        global_offset: 0,
        file_type_id: "ole".to_string(),
        pattern_id: "ole_cfb".to_string(),
    }
}

#[test]
fn parses_ole_header() {
    let ole = create_minimal_ole();
    let (size, sector_size) = parse_ole_header(&ole).ok().unwrap();
    assert_eq!(sector_size, 512);
    assert!(size >= 512);
}

#[test]
fn rejects_invalid_signature() {
    let mut ole = create_minimal_ole();
    ole[0] = 0x00;
    assert!(parse_ole_header(&ole).is_err());
}

#[test]
fn carves_minimal_ole() {
    let evidence = Evidence::new(create_minimal_ole());
    let handler = OleCarveHandler::new("doc".to_string(), 0, 0);
    let ctx = ExtractionContext { run_id: "test", evidence: &evidence };
    let result = handler.process_hit(&ole_hit(), &ctx).ok().expect("process");
    let carved = result.expect("carved file");
    assert_eq!(carved.record.file_type, "ole");
    assert!(carved.record.validated);
    assert!(carved.record.size >= 512);
}

#[test]
fn rejects_non_ole_data() {
    let evidence = Evidence::new(vec![0x00; 1024]);
    let handler = OleCarveHandler::new("doc".to_string(), 0, 0);
    let ctx = ExtractionContext { run_id: "test", evidence: &evidence };
    let result = handler.process_hit(&ole_hit(), &ctx).ok().expect("process");
    assert!(result.is_none());
}

#[test]
fn header_only_ole_is_validated() {
    let evidence = Evidence::new(header_only());
    let handler = OleCarveHandler::new("doc".to_string(), 0, 0);
    let ctx = ExtractionContext { run_id: "test", evidence: &evidence };
    let carved = handler.process_hit(&ole_hit(), &ctx).ok().unwrap().expect("carved");
    assert_eq!(carved.record.size, 512);
    assert!(carved.record.validated);
    assert!(!carved.record.truncated);
}

#[test]
fn minimal_ole_size_and_estimate() {
    let ole = create_minimal_ole();
    // DIFAT[0] = 1 and directory at 0: (1 + 1) * 2 sectors plus the header.
    let (size, _) = parse_ole_header(&ole).ok().unwrap();
    assert_eq!(size, 512 + 4 * 512);
    let evidence = Evidence::new(ole.clone());
    let handler = OleCarveHandler::new("doc".to_string(), 0, 0);
    let ctx = ExtractionContext { run_id: "test", evidence: &evidence };
    let carved = handler.process_hit(&ole_hit(), &ctx).ok().unwrap().expect("carved");
    assert_eq!(carved.record.size, 1536);
    assert_eq!(carved.data, ole);
}

#[test]
fn short_ole_header_is_emitted_truncated() {
    let ole = header_only();
    let evidence = Evidence::new(ole[..300].to_vec());
    let handler = OleCarveHandler::new("doc".to_string(), 0, 0);
    let ctx = ExtractionContext { run_id: "test", evidence: &evidence };
    let carved = handler.process_hit(&ole_hit(), &ctx).ok().unwrap().expect("carved");
    assert_eq!(carved.record.size, 300);
    assert!(carved.record.truncated);
    assert!(!carved.record.validated);
    assert_eq!(carved.record.errors.len(), 1);
}

#[test]
fn ole_reaching_max_size_is_truncated() {
    let mut ole = create_minimal_ole();
    ole.extend_from_slice(&vec![0u8; 4096]);
    let evidence = Evidence::new(ole);
    let handler = OleCarveHandler::new("doc".to_string(), 0, 1024);
    let ctx = ExtractionContext { run_id: "test", evidence: &evidence };
    let carved = handler.process_hit(&ole_hit(), &ctx).ok().unwrap().expect("carved");
    assert_eq!(carved.record.size, 1024);
    assert!(carved.record.truncated);
    assert!(!carved.record.validated);
}

#[test]
fn rejects_bad_byte_order() {
    let mut ole = create_minimal_ole();
    ole[28] = 0xFF;
    ole[29] = 0xFF;
    assert!(parse_ole_header(&ole).is_err());
    ole[28..30].copy_from_slice(&0xFFFEu16.to_le_bytes());
    ole[30..32].copy_from_slice(&12u16.to_le_bytes());
    assert!(parse_ole_header(&ole).is_err());
}

#[test]
fn ole_errors_name_cap_and_short_header() {
    let mut ole = create_minimal_ole();
    ole.extend_from_slice(&vec![0u8; 4096]);
    let evidence = Evidence::new(ole);
    let ctx = ExtractionContext { run_id: "test", evidence: &evidence };
    let capped = OleCarveHandler::new("doc".to_string(), 0, 1024);
    let c = capped.process_hit(&ole_hit(), &ctx).ok().unwrap().expect("carved");
    assert_eq!(c.record.errors, vec!["max_size reached".to_string()]);

    let short = Evidence::new(header_only()[..300].to_vec());
    let ctx = ExtractionContext { run_id: "test", evidence: &short };
    let h = OleCarveHandler::new("doc".to_string(), 0, 0);
    let c = h.process_hit(&ole_hit(), &ctx).ok().unwrap().expect("carved");
    assert_eq!(c.record.errors, vec!["unexpected end of evidence".to_string()]);
}

#[test]
fn ole_fat_past_cap_is_cut_at_cap() {
    let mut ole = header_only();
    ole[76..80].copy_from_slice(&10u32.to_le_bytes());
    ole.extend_from_slice(&vec![0u8; 8192]);
    let evidence = Evidence::new(ole);
    let ctx = ExtractionContext { run_id: "test", evidence: &evidence };
    let h = OleCarveHandler::new("doc".to_string(), 0, 1024);
    let c = h.process_hit(&ole_hit(), &ctx).ok().unwrap().expect("carved");
    assert_eq!(c.record.size, 1024);
}
