use fastcarve::carve::footer::FooterCarveHandler;
use fastcarve::carve::registry::build_carve_registry;
use fastcarve::carve::ExtractionContext;
use fastcarve::chunk::build_chunks;
use fastcarve::config::{parse_patterns, FileTypeConfig, PatternConfig};
use fastcarve::evidence::Evidence;
use fastcarve::pipeline::{run_handler, Admission, CarveCoordinator};
use fastcarve::scanner::{normalize_hit, NormalizedHit, SignatureScanner};

fn minimal_jpeg() -> Vec<u8> {
    let mut jpeg = vec![0u8; 32];
    jpeg[0..4].copy_from_slice(&[0xFF, 0xD8, 0xFF, 0xE0]);
    jpeg[4..9].copy_from_slice(b"JFIF\0");
    jpeg[30..32].copy_from_slice(&[0xFF, 0xD9]);
    jpeg
}

fn minimal_png() -> Vec<u8> {
    let mut png = vec![0x89, 0x50, 0x4E, 0x47, 0x0D, 0x0A, 0x1A, 0x0A];
    png.extend_from_slice(&[0, 0, 0, 13, b'I', b'H', b'D', b'R']);
    png.extend_from_slice(&[0u8; 17]);
    png.extend_from_slice(&[0, 0, 0, 0, 0x49, 0x45, 0x4E, 0x44, 0xAE, 0x42, 0x60, 0x82]);
    png
}

fn hit(offset: u64, t: &str) -> NormalizedHit {
    NormalizedHit { global_offset: offset, file_type_id: t.to_string(), pattern_id: format!("{}_magic", t) }
}

fn config(id: &str, hex: &str) -> FileTypeConfig {
    FileTypeConfig {
        id: id.to_string(),
        extension: id.to_string(),
        header_patterns: vec![PatternConfig { id: format!("{}_magic", id), hex: hex.to_string() }],
        min_size: 0,
        max_size: 0,
        validator: id.to_string(),
    }
}

fn run(data: Vec<u8>, configs: Vec<FileTypeConfig>, chunk_size: u64, overlap: u64, max_files: Option<u64>) -> (Vec<u64>, u64) {
    let scanner = SignatureScanner::new(parse_patterns(&configs).unwrap());
    let registry = build_carve_registry(&configs).ok().unwrap();
    let evidence = Evidence::new(data);
    let ctx = ExtractionContext { run_id: "r", evidence: &evidence };
    let mut coord = CarveCoordinator::new(max_files);
    let mut carved = Vec::new();
    let mut hits_found = 0;
    for chunk in build_chunks(evidence.len(), chunk_size, overlap) {
        let data = evidence.read_at(chunk.start, chunk.length);
        for h in scanner.scan_chunk(&chunk, &data) {
            hits_found += 1;
            let h = normalize_hit(&chunk, &h).unwrap();
            if let Admission::Admitted(t) = coord.try_begin(&h) {
                if let Some(c) = coord.complete(t, run_handler(&registry, &h, &ctx)) {
                    carved.push(c.record.global_start);
                }
            }
        }
    }
    (carved, hits_found)
}

#[test]
fn carves_jpeg_through_end_marker() {
    let mut data = minimal_jpeg();
    data.extend_from_slice(&[0xAAu8; 40]);
    let evidence = Evidence::new(data);
    let ctx = ExtractionContext { run_id: "r", evidence: &evidence };
    let h = FooterCarveHandler::jpeg("jpg".to_string(), 0, 0);
    let c = h.process_hit(&hit(0, "jpeg"), &ctx).unwrap().expect("carved");
    assert_eq!(c.record.size, 32);
    assert!(c.record.validated);
    assert_eq!(c.record.path, "carved/jpeg_0000000000000000.jpg");
}

#[test]
fn jpeg_without_end_marker_is_truncated() {
    let mut data = minimal_jpeg();
    data.truncate(30);
    let evidence = Evidence::new(data);
    let ctx = ExtractionContext { run_id: "r", evidence: &evidence };
    let h = FooterCarveHandler::jpeg("jpg".to_string(), 0, 0);
    let c = h.process_hit(&hit(0, "jpeg"), &ctx).unwrap().expect("carved");
    assert_eq!(c.record.size, 30);
    assert!(c.record.truncated);
    assert!(!c.record.validated);
}

#[test]
fn jpeg_capped_by_max_size_before_footer() {
    let evidence = Evidence::new(minimal_jpeg());
    let ctx = ExtractionContext { run_id: "r", evidence: &evidence };
    let h = FooterCarveHandler::jpeg("jpg".to_string(), 0, 16);
    let c = h.process_hit(&hit(0, "jpeg"), &ctx).unwrap().expect("carved");
    assert_eq!(c.record.size, 16);
    assert!(c.record.truncated);
}

#[test]
fn footer_handler_rejects_missing_magic() {
    let evidence = Evidence::new(vec![0u8; 64]);
    let ctx = ExtractionContext { run_id: "r", evidence: &evidence };
    let h = FooterCarveHandler::gif("gif".to_string(), 0, 0);
    assert!(h.process_hit(&hit(0, "gif"), &ctx).unwrap().is_none());
}

#[test]
fn carves_png_and_gif() {
    let mut data = minimal_png();
    let gif_at = data.len() as u64;
    data.extend_from_slice(b"GIF89a\x01\x00\x01\x00\x00\x00\x00\x3B");
    let evidence = Evidence::new(data);
    let ctx = ExtractionContext { run_id: "r", evidence: &evidence };
    let png = FooterCarveHandler::png("png".to_string(), 0, 0);
    let c = png.process_hit(&hit(0, "png"), &ctx).unwrap().expect("png");
    assert_eq!(c.record.size, gif_at);
    let gif = FooterCarveHandler::gif("gif".to_string(), 0, 0);
    let g = gif.process_hit(&hit(gif_at, "gif"), &ctx).unwrap().expect("gif");
    assert_eq!(g.record.size, 14);
}

#[test]
fn png_magic_near_chunk_end_is_carved_once() {
    let chunk_size = 4096u64;
    let mut data = vec![0u8; (chunk_size - 4) as usize];
    data.extend_from_slice(&minimal_png());
    data.extend_from_slice(&vec![0u8; 200]);
    let (carved, hits) = run(data, vec![config("png", "89504e470d0a1a0a")], chunk_size, 64, None);
    assert_eq!(carved, vec![chunk_size - 4]);
    assert_eq!(hits, 1);
}

#[test]
fn dense_jpegs_respect_max_files() {
    let mut data = Vec::new();
    for _ in 0..32 {
        data.extend_from_slice(&minimal_jpeg());
        data.extend_from_slice(&[0u8; 32]);
    }
    let (carved, hits) = run(data, vec![config("jpeg", "ffd8ff")], 1024, 256, Some(5));
    assert_eq!(carved.len(), 5);
    assert!(hits >= 5);
}

#[test]
fn enforces_strict_max_files_under_concurrency() {
    let hits = 32usize;
    let max_files = 5u64;
    let workers = 4usize;
    let mut data = Vec::new();
    for _ in 0..hits {
        data.extend_from_slice(&minimal_jpeg());
        data.extend_from_slice(&[0u8; 32]);
    }
    let configs = vec![config("jpeg", "ffd8ff")];
    let scanner = SignatureScanner::new(parse_patterns(&configs).unwrap());
    let registry = build_carve_registry(&configs).ok().unwrap();
    let evidence = Evidence::new(data);
    let ctx = ExtractionContext { run_id: "max_files_test", evidence: &evidence };
    let mut coord = CarveCoordinator::new(Some(max_files));
    let mut hits_found = 0u64;
    let mut pending = Vec::new();
    // Each worker takes its reservation before any of them completes.
    for chunk in build_chunks(evidence.len(), 64 * 1024, 256) {
        let bytes = evidence.read_at(chunk.start, chunk.length);
        for h in scanner.scan_chunk(&chunk, &bytes) {
            hits_found += 1;
            pending.push(normalize_hit(&chunk, &h).unwrap());
        }
    }
    for batch in pending.chunks(workers) {
        let mut tickets = Vec::new();
        for h in batch {
            if let Admission::Admitted(t) = coord.try_begin(h) {
                tickets.push((t, h.clone()));
            }
        }
        for (t, h) in tickets {
            let _ = coord.complete(t, run_handler(&registry, &h, &ctx));
        }
    }
    assert!(coord.files_carved() <= max_files);
    assert!(coord.files_carved() > 0);
    assert!(hits_found >= max_files);
}
