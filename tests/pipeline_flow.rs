use fastcarve::carve::registry::build_carve_registry;
use fastcarve::carve::ExtractionContext;
use fastcarve::chunk::build_chunks;
use fastcarve::config::{parse_patterns, FileTypeConfig, PatternConfig};
use fastcarve::evidence::Evidence;
use fastcarve::pipeline::{dispatch_chunk, run_handler, Admission, CarveCoordinator, Dispatcher, OverlapDedup};
use fastcarve::scanner::{normalize_hit, SignatureScanner};

fn riff_wav(payload: usize) -> Vec<u8> {
    let mut v = b"RIFF".to_vec();
    v.extend_from_slice(&((payload + 4) as u32).to_le_bytes());
    v.extend_from_slice(b"WAVE");
    v.extend_from_slice(&vec![0x11u8; payload]);
    v
}

fn wav_config() -> Vec<FileTypeConfig> {
    vec![FileTypeConfig {
        id: "wav".to_string(),
        extension: "wav".to_string(),
        header_patterns: vec![PatternConfig { id: "riff_header".to_string(), hex: "52494646".to_string() }],
        min_size: 0,
        max_size: 0,
        validator: "wav".to_string(),
    }]
}

/// Runs every stage in order on one thread and returns the carved offsets.
fn carve_all(data: Vec<u8>, chunk_size: u64, overlap: u64, max_files: Option<u64>) -> (Vec<u64>, u64) {
    let configs = wav_config();
    let scanner = SignatureScanner::new(parse_patterns(&configs).unwrap());
    let registry = build_carve_registry(&configs).unwrap();
    let evidence = Evidence::new(data);
    let ctx = ExtractionContext { run_id: "run", evidence: &evidence };
    let mut dispatcher = Dispatcher::new(None, None);
    let mut coord = CarveCoordinator::new(max_files);
    let mut hits_found = 0u64;
    let mut carved = Vec::new();
    for chunk in build_chunks(evidence.len(), chunk_size, overlap) {
        let job = match dispatch_chunk(&mut dispatcher, &evidence, &chunk) {
            Some(job) => job,
            None => break,
        };
        for hit in scanner.scan_chunk(&job.chunk, &job.data) {
            hits_found += 1;
            let hit = normalize_hit(&job.chunk, &hit).unwrap();
            if let Admission::Admitted(ticket) = coord.try_begin(&hit) {
                let result = run_handler(&registry, &hit, &ctx);
                if let Some(c) = coord.complete(ticket, result) {
                    carved.push(c.record.global_start);
                }
            }
        }
    }
    assert_eq!(coord.files_carved(), carved.len() as u64);
    (carved, hits_found)
}

#[test]
fn magic_straddling_chunk_boundary_is_carved_once() {
    let chunk_size = 256u64;
    let mut data = vec![0u8; (chunk_size - 4) as usize];
    data.extend_from_slice(&riff_wav(100));
    data.extend_from_slice(&vec![0u8; 300]);
    let (carved, _) = carve_all(data, chunk_size, 64, None);
    assert_eq!(carved, vec![chunk_size - 4]);
}

#[test]
fn magic_in_overlap_is_deduplicated() {
    let chunk_size = 256u64;
    let mut data = vec![0u8; 260];
    data.extend_from_slice(&riff_wav(20));
    data.extend_from_slice(&vec![0u8; 300]);
    // Offset 260 lies in chunk 0's overlap and in chunk 1's owned part.
    let (carved, hits) = carve_all(data, chunk_size, 64, None);
    assert_eq!(hits, 2);
    assert_eq!(carved, vec![260]);
}

#[test]
fn max_files_caps_carves() {
    let mut data = Vec::new();
    for _ in 0..32 {
        data.extend_from_slice(&riff_wav(20));
        data.extend_from_slice(&[0u8; 32]);
    }
    let (carved, hits) = carve_all(data, 1024, 64, Some(5));
    assert_eq!(carved.len(), 5);
    assert!(hits >= 5);
}

#[test]
fn dedup_reports_repeats() {
    let mut d = OverlapDedup::new();
    let bmp = "bmp".to_string();
    let png = "png".to_string();
    assert!(d.check_and_insert(10, &bmp));
    assert!(!d.check_and_insert(10, &bmp));
    assert!(d.check_and_insert(10, &png));
    assert!(d.check_and_insert(11, &bmp));
    assert!(d.contains(10, &png));
    assert!(!d.contains(12, &png));
}

#[test]
fn dispatcher_stops_at_byte_cap() {
    let evidence = Evidence::new(vec![1u8; 1000]);
    let mut d = Dispatcher::new(Some(250), None);
    let mut sizes = Vec::new();
    for chunk in build_chunks(1000, 100, 10) {
        match dispatch_chunk(&mut d, &evidence, &chunk) {
            Some(job) => sizes.push(job.data.len()),
            None => break,
        }
    }
    assert_eq!(sizes, vec![110, 110, 30]);
    assert_eq!(d.bytes_scanned(), 250);
    assert_eq!(d.chunks_processed(), 3);
}

#[test]
fn dispatcher_stops_at_chunk_cap() {
    let evidence = Evidence::new(vec![1u8; 1000]);
    let mut d = Dispatcher::new(None, Some(2));
    let mut n = 0;
    for chunk in build_chunks(1000, 100, 0) {
        if dispatch_chunk(&mut d, &evidence, &chunk).is_none() {
            break;
        }
        n += 1;
    }
    assert_eq!(n, 2);
}

#[test]
fn dispatcher_gives_nothing_past_evidence_end() {
    let evidence = Evidence::new(vec![1u8; 100]);
    let mut d = Dispatcher::new(None, None);
    let beyond = fastcarve::chunk::ScanChunk { id: 9, start: 200, length: 50, valid_length: 40 };
    assert!(dispatch_chunk(&mut d, &evidence, &beyond).is_none());
    assert_eq!(d.chunks_processed(), 0);
}
