use fastcarve::carve::sevenz::{sevenz_declared_size, SevenZipCarveHandler};
use fastcarve::carve::sqlite::{sqlite_declared_size, SqliteCarveHandler};
use fastcarve::carve::ExtractionContext;
use fastcarve::evidence::Evidence;
use fastcarve::scanner::NormalizedHit;

fn hit(t: &str) -> NormalizedHit {
    NormalizedHit { global_offset: 0, file_type_id: t.to_string(), pattern_id: format!("{}_magic", t) }
}

fn sqlite_db(page_size_field: u16, pages: u32) -> Vec<u8> {
    let mut h = b"SQLite format 3\0".to_vec();
    h.extend_from_slice(&page_size_field.to_be_bytes());
    h.resize(28, 0);
    h.extend_from_slice(&pages.to_be_bytes());
    h.resize(100, 0);
    h
}

fn sevenz(offset: u64, size: u64) -> Vec<u8> {
    let mut h = vec![0x37, 0x7A, 0xBC, 0xAF, 0x27, 0x1C, 0, 4];
    h.extend_from_slice(&[0u8; 4]);
    h.extend_from_slice(&offset.to_le_bytes());
    h.extend_from_slice(&size.to_le_bytes());
    h.extend_from_slice(&[0u8; 4]);
    h
}

#[test]
fn sqlite_size_is_pages_times_page_size() {
    assert_eq!(sqlite_declared_size(&sqlite_db(4096, 3)), Some(12288));
    assert_eq!(sqlite_declared_size(&sqlite_db(1, 2)), Some(131072));
    assert_eq!(sqlite_declared_size(&sqlite_db(1000, 2)), None);
    assert_eq!(sqlite_declared_size(&sqlite_db(4096, 0)), None);
}

#[test]
fn carves_sqlite_database() {
    let mut data = sqlite_db(512, 2);
    data.resize(1024 + 100, 0x55);
    let evidence = Evidence::new(data);
    let ctx = ExtractionContext { run_id: "r", evidence: &evidence };
    let h = SqliteCarveHandler::new("sqlite".to_string(), 0, 0);
    let c = h.process_hit(&hit("sqlite"), &ctx).unwrap().expect("carved");
    assert_eq!(c.record.size, 1024);
    assert!(c.record.validated);
    assert_eq!(c.record.file_type, "sqlite");
}

#[test]
fn sevenz_size_from_next_header() {
    assert_eq!(sevenz_declared_size(&sevenz(100, 20)), Some(152));
    assert_eq!(sevenz_declared_size(&sevenz(100, 0)), None);
    assert_eq!(sevenz_declared_size(&sevenz(u64::MAX, 1)), None);
}

#[test]
fn carves_sevenz_archive_truncated_at_evidence_end() {
    let mut data = sevenz(100, 20);
    data.resize(90, 1);
    let evidence = Evidence::new(data);
    let ctx = ExtractionContext { run_id: "r", evidence: &evidence };
    let h = SevenZipCarveHandler::new("7z".to_string(), 0, 0);
    let c = h.process_hit(&hit("7z"), &ctx).unwrap().expect("carved");
    assert_eq!(c.record.size, 90);
    assert!(c.record.truncated);
    assert!(!c.record.validated);
}
