use fastcarve::carve::zip::{pick_zip_extension, ZipCarveHandler};
use fastcarve::carve::ExtractionContext;
use fastcarve::evidence::Evidence;
use fastcarve::scanner::NormalizedHit;

fn zip_with(name: &str, comment: &[u8]) -> Vec<u8> {
    let mut z = vec![0x50, 0x4B, 0x03, 0x04];
    z.extend_from_slice(&[0u8; 22]);
    z.extend_from_slice(&(name.len() as u16).to_le_bytes());
    z.extend_from_slice(&0u16.to_le_bytes());
    z.extend_from_slice(name.as_bytes());
    z.extend_from_slice(&[0x50, 0x4B, 0x01, 0x02]);
    z.extend_from_slice(name.as_bytes());
    z.extend_from_slice(&[0x50, 0x4B, 0x05, 0x06]);
    z.extend_from_slice(&[0u8; 16]);
    z.extend_from_slice(&(comment.len() as u16).to_le_bytes());
    z.extend_from_slice(comment);
    z
}

fn zip_hit() -> NormalizedHit {
    NormalizedHit { global_offset: 0, file_type_id: "zip".to_string(), pattern_id: "zip_local".to_string() }
}

#[test]
fn carves_zip_to_end_of_central_directory() {
    let z = zip_with("a.txt", b"hi");
    let mut data = z.clone();
    data.extend_from_slice(&[0xEEu8; 50]);
    let evidence = Evidence::new(data);
    let ctx = ExtractionContext { run_id: "r", evidence: &evidence };
    let h = ZipCarveHandler::new("zip".to_string(), 0, 0);
    let c = h.process_hit(&zip_hit(), &ctx).unwrap().expect("carved");
    assert_eq!(c.record.size, z.len() as u64);
    assert!(c.record.validated);
    assert_eq!(c.record.extension, "zip");
    assert_eq!(c.record.path, "carved/zip_0000000000000000.zip");
}

#[test]
fn docx_extension_from_member_names() {
    let evidence = Evidence::new(zip_with("word/document.xml", b""));
    let ctx = ExtractionContext { run_id: "r", evidence: &evidence };
    let h = ZipCarveHandler::new("zip".to_string(), 0, 0);
    let c = h.process_hit(&zip_hit(), &ctx).unwrap().expect("carved");
    assert_eq!(c.record.extension, "docx");
    assert_eq!(c.record.path, "carved/zip_0000000000000000.docx");
}

#[test]
fn zip_extension_table() {
    assert_eq!(pick_zip_extension(b"..xl/workbook.xml..", "zip"), "xlsx");
    assert_eq!(pick_zip_extension(b"ppt/slides", "zip"), "pptx");
    assert_eq!(pick_zip_extension(b"mimetypeapplication/epub+zip", "zip"), "epub");
    assert_eq!(pick_zip_extension(b"application/vnd.oasis.opendocument.text", "zip"), "odt");
    assert_eq!(pick_zip_extension(b"META-INF/MANIFEST.MF", "zip"), "jar");
    assert_eq!(pick_zip_extension(b"plain", "zip"), "zip");
}

#[test]
fn zip_without_directory_end_is_truncated() {
    let mut z = zip_with("a.txt", b"");
    z.truncate(40);
    let evidence = Evidence::new(z);
    let ctx = ExtractionContext { run_id: "r", evidence: &evidence };
    let h = ZipCarveHandler::new("zip".to_string(), 0, 0);
    let c = h.process_hit(&zip_hit(), &ctx).unwrap().expect("carved");
    assert_eq!(c.record.size, 40);
    assert!(c.record.truncated);
    assert!(!c.record.validated);
}
