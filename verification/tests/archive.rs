use std::io::Read;

use watermark::archive::{create_zip_from_results, manifest_text, packaging_result};
use watermark::batch::{assemble_batch, ItemOutcome, ProcessedItem};
use watermark::error::BatchError;

fn processed(name: &str, output: &[u8], micros: u64) -> ProcessedItem {
    ProcessedItem {
        entry_name: name.to_string(),
        output: output.to_vec(),
        duration_micros: micros,
    }
}

/// Reads an archive back with the zip crate: names and contents, in order.
fn read_archive(bytes: &[u8]) -> Vec<(String, Vec<u8>)> {
    let mut archive = zip::ZipArchive::new(std::io::Cursor::new(bytes.to_vec())).unwrap();
    let mut entries = Vec::new();
    for i in 0..archive.len() {
        let mut file = archive.by_index(i).unwrap();
        let mut content = Vec::new();
        file.read_to_end(&mut content).unwrap();
        entries.push((file.name().to_string(), content));
    }
    entries
}

#[test]
fn manifest_text_lists_file_and_duration() {
    let items = vec![
        processed("watermarked_1.png", b"a", 1_500),
        processed("watermarked_2.png", b"b", 12_000_000),
        processed("watermarked_3.png", b"c", 0),
    ];
    assert_eq!(
        manifest_text(&items),
        "[{\"file\":\"watermarked_1.png\",\"duration\":0.001500},\
         {\"file\":\"watermarked_2.png\",\"duration\":12.000000},\
         {\"file\":\"watermarked_3.png\",\"duration\":0.000000}]"
    );
}

#[test]
fn manifest_text_of_nothing() {
    assert_eq!(manifest_text(&vec![]), "[]");
}

#[test]
fn manifest_text_single_item() {
    let items = vec![processed("watermarked_1.png", b"a", 3_999_999)];
    assert_eq!(manifest_text(&items), "[{\"file\":\"watermarked_1.png\",\"duration\":3.999999}]");
}

#[test]
fn manifest_text_large_duration() {
    let items = vec![processed("watermarked_1.png", b"a", u64::MAX)];
    assert_eq!(
        manifest_text(&items),
        "[{\"file\":\"watermarked_1.png\",\"duration\":18446744073709.551615}]"
    );
}

#[test]
fn manifest_names_entries_by_position() {
    let items = vec![processed("whatever", b"a", 1), processed("else", b"b", 2)];
    assert_eq!(
        manifest_text(&items),
        "[{\"file\":\"watermarked_1.png\",\"duration\":0.000001},\
         {\"file\":\"watermarked_2.png\",\"duration\":0.000002}]"
    );
}

#[test]
fn archive_holds_one_entry_per_item_and_the_manifest() {
    let items = vec![
        processed("watermarked_1.png", b"first output", 250_000),
        processed("watermarked_2.png", &[0u8; 5000], 1_250_000),
        processed("watermarked_3.png", b"", 7),
    ];
    let bytes = create_zip_from_results(&items).unwrap();
    assert_eq!(&bytes[..4], b"PK\x03\x04");
    let entries = read_archive(&bytes);
    assert_eq!(entries.len(), 4);
    assert_eq!(entries[0], ("watermarked_1.png".to_string(), b"first output".to_vec()));
    assert_eq!(entries[1], ("watermarked_2.png".to_string(), vec![0u8; 5000]));
    assert_eq!(entries[2], ("watermarked_3.png".to_string(), Vec::new()));
    assert_eq!(entries[3].0, "timings.json");
    assert_eq!(entries[3].1, manifest_text(&items).into_bytes());
}

#[test]
fn archive_of_nothing_holds_only_the_manifest() {
    let bytes = create_zip_from_results(&vec![]).unwrap();
    let entries = read_archive(&bytes);
    assert_eq!(entries, vec![("timings.json".to_string(), b"[]".to_vec())]);
}

#[test]
fn archive_entry_names_are_unique() {
    let items: Vec<ProcessedItem> =
        (0..40).map(|i| processed("same name", &[i as u8], i as u64)).collect();
    let entries = read_archive(&create_zip_from_results(&items).unwrap());
    assert_eq!(entries.len(), 41);
    let mut seen = std::collections::HashSet::new();
    for (name, _) in &entries {
        assert!(seen.insert(name.clone()));
    }
    for (i, (name, content)) in entries.iter().take(40).enumerate() {
        assert_eq!(name, &format!("watermarked_{}.png", i + 1));
        assert_eq!(content, &vec![i as u8]);
    }
}

#[test]
fn archive_is_deterministic() {
    let items = vec![processed("watermarked_1.png", b"payload", 42)];
    assert_eq!(create_zip_from_results(&items).unwrap(), create_zip_from_results(&items).unwrap());
}

#[test]
fn archive_of_a_finalized_batch() {
    let batch = assemble_batch(
        vec!["a".to_string(), "b".to_string(), "c".to_string()],
        vec![
            ItemOutcome { result: Ok(b"A".to_vec()), duration_micros: 10 },
            ItemOutcome {
                result: Err(watermark::error::ItemFailure::UnsupportedFormat),
                duration_micros: 20,
            },
            ItemOutcome { result: Ok(b"C".to_vec()), duration_micros: 30 },
        ],
    )
    .unwrap();
    let entries = read_archive(&create_zip_from_results(&batch.processed).unwrap());
    assert_eq!(entries.len(), batch.processed.len() + 1);
    for (entry, item) in entries.iter().zip(batch.processed.iter()) {
        assert_eq!(entry.0, item.entry_name);
        assert_eq!(entry.1, item.output);
    }
    assert_eq!(
        String::from_utf8(entries[2].1.clone()).unwrap(),
        "[{\"file\":\"watermarked_1.png\",\"duration\":0.000010},\
         {\"file\":\"watermarked_2.png\",\"duration\":0.000030}]"
    );
}

#[test]
fn packaging_result_maps_writer_errors() {
    let ok: Result<u8, zip::result::ZipError> = Ok(7);
    assert_eq!(packaging_result(ok), Ok(7));
    let err: Result<u8, zip::result::ZipError> = Err(zip::result::ZipError::FileNotFound);
    assert_eq!(packaging_result(err), Err(BatchError::PackagingError));
}

#[test]
fn write_file_to_zip_names_entries_by_index() {
    let mut zip = watermark::archive::ArchiveWriter::new();
    assert_eq!(watermark::archive::write_file_to_zip(&mut zip, b"third", 3), Ok(()));
    assert_eq!(watermark::archive::write_file_to_zip(&mut zip, b"seventh", 7), Ok(()));
    let entries = read_archive(&zip.finish().unwrap());
    assert_eq!(
        entries,
        vec![
            ("watermarked_3.png".to_string(), b"third".to_vec()),
            ("watermarked_7.png".to_string(), b"seventh".to_vec()),
        ]
    );
}

#[test]
fn empty_archive_can_be_finished() {
    let bytes = watermark::archive::ArchiveWriter::new().finish().unwrap();
    assert!(read_archive(&bytes).is_empty());
}
