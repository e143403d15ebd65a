use std::io::Read;

use watermark::codec::{decode_image, encode_png};
use watermark::error::{BatchError, ItemFailure};
use watermark::raster::RasterImage;
use watermark::ratio::Ratio;
use watermark::batch::{BatchCollector, ItemOutcome};
use watermark::upload::{
    categorize_files, pack_batch, process_watermark, validate_upload, watermark_request,
    CategorizedFiles, UploadedFile,
};

fn upload(name: &str, filename: &str, data: &[u8]) -> UploadedFile {
    UploadedFile { name: name.to_string(), filename: filename.to_string(), data: data.to_vec() }
}

fn png(width: u32, height: u32, seed: u8) -> Vec<u8> {
    let mut data = Vec::new();
    for y in 0..height {
        for x in 0..width {
            data.extend_from_slice(&[seed, x as u8, y as u8, 255]);
        }
    }
    encode_png(&RasterImage::from_raw(width, height, data).unwrap()).unwrap()
}

fn read_archive(bytes: &[u8]) -> Vec<(String, Vec<u8>)> {
    let mut archive = zip::ZipArchive::new(std::io::Cursor::new(bytes.to_vec())).unwrap();
    let mut entries = Vec::new();
    for i in 0..archive.len() {
        let mut file = archive.by_index(i).unwrap();
        let mut content = Vec::new();
        file.read_to_end(&mut content).unwrap();
        entries.push((file.name().to_string(), content));
    }
    entries
}

#[test]
fn categorize_files_groups_by_role_and_keeps_order() {
    let sorted = categorize_files(vec![
        upload("photos", "1.jpg", b"one"),
        upload("watermark", "logo.png", b"logo"),
        upload("photos", "2.jpg", b"two"),
        upload("comment", "note.txt", b"ignored"),
        upload("photos", "3.jpg", b"three"),
    ]);
    assert_eq!(sorted.photos.len(), 3);
    assert_eq!(sorted.photos[0].identifier, "1.jpg");
    assert_eq!(sorted.photos[0].source, b"one");
    assert_eq!(sorted.photos[1].identifier, "2.jpg");
    assert_eq!(sorted.photos[1].source, b"two");
    assert_eq!(sorted.photos[2].identifier, "3.jpg");
    assert_eq!(sorted.photos[2].source, b"three");
    assert_eq!(sorted.watermark, Some(b"logo".to_vec()));
}

#[test]
fn categorize_files_last_watermark_wins() {
    let sorted = categorize_files(vec![
        upload("watermark", "a.png", b"first"),
        upload("photos", "1.jpg", b"one"),
        upload("watermark", "b.png", b"second"),
    ]);
    assert_eq!(sorted.watermark, Some(b"second".to_vec()));
    assert_eq!(sorted.photos.len(), 1);
}

#[test]
fn categorize_files_ignores_unknown_roles() {
    let sorted = categorize_files(vec![
        upload("photo", "1.jpg", b"singular"),
        upload("Photos", "2.jpg", b"capital"),
        upload("", "3.jpg", b"empty"),
        upload("watermarks", "4.png", b"plural"),
        upload("photos ", "5.jpg", b"space"),
    ]);
    assert!(sorted.photos.is_empty());
    assert_eq!(sorted.watermark, None);
}

#[test]
fn categorize_files_of_nothing() {
    let sorted = categorize_files(vec![]);
    assert!(sorted.photos.is_empty());
    assert_eq!(sorted.watermark, None);
}

#[test]
fn categorize_files_keeps_duplicate_filenames() {
    let sorted = categorize_files(vec![
        upload("photos", "same.jpg", b"one"),
        upload("photos", "same.jpg", b"two"),
    ]);
    assert_eq!(sorted.photos.len(), 2);
    assert_eq!(sorted.photos[0].source, b"one");
    assert_eq!(sorted.photos[1].source, b"two");
}

#[test]
fn validate_upload_needs_watermark_and_photos() {
    let none = validate_upload(CategorizedFiles { photos: vec![], watermark: None });
    assert!(matches!(none, Err(BatchError::InputValidation)));
    let no_photos =
        validate_upload(CategorizedFiles { photos: vec![], watermark: Some(b"w".to_vec()) });
    assert!(matches!(no_photos, Err(BatchError::InputValidation)));
    let no_watermark = validate_upload(categorize_files(vec![upload("photos", "1", b"x")]));
    assert!(matches!(no_watermark, Err(BatchError::InputValidation)));
    let both = validate_upload(categorize_files(vec![
        upload("photos", "1", b"x"),
        upload("watermark", "w", b"w"),
    ]));
    let (photos, watermark) = both.unwrap();
    assert_eq!(photos.len(), 1);
    assert_eq!(photos[0].identifier, "1");
    assert_eq!(watermark, b"w");
}

#[test]
fn process_watermark_rejects_incomplete_requests() {
    assert!(matches!(process_watermark(vec![]), Err(BatchError::InputValidation)));
    assert!(matches!(
        process_watermark(vec![upload("photos", "1.png", &png(10, 10, 1))]),
        Err(BatchError::InputValidation)
    ));
    assert!(matches!(
        process_watermark(vec![upload("watermark", "w.png", &png(10, 10, 1))]),
        Err(BatchError::InputValidation)
    ));
}

#[test]
fn process_watermark_with_only_corrupt_photos() {
    let res = process_watermark(vec![
        upload("photos", "1.png", b"corrupt"),
        upload("watermark", "w.png", &png(10, 10, 1)),
    ]);
    assert!(matches!(res, Err(BatchError::NoValidOutputs)));
}

#[test]
fn process_watermark_with_unusable_watermark() {
    let res = process_watermark(vec![
        upload("photos", "1.png", &png(10, 10, 1)),
        upload("watermark", "w.png", b"corrupt"),
    ]);
    assert!(matches!(res, Err(BatchError::NoValidOutputs)));
}

#[test]
fn process_watermark_packs_what_succeeded() {
    let out = process_watermark(vec![
        upload("photos", "1.png", &png(100, 60, 1)),
        upload("photos", "2.png", b"corrupt"),
        upload("watermark", "w.png", &png(10, 10, 250)),
        upload("photos", "3.png", &png(50, 50, 3)),
        upload("photos", "4.png", &png(30, 90, 4)),
    ])
    .unwrap();
    assert_eq!(out.packed, 3);
    assert_eq!(out.failures.len(), 1);
    assert_eq!(out.failures[0].identifier, "2.png");
    assert_eq!(out.failures[0].reason, ItemFailure::UnsupportedFormat);
    let entries = read_archive(&out.archive);
    assert_eq!(entries.len(), 4);
    let sizes = [(100, 60), (50, 50), (30, 90)];
    for i in 0..3 {
        assert_eq!(entries[i].0, format!("watermarked_{}.png", i + 1));
        let img = decode_image(&entries[i].1).unwrap();
        assert_eq!((img.width(), img.height()), sizes[i]);
    }
    assert_eq!(entries[3].0, "timings.json");
    let manifest = String::from_utf8(entries[3].1.clone()).unwrap();
    assert_eq!(manifest.matches("\"file\":").count(), 3);
    assert_eq!(manifest.matches("\"duration\":").count(), 3);
    assert!(manifest.starts_with("[{\"file\":\"watermarked_1.png\",\"duration\":"));
    assert!(manifest.contains(",{\"file\":\"watermarked_3.png\",\"duration\":"));
    assert!(manifest.ends_with("}]"));
}

#[test]
fn process_watermark_uses_default_opacity_and_margin() {
    // a white watermark on black: half opacity gives 128, 20 pixels from the edges
    let black = encode_png(
        &RasterImage::from_raw(100, 100, [0u8, 0, 0, 255].repeat(100 * 100)).unwrap(),
    )
    .unwrap();
    let white =
        encode_png(&RasterImage::from_raw(4, 4, [255u8, 255, 255, 255].repeat(16)).unwrap())
            .unwrap();
    let out = process_watermark(vec![
        upload("watermark", "w.png", &white),
        upload("photos", "1.png", &black),
    ])
    .unwrap();
    let entries = read_archive(&out.archive);
    let img = decode_image(&entries[0].1).unwrap();
    // watermark scaled to 20x20 at (60, 60)
    let grey = watermark::raster::Rgba { r: 128, g: 128, b: 128, a: 255 };
    let dark = watermark::raster::Rgba { r: 0, g: 0, b: 0, a: 255 };
    assert_eq!(img.get_pixel(60, 60), Some(grey));
    assert_eq!(img.get_pixel(79, 79), Some(grey));
    assert_eq!(img.get_pixel(59, 60), Some(dark));
    assert_eq!(img.get_pixel(80, 79), Some(dark));
    assert_eq!(img.get_pixel(99, 99), Some(dark));
}

#[test]
fn watermark_request_takes_opacity_and_margin() {
    let black = encode_png(
        &RasterImage::from_raw(100, 100, [0u8, 0, 0, 255].repeat(100 * 100)).unwrap(),
    )
    .unwrap();
    let white =
        encode_png(&RasterImage::from_raw(4, 4, [255u8, 255, 255, 255].repeat(16)).unwrap())
            .unwrap();
    let out = watermark_request(
        vec![upload("watermark", "w.png", &white), upload("photos", "1.png", &black)],
        Ratio::new(1, 1).unwrap(),
        0,
    )
    .unwrap();
    let entries = read_archive(&out.archive);
    let img = decode_image(&entries[0].1).unwrap();
    let white_px = watermark::raster::Rgba { r: 255, g: 255, b: 255, a: 255 };
    assert_eq!(img.get_pixel(80, 80), Some(white_px));
    assert_eq!(img.get_pixel(99, 99), Some(white_px));
    assert_eq!(img.get_pixel(79, 80).unwrap().r, 0);
}

#[test]
fn pack_batch_packs_successes_and_reports_failures() {
    let ids = vec!["a".to_string(), "b".to_string(), "c".to_string(), "d".to_string()];
    let mut c = BatchCollector::new(ids);
    c.record(3, ItemOutcome { result: Ok(b"D".to_vec()), duration_micros: 4 });
    c.record(0, ItemOutcome { result: Ok(b"A".to_vec()), duration_micros: 1 });
    c.record(1, ItemOutcome { result: Err(ItemFailure::UnsupportedFormat), duration_micros: 2 });
    c.record(2, ItemOutcome { result: Ok(b"C".to_vec()), duration_micros: 3 });
    let out = pack_batch(c).unwrap();
    assert_eq!(out.packed, 3);
    assert_eq!(out.failures.len(), 1);
    assert_eq!(out.failures[0].identifier, "b");
    let entries = read_archive(&out.archive);
    assert_eq!(entries.len(), 4);
    assert_eq!(entries[0], ("watermarked_1.png".to_string(), b"A".to_vec()));
    assert_eq!(entries[1], ("watermarked_2.png".to_string(), b"C".to_vec()));
    assert_eq!(entries[2], ("watermarked_3.png".to_string(), b"D".to_vec()));
    assert_eq!(
        String::from_utf8(entries[3].1.clone()).unwrap(),
        "[{\"file\":\"watermarked_1.png\",\"duration\":0.000001},\
         {\"file\":\"watermarked_2.png\",\"duration\":0.000003},\
         {\"file\":\"watermarked_3.png\",\"duration\":0.000004}]"
    );
}

#[test]
fn pack_batch_without_success_has_no_valid_outputs() {
    let mut c = BatchCollector::new(vec!["a".to_string(), "b".to_string()]);
    c.record(0, ItemOutcome { result: Err(ItemFailure::EncodeFailure), duration_micros: 2 });
    assert!(matches!(pack_batch(c), Err(BatchError::NoValidOutputs)));
    assert!(matches!(pack_batch(BatchCollector::new(vec![])), Err(BatchError::NoValidOutputs)));
}

#[test]
fn archive_entries_carry_no_clock_reading() {
    let make = || {
        let mut c = BatchCollector::new(vec!["a".to_string()]);
        c.record(0, ItemOutcome { result: Ok(b"A".to_vec()), duration_micros: 1 });
        pack_batch(c).unwrap().archive
    };
    let first = make();
    let mut archive = zip::ZipArchive::new(std::io::Cursor::new(first.clone())).unwrap();
    let stamp = archive.by_index(0).unwrap().last_modified();
    assert_eq!((stamp.year(), stamp.month(), stamp.day()), (1980, 1, 1));
    assert_eq!((stamp.hour(), stamp.minute(), stamp.second()), (0, 0, 0));
    assert_eq!(first, make());
}
