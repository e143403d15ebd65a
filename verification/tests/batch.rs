use watermark::batch::{assemble_batch, entry_name, BatchCollector, BatchItem, ItemOutcome};
use watermark::codec::{decode_image, encode_png};
use watermark::error::{BatchError, ItemFailure};
use watermark::raster::RasterImage;
use watermark::ratio::Ratio;
use watermark::scheduler::{
    capped_micros, collect_batch, collector_for, process_item_timed, process_multiprocess,
    shared_watermark,
};
use watermark::text::decimal_string;

fn ratio(num: i32, den: u32) -> Ratio {
    Ratio::new(num, den).expect("positive denominator")
}

fn image(width: u32, height: u32, seed: u8) -> RasterImage {
    let mut data = Vec::new();
    for y in 0..height {
        for x in 0..width {
            data.extend_from_slice(&[seed, (x * 2) as u8, (y * 3) as u8, 255]);
        }
    }
    RasterImage::from_raw(width, height, data).expect("buffer fits")
}

fn png(width: u32, height: u32, seed: u8) -> Vec<u8> {
    encode_png(&image(width, height, seed)).expect("encodes")
}

fn ok(bytes: &[u8], micros: u64) -> ItemOutcome {
    ItemOutcome { result: Ok(bytes.to_vec()), duration_micros: micros }
}

fn failed(reason: ItemFailure) -> ItemOutcome {
    ItemOutcome { result: Err(reason), duration_micros: 0 }
}

fn names(ids: &[&str]) -> Vec<String> {
    ids.iter().map(|s| s.to_string()).collect()
}

#[test]
fn decimal_string_values() {
    assert_eq!(decimal_string(0), "0");
    assert_eq!(decimal_string(7), "7");
    assert_eq!(decimal_string(10), "10");
    assert_eq!(decimal_string(105), "105");
    assert_eq!(decimal_string(9_876_543_210), "9876543210");
    assert_eq!(decimal_string(u64::MAX), "18446744073709551615");
}

#[test]
fn entry_name_format() {
    assert_eq!(entry_name(1), "watermarked_1.png");
    assert_eq!(entry_name(10), "watermarked_10.png");
    assert_eq!(entry_name(0), "watermarked_0.png");
    assert_eq!(entry_name(123_456), "watermarked_123456.png");
}

#[test]
fn entry_names_are_distinct() {
    let mut seen = std::collections::HashSet::new();
    for n in 0..2000usize {
        assert!(seen.insert(entry_name(n)));
    }
}

#[test]
fn assemble_batch_names_successes_in_submission_order() {
    let result = assemble_batch(
        names(&["a.jpg", "b.jpg", "c.jpg", "d.jpg"]),
        vec![ok(b"AAA", 11), failed(ItemFailure::UnsupportedFormat), ok(b"CCC", 33), ok(b"D", 44)],
    )
    .unwrap();
    assert_eq!(result.processed.len(), 3);
    assert_eq!(result.processed[0].entry_name, "watermarked_1.png");
    assert_eq!(result.processed[0].output, b"AAA");
    assert_eq!(result.processed[0].duration_micros, 11);
    assert_eq!(result.processed[1].entry_name, "watermarked_2.png");
    assert_eq!(result.processed[1].output, b"CCC");
    assert_eq!(result.processed[1].duration_micros, 33);
    assert_eq!(result.processed[2].entry_name, "watermarked_3.png");
    assert_eq!(result.processed[2].output, b"D");
    assert_eq!(result.failures.len(), 1);
    assert_eq!(result.failures[0].identifier, "b.jpg");
    assert_eq!(result.failures[0].reason, ItemFailure::UnsupportedFormat);
}

#[test]
fn assemble_batch_without_success_fails() {
    let none = assemble_batch(
        names(&["a", "b"]),
        vec![failed(ItemFailure::UnsupportedFormat), failed(ItemFailure::EncodeFailure)],
    );
    assert!(matches!(none, Err(BatchError::NoValidOutputs)));
    let empty = assemble_batch(vec![], vec![]);
    assert!(matches!(empty, Err(BatchError::NoValidOutputs)));
}

#[test]
fn assemble_batch_missing_outcomes_count_as_failed_workers() {
    let result = assemble_batch(names(&["a", "b", "c"]), vec![ok(b"x", 1)]).unwrap();
    assert_eq!(result.processed.len(), 1);
    assert_eq!(result.failures.len(), 2);
    assert_eq!(result.failures[0].identifier, "b");
    assert_eq!(result.failures[0].reason, ItemFailure::WorkerFailed);
    assert_eq!(result.failures[1].identifier, "c");
    assert_eq!(result.failures[1].reason, ItemFailure::WorkerFailed);
}

#[test]
fn assemble_batch_ignores_surplus_outcomes() {
    let result = assemble_batch(names(&["a"]), vec![ok(b"x", 1), ok(b"y", 2)]).unwrap();
    assert_eq!(result.processed.len(), 1);
    assert_eq!(result.processed[0].output, b"x");
    assert!(result.failures.is_empty());
}

#[test]
fn every_item_is_either_processed_or_failed() {
    for pattern in 1u32..64 {
        let mut outcomes = Vec::new();
        let mut ids = Vec::new();
        for bit in 0..6 {
            ids.push(format!("photo{bit}"));
            outcomes.push(if pattern & (1 << bit) != 0 {
                ok(&[bit as u8], bit as u64)
            } else {
                failed(ItemFailure::UnsupportedFormat)
            });
        }
        let result = assemble_batch(ids, outcomes).unwrap();
        assert_eq!(result.processed.len() as u32, pattern.count_ones());
        assert_eq!(result.processed.len() + result.failures.len(), 6);
        for (i, p) in result.processed.iter().enumerate() {
            assert_eq!(p.entry_name, entry_name(i + 1));
        }
    }
}

#[test]
fn collector_is_independent_of_completion_order() {
    let mut forward = BatchCollector::new(names(&["a", "b", "c"]));
    assert!(forward.record(0, ok(b"A", 1)));
    assert!(forward.record(1, ok(b"B", 2)));
    assert!(forward.record(2, ok(b"C", 3)));
    let mut backward = BatchCollector::new(names(&["a", "b", "c"]));
    assert!(backward.record(2, ok(b"C", 3)));
    assert!(backward.record(0, ok(b"A", 1)));
    assert!(backward.record(1, ok(b"B", 2)));
    let f = forward.finalize().unwrap();
    let b = backward.finalize().unwrap();
    assert_eq!(f.processed.len(), 3);
    for i in 0..3 {
        assert_eq!(f.processed[i].entry_name, b.processed[i].entry_name);
        assert_eq!(f.processed[i].output, b.processed[i].output);
        assert_eq!(f.processed[i].duration_micros, b.processed[i].duration_micros);
    }
    assert_eq!(b.processed[0].output, b"A");
    assert_eq!(b.processed[2].entry_name, "watermarked_3.png");
}

#[test]
fn collector_keeps_the_first_outcome_of_a_position() {
    let mut c = BatchCollector::new(names(&["a", "b"]));
    assert_eq!(c.len(), 2);
    assert!(c.record(1, failed(ItemFailure::EncodeFailure)));
    assert!(!c.record(1, ok(b"late", 9)));
    assert!(!c.record(2, ok(b"beyond", 9)));
    assert!(!c.record(usize::MAX, ok(b"beyond", 9)));
    assert!(c.record(0, ok(b"A", 5)));
    let result = c.finalize().unwrap();
    assert_eq!(result.processed.len(), 1);
    assert_eq!(result.processed[0].output, b"A");
    assert_eq!(result.failures.len(), 1);
    assert_eq!(result.failures[0].identifier, "b");
    assert_eq!(result.failures[0].reason, ItemFailure::EncodeFailure);
}

#[test]
fn collector_without_reports_has_no_valid_outputs() {
    let c = BatchCollector::new(names(&["a", "b"]));
    assert!(matches!(c.finalize(), Err(BatchError::NoValidOutputs)));
}

#[test]
fn process_item_timed_reports_result() {
    let wm = image(10, 5, 200);
    let good = process_item_timed(&png(40, 30, 1), &wm, ratio(1, 2), 2);
    assert!(good.result.is_ok());
    let bad = process_item_timed(b"corrupt", &wm, ratio(1, 2), 2);
    assert_eq!(bad.result, Err(ItemFailure::UnsupportedFormat));
}

fn item(id: &str, source: Vec<u8>) -> BatchItem {
    BatchItem { identifier: id.to_string(), source }
}

#[test]
fn batch_of_three_valid_and_one_corrupt() {
    let items = vec![
        item("one.png", png(40, 30, 1)),
        item("broken.png", b"this is no image".to_vec()),
        item("two.png", png(50, 20, 2)),
        item("three.png", png(25, 25, 3)),
    ];
    let wm = png(20, 10, 255);
    let result = process_multiprocess(&items, &wm, ratio(1, 2), 2).unwrap();
    assert_eq!(result.processed.len(), 3);
    assert_eq!(result.failures.len(), 1);
    assert_eq!(result.failures[0].identifier, "broken.png");
    assert_eq!(result.failures[0].reason, ItemFailure::UnsupportedFormat);
    let sizes = [(40, 30), (50, 20), (25, 25)];
    for (i, p) in result.processed.iter().enumerate() {
        assert_eq!(p.entry_name, format!("watermarked_{}.png", i + 1));
        let img = decode_image(&p.output).unwrap();
        assert_eq!((img.width(), img.height()), sizes[i]);
    }
}

#[test]
fn batch_without_valid_photo_has_no_valid_outputs() {
    let wm = png(20, 10, 255);
    let items = vec![item("a", b"bad".to_vec()), item("b", vec![])];
    assert!(matches!(
        process_multiprocess(&items, &wm, ratio(1, 2), 2),
        Err(BatchError::NoValidOutputs)
    ));
    assert!(matches!(
        process_multiprocess(&vec![], &wm, ratio(1, 2), 2),
        Err(BatchError::NoValidOutputs)
    ));
}

#[test]
fn batch_with_unusable_watermark_has_no_valid_outputs() {
    let items = vec![item("a", png(10, 10, 1))];
    assert!(matches!(
        process_multiprocess(&items, b"no watermark", ratio(1, 2), 2),
        Err(BatchError::NoValidOutputs)
    ));
}

#[test]
fn rerunning_a_batch_gives_identical_outputs() {
    let items = vec![item("a", png(64, 48, 9)), item("b", png(33, 17, 8))];
    let wm = png(30, 12, 100);
    let first = process_multiprocess(&items, &wm, ratio(2, 3), 4).unwrap();
    let second = process_multiprocess(&items, &wm, ratio(2, 3), 4).unwrap();
    assert_eq!(first.processed.len(), second.processed.len());
    for (a, b) in first.processed.iter().zip(second.processed.iter()) {
        assert_eq!(a.entry_name, b.entry_name);
        assert_eq!(a.output, b.output);
        assert_eq!(
            decode_image(&a.output).unwrap().as_raw(),
            decode_image(&b.output).unwrap().as_raw()
        );
    }
}

#[test]
fn batch_never_changes_watermark_or_photos() {
    let items = vec![item("a", png(64, 48, 9)), item("b", b"bad".to_vec())];
    let wm = png(30, 12, 100);
    let wm_before = wm.clone();
    let sources_before: Vec<Vec<u8>> = items.iter().map(|i| i.source.clone()).collect();
    let _ = process_multiprocess(&items, &wm, ratio(2, 3), 4).unwrap();
    assert_eq!(wm, wm_before);
    for (i, s) in items.iter().zip(sources_before.iter()) {
        assert_eq!(&i.source, s);
    }
}

#[test]
fn capped_micros_saturates() {
    assert_eq!(capped_micros(0), 0);
    assert_eq!(capped_micros(1_500), 1_500);
    assert_eq!(capped_micros(u64::MAX as u128), u64::MAX);
    assert_eq!(capped_micros(u64::MAX as u128 + 1), u64::MAX);
    assert_eq!(capped_micros(u128::MAX), u64::MAX);
}

#[test]
fn shared_watermark_cases() {
    let img = image(3, 2, 9);
    let raw = img.as_raw().clone();
    assert_eq!(shared_watermark(Ok(img)).unwrap().as_raw(), &raw);
    assert!(matches!(
        shared_watermark(Err(ItemFailure::UnsupportedFormat)),
        Err(BatchError::NoValidOutputs)
    ));
}

#[test]
fn collector_for_has_one_open_position_per_photo() {
    let items = vec![item("a", vec![1]), item("b", vec![2])];
    let mut c = collector_for(&items);
    assert_eq!(c.len(), 2);
    assert!(c.record(1, ok(b"B", 1)));
    let result = c.finalize().unwrap();
    assert_eq!(result.processed.len(), 1);
    assert_eq!(result.failures.len(), 1);
    assert_eq!(result.failures[0].identifier, "a");
    assert_eq!(result.failures[0].reason, ItemFailure::WorkerFailed);
}

#[test]
fn collect_batch_files_every_outcome() {
    let items = vec![item("a", png(20, 10, 1)), item("b", b"bad".to_vec())];
    let wm = image(4, 4, 200);
    let result = collect_batch(&items, &wm, ratio(1, 2), 1).finalize().unwrap();
    assert_eq!(result.processed.len(), 1);
    assert_eq!(result.processed[0].entry_name, "watermarked_1.png");
    assert_eq!(result.failures.len(), 1);
    assert_eq!(result.failures[0].identifier, "b");
    assert_eq!(result.failures[0].reason, ItemFailure::UnsupportedFormat);
}
