//! Batch scheduler: runs the single-image processor over every photograph of
//! a batch against one watermark and collects what comes out.
//!
//! The photographs are independent of each other and the watermark is only
//! read, so the items may be processed in any order or side by side; this
//! module processes them one after another and times each.

use vstd::prelude::*;
use crate::batch::{
    lemma_no_valid_outputs,
    spec_finalize,
    BatchCollector,
    BatchItem,
    BatchResult,
    BatchResultView,
    ItemOutcome,
    OutcomeView,
    SlotView,
};
use crate::codec::decode_image;
use crate::error::{BatchError, ItemFailure};
use crate::processor::{is_item_outcome, outcome_view, process_item};
use crate::raster::{ImageView, RasterImage};
use crate::ratio::Ratio;

verus! {

/// A reading of the monotonic clock, which is passed on unread.
#[verifier::external_type_specification]
#[verifier::external_body]
pub struct ExInstant(std::time::Instant);

/// Trusted: `std::time::Instant::now`. Nothing is claimed of a reading of the
/// clock.
#[verifier::external_body]
fn clock_now() -> std::time::Instant {
    std::time::Instant::now()
}

/// Trusted: `std::time::Instant::elapsed`, in whole microseconds. Nothing is
/// claimed of the time that passed.
#[verifier::external_body]
fn clock_elapsed_micros(start: &std::time::Instant) -> u128 {
    start.elapsed().as_micros()
}

/// A duration in microseconds as it is kept with an item: capped at what 64
/// bits hold.
pub open spec fn spec_capped_micros(micros: u128) -> u64 {
    if micros > u64::MAX {
        u64::MAX
    } else {
        micros as u64
    }
}

/// Caps a duration in microseconds at what 64 bits hold.
pub fn capped_micros(micros: u128) -> (capped: u64)
    ensures
        capped == spec_capped_micros(micros),
{
    if micros > u64::MAX as u128 {
        u64::MAX
    } else {
        micros as u64
    }
}

/// What processing a photograph against a watermark may give, whatever the
/// photograph decodes to.
pub open spec fn is_item_result(
    res: Result<Seq<u8>, ItemFailure>,
    wm: ImageView,
    opacity: Ratio,
    margin: u32,
) -> bool {
    res == Err::<Seq<u8>, ItemFailure>(ItemFailure::UnsupportedFormat) || exists|base: ImageView| #[trigger]
        is_item_outcome(res, base, wm, opacity, margin)
}

/// Processes one photograph and measures the time that the decode, the
/// compositing and the encode took together.
pub fn process_item_timed(photo: &[u8], watermark: &RasterImage, opacity: Ratio, margin: u32) -> (outcome:
    ItemOutcome)
    ensures
        is_item_result(outcome@.result, watermark@, opacity, margin),
{
    let start = clock_now();
    let result = process_item(photo, watermark, opacity, margin);
    let duration_micros = capped_micros(clock_elapsed_micros(&start));
    proof {
        assert(outcome_view(result) == (ItemOutcome { result, duration_micros })@.result);
    }
    ItemOutcome { result, duration_micros }
}

/// Whether `slots` is a batch in which every photograph has been processed
/// against the watermark.
pub open spec fn is_batch_run(
    slots: Seq<SlotView>,
    identifiers: Seq<Seq<char>>,
    wm: ImageView,
    opacity: Ratio,
    margin: u32,
) -> bool {
    &&& slots.len() == identifiers.len()
    &&& forall|i: int|
        0 <= i < slots.len() ==> {
            &&& (#[trigger] slots[i]).identifier == identifiers[i]
            &&& slots[i].outcome matches Some(o) && is_item_result(o.result, wm, opacity, margin)
        }
}

/// The identifiers of the photographs of a batch, in the order of
/// submission.
pub open spec fn spec_identifiers(images: Seq<BatchItem>) -> Seq<Seq<char>> {
    images.map_values(|b: BatchItem| b@.identifier)
}

/// The identifiers of a batch, in the order of submission.
fn identifiers_of(images: &Vec<BatchItem>) -> (ids: Vec<String>)
    ensures
        ids@.len() == images@.len(),
        forall|i: int| 0 <= i < ids@.len() ==> (#[trigger] ids@[i])@ == images@[i].identifier@,
{
    let mut ids: Vec<String> = Vec::new();
    let mut i: usize = 0;
    while i < images.len()
        invariant
            i <= images@.len(),
            ids@.len() == i,
            forall|j: int| 0 <= j < i ==> (#[trigger] ids@[j])@ == images@[j].identifier@,
        decreases images@.len() - i,
    {
        ids.push(images[i].identifier.clone());
        i = i + 1;
    }
    ids
}

/// A batch of which nothing has been heard yet, by the identifiers of its
/// photographs.
pub open spec fn spec_waiting(identifiers: Seq<Seq<char>>) -> Seq<SlotView> {
    Seq::new(
        identifiers.len(),
        |i: int| SlotView { identifier: identifiers[i], outcome: None::<OutcomeView> },
    )
}

/// Opens the collector for a batch: one position per photograph, in the
/// order of submission, none with an outcome yet.
pub fn collector_for(images: &Vec<BatchItem>) -> (collector: BatchCollector)
    ensures
        collector@ == spec_waiting(spec_identifiers(images@)),
{
    let collector = BatchCollector::new(identifiers_of(images));
    assert(collector@ =~= spec_waiting(spec_identifiers(images@)));
    collector
}

/// The watermark that a batch shares, from the outcome of decoding it: a
/// watermark that cannot be decoded leaves the batch without any valid
/// output.
pub fn shared_watermark(decoded: Result<RasterImage, ItemFailure>) -> (res: Result<
    RasterImage,
    BatchError,
>)
    ensures
        match decoded {
            Ok(img) => res == Ok::<RasterImage, BatchError>(img),
            Err(_) => res == Err::<RasterImage, BatchError>(BatchError::NoValidOutputs),
        },
{
    match decoded {
        Ok(img) => Ok(img),
        Err(_) => Err(BatchError::NoValidOutputs),
    }
}

/// Processes every photograph of a batch against a decoded watermark, one
/// after another, and files each outcome under its position. Opacity and
/// margin are the same for all; the watermark is only read.
pub fn collect_batch(images: &Vec<BatchItem>, watermark: &RasterImage, opacity: Ratio, margin: u32) -> (collector:
    BatchCollector)
    ensures
        is_batch_run(collector@, spec_identifiers(images@), watermark@, opacity, margin),
{
    let mut collector = collector_for(images);
    let mut i: usize = 0;
    while i < images.len()
        invariant
            i <= images@.len(),
            collector@.len() == images@.len(),
            forall|j: int|
                0 <= j < images@.len() ==> (#[trigger] collector@[j]).identifier
                    == images@[j].identifier@,
            forall|j: int| i <= j < images@.len() ==> (#[trigger] collector@[j]).outcome is None,
            forall|j: int|
                0 <= j < i ==> ((#[trigger] collector@[j]).outcome matches Some(o)
                    && is_item_result(o.result, watermark@, opacity, margin)),
        decreases images@.len() - i,
    {
        let outcome = process_item_timed(images[i].source.as_slice(), watermark, opacity, margin);
        let _ = collector.record(i, outcome);
        i = i + 1;
    }
    collector
}

/// Watermarks a whole batch. The watermark is decoded once and shared,
/// read-only, by all items; opacity and margin are the same for all.
///
/// A photograph that fails is recorded with its reason and skipped. The
/// batch fails as a whole, with `NoValidOutputs`, when the watermark cannot
/// be decoded or not one photograph succeeds.
pub fn process_multiprocess(images: &Vec<BatchItem>, watermark: &[u8], opacity: Ratio, margin: u32) -> (res:
    Result<BatchResult, BatchError>)
    ensures
        images@.len() == 0 ==> res is Err,
        res matches Err(e) ==> e == BatchError::NoValidOutputs,
        res matches Ok(r) ==> r@.processed.len() >= 1 && r@.processed.len() + r@.failures.len()
            == images@.len(),
        res matches Ok(r) ==> exists|wm: ImageView, slots: Seq<SlotView>| #[trigger]
            is_batch_run(slots, spec_identifiers(images@), wm, opacity, margin) && spec_finalize(
                slots,
            ) == Ok::<
                BatchResultView,
                BatchError,
            >(r@),
{
    let wm = match shared_watermark(decode_image(watermark)) {
        Ok(wm) => wm,
        Err(e) => {
            return Err(e);
        },
    };
    let collector = collect_batch(images, &wm, opacity, margin);
    let ghost slots = collector@;
    let res = collector.finalize();
    proof {
        lemma_no_valid_outputs(slots);
        assert(is_batch_run(slots, spec_identifiers(images@), wm@, opacity, margin));
    }
    res
}

} // verus!
