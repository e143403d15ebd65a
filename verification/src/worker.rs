//! The isolated worker: one photograph, one watermark, one output, with an
//! exit code as the only answer. A worker that exits with anything but zero
//! counts as a failed item, like any failure inside the process.

use vstd::prelude::*;
use vstd::string::StringExecFns;
use crate::batch::ItemOutcome;
use crate::codec::decode_image;
use crate::error::{AppError, ItemFailure};
use crate::processor::{
    default_opacity,
    is_item_outcome,
    lemma_item_failure_kinds,
    outcome_view,
    process_decoded,
    watermark_opacity,
    DEFAULT_MARGIN,
};
use crate::raster::{ImageView, RasterImage};

verus! {

/// How the worker is to be called.
pub open spec fn usage_text() -> Seq<char> {
    "Usage: watermark_worker <input_path> <watermark_path> <output_path>"@
}

/// Reads the worker's arguments: the program's name, then the input path,
/// the watermark path and the output path. Any other number of arguments is
/// answered with the usage line.
pub fn parse_args(args: Vec<String>) -> (res: Result<(String, String, String), AppError>)
    ensures
        args@.len() == 4 ==> (res matches Ok((input, watermark, output)) && input@ == args@[1]@
            && watermark@ == args@[2]@ && output@ == args@[3]@),
        args@.len() != 4 ==> (res matches Err(AppError::BadRequest(msg)) && msg@ == usage_text()),
{
    if args.len() == 4 {
        Ok((args[1].clone(), args[2].clone(), args[3].clone()))
    } else {
        Err(
            AppError::BadRequest(
                String::from_str(
                    "Usage: watermark_worker <input_path> <watermark_path> <output_path>",
                ),
            ),
        )
    }
}

/// The exit code that a worker ends with: zero on success, one otherwise.
pub fn exit_code<T>(result: &Result<T, AppError>) -> (code: i32)
    ensures
        code == 0 <==> result is Ok,
        code == 0 || code == 1,
{
    match result {
        Ok(_) => 0,
        Err(_) => 1,
    }
}

/// The result that a worker's exit stands for: the output it left behind
/// where it exited with code zero and the output could be read, and a failed
/// worker in every other case, a worker without an exit code included.
pub open spec fn spec_worker_result(code: Option<i32>, output: Option<Seq<u8>>) -> Result<
    Seq<u8>,
    ItemFailure,
> {
    match (code, output) {
        (Some(0), Some(bytes)) => Ok(bytes),
        _ => Err(ItemFailure::WorkerFailed),
    }
}

/// The view of an output that may be missing.
pub open spec fn output_view(output: Option<Vec<u8>>) -> Option<Seq<u8>> {
    match output {
        Some(bytes) => Some(bytes@),
        None => None,
    }
}

/// Turns a worker's exit into the outcome of its item. A non-zero exit code
/// is a failure like any failure inside the process.
pub fn outcome_from_worker(code: Option<i32>, output: Option<Vec<u8>>, duration_micros: u64) -> (outcome:
    ItemOutcome)
    ensures
        outcome@.duration_micros == duration_micros,
        outcome@.result == spec_worker_result(code, output_view(output)),
{
    match (code, output) {
        (Some(0), Some(bytes)) => ItemOutcome { result: Ok(bytes), duration_micros },
        _ => ItemOutcome { result: Err(ItemFailure::WorkerFailed), duration_micros },
    }
}

/// Whether `e` is the rejection that the failure `f` maps to.
pub open spec fn rejects_as(e: AppError, f: ItemFailure) -> bool {
    e.spec_status() == f.spec_to_app_error_class() && e.text() == f.spec_text()
}

/// Whether `res` is what a worker answers for the outcome of its item: the
/// encoded bytes, or the rejection of the failure.
pub open spec fn is_job_result(res: Result<Vec<u8>, AppError>, outcome: Result<Seq<u8>, ItemFailure>)
    -> bool {
    match outcome {
        Ok(bytes) => res matches Ok(out) && out@ == bytes,
        Err(f) => res matches Err(e) && rejects_as(e, f),
    }
}

/// Whether the bytes are the encoded output of watermarking some photograph
/// with some watermark at the default opacity and margin.
pub open spec fn is_job_output(bytes: Seq<u8>) -> bool {
    exists|base: ImageView, wm: ImageView| #[trigger]
        is_item_outcome(
            Ok::<Seq<u8>, ItemFailure>(bytes),
            base,
            wm,
            default_opacity(),
            DEFAULT_MARGIN,
        )
}

/// What a worker answers for the outcome of its item.
pub fn job_result(outcome: Result<Vec<u8>, ItemFailure>) -> (res: Result<Vec<u8>, AppError>)
    ensures
        is_job_result(res, outcome_view(outcome)),
{
    match outcome {
        Ok(bytes) => Ok(bytes),
        Err(f) => Err(f.to_app_error()),
    }
}

/// Watermarks a decoded photograph with a decoded watermark at the default
/// opacity and margin and answers as a worker does.
pub fn run_decoded(base: &RasterImage, watermark: &RasterImage) -> (res: Result<Vec<u8>, AppError>)
    ensures
        exists|outcome: Result<Seq<u8>, ItemFailure>| #[trigger]
            is_item_outcome(outcome, base@, watermark@, default_opacity(), DEFAULT_MARGIN)
                && is_job_result(res, outcome),
        res matches Err(e) ==> rejects_as(e, ItemFailure::InvalidGeometry) || rejects_as(
            e,
            ItemFailure::EncodeFailure,
        ),
{
    let processed = process_decoded(base, watermark, watermark_opacity(), DEFAULT_MARGIN);
    proof {
        lemma_item_failure_kinds(
            outcome_view(processed),
            base@,
            watermark@,
            default_opacity(),
            DEFAULT_MARGIN,
        );
    }
    job_result(processed)
}

/// The work of one worker between reading its two files and writing its
/// output: decode both, watermark the photograph at the default opacity and
/// margin, encode. A file that cannot be decoded is rejected as an
/// unsupported format; what the decoder hands over is worked on as
/// `run_decoded` says.
pub fn run(input: &[u8], watermark: &[u8]) -> (res: Result<Vec<u8>, AppError>)
    ensures
        res matches Err(e) ==> rejects_as(e, ItemFailure::UnsupportedFormat) || rejects_as(
            e,
            ItemFailure::InvalidGeometry,
        ) || rejects_as(e, ItemFailure::EncodeFailure),
        res matches Ok(bytes) ==> is_job_output(bytes@),
{
    let base = match decode_image(input) {
        Ok(img) => img,
        Err(f) => {
            return job_result(Err(f));
        },
    };
    let wm = match decode_image(watermark) {
        Ok(img) => img,
        Err(f) => {
            return job_result(Err(f));
        },
    };
    let res = run_decoded(&base, &wm);
    proof {
        if res is Ok {
            let outcome = choose|outcome: Result<Seq<u8>, ItemFailure>| #[trigger]
                is_item_outcome(outcome, base@, wm@, default_opacity(), DEFAULT_MARGIN)
                    && is_job_result(res, outcome);
            assert(outcome == Ok::<Seq<u8>, ItemFailure>(res->Ok_0@));
        }
    }
    res
}

} // verus!
