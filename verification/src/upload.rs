//! Intake of a request: the uploaded blobs are sorted by the role they were
//! declared with, checked, watermarked as one batch and packed.

use vstd::prelude::*;
use vstd::string::StringExecFns;
use crate::archive::{create_zip_from_results, spec_archive_entries, spec_packable, zip_encoding};
use crate::batch::{
    lemma_every_item_accounted,
    lemma_no_valid_outputs,
    spec_finalize,
    spec_processed,
    spec_successes,
    BatchCollector,
    BatchItem,
    FailedItem,
    FailedView,
    PhotoView,
    SlotView,
};
use crate::codec::decode_image;
use crate::error::BatchError;
use crate::processor::{default_opacity, watermark_opacity, DEFAULT_MARGIN};
use crate::raster::ImageView;
use crate::ratio::Ratio;
use crate::scheduler::{collect_batch, is_batch_run, shared_watermark, spec_identifiers};

verus! {

/// One uploaded blob: the role it was declared with, the file name the
/// client gave (advisory, never used as a path), and its bytes.
#[derive(Debug)]
pub struct UploadedFile {
    pub name: String,
    pub filename: String,
    pub data: Vec<u8>,
}

/// The uploads of a request sorted by role.
#[derive(Debug)]
pub struct CategorizedFiles {
    pub photos: Vec<BatchItem>,
    pub watermark: Option<Vec<u8>>,
}

pub struct UploadView {
    pub name: Seq<char>,
    pub filename: Seq<char>,
    pub data: Seq<u8>,
}

impl View for UploadedFile {
    type V = UploadView;

    open spec fn view(&self) -> UploadView {
        UploadView { name: self.name@, filename: self.filename@, data: self.data@ }
    }
}

/// The role of a photograph.
pub open spec fn photo_role() -> Seq<char> {
    "photos"@
}

/// The role of the watermark.
pub open spec fn watermark_role() -> Seq<char> {
    "watermark"@
}

/// The uploads declared as photographs, in the order in which they came.
pub open spec fn spec_photos(files: Seq<UploadView>) -> Seq<PhotoView>
    decreases files.len(),
{
    if files.len() == 0 {
        Seq::empty()
    } else {
        let rest = spec_photos(files.drop_last());
        if files.last().name == photo_role() {
            rest.push(PhotoView { identifier: files.last().filename, source: files.last().data })
        } else {
            rest
        }
    }
}

/// The upload declared as the watermark: the last one, where there are
/// several.
pub open spec fn spec_watermark(files: Seq<UploadView>) -> Option<Seq<u8>>
    decreases files.len(),
{
    if files.len() == 0 {
        None
    } else if files.last().name == watermark_role() {
        Some(files.last().data)
    } else {
        spec_watermark(files.drop_last())
    }
}

/// The views of the photographs.
pub open spec fn photo_views(photos: Seq<BatchItem>) -> Seq<PhotoView> {
    photos.map_values(|b: BatchItem| b@)
}

/// The view of the watermark's bytes, if there is a watermark.
pub open spec fn bytes_view(bytes: Option<Vec<u8>>) -> Option<Seq<u8>> {
    match bytes {
        Some(b) => Some(b@),
        None => None,
    }
}

/// The views of the uploads.
pub open spec fn upload_views(files: Seq<UploadedFile>) -> Seq<UploadView> {
    files.map_values(|f: UploadedFile| f@)
}

/// Sorts the uploads by declared role: photographs keep their relative
/// order, the last watermark wins, and any other role is ignored.
pub fn categorize_files(files: Vec<UploadedFile>) -> (sorted: CategorizedFiles)
    ensures
        photo_views(sorted.photos@) == spec_photos(upload_views(files@)),
        bytes_view(sorted.watermark) == spec_watermark(upload_views(files@)),
{
    proof {
        reveal_strlit("photos");
        reveal_strlit("watermark");
    }
    let ghost raw = files@;
    let ghost all = upload_views(files@);
    let photo = String::from_str("photos");
    let mark = String::from_str("watermark");
    let mut photos: Vec<BatchItem> = Vec::new();
    let mut watermark: Option<Vec<u8>> = None;
    proof {
        assert(all.take(0) =~= Seq::<UploadView>::empty());
        assert(photo_views(photos@) =~= spec_photos(all.take(0)));
    }
    for file in it: files
        invariant
            it.seq() == raw,
            all == upload_views(raw),
            photo@ == photo_role(),
            mark@ == watermark_role(),
            photo_role() != watermark_role(),
            photo_views(photos@) == spec_photos(all.take(it.index() as int)),
            bytes_view(watermark) == spec_watermark(all.take(it.index() as int)),
    {
        let ghost i = it.index() as int;
        let ghost prev = all.take(i);
        let ghost next = all.take(i + 1);
        proof {
            assert(file@ == all[i]);
            assert(next.drop_last() =~= prev);
            assert(next.last() == all[i]);
        }
        let UploadedFile { name, filename, data } = file;
        if name == photo {
            let ghost before = photos@;
            photos.push(BatchItem { identifier: filename, source: data });
            proof {
                assert(photo_views(photos@) =~= photo_views(before).push(
                    PhotoView { identifier: filename@, source: data@ },
                ));
            }
        } else if name == mark {
            watermark = Some(data);
        }
    }
    proof {
        assert(all.take(raw.len() as int) =~= all);
    }
    CategorizedFiles { photos, watermark }
}

/// Checks a sorted request before any processing starts: it needs a
/// watermark and at least one photograph.
pub fn validate_upload(sorted: CategorizedFiles) -> (res: Result<(Vec<BatchItem>, Vec<u8>), BatchError>)
    ensures
        match res {
            Ok((photos, watermark)) => sorted.photos@.len() > 0 && photos == sorted.photos
                && sorted.watermark == Some(watermark),
            Err(e) => e == BatchError::InputValidation && (sorted.photos@.len() == 0
                || sorted.watermark is None),
        },
{
    let CategorizedFiles { photos, watermark } = sorted;
    match watermark {
        None => Err(BatchError::InputValidation),
        Some(mark) => {
            if photos.len() == 0 {
                Err(BatchError::InputValidation)
            } else {
                Ok((photos, mark))
            }
        },
    }
}

/// What a request that got through gives back: the finalized archive, and
/// the photographs that were skipped with their reasons.
#[derive(Debug)]
pub struct BatchOutput {
    pub archive: Vec<u8>,
    pub packed: usize,
    pub failures: Vec<FailedItem>,
}

/// The identifiers of photographs given by their views.
pub open spec fn photo_identifiers(photos: Seq<PhotoView>) -> Seq<Seq<char>> {
    photos.map_values(|p: PhotoView| p.identifier)
}

/// Whether `out` answers a request that was watermarked as the batch
/// `slots`.
pub open spec fn is_batch_output(
    archive: Seq<u8>,
    packed: usize,
    failures: Seq<FailedView>,
    slots: Seq<SlotView>,
) -> bool {
    spec_finalize(slots) matches Ok(v) && {
        &&& archive == zip_encoding(spec_archive_entries(v.processed))
        &&& packed == v.processed.len()
        &&& failures == v.failures
    }
}

/// What closing and packing the batch `slots` comes to: `NoValidOutputs`
/// where nothing succeeded, `PackagingError` where the successes cannot be
/// packed, and otherwise the archive of the successes beside the failures.
pub open spec fn is_pack_outcome(res: Result<BatchOutput, BatchError>, slots: Seq<SlotView>) -> bool {
    match spec_finalize(slots) {
        Err(_) => res == Err::<BatchOutput, BatchError>(BatchError::NoValidOutputs),
        Ok(v) => if spec_packable(v.processed) {
            res matches Ok(out) && is_batch_output(
                out.archive@,
                out.packed,
                out.failures@.map_values(|f: FailedItem| f@),
                slots,
            )
        } else {
            res == Err::<BatchOutput, BatchError>(BatchError::PackagingError)
        },
    }
}

/// Closes a batch and packs what succeeded.
pub fn pack_batch(collector: BatchCollector) -> (res: Result<BatchOutput, BatchError>)
    ensures
        is_pack_outcome(res, collector@),
{
    let batch = match collector.finalize() {
        Ok(batch) => batch,
        Err(e) => {
            return Err(e);
        },
    };
    let archive = match create_zip_from_results(&batch.processed) {
        Ok(bytes) => bytes,
        Err(e) => {
            return Err(e);
        },
    };
    let packed = batch.processed.len();
    Ok(BatchOutput { archive, packed, failures: batch.failures })
}

/// Whether a request lacks its watermark or its photographs.
pub open spec fn incomplete(files: Seq<UploadView>) -> bool {
    spec_photos(files).len() == 0 || spec_watermark(files) is None
}

/// What a complete request comes to: `NoValidOutputs` where the watermark
/// cannot be decoded, and otherwise what packing comes to for a batch in
/// which every photograph has been processed against one watermark.
pub open spec fn is_request_outcome(
    res: Result<BatchOutput, BatchError>,
    identifiers: Seq<Seq<char>>,
    opacity: Ratio,
    margin: u32,
) -> bool {
    res == Err::<BatchOutput, BatchError>(BatchError::NoValidOutputs) || exists|
        wm: ImageView,
        slots: Seq<SlotView>,
    | #[trigger]
        is_batch_run(slots, identifiers, wm, opacity, margin) && is_pack_outcome(res, slots)
}

/// Watermarks the photographs of a request with its watermark and packs the
/// outputs.
///
/// The request is rejected with `InputValidation`, before anything is
/// processed, exactly when it holds no watermark or no photograph. After
/// that it fails with `NoValidOutputs` when the watermark or every
/// photograph is unusable, and with `PackagingError` exactly when what
/// succeeded cannot be packed. Partial success is success: the answer packs
/// fewer entries than photographs were sent and names the rest as failures.
pub fn watermark_request(files: Vec<UploadedFile>, opacity: Ratio, margin: u32) -> (res: Result<
    BatchOutput,
    BatchError,
>)
    ensures
        incomplete(upload_views(files@)) <==> res == Err::<BatchOutput, BatchError>(
            BatchError::InputValidation,
        ),
        !incomplete(upload_views(files@)) ==> is_request_outcome(
            res,
            photo_identifiers(spec_photos(upload_views(files@))),
            opacity,
            margin,
        ),
        res matches Ok(out) ==> out.packed >= 1 && out.packed + out.failures@.len() == spec_photos(
            upload_views(files@),
        ).len(),
{
    let ghost uploads = upload_views(files@);
    let sorted = categorize_files(files);
    let (photos, watermark) = match validate_upload(sorted) {
        Ok(pair) => pair,
        Err(e) => {
            proof {
                assert(spec_photos(uploads).len() == photo_views(sorted.photos@).len());
            }
            return Err(e);
        },
    };
    proof {
        assert(spec_photos(uploads).len() == photo_views(photos@).len());
        assert(spec_identifiers(photos@) =~= photo_identifiers(spec_photos(uploads)));
    }
    let mark = match shared_watermark(decode_image(watermark.as_slice())) {
        Ok(mark) => mark,
        Err(e) => {
            return Err(e);
        },
    };
    let collector = collect_batch(&photos, &mark, opacity, margin);
    let ghost slots = collector@;
    let res = pack_batch(collector);
    proof {
        lemma_no_valid_outputs(slots);
        assert(is_batch_run(slots, photo_identifiers(spec_photos(uploads)), mark@, opacity, margin));
        assert(is_pack_outcome(res, slots));
    }
    res
}

/// Answers a request at the default opacity and margin: sorts the uploads,
/// checks them, watermarks every photograph and packs the outputs.
pub fn process_watermark(files: Vec<UploadedFile>) -> (res: Result<BatchOutput, BatchError>)
    ensures
        incomplete(upload_views(files@)) <==> res == Err::<BatchOutput, BatchError>(
            BatchError::InputValidation,
        ),
        !incomplete(upload_views(files@)) ==> is_request_outcome(
            res,
            photo_identifiers(spec_photos(upload_views(files@))),
            default_opacity(),
            DEFAULT_MARGIN,
        ),
        res matches Ok(out) ==> out.packed >= 1 && out.packed + out.failures@.len() == spec_photos(
            upload_views(files@),
        ).len(),
{
    watermark_request(files, watermark_opacity(), DEFAULT_MARGIN)
}

/// Partial success: a batch in which some photographs succeeded and others
/// failed, and whose successes can be packed, is answered, not rejected. The
/// archive holds exactly one entry per success and the manifest, and every
/// other photograph is reported as a failure.
pub proof fn lemma_partial_success(res: Result<BatchOutput, BatchError>, slots: Seq<SlotView>)
    requires
        is_pack_outcome(res, slots),
        spec_successes(slots).len() >= 1,
        spec_packable(spec_processed(slots)),
    ensures
        res matches Ok(out) && {
            &&& out.packed == spec_successes(slots).len()
            &&& out.failures@.len() == slots.len() - spec_successes(slots).len()
            &&& out.archive@ == zip_encoding(spec_archive_entries(spec_processed(slots)))
            &&& spec_archive_entries(spec_processed(slots)).len() == spec_successes(slots).len() + 1
        },
{
    lemma_every_item_accounted(slots);
}

/// A batch without a single success is rejected with `NoValidOutputs`,
/// whatever the writer would do.
pub proof fn lemma_nothing_to_pack(res: Result<BatchOutput, BatchError>, slots: Seq<SlotView>)
    requires
        is_pack_outcome(res, slots),
        spec_successes(slots).len() == 0,
    ensures
        res == Err::<BatchOutput, BatchError>(BatchError::NoValidOutputs),
{
}

} // verus!
