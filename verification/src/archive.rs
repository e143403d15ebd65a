//! Archive builder: packs the processed photographs and a manifest into one
//! finalized zip container.

use vstd::prelude::*;
use vstd::string::StringExecFns;
use vstd::string::StringSliceAdditionalSpecFns;
use vstd::utf8::encode_utf8;
use crate::batch::{
    entry_name,
    lemma_entry_names_distinct,
    lemma_every_item_accounted,
    spec_entry_name,
    spec_finalize,
    spec_successes,
    ProcessedItem,
    ProcessedView,
    SlotView,
};
use crate::error::BatchError;
use crate::text::{push_decimal, push_fixed_digits, spec_decimal, spec_fixed_digits};

verus! {

/// An archive under construction: a `zip::ZipWriter` over a buffer in
/// memory. Verus sees nothing inside; contracts speak of `archive_entries`.
#[verifier::external_body]
pub struct ArchiveWriter {
    inner: zip::ZipWriter<std::io::Cursor<Vec<u8>>>,
}

/// The `zip` crate's error, which is passed on unread.
#[verifier::external_type_specification]
#[verifier::external_body]
pub struct ExZipError(zip::result::ZipError);

/// The entries that have been written to an archive under construction, in
/// the order in which they were started: each a name and its content.
pub uninterp spec fn archive_entries(writer: ArchiveWriter) -> Seq<(Seq<char>, Seq<u8>)>;

/// The bytes of the finalized zip container that holds these entries, each
/// written in one piece with the `zip` crate's default options and its
/// earliest modification time.
pub uninterp spec fn zip_encoding(entries: Seq<(Seq<char>, Seq<u8>)>) -> Seq<u8>;

/// Whether the writer, holding these entries, starts another entry of this
/// name. Over a buffer in memory the writer fails on sizes only, so this
/// depends on the entries and the name alone.
pub uninterp spec fn zip_starts(entries: Seq<(Seq<char>, Seq<u8>)>, name: Seq<char>) -> bool;

/// Whether the writer, holding these entries of which the last was just
/// started, takes this data for it.
pub uninterp spec fn zip_writes(entries: Seq<(Seq<char>, Seq<u8>)>, data: Seq<u8>) -> bool;

/// Whether the writer, holding these entries, can be finalized.
pub uninterp spec fn zip_closes(entries: Seq<(Seq<char>, Seq<u8>)>) -> bool;

/// Trusted: `zip::ZipWriter::new` over an empty in-memory buffer. A new
/// archive holds no entry.
#[verifier::external_body]
fn zip_new() -> (writer: ArchiveWriter)
    ensures
        archive_entries(writer) == Seq::<(Seq<char>, Seq<u8>)>::empty(),
{
    ArchiveWriter { inner: zip::ZipWriter::new(std::io::Cursor::new(Vec::new())) }
}

/// Trusted: `zip::ZipWriter::start_file` with the default options and the
/// crate's earliest modification time, so that no clock is read. Whether it
/// succeeds is named `zip_starts`; on success the archive has one more
/// entry, of that name and still empty.
#[verifier::external_body]
fn zip_start_file(writer: &mut ArchiveWriter, name: &str) -> (res: Result<
    (),
    zip::result::ZipError,
>)
    ensures
        res is Ok <==> zip_starts(archive_entries(*old(writer)), name@),
        res is Ok ==> archive_entries(*final(writer)) == archive_entries(*old(writer)).push(
            (name@, Seq::<u8>::empty()),
        ),
{
    let options = zip::write::FileOptions::default().last_modified_time(zip::DateTime::default());
    writer.inner.start_file(name, options)
}

/// Trusted: `std::io::Write::write_all` on a `zip::ZipWriter`, for the entry
/// started last and not written to yet. Whether it succeeds is named
/// `zip_writes`; on success that entry holds the data.
#[verifier::external_body]
fn zip_write_all(writer: &mut ArchiveWriter, data: &[u8]) -> (res: Result<
    (),
    zip::result::ZipError,
>)
    requires
        archive_entries(*old(writer)).len() > 0,
        archive_entries(*old(writer)).last().1.len() == 0,
    ensures
        res is Ok <==> zip_writes(archive_entries(*old(writer)), data@),
        res is Ok ==> archive_entries(*final(writer)) == archive_entries(*old(writer)).drop_last().push(
            (archive_entries(*old(writer)).last().0, data@),
        ),
{
    std::io::Write::write_all(&mut writer.inner, data).map_err(zip::result::ZipError::Io)
}

/// Trusted: `zip::ZipWriter::finish`, which closes the last entry and writes
/// the central directory, then the buffer underneath. Whether it succeeds is
/// named `zip_closes`; on success the bytes are the container named
/// `zip_encoding` of the entries written.
#[verifier::external_body]
fn zip_finish(writer: ArchiveWriter) -> (res: Result<
    Vec<u8>,
    zip::result::ZipError,
>)
    ensures
        res is Ok <==> zip_closes(archive_entries(writer)),
        res matches Ok(bytes) ==> bytes@ == zip_encoding(archive_entries(writer)),
{
    let mut writer = writer;
    let cursor = writer.inner.finish()?;
    Ok(cursor.into_inner())
}

/// The name of the manifest entry.
pub open spec fn spec_manifest_name() -> Seq<char> {
    "timings.json"@
}

/// A duration in seconds, written with six decimals.
pub open spec fn spec_seconds(micros: nat) -> Seq<char> {
    spec_decimal(micros / 1_000_000) + "."@ + spec_fixed_digits(micros % 1_000_000, 6)
}

/// The file names and durations that the manifest lists: for item `i` the
/// name of entry `i + 1` and the time the item took.
pub open spec fn spec_manifest_pairs(items: Seq<ProcessedView>) -> Seq<(Seq<char>, u64)> {
    Seq::new(items.len(), |i: int| (spec_entry_name((i + 1) as nat), items[i].duration_micros))
}

/// The manifest's record of one file: its name and its duration in seconds.
pub open spec fn spec_manifest_row(file: Seq<char>, duration_micros: u64) -> Seq<char> {
    "{\"file\":\""@ + file + "\",\"duration\":"@ + spec_seconds(duration_micros as nat) + "}"@
}

/// The records of the first `upto` pairs, separated by commas.
pub open spec fn spec_manifest_rows(pairs: Seq<(Seq<char>, u64)>, upto: nat) -> Seq<char>
    decreases upto,
{
    if upto == 0 {
        Seq::<char>::empty()
    } else {
        let sep = if upto > 1 {
            ","@
        } else {
            Seq::<char>::empty()
        };
        spec_manifest_rows(pairs, (upto - 1) as nat) + sep + spec_manifest_row(
            pairs[upto - 1].0,
            pairs[upto - 1].1,
        )
    }
}

/// The manifest: the records of `spec_manifest_pairs`, one per packed item,
/// in the order in which the entries are created.
pub open spec fn spec_manifest(items: Seq<ProcessedView>) -> Seq<char> {
    "["@ + spec_manifest_rows(spec_manifest_pairs(items), items.len()) + "]"@
}

/// The entries of the archive for these items: item `i` under entry name
/// `i + 1`, and the manifest last.
pub open spec fn spec_archive_entries(items: Seq<ProcessedView>) -> Seq<(Seq<char>, Seq<u8>)> {
    Seq::new(
        items.len() + 1,
        |i: int|
            if i < items.len() {
                (spec_entry_name((i + 1) as nat), items[i].output)
            } else {
                (spec_manifest_name(), encode_utf8(spec_manifest(items)))
            },
    )
}

/// Whether the writer takes entry `k` of these entries after the ones before
/// it.
pub open spec fn spec_step_fits(entries: Seq<(Seq<char>, Seq<u8>)>, k: int) -> bool {
    spec_entry_fits(entries.take(k), entries[k].0, entries[k].1)
}

/// Whether these items can be packed: the writer takes every entry of their
/// archive in turn, the manifest included, and can then be finalized.
pub open spec fn spec_packable(items: Seq<ProcessedView>) -> bool {
    let entries = spec_archive_entries(items);
    &&& forall|k: int| 0 <= k < entries.len() ==> #[trigger] spec_step_fits(entries, k)
    &&& zip_closes(entries)
}

/// The views of the items to pack.
pub open spec fn processed_views(items: Seq<ProcessedItem>) -> Seq<ProcessedView> {
    items.map_values(|p: ProcessedItem| p@)
}

/// What any step of writing the archive comes to: its value where the writer
/// succeeded, and `PackagingError` where it did not.
pub fn packaging_result<T>(step: Result<T, zip::result::ZipError>) -> (res: Result<T, BatchError>)
    ensures
        match step {
            Ok(v) => res == Ok::<T, BatchError>(v),
            Err(_) => res == Err::<T, BatchError>(BatchError::PackagingError),
        },
{
    match step {
        Ok(v) => Ok(v),
        Err(_) => Err(BatchError::PackagingError),
    }
}

impl ArchiveWriter {
    /// Starts an archive that holds nothing yet.
    pub fn new() -> (zip: ArchiveWriter)
        ensures
            archive_entries(zip) == Seq::<(Seq<char>, Seq<u8>)>::empty(),
    {
        zip_new()
    }

    /// Finalizes the archive and hands over its bytes. Where the writer
    /// cannot finalize, nothing of the container is handed over.
    pub fn finish(self) -> (res: Result<Vec<u8>, BatchError>)
        ensures
            res is Ok <==> zip_closes(archive_entries(self)),
            res matches Ok(bytes) ==> bytes@ == zip_encoding(archive_entries(self)),
            res matches Err(e) ==> e == BatchError::PackagingError,
    {
        packaging_result(zip_finish(self))
    }
}

/// Whether the writer, holding these entries, takes one more entry of this
/// name and content: it starts the entry and then takes the data for it.
pub open spec fn spec_entry_fits(
    entries: Seq<(Seq<char>, Seq<u8>)>,
    name: Seq<char>,
    data: Seq<u8>,
) -> bool {
    zip_starts(entries, name) && zip_writes(entries.push((name, Seq::<u8>::empty())), data)
}

/// Writes one entry, name and content, to the archive.
fn write_entry(zip: &mut ArchiveWriter, name: &str, data: &[u8]) -> (res: Result<(), BatchError>)
    ensures
        res is Ok <==> spec_entry_fits(archive_entries(*old(zip)), name@, data@),
        res is Ok ==> archive_entries(*final(zip)) == archive_entries(*old(zip)).push(
            (name@, data@),
        ),
        res matches Err(e) ==> e == BatchError::PackagingError,
{
    match packaging_result(zip_start_file(zip, name)) {
        Err(e) => Err(e),
        Ok(_) => {
            let ghost started = archive_entries(*zip);
            let res = packaging_result(zip_write_all(zip, data));
            proof {
                if res is Ok {
                    assert(started.drop_last() =~= archive_entries(*old(zip)));
                }
            }
            res
        },
    }
}

/// Writes one processed photograph to the archive as entry number `index`,
/// counting from one.
pub fn write_file_to_zip(zip: &mut ArchiveWriter, data: &[u8], index: usize) -> (res: Result<
    (),
    BatchError,
>)
    ensures
        res is Ok <==> spec_entry_fits(
            archive_entries(*old(zip)),
            spec_entry_name(index as nat),
            data@,
        ),
        res is Ok ==> archive_entries(*final(zip)) == archive_entries(*old(zip)).push(
            (spec_entry_name(index as nat), data@),
        ),
        res matches Err(e) ==> e == BatchError::PackagingError,
{
    let name = entry_name(index);
    write_entry(zip, name.as_str(), data)
}

/// Appends a duration in seconds, with six decimals.
fn push_seconds(out: &mut String, micros: u64)
    ensures
        final(out)@ == old(out)@ + spec_seconds(micros as nat),
{
    push_decimal(out, micros / 1_000_000);
    out.append(".");
    push_fixed_digits(out, micros % 1_000_000, 6);
    assert(final(out)@ =~= old(out)@ + spec_seconds(micros as nat));
}

/// Renders the manifest for the items to pack.
pub fn manifest_text(results: &Vec<ProcessedItem>) -> (text: String)
    ensures
        text@ == spec_manifest(processed_views(results@)),
{
    let ghost items = processed_views(results@);
    let ghost pairs = spec_manifest_pairs(items);
    let mut text = String::from_str("[");
    let mut i: usize = 0;
    assert(text@ =~= "["@ + spec_manifest_rows(pairs, 0));
    while i < results.len()
        invariant
            i <= results@.len(),
            items == processed_views(results@),
            pairs == spec_manifest_pairs(items),
            text@ == "["@ + spec_manifest_rows(pairs, i as nat),
        decreases results@.len() - i,
    {
        let ghost before = text@;
        if i > 0 {
            text.append(",");
        }
        text.append("{\"file\":\"");
        let name = entry_name(i + 1);
        text.append(name.as_str());
        text.append("\",\"duration\":");
        push_seconds(&mut text, results[i].duration_micros);
        text.append("}");
        proof {
            let sep = if i > 0 {
                ","@
            } else {
                Seq::<char>::empty()
            };
            assert(items[i as int].duration_micros == results@[i as int].duration_micros);
            assert(pairs[i as int] == (
                spec_entry_name((i + 1) as nat),
                results@[i as int].duration_micros,
            ));
            assert(text@ =~= before + sep + spec_manifest_row(pairs[i as int].0, pairs[i as int].1));
            assert(text@ =~= "["@ + spec_manifest_rows(pairs, (i + 1) as nat));
        }
        i = i + 1;
    }
    text.append("]");
    text
}

/// Packs the processed photographs and the manifest into one zip container
/// and finalizes it. It succeeds exactly when the items can be packed;
/// nothing is returned of a container that could not be written to the end.
pub fn create_zip_from_results(results: &Vec<ProcessedItem>) -> (res: Result<Vec<u8>, BatchError>)
    ensures
        res is Ok <==> spec_packable(processed_views(results@)),
        res matches Ok(bytes) ==> bytes@ == zip_encoding(
            spec_archive_entries(processed_views(results@)),
        ),
        res matches Err(e) ==> e == BatchError::PackagingError,
{
    let ghost items = processed_views(results@);
    let ghost want = spec_archive_entries(items);
    let mut zip = ArchiveWriter::new();
    let mut i: usize = 0;
    assert(archive_entries(zip) =~= want.take(0));
    while i < results.len()
        invariant
            i <= results@.len(),
            items == processed_views(results@),
            want == spec_archive_entries(items),
            archive_entries(zip) == want.take(i as int),
            forall|k: int| 0 <= k < i ==> #[trigger] spec_step_fits(want, k),
        decreases results@.len() - i,
    {
        proof {
            assert(items[i as int].output == results@[i as int].output@);
            assert(want[i as int] == (spec_entry_name((i + 1) as nat), results@[i as int].output@));
        }
        match write_file_to_zip(&mut zip, results[i].output.as_slice(), i + 1) {
            Err(e) => {
                assert(!spec_step_fits(want, i as int));
                return Err(e);
            },
            Ok(_) => {},
        }
        proof {
            assert(spec_step_fits(want, i as int));
            assert(archive_entries(zip) =~= want.take(i + 1));
        }
        i = i + 1;
    }
    let manifest = manifest_text(results);
    proof {
        assert(want[i as int] == (spec_manifest_name(), encode_utf8(spec_manifest(items))));
    }
    match write_entry(&mut zip, "timings.json", manifest.as_str().as_bytes()) {
        Err(e) => {
            assert(!spec_step_fits(want, i as int));
            return Err(e);
        },
        Ok(_) => {},
    }
    proof {
        assert(spec_step_fits(want, i as int));
        assert(archive_entries(zip) =~= want);
    }
    zip.finish()
}

/// The archive has one entry per processed photograph and one manifest, and
/// the manifest lists exactly one file name and duration per photograph, in
/// the order of the entries.
pub proof fn lemma_archive_counts(items: Seq<ProcessedView>)
    ensures
        spec_archive_entries(items).len() == items.len() + 1,
        spec_manifest_pairs(items).len() == items.len(),
        forall|i: int|
            0 <= i < items.len() ==> (#[trigger] spec_manifest_pairs(items)[i]).0
                == spec_archive_entries(items)[i].0 && spec_manifest_pairs(items)[i].1
                == items[i].duration_micros,
        spec_archive_entries(items).last().0 == spec_manifest_name(),
{
}

/// No two entries of an archive have the same name.
pub proof fn lemma_archive_names_unique(items: Seq<ProcessedView>, i: int, j: int)
    requires
        0 <= i < spec_archive_entries(items).len(),
        0 <= j < spec_archive_entries(items).len(),
        spec_archive_entries(items)[i].0 == spec_archive_entries(items)[j].0,
    ensures
        i == j,
{
    reveal_strlit("timings.json");
    reveal_strlit("watermarked_");
    let n = items.len() as int;
    if i < n && j < n {
        lemma_entry_names_distinct((i + 1) as nat, (j + 1) as nat);
    } else if i < n {
        assert(spec_entry_name((i + 1) as nat)[0] == 'w');
        assert(spec_manifest_name()[0] == 't');
    } else if j < n {
        assert(spec_entry_name((j + 1) as nat)[0] == 'w');
        assert(spec_manifest_name()[0] == 't');
    }
}

/// The archive of a finalized batch has exactly one entry per photograph
/// that succeeded, under the name that the item carries and with its output,
/// and the manifest lists exactly that many files with their durations.
pub proof fn lemma_archive_of_batch(slots: Seq<SlotView>)
    requires
        spec_finalize(slots) is Ok,
    ensures
        ({
            let items = spec_finalize(slots)->Ok_0.processed;
            let entries = spec_archive_entries(items);
            &&& items.len() == spec_successes(slots).len()
            &&& entries.len() == spec_successes(slots).len() + 1
            &&& spec_manifest_pairs(items).len() == spec_successes(slots).len()
            &&& forall|i: int|
                0 <= i < items.len() ==> (#[trigger] entries[i]) == (
                    items[i].entry_name,
                    spec_successes(slots)[i].0,
                ) && spec_manifest_pairs(items)[i] == (
                    items[i].entry_name,
                    spec_successes(slots)[i].1,
                )
        }),
{
    lemma_every_item_accounted(slots);
}

} // verus!
