//! Batch bookkeeping: what comes out of processing each photograph, and how
//! the outcomes of a whole batch are turned into its result.
//!
//! Outcomes may arrive in any order. Each is filed under the position at
//! which its photograph was submitted, and entry names are handed out only
//! when the batch is finalized, by walking the positions in order. So the
//! names do not depend on which photograph finished first.

use vstd::prelude::*;
use vstd::string::StringExecFns;
use crate::error::{BatchError, ItemFailure};
use crate::text::{
    digit_char,
    lemma_decimal_digits,
    lemma_decimal_injective,
    push_decimal,
    spec_decimal,
};

verus! {

/// One photograph of a batch, as submitted. The identifier is advisory: it
/// is reported back with a failure and never used as a path.
#[derive(Debug)]
pub struct BatchItem {
    pub identifier: String,
    pub source: Vec<u8>,
}

/// What processing one photograph gave, and how long it took.
#[derive(Debug)]
pub struct ItemOutcome {
    pub result: Result<Vec<u8>, ItemFailure>,
    pub duration_micros: u64,
}

/// A successfully processed photograph, ready to be packed.
#[derive(Debug)]
pub struct ProcessedItem {
    pub entry_name: String,
    pub output: Vec<u8>,
    pub duration_micros: u64,
}

/// A photograph that was skipped, and why.
#[derive(Debug)]
pub struct FailedItem {
    pub identifier: String,
    pub reason: ItemFailure,
}

/// The result of a batch in which at least one photograph succeeded.
#[derive(Debug)]
pub struct BatchResult {
    pub processed: Vec<ProcessedItem>,
    pub failures: Vec<FailedItem>,
}

pub struct PhotoView {
    pub identifier: Seq<char>,
    pub source: Seq<u8>,
}

pub struct OutcomeView {
    pub result: Result<Seq<u8>, ItemFailure>,
    pub duration_micros: u64,
}

pub struct ProcessedView {
    pub entry_name: Seq<char>,
    pub output: Seq<u8>,
    pub duration_micros: u64,
}

pub struct FailedView {
    pub identifier: Seq<char>,
    pub reason: ItemFailure,
}

pub struct BatchResultView {
    pub processed: Seq<ProcessedView>,
    pub failures: Seq<FailedView>,
}

/// One position of a batch: the identifier submitted there and the outcome
/// filed for it, if any.
pub struct SlotView {
    pub identifier: Seq<char>,
    pub outcome: Option<OutcomeView>,
}

impl View for BatchItem {
    type V = PhotoView;

    open spec fn view(&self) -> PhotoView {
        PhotoView { identifier: self.identifier@, source: self.source@ }
    }
}

impl View for ItemOutcome {
    type V = OutcomeView;

    open spec fn view(&self) -> OutcomeView {
        OutcomeView {
            result: match self.result {
                Ok(bytes) => Ok(bytes@),
                Err(e) => Err(e),
            },
            duration_micros: self.duration_micros,
        }
    }
}

impl View for ProcessedItem {
    type V = ProcessedView;

    open spec fn view(&self) -> ProcessedView {
        ProcessedView {
            entry_name: self.entry_name@,
            output: self.output@,
            duration_micros: self.duration_micros,
        }
    }
}

impl View for FailedItem {
    type V = FailedView;

    open spec fn view(&self) -> FailedView {
        FailedView { identifier: self.identifier@, reason: self.reason }
    }
}

impl View for BatchResult {
    type V = BatchResultView;

    open spec fn view(&self) -> BatchResultView {
        BatchResultView {
            processed: self.processed@.map_values(|p: ProcessedItem| p@),
            failures: self.failures@.map_values(|f: FailedItem| f@),
        }
    }
}

/// The name of the `n`-th entry of an archive, counting from one.
pub open spec fn spec_entry_name(n: nat) -> Seq<char> {
    "watermarked_"@ + spec_decimal(n) + ".png"@
}

/// The name of the `n`-th entry of an archive, counting from one.
pub fn entry_name(n: usize) -> (name: String)
    ensures
        name@ == spec_entry_name(n as nat),
{
    let mut name = String::from_str("watermarked_");
    push_decimal(&mut name, n as u64);
    name.append(".png");
    name
}

/// Different positions get different entry names.
pub proof fn lemma_entry_names_distinct(a: nat, b: nat)
    requires
        spec_entry_name(a) == spec_entry_name(b),
    ensures
        a == b,
{
    let p = "watermarked_"@;
    let s = ".png"@;
    let da = spec_decimal(a);
    let db = spec_decimal(b);
    assert((p + da + s).len() == p.len() + da.len() + s.len());
    assert((p + db + s).len() == p.len() + db.len() + s.len());
    assert forall|i: int| 0 <= i < da.len() implies da[i] == db[i] by {
        assert((p + da + s)[p.len() + i] == da[i]);
        assert((p + db + s)[p.len() + i] == db[i]);
    }
    assert(da =~= db);
    lemma_decimal_injective(a, b);
}

/// Entry names hold no quote and no backslash, so they can stand between
/// quotes in the manifest as they are.
pub proof fn lemma_entry_name_plain(n: nat, i: int)
    requires
        0 <= i < spec_entry_name(n).len(),
    ensures
        spec_entry_name(n)[i] != '"',
        spec_entry_name(n)[i] != '\\',
{
    reveal_strlit("watermarked_");
    reveal_strlit(".png");
    let p = "watermarked_"@;
    let d = spec_decimal(n);
    if p.len() <= i < p.len() + d.len() {
        lemma_decimal_digits(n, i - p.len());
        let k = choose|k: int| 0 <= k < 10 && d[i - p.len()] == #[trigger] digit_char(k);
        assert(spec_entry_name(n)[i] == digit_char(k));
    }
}

/// The failure that a position of the batch stands for, if it is one. A
/// position for which no outcome was ever filed counts as a failed worker.
pub open spec fn slot_failure(slot: SlotView) -> Option<ItemFailure> {
    match slot.outcome {
        None => Some(ItemFailure::WorkerFailed),
        Some(o) => match o.result {
            Ok(_) => None,
            Err(e) => Some(e),
        },
    }
}

/// The outputs of the positions that succeeded, with their durations, in
/// the order of submission.
pub open spec fn spec_successes(slots: Seq<SlotView>) -> Seq<(Seq<u8>, u64)>
    decreases slots.len(),
{
    if slots.len() == 0 {
        Seq::empty()
    } else {
        let rest = spec_successes(slots.drop_last());
        match slots.last().outcome {
            Some(OutcomeView { result: Ok(bytes), duration_micros }) => rest.push(
                (bytes, duration_micros),
            ),
            _ => rest,
        }
    }
}

/// The positions that failed, by identifier and reason, in the order of
/// submission.
pub open spec fn spec_failures(slots: Seq<SlotView>) -> Seq<FailedView>
    decreases slots.len(),
{
    if slots.len() == 0 {
        Seq::empty()
    } else {
        let rest = spec_failures(slots.drop_last());
        match slot_failure(slots.last()) {
            Some(reason) => rest.push(FailedView { identifier: slots.last().identifier, reason }),
            None => rest,
        }
    }
}

/// The processed items of a batch: the successes in the order of submission,
/// the `i`-th of them named as entry `i + 1`.
pub open spec fn spec_processed(slots: Seq<SlotView>) -> Seq<ProcessedView> {
    let ok = spec_successes(slots);
    Seq::new(
        ok.len(),
        |i: int|
            ProcessedView {
                entry_name: spec_entry_name((i + 1) as nat),
                output: ok[i].0,
                duration_micros: ok[i].1,
            },
    )
}

/// The result of a batch: `NoValidOutputs` when no position succeeded, and
/// otherwise the processed items beside the failures.
pub open spec fn spec_finalize(slots: Seq<SlotView>) -> Result<BatchResultView, BatchError> {
    if spec_successes(slots).len() == 0 {
        Err(BatchError::NoValidOutputs)
    } else {
        Ok(BatchResultView { processed: spec_processed(slots), failures: spec_failures(slots) })
    }
}

/// One position of a batch under way.
#[derive(Debug)]
pub struct Slot {
    identifier: String,
    outcome: Option<ItemOutcome>,
}

impl View for Slot {
    type V = SlotView;

    closed spec fn view(&self) -> SlotView {
        SlotView {
            identifier: self.identifier@,
            outcome: match self.outcome {
                Some(o) => Some(o@),
                None => None,
            },
        }
    }
}

/// Collects the outcomes of a batch as they arrive, in whatever order.
#[derive(Debug)]
pub struct BatchCollector {
    slots: Vec<Slot>,
}

impl View for BatchCollector {
    type V = Seq<SlotView>;

    closed spec fn view(&self) -> Seq<SlotView> {
        self.slots@.map_values(|s: Slot| s@)
    }
}

/// A batch of which nothing has been heard yet.
pub open spec fn spec_pending(identifiers: Seq<String>) -> Seq<SlotView> {
    Seq::new(
        identifiers.len(),
        |i: int| SlotView { identifier: identifiers[i]@, outcome: None::<OutcomeView> },
    )
}

/// Filing an outcome under a position: the first outcome for a position
/// inside the batch is kept, anything else changes nothing.
pub open spec fn spec_record(slots: Seq<SlotView>, index: int, outcome: OutcomeView) -> Seq<
    SlotView,
> {
    if 0 <= index < slots.len() && slots[index].outcome is None {
        slots.update(index, SlotView { identifier: slots[index].identifier, outcome: Some(outcome) })
    } else {
        slots
    }
}

impl BatchCollector {
    /// Starts a batch with one position per identifier, in the order of
    /// submission.
    pub fn new(identifiers: Vec<String>) -> (c: BatchCollector)
        ensures
            c@ == spec_pending(identifiers@),
    {
        let ghost all = identifiers@;
        let mut slots: Vec<Slot> = Vec::new();
        for identifier in it: identifiers
            invariant
                it.seq() == all,
                slots@.len() == it.index(),
                forall|j: int|
                    0 <= j < slots@.len() ==> (#[trigger] slots@[j])@ == (SlotView {
                        identifier: all[j]@,
                        outcome: None::<OutcomeView>,
                    }),
        {
            slots.push(Slot { identifier, outcome: None });
        }
        let c = BatchCollector { slots };
        assert(c@ =~= spec_pending(all));
        c
    }

    /// The number of positions.
    pub fn len(&self) -> (n: usize)
        ensures
            n == self@.len(),
    {
        self.slots.len()
    }

    /// Files the outcome of the photograph submitted at `index`. Returns
    /// whether it was kept.
    pub fn record(&mut self, index: usize, outcome: ItemOutcome) -> (kept: bool)
        ensures
            kept <==> (index < old(self)@.len() && old(self)@[index as int].outcome is None),
            final(self)@ == spec_record(old(self)@, index as int, outcome@),
    {
        if index >= self.slots.len() {
            return false;
        }
        let ghost before = self.slots@;
        let slot = &mut self.slots[index];
        if slot.outcome.is_some() {
            return false;
        }
        slot.outcome = Some(outcome);
        proof {
            assert(self.slots@.len() == before.len());
            assert(self@ =~= spec_record(old(self)@, index as int, outcome@));
        }
        true
    }

    /// Closes the batch. Positions are walked in the order of submission:
    /// each success becomes a processed item under the next entry name, each
    /// failure is reported with its identifier, and a position without an
    /// outcome counts as a failed worker. With no success at all the batch
    /// fails as a whole.
    pub fn finalize(self) -> (res: Result<BatchResult, BatchError>)
        ensures
            match spec_finalize(self@) {
                Ok(v) => res matches Ok(r) && r@ == v,
                Err(e) => res == Err::<BatchResult, BatchError>(e),
            },
    {
        let ghost all = self@;
        let ghost raw = self.slots@;
        let total = self.slots.len();
        let mut processed: Vec<ProcessedItem> = Vec::new();
        let mut failures: Vec<FailedItem> = Vec::new();
        proof {
            assert(all.take(0) =~= Seq::<SlotView>::empty());
            assert(processed@.map_values(|p: ProcessedItem| p@) =~= spec_processed(all.take(0)));
            assert(failures@.map_values(|f: FailedItem| f@) =~= spec_failures(all.take(0)));
        }
        for slot in it: self.slots
            invariant
                it.seq() == raw,
                raw.len() == total,
                all == raw.map_values(|s: Slot| s@),
                processed@.len() <= it.index(),
                processed@.map_values(|p: ProcessedItem| p@) == spec_processed(
                    all.take(it.index() as int),
                ),
                processed@.len() == spec_successes(all.take(it.index() as int)).len(),
                failures@.map_values(|f: FailedItem| f@) == spec_failures(
                    all.take(it.index() as int),
                ),
        {
            let ghost i = it.index() as int;
            let ghost prev = all.take(i);
            let ghost next = all.take(i + 1);
            proof {
                assert(i < total);
                assert(slot@ == all[i]);
                assert(next.drop_last() =~= prev);
                assert(next.last() == all[i]);
            }
            let Slot { identifier, outcome } = slot;
            match outcome {
                Some(ItemOutcome { result: Ok(output), duration_micros }) => {
                    let name = entry_name(processed.len() + 1);
                    let ghost old_processed = processed@;
                    processed.push(ProcessedItem { entry_name: name, output, duration_micros });
                    proof {
                        assert(spec_successes(next) == spec_successes(prev).push(
                            (output@, duration_micros),
                        ));
                        assert(processed@.map_values(|p: ProcessedItem| p@) =~= spec_processed(
                            next,
                        )) by {
                            let lhs = processed@.map_values(|p: ProcessedItem| p@);
                            let rhs = spec_processed(next);
                            assert(lhs.len() == rhs.len());
                            assert forall|k: int| 0 <= k < lhs.len() implies lhs[k] == rhs[k] by {
                                if k < old_processed.len() {
                                    assert(lhs[k] == old_processed.map_values(
                                        |p: ProcessedItem| p@,
                                    )[k]);
                                    assert(spec_processed(prev)[k] == rhs[k]);
                                }
                            }
                        }
                        assert(spec_failures(next) == spec_failures(prev));
                    }
                },
                Some(ItemOutcome { result: Err(reason), duration_micros: _ }) => {
                    let ghost old_failures = failures@;
                    failures.push(FailedItem { identifier, reason });
                    proof {
                        assert(spec_successes(next) == spec_successes(prev));
                        assert(spec_processed(next) =~= spec_processed(prev));
                        assert(failures@.map_values(|f: FailedItem| f@) =~= old_failures.map_values(
                            |f: FailedItem| f@,
                        ).push(FailedView { identifier: identifier@, reason }));
                    }
                },
                None => {
                    let ghost old_failures = failures@;
                    failures.push(FailedItem { identifier, reason: ItemFailure::WorkerFailed });
                    proof {
                        assert(spec_successes(next) == spec_successes(prev));
                        assert(spec_processed(next) =~= spec_processed(prev));
                        assert(failures@.map_values(|f: FailedItem| f@) =~= old_failures.map_values(
                            |f: FailedItem| f@,
                        ).push(
                            FailedView {
                                identifier: identifier@,
                                reason: ItemFailure::WorkerFailed,
                            },
                        ));
                    }
                },
            }
        }
        proof {
            assert(all.take(raw.len() as int) =~= all);
        }
        if processed.len() == 0 {
            Err(BatchError::NoValidOutputs)
        } else {
            Ok(BatchResult { processed, failures })
        }
    }
}

/// The positions of a batch whose outcomes are at hand in the order of
/// submission: position `i` holds outcome `i`, and a position beyond the
/// outcomes holds none.
pub open spec fn spec_filed(identifiers: Seq<String>, outcomes: Seq<ItemOutcome>) -> Seq<SlotView> {
    Seq::new(
        identifiers.len(),
        |i: int|
            SlotView {
                identifier: identifiers[i]@,
                outcome: if i < outcomes.len() {
                    Some(outcomes[i]@)
                } else {
                    None
                },
            },
    )
}

/// Turns the outcomes of a batch, given in the order of submission, into its
/// result. Outcomes beyond the last identifier are ignored.
pub fn assemble_batch(identifiers: Vec<String>, outcomes: Vec<ItemOutcome>) -> (res: Result<
    BatchResult,
    BatchError,
>)
    ensures
        match spec_finalize(spec_filed(identifiers@, outcomes@)) {
            Ok(v) => res matches Ok(r) && r@ == v,
            Err(e) => res == Err::<BatchResult, BatchError>(e),
        },
{
    let ghost ids = identifiers@;
    let ghost all = outcomes@;
    let total = outcomes.len();
    let mut collector = BatchCollector::new(identifiers);
    let mut index: usize = 0;
    for outcome in it: outcomes
        invariant
            it.seq() == all,
            all.len() == total,
            index == it.index(),
            collector@.len() == ids.len(),
            forall|j: int|
                0 <= j < ids.len() ==> #[trigger] collector@[j] == (SlotView {
                    identifier: ids[j]@,
                    outcome: if j < it.index() {
                        Some(all[j]@)
                    } else {
                        None
                    },
                }),
    {
        let _ = collector.record(index, outcome);
        index = index + 1;
    }
    assert(collector@ =~= spec_filed(ids, all));
    collector.finalize()
}

/// Every position of a batch ends up either among the successes or among the
/// failures.
pub proof fn lemma_every_item_accounted(slots: Seq<SlotView>)
    ensures
        spec_successes(slots).len() + spec_failures(slots).len() == slots.len(),
        spec_processed(slots).len() == spec_successes(slots).len(),
    decreases slots.len(),
{
    if slots.len() > 0 {
        lemma_every_item_accounted(slots.drop_last());
    }
}

/// The processed items carry the entry names 1, 2, 3, ..., and no two of
/// them the same name.
pub proof fn lemma_processed_names(slots: Seq<SlotView>, i: int, j: int)
    requires
        0 <= i < spec_processed(slots).len(),
        0 <= j < spec_processed(slots).len(),
    ensures
        spec_processed(slots)[i].entry_name == spec_entry_name((i + 1) as nat),
        spec_processed(slots)[i].entry_name == spec_processed(slots)[j].entry_name ==> i == j,
{
    if spec_processed(slots)[i].entry_name == spec_processed(slots)[j].entry_name {
        lemma_entry_names_distinct((i + 1) as nat, (j + 1) as nat);
    }
}

/// Outcomes filed under different positions can be filed in either order:
/// the batch, and with it every entry name, is the same.
pub proof fn lemma_record_order_irrelevant(
    slots: Seq<SlotView>,
    first: int,
    a: OutcomeView,
    second: int,
    b: OutcomeView,
)
    requires
        first != second,
    ensures
        spec_record(spec_record(slots, first, a), second, b) == spec_record(
            spec_record(slots, second, b),
            first,
            a,
        ),
        spec_finalize(spec_record(spec_record(slots, first, a), second, b)) == spec_finalize(
            spec_record(spec_record(slots, second, b), first, a),
        ),
{
    assert(spec_record(spec_record(slots, first, a), second, b) =~= spec_record(
        spec_record(slots, second, b),
        first,
        a,
    ));
}

/// A batch without a single success fails as a whole; any other batch
/// succeeds with at least one processed item.
pub proof fn lemma_no_valid_outputs(slots: Seq<SlotView>)
    ensures
        spec_finalize(slots) is Err <==> spec_successes(slots).len() == 0,
        spec_finalize(slots) matches Err(e) ==> e == BatchError::NoValidOutputs,
        spec_finalize(slots) matches Ok(v) ==> v.processed.len() >= 1 && v.processed.len()
            + v.failures.len() == slots.len(),
{
    lemma_every_item_accounted(slots);
}

/// What was filed for a position, without the time it took.
pub open spec fn slot_result(slot: SlotView) -> Option<Result<Seq<u8>, ItemFailure>> {
    match slot.outcome {
        Some(o) => Some(o.result),
        None => None,
    }
}

/// Whether two runs of a batch agree in everything but the durations: the
/// same identifiers, and for every photograph the same result.
pub open spec fn same_results(first: Seq<SlotView>, second: Seq<SlotView>) -> bool {
    &&& first.len() == second.len()
    &&& forall|i: int|
        0 <= i < first.len() ==> (#[trigger] first[i]).identifier == second[i].identifier
            && slot_result(first[i]) == slot_result(second[i])
}

/// Running a batch again gives the same outputs under the same entry names,
/// and the same failures, as soon as every photograph gives the same result
/// again. Only the durations may differ between the runs.
pub proof fn lemma_rerun_same_outputs(first: Seq<SlotView>, second: Seq<SlotView>)
    requires
        same_results(first, second),
    ensures
        spec_successes(first).len() == spec_successes(second).len(),
        forall|i: int|
            0 <= i < spec_successes(first).len() ==> (#[trigger] spec_successes(first)[i]).0
                == spec_successes(second)[i].0,
        forall|i: int|
            0 <= i < spec_processed(first).len() ==> (#[trigger] spec_processed(first)[i]).entry_name
                == spec_processed(second)[i].entry_name && spec_processed(first)[i].output
                == spec_processed(second)[i].output,
        spec_failures(first) == spec_failures(second),
        spec_finalize(first) is Ok <==> spec_finalize(second) is Ok,
    decreases first.len(),
{
    if first.len() > 0 {
        let a = first.drop_last();
        let b = second.drop_last();
        assert(same_results(a, b)) by {
            assert forall|i: int| 0 <= i < a.len() implies (#[trigger] a[i]).identifier
                == b[i].identifier && slot_result(a[i]) == slot_result(b[i]) by {
                assert(a[i] == first[i] && b[i] == second[i]);
            }
        }
        lemma_rerun_same_outputs(a, b);
        assert(slot_result(first.last()) == slot_result(second.last()));
        assert(first.last().identifier == second.last().identifier);
    }
}

} // verus!
