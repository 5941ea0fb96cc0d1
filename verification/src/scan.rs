use vstd::prelude::*;
use crate::record::{RecordView, BasicPicture, recs_of};
use crate::row::{RawRow, RawRowView, decode_spec, decode_row, opt_rec};

verus! {

/// How many malformed rows an ordered scan skips before it treats the
/// sequence as exhausted.  The cap bounds the cost of a corrupted or
/// partially written backend; reaching it ends iteration silently, so an
/// exhausted-by-faults scan looks like an exhausted-by-completion one.
pub const MAX_SCAN_FAULTS: usize = 10;

/// State of a fault-tolerant scan: the entries yielded so far, the number
/// of malformed rows skipped, and whether the scan is still running.
pub ghost struct ScanState {
    pub out: Seq<RecordView>,
    pub faults: int,
    pub alive: bool,
}

/// The state a scan starts in.
pub open spec fn scan_init() -> ScanState {
    ScanState { out: Seq::empty(), faults: 0, alive: true }
}

/// One step of a fault-tolerant scan.  A decoded row is yielded.  A
/// malformed row is skipped while fewer than `MAX_SCAN_FAULTS` have been
/// skipped; one more malformed row ends the scan.  A finished scan absorbs
/// every further row.
pub open spec fn scan_step(st: ScanState, item: Option<RecordView>) -> ScanState {
    if !st.alive {
        st
    } else {
        match item {
            Some(r) => ScanState { out: st.out.push(r), faults: st.faults, alive: true },
            None => if st.faults >= MAX_SCAN_FAULTS as int {
                ScanState { out: st.out, faults: st.faults, alive: false }
            } else {
                ScanState { out: st.out, faults: st.faults + 1, alive: true }
            },
        }
    }
}

/// The state a scan reaches after processing a sequence of decode
/// outcomes, one per underlying row, in backend order.
pub open spec fn scan_fold(items: Seq<Option<RecordView>>) -> ScanState
    decreases items.len(),
{
    if items.len() == 0 {
        scan_init()
    } else {
        scan_step(scan_fold(items.drop_last()), items.last())
    }
}

/// The decode outcomes of a sequence of rows, given the outcome of each
/// row's zone lookup.
pub open spec fn decode_all(rows: Seq<RawRowView>, tz_oks: Seq<bool>) -> Seq<Option<RecordView>> {
    Seq::new(rows.len(), |i: int| decode_spec(rows[i], tz_oks[i]))
}

/// A finished scan stays finished: folding further items changes nothing.
pub proof fn lemma_scan_fold_dead(items: Seq<Option<RecordView>>, more: Seq<Option<RecordView>>)
    requires
        !scan_fold(items).alive,
    ensures
        scan_fold(items + more) == scan_fold(items),
    decreases more.len(),
{
    if more.len() == 0 {
        assert(items + more =~= items);
    } else {
        lemma_scan_fold_dead(items, more.drop_last());
        assert((items + more).drop_last() =~= items + more.drop_last());
        assert((items + more).last() == more.last());
        assert(scan_fold(items + more) == scan_step(
            scan_fold(items + more.drop_last()),
            more.last(),
        ));
    }
}

/// The number of malformed entries in a sequence of decode outcomes.
pub open spec fn fault_count(items: Seq<Option<RecordView>>) -> int
    decreases items.len(),
{
    if items.len() == 0 {
        0
    } else {
        fault_count(items.drop_last()) + if items.last() is None {
            1int
        } else {
            0int
        }
    }
}

/// The decoded entries of a sequence of decode outcomes, in order.
pub open spec fn decoded_values(items: Seq<Option<RecordView>>) -> Seq<RecordView>
    decreases items.len(),
{
    if items.len() == 0 {
        Seq::empty()
    } else {
        match items.last() {
            Some(r) => decoded_values(items.drop_last()).push(r),
            None => decoded_values(items.drop_last()),
        }
    }
}

/// A scan that stays within the fault cap yields exactly the decoded
/// entries, in order, and counts exactly the malformed ones.
pub proof fn lemma_scan_within_cap(items: Seq<Option<RecordView>>)
    requires
        fault_count(items) <= MAX_SCAN_FAULTS as int,
    ensures
        scan_fold(items).alive,
        scan_fold(items).out == decoded_values(items),
        scan_fold(items).faults == fault_count(items),
    decreases items.len(),
{
    if items.len() > 0 {
        assert(fault_count(items.drop_last()) <= fault_count(items)) by {
            lemma_fault_count_nonneg(items.drop_last());
        }
        lemma_scan_within_cap(items.drop_last());
    }
}

/// Malformed entries are never counted negatively.
pub proof fn lemma_fault_count_nonneg(items: Seq<Option<RecordView>>)
    ensures
        0 <= fault_count(items) <= items.len(),
    decreases items.len(),
{
    if items.len() > 0 {
        lemma_fault_count_nonneg(items.drop_last());
    }
}

/// Fault tolerance boundary.  With at most `MAX_SCAN_FAULTS` malformed
/// rows, every decoded row is still yielded.  With more, the scan ends at
/// the malformed row that follows the cap's worth of skipped ones,
/// yielding exactly the decoded rows seen before that point.
pub proof fn lemma_fault_tolerance(items: Seq<Option<RecordView>>)
    ensures
        fault_count(items) <= MAX_SCAN_FAULTS as int ==> scan_fold(items).out == decoded_values(
            items,
        ),
        fault_count(items) > MAX_SCAN_FAULTS as int ==> exists|i: int|
            {
                &&& 0 <= i < items.len()
                &&& items[i] is None
                &&& #[trigger] fault_count(items.take(i)) == MAX_SCAN_FAULTS as int
                &&& scan_fold(items).out == decoded_values(items.take(i))
            },
    decreases items.len(),
{
    if fault_count(items) <= MAX_SCAN_FAULTS as int {
        lemma_scan_within_cap(items);
    } else {
        let prefix = items.drop_last();
        lemma_fault_count_nonneg(prefix);
        if fault_count(prefix) > MAX_SCAN_FAULTS as int {
            lemma_fault_tolerance(prefix);
            let i = choose|i: int|
                {
                    &&& 0 <= i < prefix.len()
                    &&& prefix[i] is None
                    &&& #[trigger] fault_count(prefix.take(i)) == MAX_SCAN_FAULTS as int
                    &&& scan_fold(prefix).out == decoded_values(prefix.take(i))
                };
            assert(items.take(i) =~= prefix.take(i));
            assert(!scan_fold(prefix).alive) by {
                lemma_scan_dead_when_over_cap(prefix);
            }
            assert(scan_fold(items) == scan_step(scan_fold(prefix), items.last()));
            assert(fault_count(items.take(i)) == MAX_SCAN_FAULTS as int);
            assert(scan_fold(items).out == decoded_values(items.take(i)));
            assert(0 <= i < items.len() && items[i] is None);
        } else {
            // The last item is the malformed row beyond the cap.
            assert(fault_count(prefix) == MAX_SCAN_FAULTS as int && items.last() is None);
            lemma_scan_within_cap(prefix);
            let i = items.len() - 1;
            assert(items.take(i) =~= prefix);
            assert(scan_fold(items) == scan_step(scan_fold(prefix), items.last()));
            assert(scan_fold(items).out == decoded_values(items.take(i)));
        }
    }
}

/// A scan over more malformed rows than the cap has ended.
pub proof fn lemma_scan_dead_when_over_cap(items: Seq<Option<RecordView>>)
    requires
        fault_count(items) > MAX_SCAN_FAULTS as int,
    ensures
        !scan_fold(items).alive,
    decreases items.len(),
{
    lemma_fault_count_nonneg(items);
    let prefix = items.drop_last();
    lemma_fault_count_nonneg(prefix);
    if fault_count(prefix) > MAX_SCAN_FAULTS as int {
        lemma_scan_dead_when_over_cap(prefix);
    } else {
        assert(fault_count(prefix) == MAX_SCAN_FAULTS as int && items.last() is None);
        lemma_scan_within_cap(prefix);
    }
}

/// What a scan's driver should do with one more underlying row.
pub enum ScanAction {
    /// The row decoded: serve this entry.
    Yield(BasicPicture),
    /// The row was malformed and was skipped; keep going.
    Skip,
    /// The fault cap is spent: treat the sequence as exhausted.
    Stop,
}

/// What one consultation of a scan's fault counter did, given the outcome
/// `tz_ok` of the row's zone lookup: the fault count moves as one scan
/// step over the row's decode outcome, and the returned action matches it.
pub open spec fn on_row_post(
    faults0: int,
    faults1: int,
    row: RawRowView,
    tz_ok: bool,
    a: ScanAction,
) -> bool {
    let st0 = ScanState { out: Seq::empty(), faults: faults0, alive: true };
    let st1 = scan_step(st0, decode_spec(row, tz_ok));
    &&& faults1 == st1.faults
    &&& match decode_spec(row, tz_ok) {
        Some(rec) => a matches ScanAction::Yield(p) && p.rec() == rec && p.wf()
            && p.exif_create_time is None,
        None => if faults0 >= MAX_SCAN_FAULTS as int {
            a is Stop
        } else {
            a is Skip
        },
    }
}

/// The running fault counter of one ordered scan.  The counter starts at
/// zero for each scan and is consulted on every row pulled from the
/// backend.
pub struct ScanCounter {
    faults: usize,
}

impl ScanCounter {
    /// The number of malformed rows skipped so far.
    pub closed spec fn faults(&self) -> int {
        self.faults as int
    }

    /// Starts a scan with no faults seen.
    pub fn new() -> (r: ScanCounter)
        ensures
            r.faults() == 0,
    {
        ScanCounter { faults: 0 }
    }

    /// Decides what to do with one more underlying row: yield its entry if
    /// it decodes, skip it if it is malformed and the cap is not spent,
    /// and end the scan otherwise.
    pub fn on_row(&mut self, row: &RawRow) -> (a: ScanAction)
        requires
            0 <= old(self).faults() <= MAX_SCAN_FAULTS as int,
        ensures
            exists|tz_ok: bool|
                #[trigger] on_row_post(old(self).faults(), final(self).faults(), row@, tz_ok, a),
            0 <= final(self).faults() <= MAX_SCAN_FAULTS as int,
    {
        match decode_row(row) {
            Some(p) => {
                proof {
                    let tz_ok = choose|tz_ok: bool|
                        opt_rec(Some(p)) == decode_spec(row@, tz_ok);
                    assert(decode_spec(row@, tz_ok) == Some(p.rec()));
                    assert(on_row_post(
                        old(self).faults(),
                        self.faults(),
                        row@,
                        tz_ok,
                        ScanAction::Yield(p),
                    ));
                }
                ScanAction::Yield(p)
            },
            None => {
                if self.faults >= MAX_SCAN_FAULTS {
                    proof {
                        let tz_ok = choose|tz_ok: bool|
                            opt_rec(None::<BasicPicture>) == decode_spec(row@, tz_ok);
                        assert(decode_spec(row@, tz_ok) is None);
                        assert(on_row_post(
                            old(self).faults(),
                            self.faults(),
                            row@,
                            tz_ok,
                            ScanAction::Stop,
                        ));
                    }
                    ScanAction::Stop
                } else {
                    self.faults = self.faults + 1;
                    proof {
                        let tz_ok = choose|tz_ok: bool|
                            opt_rec(None::<BasicPicture>) == decode_spec(row@, tz_ok);
                        assert(decode_spec(row@, tz_ok) is None);
                        assert(on_row_post(
                            old(self).faults(),
                            self.faults(),
                            row@,
                            tz_ok,
                            ScanAction::Skip,
                        ));
                    }
                    ScanAction::Skip
                }
            },
        }
    }
}

/// The views of a sequence of persisted rows.
pub open spec fn row_views(rows: Seq<RawRow>) -> Seq<RawRowView> {
    rows.map_values(|r: RawRow| r@)
}

/// What a whole-snapshot scan returned, given the outcome of each row's
/// zone lookup: exactly the entries the fault-tolerant fold yields.
pub open spec fn scan_rows_post(
    rows: Seq<RawRowView>,
    out: Seq<BasicPicture>,
    tz_oks: Seq<bool>,
) -> bool {
    &&& tz_oks.len() == rows.len()
    &&& recs_of(out) == scan_fold(decode_all(rows, tz_oks)).out
}

/// Scans a snapshot of persisted rows in backend order, yielding the
/// entries of the rows that decode and skipping malformed ones up to the
/// fault cap, after which the rest of the snapshot is treated as
/// exhausted.
pub fn scan_rows(rows: &Vec<RawRow>) -> (out: Vec<BasicPicture>)
    ensures
        exists|tz_oks: Seq<bool>|
            #[trigger] scan_rows_post(row_views(rows@), out@, tz_oks),
        forall|i: int| 0 <= i < out@.len() ==> (#[trigger] out@[i]).wf() && out@[i].exif_create_time is None,
{
    let mut out: Vec<BasicPicture> = Vec::new();
    let mut counter = ScanCounter::new();
    let ghost mut tz_oks: Seq<bool> = Seq::empty();
    let ghost rowviews = row_views(rows@);
    let mut i: usize = 0;
    let mut running = true;
    while running && i < rows.len()
        invariant
            i <= rows@.len(),
            tz_oks.len() == i,
            rowviews == row_views(rows@),
            ({
                let st = scan_fold(decode_all(rowviews.take(i as int), tz_oks));
                &&& recs_of(out@) == st.out
                &&& counter.faults() == st.faults
                &&& st.alive == running
            }),
            0 <= counter.faults() <= MAX_SCAN_FAULTS as int,
            forall|k: int| 0 <= k < out@.len() ==> (#[trigger] out@[k]).wf() && out@[k].exif_create_time is None,
        decreases rows@.len() - i,
    {
        let ghost pre = decode_all(rowviews.take(i as int), tz_oks);
        let ghost faults0 = counter.faults();
        let a = counter.on_row(&rows[i]);
        proof {
            let tz_ok = choose|tz_ok: bool|
                #[trigger] on_row_post(faults0, counter.faults(), rowviews[i as int], tz_ok, a);
            tz_oks = tz_oks.push(tz_ok);
            assert(decode_all(rowviews.take(i + 1), tz_oks) =~= pre.push(
                decode_spec(rowviews[i as int], tz_ok),
            ));
            assert(decode_all(rowviews.take(i + 1), tz_oks).drop_last() =~= pre);
        }
        match a {
            ScanAction::Yield(p) => {
                let ghost old_out = out@;
                out.push(p);
                proof {
                    assert(recs_of(out@) =~= recs_of(old_out).push(p.rec()));
                }
            },
            ScanAction::Skip => {},
            ScanAction::Stop => {
                running = false;
            },
        }
        i = i + 1;
    }
    proof {
        if i < rows@.len() {
            // The scan ended at the fault cap; the unseen suffix is
            // absorbed by the finished state, whatever it decodes to.
            let padded = tz_oks + Seq::new((rowviews.len() - i) as nat, |k: int| true);
            let pre = decode_all(rowviews.take(i as int), tz_oks);
            let full = decode_all(rowviews, padded);
            assert(full.take(i as int) =~= pre);
            assert(full =~= pre + full.skip(i as int));
            lemma_scan_fold_dead(pre, full.skip(i as int));
            assert(recs_of(out@) == scan_fold(full).out);
            assert(scan_rows_post(rowviews, out@, padded));
        } else {
            assert(rowviews.take(i as int) =~= rowviews);
            assert(scan_rows_post(rowviews, out@, tz_oks));
        }
    }
    out
}

} // verus!
