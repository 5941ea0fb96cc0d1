use vstd::prelude::*;
use crate::error::StoreError;
use crate::order::OrderBy;
use crate::record::{PictureRecord, BasicPicture, RecordView, recs_of};
use crate::row::{RawRow, RawRowView, encode_row, encode_spec, decode_spec};
use crate::scan::{
    scan_rows, scan_rows_post, scan_fold, decode_all, row_views, fault_count, decoded_values,
    lemma_scan_within_cap,
};
use crate::sorting::{
    sort_by_instant, sort_records, sorted_by_instant, lemma_sort_props, lemma_sorted_take,
};
use crate::writer::{Batcher, BATCH_THRESHOLD};

verus! {

/// The rows a sequence of records is persisted as, in order.
pub open spec fn encode_seq(recs: Seq<PictureRecord>) -> Seq<RawRowView> {
    recs.map_values(|p: PictureRecord| encode_spec(p@))
}

/// Every record in the sequence decodes back from its persisted row,
/// provided its zone name still resolves.
pub open spec fn encodes_back(recs: Seq<PictureRecord>) -> bool {
    forall|i: int|
        0 <= i < recs.len() ==> decode_spec(encode_spec((#[trigger] recs[i])@), true) == Some(
            recs[i]@,
        )
}

/// The record views of a sequence of records.
pub open spec fn views_of(recs: Seq<PictureRecord>) -> Seq<RecordView> {
    recs.map_values(|p: PictureRecord| p@)
}

/// Rows accumulate batch by batch: what several commits persist is what
/// one commit of everything would have persisted, so the round-trip law
/// covers a backend filled by any number of flushes.
pub proof fn lemma_encode_seq_concat(a: Seq<PictureRecord>, b: Seq<PictureRecord>)
    ensures
        encode_seq(a + b) == encode_seq(a) + encode_seq(b),
        encodes_back(a) && encodes_back(b) ==> encodes_back(a + b),
{
    assert(encode_seq(a + b) =~= encode_seq(a) + encode_seq(b));
    if encodes_back(a) && encodes_back(b) {
        assert forall|i: int|
            0 <= i < (a + b).len() implies decode_spec(
            encode_spec((#[trigger] (a + b)[i])@),
            true,
        ) == Some((a + b)[i]@) by {
            if i < a.len() {
                assert((a + b)[i] == a[i]);
            } else {
                assert((a + b)[i] == b[i - a.len()]);
            }
        }
    }
}

/// An in-memory backend: the persisted table as a sequence of rows in
/// commit order.  It stands in for a durable engine, so a backend can
/// also be seeded with pre-existing rows, malformed ones included.
pub struct MemBackend {
    rows: Vec<RawRow>,
}

impl View for MemBackend {
    type V = Seq<RawRowView>;

    closed spec fn view(&self) -> Seq<RawRowView> {
        row_views(self.rows@)
    }
}

impl MemBackend {
    /// Opens an empty backend: the fixed schema with no rows yet.
    pub fn new() -> (r: MemBackend)
        ensures
            r@ == Seq::<RawRowView>::empty(),
    {
        let r = MemBackend { rows: Vec::new() };
        proof {
            assert(r@ =~= Seq::<RawRowView>::empty());
        }
        r
    }

    /// Appends one raw row, as an external process or an earlier run of
    /// the system might have left it, malformed or not.
    pub fn push_row(&mut self, row: RawRow)
        ensures
            final(self)@ == old(self)@.push(row@),
    {
        let ghost v = row@;
        self.rows.push(row);
        proof {
            assert(self@ =~= old(self)@.push(v));
        }
    }

    /// How many rows the table holds.
    pub fn row_count(&self) -> (n: usize)
        ensures
            n == self@.len(),
    {
        self.rows.len()
    }
}

/// Commits one batch to the backend as one atomic unit: every record of
/// the batch is encoded and appended, in order.
fn commit_batch(backend: &mut MemBackend, batch: Vec<PictureRecord>)
    requires
        forall|i: int| 0 <= i < batch@.len() ==> (#[trigger] batch@[i]).wf(),
    ensures
        final(backend)@ == old(backend)@ + encode_seq(batch@),
        encodes_back(batch@),
{
    let ghost batchseq = batch@;
    let total = batch.len();
    let mut rest = batch;
    let ghost start = backend@;
    let mut i: usize = 0;
    proof {
        assert(backend@ =~= start + encode_seq(batchseq.take(0)));
    }
    while rest.len() > 0
        invariant
            total == batchseq.len(),
            i + rest@.len() == batchseq.len(),
            rest@ == batchseq.skip(i as int),
            backend@ == start + encode_seq(batchseq.take(i as int)),
            forall|k: int| 0 <= k < batchseq.len() ==> (#[trigger] batchseq[k]).wf(),
            forall|k: int|
                0 <= k < i ==> decode_spec(encode_spec((#[trigger] batchseq[k])@), true) == Some(
                    batchseq[k]@,
                ),
        decreases rest@.len(),
    {
        let rec = rest.remove(0);
        proof {
            assert(rec == batchseq[i as int]);
            assert(rest@ =~= batchseq.skip(i + 1));
        }
        let ghost recv = rec@;
        let row = encode_row(rec);
        backend.push_row(row);
        proof {
            assert(encode_seq(batchseq.take(i + 1)) =~= encode_seq(batchseq.take(i as int)).push(
                encode_spec(recv),
            ));
            assert(backend@ =~= start + encode_seq(batchseq.take(i + 1)));
        }
        i = i + 1;
    }
    proof {
        assert(batchseq.take(batchseq.len() as int) =~= batchseq);
    }
}

/// A batched writer over an in-memory backend.  It owns the backend and
/// its buffer; records accepted beyond the threshold are committed
/// automatically, and an explicit flush commits the rest.
pub struct MemWriter {
    backend: MemBackend,
    batcher: Batcher,
    commits: usize,
}

impl MemWriter {
    /// The rows the backend holds, in commit order.
    pub closed spec fn rows(&self) -> Seq<RawRowView> {
        self.backend@
    }

    /// The records accepted and not yet committed, oldest first.
    pub closed spec fn pending(&self) -> Seq<PictureRecord> {
        self.batcher.queue()
    }

    /// How many atomic commits this writer has performed.
    pub closed spec fn commit_count(&self) -> int {
        self.commits as int
    }

    /// The writer's internal consistency: the buffer never exceeds the
    /// threshold between calls, everything buffered is a valid record,
    /// and commits performed are bounded by rows committed.
    pub closed spec fn inv(&self) -> bool {
        &&& self.batcher.queue().len() <= BATCH_THRESHOLD
        &&& forall|i: int|
            0 <= i < self.batcher.queue().len() ==> (#[trigger] self.batcher.queue()[i]).wf()
        &&& self.commits <= self.backend@.len()
    }

    /// Wraps a backend in a fresh writer with an empty buffer.
    pub fn new(backend: MemBackend) -> (w: MemWriter)
        ensures
            w.inv(),
            w.rows() == backend@,
            w.pending() == Seq::<PictureRecord>::empty(),
            w.commit_count() == 0,
    {
        MemWriter { backend, batcher: Batcher::new(), commits: 0 }
    }

    /// How many atomic commits this writer has performed so far.
    pub fn num_commits(&self) -> (n: usize)
        ensures
            n == self.commit_count(),
    {
        self.commits
    }

    /// Hands the backend back, for a reader to snapshot.  Anything still
    /// buffered stays buffered in the discarded writer; flush first to
    /// persist it.
    pub fn into_backend(self) -> (b: MemBackend)
        ensures
            b@ == self.rows(),
    {
        self.backend
    }

    /// Accepts one record: buffers it, and when the buffer then exceeds
    /// the threshold, synchronously commits the whole batch as one atomic
    /// unit.  Acceptance itself never fails.
    pub fn on_op(&mut self, record: PictureRecord) -> (r: Result<(), StoreError>)
        requires
            old(self).inv(),
            record.wf(),
        ensures
            final(self).inv(),
            r is Ok,
            old(self).pending().len() + 1 > BATCH_THRESHOLD ==> ({
                &&& final(self).rows() == old(self).rows() + encode_seq(
                    old(self).pending().push(record),
                )
                &&& encodes_back(old(self).pending().push(record))
                &&& final(self).pending() == Seq::<PictureRecord>::empty()
                &&& final(self).commit_count() == old(self).commit_count() + 1
            }),
            old(self).pending().len() + 1 <= BATCH_THRESHOLD ==> ({
                &&& final(self).rows() == old(self).rows()
                &&& final(self).pending() == old(self).pending().push(record)
                &&& final(self).commit_count() == old(self).commit_count()
            }),
    {
        match self.batcher.accept(record) {
            Some(batch) => {
                commit_batch(&mut self.backend, batch);
                // The row count bounds the commit counter, so the
                // increment below cannot overflow.
                let n = self.backend.row_count();
                proof {
                    assert(self.commits < n);
                }
                self.commits = self.commits + 1;
                Ok(())
            },
            None => Ok(()),
        }
    }

    /// Forces everything buffered to the backend as one atomic commit.
    /// An empty buffer is a no-op success and performs no commit.  The
    /// buffer is cleared only after the commit succeeded.
    pub fn flush(&mut self) -> (r: Result<(), StoreError>)
        requires
            old(self).inv(),
        ensures
            final(self).inv(),
            r is Ok,
            final(self).rows() == old(self).rows() + encode_seq(old(self).pending()),
            encodes_back(old(self).pending()),
            final(self).pending() == Seq::<PictureRecord>::empty(),
            final(self).commit_count() == old(self).commit_count() + if old(
                self,
            ).pending().len() == 0 {
                0int
            } else {
                1int
            },
    {
        if self.batcher.pending() == 0 {
            proof {
                assert(encode_seq(old(self).pending()) =~= Seq::<RawRowView>::empty());
                assert(self.rows() =~= old(self).rows() + encode_seq(old(self).pending()));
                assert(self.pending() =~= Seq::<PictureRecord>::empty());
            }
            return Ok(());
        }
        let batch = self.batcher.drain();
        commit_batch(&mut self.backend, batch);
        // The row count bounds the commit counter, so the increment
        // below cannot overflow.
        let n = self.backend.row_count();
        proof {
            assert(self.commits < n);
        }
        self.commits = self.commits + 1;
        Ok(())
    }
}

/// What an ordered, limited load of a snapshot returns, given the
/// outcome of each row's zone lookup: the rows that decode, up to the
/// fault cap, ordered by creation instant ascending, truncated to the
/// limit when one is set.  A limit of zero means unbounded.
pub open spec fn load_spec(rows: Seq<RawRowView>, tz_oks: Seq<bool>, limit: int) -> Seq<
    RecordView,
> {
    let valid = scan_fold(decode_all(rows, tz_oks)).out;
    let sorted = sort_by_instant(valid);
    if limit == 0 || limit > sorted.len() {
        sorted
    } else {
        sorted.take(limit)
    }
}

/// What a load returned, given the outcome of each row's zone lookup.
pub open spec fn load_post(
    rows: Seq<RawRowView>,
    out: Seq<BasicPicture>,
    tz_oks: Seq<bool>,
    limit: int,
) -> bool {
    &&& tz_oks.len() == rows.len()
    &&& recs_of(out) == load_spec(rows, tz_oks, limit)
}

/// An ordered reader over a snapshot of the backend, pinned to the
/// backend's state when the reader was opened: scans opened later on the
/// same reader do not see rows committed after that point.
pub struct MemReader {
    rows: Vec<RawRow>,
}

impl View for MemReader {
    type V = Seq<RawRowView>;

    closed spec fn view(&self) -> Seq<RawRowView> {
        row_views(self.rows@)
    }
}

impl MemReader {
    /// Opens a reader on the backend's current state.  The reader owns
    /// its snapshot and shares nothing with any writer or other reader.
    pub fn new(backend: &MemBackend) -> (r: MemReader)
        ensures
            r@ == backend@,
    {
        let mut rows: Vec<RawRow> = Vec::new();
        let mut i: usize = 0;
        while i < backend.rows.len()
            invariant
                i <= backend.rows@.len(),
                row_views(rows@) == backend@.take(i as int),
            decreases backend.rows@.len() - i,
        {
            let ghost before = rows@;
            let row = backend.rows[i].clone();
            let ghost v = row@;
            proof {
                assert(backend@.len() == backend.rows@.len());
                assert(v == backend@[i as int]);
                assert(row_views(before).len() == before.len());
                assert(before.len() == i as int);
            }
            rows.push(row);
            proof {
                assert(rows@ == before.push(row));
                assert(rows@.len() == i + 1);
                assert forall|k: int| 0 <= k < i + 1 implies #[trigger] row_views(rows@)[k]
                    == backend@[k] by {
                    assert(row_views(rows@)[k] == rows@[k]@);
                    if k < i {
                        assert(rows@[k] == before[k]);
                        assert(row_views(before)[k] == backend@.take(i as int)[k]);
                        assert(backend@.take(i as int)[k] == backend@[k]);
                    } else {
                        assert(rows@[k] == row);
                    }
                }
                assert(row_views(rows@) =~= backend@.take(i + 1));
            }
            i = i + 1;
        }
        proof {
            assert(backend@.take(backend.rows@.len() as int) =~= backend@);
        }
        MemReader { rows }
    }

    /// Opens one ordered scan over the snapshot, bounded by `limit` rows
    /// when `limit` is positive.  Rows that fail validation are skipped
    /// up to the fault cap, after which the scan is treated as exhausted.
    /// Ordering keys not wired to a stored column are rejected.
    pub fn load(&self, order_by: OrderBy, limit: usize) -> (r: Result<
        Vec<BasicPicture>,
        StoreError,
    >)
        ensures
            (order_by is FsCreateTime) <==> r is Ok,
            r matches Err(e) ==> e == StoreError::UnsupportedOrderKey,
            r matches Ok(v) ==> exists|tz_oks: Seq<bool>|
                #[trigger] load_post(self@, v@, tz_oks, limit as int),
            r matches Ok(v) ==> forall|i: int|
                0 <= i < v@.len() ==> (#[trigger] v@[i]).wf() && v@[i].exif_create_time is None,
    {
        match order_by {
            OrderBy::FsCreateTime => {},
            _ => {
                return Err(StoreError::UnsupportedOrderKey);
            },
        }
        let scanned = scan_rows(&self.rows);
        let ghost scannedseq = scanned@;
        let mut out = sort_records(scanned);
        let ghost sortedseq = out@;
        proof {
            broadcast use vstd::seq_lib::group_to_multiset_ensures;

            assert forall|i: int|
                0 <= i < sortedseq.len() implies (#[trigger] sortedseq[i]).wf()
                && sortedseq[i].exif_create_time is None by {
                assert(sortedseq.to_multiset().contains(sortedseq[i]));
                assert(scannedseq.to_multiset().contains(sortedseq[i]));
                let k = choose|k: int| 0 <= k < scannedseq.len() && scannedseq[k] == sortedseq[i];
            }
        }
        if limit != 0 && limit < out.len() {
            out.truncate(limit);
            proof {
                assert(recs_of(out@) =~= recs_of(sortedseq).take(limit as int));
                assert(forall|i: int| 0 <= i < out@.len() ==> out@[i] == sortedseq[i]);
            }
        }
        proof {
            assert(self@ == row_views(self.rows@));
            let tz_oks = choose|tz_oks: Seq<bool>|
                #[trigger] scan_rows_post(self@, scannedseq, tz_oks);
            assert(recs_of(sortedseq) == sort_by_instant(recs_of(scannedseq)));
            assert(recs_of(sortedseq).len() == sortedseq.len());
            assert(recs_of(out@) =~= load_spec(self@, tz_oks, limit as int));
            assert(load_post(self@, out@, tz_oks, limit as int));
        }
        Ok(out)
    }
}

/// Round-trip completeness.  Records committed through a writer are all
/// returned, exactly once each, by a subsequent unbounded ordered load of
/// the rows they were persisted as, provided each record's zone name
/// still resolves at read time (`tz_oks` all true); order is ignored.
pub proof fn lemma_round_trip(recs: Seq<PictureRecord>, tz_oks: Seq<bool>)
    requires
        encodes_back(recs),
        tz_oks.len() == recs.len(),
        forall|i: int| 0 <= i < tz_oks.len() ==> tz_oks[i],
    ensures
        load_spec(encode_seq(recs), tz_oks, 0).to_multiset() == views_of(recs).to_multiset(),
{
    let items = decode_all(encode_seq(recs), tz_oks);
    assert(items =~= Seq::new(recs.len(), |i: int| Some(views_of(recs)[i])));
    lemma_all_some(items, views_of(recs));
    lemma_scan_within_cap(items);
    lemma_sort_props(views_of(recs));
}

/// Decode outcomes that are all present count no faults and decode to
/// exactly their values, in order.
proof fn lemma_all_some(items: Seq<Option<RecordView>>, vals: Seq<RecordView>)
    requires
        items.len() == vals.len(),
        forall|i: int| 0 <= i < items.len() ==> items[i] == Some(#[trigger] vals[i]),
    ensures
        fault_count(items) == 0,
        decoded_values(items) == vals,
    decreases items.len(),
{
    if items.len() > 0 {
        assert(items[items.len() - 1] == Some(vals[items.len() - 1]));
        assert forall|k: int| 0 <= k < items.drop_last().len() implies items.drop_last()[k]
            == Some(#[trigger] vals.drop_last()[k]) by {
            assert(items[k] == Some(vals[k]));
        }
        lemma_all_some(items.drop_last(), vals.drop_last());
        assert(decoded_values(items) =~= vals);
    }
}

/// Ordering.  Whatever the snapshot holds and however its zone lookups
/// turn out, the creation instants of a load's results are
/// non-decreasing.
pub proof fn lemma_load_sorted(rows: Seq<RawRowView>, tz_oks: Seq<bool>, limit: int)
    requires
        limit >= 0,
    ensures
        sorted_by_instant(load_spec(rows, tz_oks, limit)),
{
    let valid = scan_fold(decode_all(rows, tz_oks)).out;
    lemma_sort_props(valid);
    if !(limit == 0 || limit > sort_by_instant(valid).len()) {
        lemma_sorted_take(sort_by_instant(valid), limit);
    }
}

/// Limit boundedness.  A load with a positive limit returns at most that
/// many entries, and they are exactly a prefix of the unbounded load of
/// the same snapshot under the same ordering.
pub proof fn lemma_limit_prefix(rows: Seq<RawRowView>, tz_oks: Seq<bool>, limit: int)
    requires
        limit > 0,
    ensures
        load_spec(rows, tz_oks, limit).len() <= limit,
        load_spec(rows, tz_oks, limit) == load_spec(rows, tz_oks, 0).take(
            if limit <= load_spec(rows, tz_oks, 0).len() {
                limit
            } else {
                load_spec(rows, tz_oks, 0).len() as int
            },
        ),
{
    let sorted = load_spec(rows, tz_oks, 0);
    if limit > sorted.len() {
        assert(load_spec(rows, tz_oks, limit) =~= sorted.take(sorted.len() as int));
    }
}

} // verus!
