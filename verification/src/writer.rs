use vstd::prelude::*;
use crate::error::StoreError;
use crate::record::PictureRecord;

verus! {

/// Number of buffered records beyond which an accept triggers an
/// automatic commit.  A tuning knob that amortizes per-commit overhead,
/// not a correctness boundary: any positive value works.
pub const BATCH_THRESHOLD: usize = 1000;

/// A push-based consumer of indexed entries: a traversal or replay source
/// writes into one.  `on_op` enqueues one record and, in the common case,
/// must not block on backend work; `flush` forces everything buffered to
/// durable storage and reports a backend failure to the caller, leaving
/// the buffered batch available for a retry.
pub trait FsOpCallback {
    fn on_op(&mut self, record: PictureRecord) -> Result<(), StoreError>;

    fn flush(&mut self) -> Result<(), StoreError>;
}

/// The buffer of a batched writer.  It decides when a batch of accepted
/// records is due for an atomic commit; performing the commit is its
/// owner's job, so a failed commit can hand the batch back.
pub struct Batcher {
    queue: Vec<PictureRecord>,
}

impl Batcher {
    /// The records accepted and not yet handed out for a commit, oldest
    /// first.
    pub closed spec fn queue(&self) -> Seq<PictureRecord> {
        self.queue@
    }

    /// Starts with an empty buffer.
    pub fn new() -> (r: Batcher)
        ensures
            r.queue() == Seq::<PictureRecord>::empty(),
    {
        Batcher { queue: Vec::new() }
    }

    /// How many records are buffered.
    pub fn pending(&self) -> (n: usize)
        ensures
            n == self.queue().len(),
    {
        self.queue.len()
    }

    /// Buffers one record.  When the buffer then exceeds the threshold,
    /// the whole batch is handed back for an immediate commit and the
    /// buffer is left empty; otherwise the record is only buffered.
    pub fn accept(&mut self, record: PictureRecord) -> (batch: Option<Vec<PictureRecord>>)
        ensures
            old(self).queue().len() + 1 > BATCH_THRESHOLD ==> ({
                &&& batch matches Some(b) && b@ == old(self).queue().push(record)
                &&& final(self).queue() == Seq::<PictureRecord>::empty()
            }),
            old(self).queue().len() + 1 <= BATCH_THRESHOLD ==> ({
                &&& batch is None
                &&& final(self).queue() == old(self).queue().push(record)
            }),
    {
        self.queue.push(record);
        if self.queue.len() > BATCH_THRESHOLD {
            let mut drained: Vec<PictureRecord> = Vec::new();
            core::mem::swap(&mut drained, &mut self.queue);
            Some(drained)
        } else {
            None
        }
    }

    /// Hands the whole buffer out for a commit, leaving it empty.
    pub fn drain(&mut self) -> (batch: Vec<PictureRecord>)
        ensures
            batch@ == old(self).queue(),
            final(self).queue() == Seq::<PictureRecord>::empty(),
    {
        let mut drained: Vec<PictureRecord> = Vec::new();
        core::mem::swap(&mut drained, &mut self.queue);
        drained
    }

    /// Puts a batch whose commit failed back into an empty buffer, so the
    /// records are not lost and a later flush can retry them.
    pub fn restore(&mut self, batch: Vec<PictureRecord>)
        requires
            old(self).queue().len() == 0,
        ensures
            final(self).queue() == batch@,
    {
        let mut b = batch;
        core::mem::swap(&mut b, &mut self.queue);
    }
}

} // verus!
