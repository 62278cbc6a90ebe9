//! Batching of the measurements sent to the time series database.
//!
//! Measurements arrive one at a time. Each is added to a pending batch; as soon
//! as the pending batch holds `BATCH_LIMIT` measurements it is written out as a
//! whole and the pending batch starts empty again. When the stream of
//! measurements ends, whatever is still pending is written out if it is not
//! empty.
use vstd::prelude::*;

verus! {

broadcast use Seq::lemma_flatten_push;

/// The number of pending measurements at which a batch is written out.
pub const BATCH_LIMIT: usize = 1000;

/// Adding `point` to the pending batch: the new pending batch and the batch
/// that is written out, if any.
pub open spec fn push_point<P>(pending: Seq<P>, point: P) -> (Seq<P>, Option<Seq<P>>) {
    let grown = pending.push(point);
    if grown.len() >= BATCH_LIMIT {
        (Seq::empty(), Some(grown))
    } else {
        (grown, None)
    }
}

/// Feeding `points` one by one into an empty pending batch: the batches written
/// out on the way, in order, and what is still pending at the end.
pub open spec fn stream_batches<P>(points: Seq<P>) -> (Seq<Seq<P>>, Seq<P>)
    decreases points.len(),
{
    if points.len() == 0 {
        (Seq::empty(), Seq::empty())
    } else {
        let (written, pending) = stream_batches(points.drop_last());
        let (next_pending, flushed) = push_point(pending, points.last());
        match flushed {
            Some(batch) => (written.push(batch), next_pending),
            None => (written, next_pending),
        }
    }
}

/// Every batch written for `points`, the final flush of a non-empty pending
/// batch included.
pub open spec fn all_batches<P>(points: Seq<P>) -> Seq<Seq<P>> {
    let (written, pending) = stream_batches(points);
    if pending.len() > 0 {
        written.push(pending)
    } else {
        written
    }
}

/// The batch written at the end of the stream: the pending measurements, if
/// there are any.
pub open spec fn final_flush<P>(pending: Seq<P>) -> Option<Seq<P>> {
    if pending.len() > 0 {
        Some(pending)
    } else {
        None
    }
}

/// Streaming keeps every measurement, in order: the batches written so far
/// followed by the pending ones are exactly the measurements fed in. Every
/// batch written while streaming holds exactly `BATCH_LIMIT` measurements, and
/// fewer than `BATCH_LIMIT` stay pending.
pub proof fn lemma_stream_keeps_points<P>(points: Seq<P>)
    ensures
        stream_batches(points).0.flatten() + stream_batches(points).1 == points,
        forall|i: int|
            0 <= i < stream_batches(points).0.len() ==> (#[trigger] stream_batches(
                points,
            ).0[i]).len() == BATCH_LIMIT,
        stream_batches(points).1.len() < BATCH_LIMIT,
    decreases points.len(),
{
    if points.len() > 0 {
        let prefix = points.drop_last();
        lemma_stream_keeps_points(prefix);
        let (written, pending) = stream_batches(prefix);
        let grown = pending.push(points.last());
        assert(prefix.push(points.last()) =~= points);
        if grown.len() >= BATCH_LIMIT {
            assert(written.push(grown).flatten() == written.flatten() + grown);
            assert(written.flatten() + grown + Seq::<P>::empty() =~= written.flatten() + grown);
            assert(written.flatten() + grown =~= (written.flatten() + pending).push(points.last()));
        } else {
            assert(written.flatten() + grown =~= (written.flatten() + pending).push(points.last()));
        }
    }
}

/// Every measurement is written exactly once and in the order it arrived:
/// the written batches, concatenated, are the measurements. No batch is empty
/// or larger than `BATCH_LIMIT`, and every batch but the last holds exactly
/// `BATCH_LIMIT` measurements.
pub proof fn lemma_all_batches_write_every_point_once<P>(points: Seq<P>)
    ensures
        all_batches(points).flatten() == points,
        forall|i: int|
            0 <= i < all_batches(points).len() ==> 0 < (#[trigger] all_batches(points)[i]).len()
                <= BATCH_LIMIT,
        forall|i: int|
            0 <= i < all_batches(points).len() - 1 ==> (#[trigger] all_batches(points)[i]).len()
                == BATCH_LIMIT,
{
    lemma_stream_keeps_points(points);
    let (written, pending) = stream_batches(points);
    if pending.len() > 0 {
        assert(written.push(pending).flatten() == written.flatten() + pending);
    } else {
        assert(written.flatten() + pending =~= written.flatten());
    }
}

/// At the end of the stream a non-empty pending batch is written whole and an
/// empty one is not written at all.
pub proof fn lemma_final_flush_writes_all_pending<P>(pending: Seq<P>)
    ensures
        pending.len() > 0 ==> final_flush(pending) == Some(pending),
        pending.len() == 0 ==> final_flush(pending) is None,
{
}

/// Adding a measurement writes out the pending batch, with the measurement at
/// its end, exactly when that makes `BATCH_LIMIT` measurements or more;
/// otherwise the measurement joins the pending ones.
pub proof fn lemma_push_point_flushes_at_limit<P>(pending: Seq<P>, point: P)
    ensures
        push_point(pending, point).1 is Some <==> pending.len() + 1 >= BATCH_LIMIT,
        pending.len() + 1 >= BATCH_LIMIT ==> push_point(pending, point).1 == Some(
            pending.push(point),
        ) && push_point(pending, point).0.len() == 0,
        pending.len() + 1 < BATCH_LIMIT ==> push_point(pending, point).0 == pending.push(point),
{
}

/// The batches written for a stream are those written while it streams,
/// followed by the final flush of what is left pending.
pub proof fn lemma_all_batches_end_with_final_flush<P>(points: Seq<P>)
    ensures
        all_batches(points) == match final_flush(stream_batches(points).1) {
            Some(last) => stream_batches(points).0.push(last),
            None => stream_batches(points).0,
        },
{
}

/// The measurements waiting to be written.
#[derive(Debug, Clone)]
pub struct PointBatch<P> {
    points: Vec<P>,
}

impl<P> View for PointBatch<P> {
    type V = Seq<P>;

    closed spec fn view(&self) -> Seq<P> {
        self.points@
    }
}

impl<P> PointBatch<P> {
    /// An empty batch, with room reserved for `BATCH_LIMIT` measurements.
    pub fn new() -> (batch: Self)
        ensures
            batch@ == Seq::<P>::empty(),
    {
        PointBatch { points: Vec::with_capacity(BATCH_LIMIT) }
    }

    /// The number of pending measurements.
    pub fn len(&self) -> (n: usize)
        ensures
            n == self@.len(),
    {
        self.points.len()
    }

    /// Whether no measurement is pending.
    pub fn is_empty(&self) -> (empty: bool)
        ensures
            empty == (self@.len() == 0),
    {
        self.points.len() == 0
    }

    /// Adds a measurement. Where the batch then holds `BATCH_LIMIT` measurements
    /// or more, it is handed back whole, to be written, and the batch is left
    /// empty.
    pub fn push(&mut self, point: P) -> (flushed: Option<Vec<P>>)
        ensures
            final(self)@ == push_point(old(self)@, point).0,
            match flushed {
                Some(batch) => push_point(old(self)@, point).1 == Some(batch@),
                None => push_point(old(self)@, point).1 == Option::<Seq<P>>::None,
            },
            flushed is Some <==> old(self)@.len() + 1 >= BATCH_LIMIT,
            match flushed {
                Some(batch) => batch@ == old(self)@.push(point) && final(self)@.len() == 0,
                None => final(self)@ == old(self)@.push(point),
            },
    {
        self.points.push(point);
        if self.points.len() >= BATCH_LIMIT {
            Some(self.drain())
        } else {
            None
        }
    }

    /// Hands back every pending measurement, in order, and leaves the batch
    /// empty.
    pub fn drain(&mut self) -> (points: Vec<P>)
        ensures
            points@ == old(self)@,
            final(self)@ == Seq::<P>::empty(),
    {
        let mut points: Vec<P> = Vec::new();
        std::mem::swap(&mut points, &mut self.points);
        points
    }

    /// Ends the stream: the pending measurements, to be written, where there
    /// are any.
    pub fn finish(self) -> (last: Option<Vec<P>>)
        ensures
            match last {
                Some(batch) => final_flush(self@) == Some(batch@),
                None => final_flush(self@) == Option::<Seq<P>>::None,
            },
            last is Some <==> self@.len() > 0,
            last matches Some(batch) ==> batch@ == self@,
    {
        if self.points.len() > 0 {
            Some(self.points)
        } else {
            None
        }
    }
}

} // verus!
