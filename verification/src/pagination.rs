//! Signature pagination and consumption of the chain-B scanner.
//!
//! The scanner enumerates transaction signatures strictly newer than a
//! durable cursor.  Pages come newest-first; paging keeps `until` pinned to
//! the cursor and moves `before` to the last signature of each page until an
//! empty page arrives.  The accumulated list is drained in fixed-size
//! batches, failed signatures are retried within the same cycle, and the
//! cursor advances to the head of the first page once the drain completes.
//! The RPC calls that fetch pages and transactions are unverified I/O; the
//! decisions between them are verified here.

use vstd::prelude::*;

use vstd::math::min;

use crate::events::BoEvent;
use crate::codec::spec_events_of_logs;
use crate::store::ProgressStore;
use crate::store::Setting;
use crate::store::spec_mark;

verus! {

/// How many signatures one drain batch fetches concurrently.
pub const CONCURRENCY_SIGNATURE: usize = 30;

/// Cadence of chain-B scan cycles, in seconds.
pub const SOL_SCAN_INTERVAL_SECS: u64 = 6;

/// Accumulates the newest-first signature pages of one catch-up cycle.
pub struct Pagination {
    collected: Vec<String>,
    before: Option<String>,
    done: bool,
}

impl Pagination {
    /// All signatures collected so far, newest first.
    pub closed spec fn collected(self) -> Seq<Seq<char>> {
        self.collected.deep_view()
    }

    /// The `before` parameter the next page request must carry.
    pub closed spec fn before_sig(self) -> Option<Seq<char>> {
        self.before.deep_view()
    }

    /// Whether an empty page ended the pagination.
    pub closed spec fn done(self) -> bool {
        self.done
    }

    /// Starts a cycle: nothing collected, first request pages from the tip.
    pub fn new() -> (p: Pagination)
        ensures
            p.collected() == Seq::<Seq<char>>::empty(),
            p.before_sig() is None,
            !p.done(),
    {
        let p = Pagination { collected: Vec::new(), before: None, done: false };
        proof {
            assert(p.collected() =~= Seq::<Seq<char>>::empty());
        }
        p
    }

    /// Feeds the next page.  An empty page terminates the cycle; a non-empty
    /// page is appended whole and its last signature becomes the next
    /// `before`, so no signature between cursor and tip is skipped.
    pub fn note_page(&mut self, page: Vec<String>)
        requires
            !old(self).done(),
        ensures
            page@.len() == 0 ==> final(self).done() && final(self).collected() == old(
                self,
            ).collected() && final(self).before_sig() == old(self).before_sig(),
            page@.len() > 0 ==> !final(self).done() && final(self).collected() == old(
                self,
            ).collected() + page.deep_view() && final(self).before_sig() == Some(
                page.deep_view().last(),
            ),
    {
        let mut page = page;
        if page.is_empty() {
            self.done = true;
        } else {
            let last = page[page.len() - 1].clone();
            self.before = Some(last);
            let ghost pre = self.collected.deep_view();
            let ghost pv = page.deep_view();
            self.collected.append(&mut page);
            proof {
                assert(self.collected.deep_view() =~= pre + pv);
            }
        }
    }

    /// The signatures collected so far, newest first.
    pub fn collected_list(&self) -> (r: &Vec<String>)
        ensures
            r.deep_view() == self.collected(),
    {
        &self.collected
    }

    /// The new watermark of the cycle: the head of the first page, the
    /// newest signature observed.  `None` when no page carried anything, in
    /// which case the cursor must not move.
    pub fn new_watermark(&self) -> (r: Option<String>)
        ensures
            r is Some <==> self.collected().len() > 0,
            r matches Some(s) ==> s@ == self.collected()[0],
    {
        if self.collected.is_empty() {
            None
        } else {
            Some(self.collected[0].clone())
        }
    }
}

/// Walks backward from the chain tip to find the program's first signature:
/// page until an empty page, remembering the last signature of the last
/// non-empty page.
pub struct FirstSignatureSearch {
    before: Option<String>,
    found: Option<String>,
    done: bool,
}

impl FirstSignatureSearch {
    /// The `before` parameter the next page request must carry.
    pub closed spec fn before_sig(self) -> Option<Seq<char>> {
        self.before.deep_view()
    }

    /// The oldest signature seen so far.
    pub closed spec fn found_sig(self) -> Option<Seq<char>> {
        self.found.deep_view()
    }

    /// Whether an empty page ended the walk.
    pub closed spec fn done(self) -> bool {
        self.done
    }

    /// Starts at the chain tip with nothing found.
    pub fn new() -> (s: FirstSignatureSearch)
        ensures
            s.before_sig() is None,
            s.found_sig() is None,
            !s.done(),
    {
        FirstSignatureSearch { before: None, found: None, done: false }
    }

    /// Feeds the next page.  An empty page ends the walk; otherwise the last
    /// signature of the page is both the next `before` and the oldest
    /// signature seen so far.
    pub fn note_page(&mut self, page: &Vec<String>)
        requires
            !old(self).done(),
        ensures
            page@.len() == 0 ==> final(self).done() && final(self).found_sig() == old(
                self,
            ).found_sig() && final(self).before_sig() == old(self).before_sig(),
            page@.len() > 0 ==> !final(self).done() && final(self).found_sig() == Some(
                page.deep_view().last(),
            ) && final(self).before_sig() == Some(page.deep_view().last()),
    {
        if page.is_empty() {
            self.done = true;
        } else {
            let last = page[page.len() - 1].clone();
            let other = last.clone();
            self.before = Some(last);
            self.found = Some(other);
        }
    }

    /// The first signature of the program, once the walk is done.
    pub fn result(&self) -> (r: Option<String>)
        ensures
            r is Some <==> self.found_sig() is Some,
            r matches Some(s) ==> self.found_sig() == Some(s@),
    {
        match &self.found {
            Some(s) => Some(s.clone()),
            None => None,
        }
    }
}

/// Takes the next drain batch off the front of the signature queue: up to
/// `CONCURRENCY_SIGNATURE` signatures, in queue order.
pub fn take_batch(queue: &mut Vec<String>) -> (batch: Vec<String>)
    ensures
        batch@ == old(queue)@.take(min(CONCURRENCY_SIGNATURE as int, old(queue)@.len() as int)),
        final(queue)@ == old(queue)@.skip(
            min(CONCURRENCY_SIGNATURE as int, old(queue)@.len() as int),
        ),
{
    let k = if queue.len() < CONCURRENCY_SIGNATURE {
        queue.len()
    } else {
        CONCURRENCY_SIGNATURE
    };
    let mut tail = queue.split_off(k);
    core::mem::swap(queue, &mut tail);
    proof {
        let m = min(CONCURRENCY_SIGNATURE as int, old(queue)@.len() as int);
        assert(tail@ =~= old(queue)@.take(m));
        assert(queue@ =~= old(queue)@.skip(m));
    }
    tail
}

/// The signatures of a batch whose processing failed, in batch order.
pub open spec fn spec_failed_of(batch: Seq<Seq<char>>, failed: Seq<bool>) -> Seq<Seq<char>>
    decreases batch.len(),
{
    if batch.len() == 0 || failed.len() != batch.len() {
        Seq::empty()
    } else {
        spec_failed_of(batch.drop_last(), failed.drop_last()) + (if failed.last() {
            seq![batch.last()]
        } else {
            Seq::empty()
        })
    }
}

/// Pushes the failed signatures of a drained batch back onto the queue, so
/// they are retried within the same scan cycle.
pub fn requeue_failed(queue: &mut Vec<String>, batch: Vec<String>, failed: &Vec<bool>)
    requires
        batch@.len() == failed@.len(),
    ensures
        final(queue).deep_view() == old(queue).deep_view() + spec_failed_of(
            batch.deep_view(),
            failed@,
        ),
{
    let mut batch = batch;
    let n = batch.len();
    let ghost bv = batch.deep_view();
    let ghost fv = failed@;
    let mut i: usize = 0;
    proof {
        assert(batch.deep_view() =~= bv.skip(0));
        assert(queue.deep_view() =~= old(queue).deep_view() + spec_failed_of(
            bv.take(0),
            fv.take(0),
        ));
    }
    while i < n
        invariant
            0 <= i <= n,
            n == bv.len(),
            n == fv.len(),
            batch@.len() == n - i,
            batch.deep_view() == bv.skip(i as int),
            failed@ == fv,
            queue.deep_view() == old(queue).deep_view() + spec_failed_of(
                bv.take(i as int),
                fv.take(i as int),
            ),
        decreases n - i,
    {
        let ghost ob = batch@;
        proof {
            assert(batch.deep_view()[0] == ob[0]@);
            assert(ob[0]@ == bv.skip(i as int)[0]);
        }
        let s = batch.remove(0);
        proof {
            assert(s@ == bv[i as int]);
            assert forall|j: int| 0 <= j < batch@.len() implies batch.deep_view()[j] == bv.skip(
                i as int + 1,
            )[j] by {
                assert(batch@[j] == ob[j + 1]);
                assert(batch.deep_view()[j] == batch@[j]@);
                assert(ob[j + 1]@ == bv.skip(i as int)[j + 1]);
            }
            assert(batch.deep_view() =~= bv.skip(i as int + 1));
            assert(bv.take(i as int + 1).drop_last() =~= bv.take(i as int));
            assert(fv.take(i as int + 1).drop_last() =~= fv.take(i as int));
            assert(bv.take(i as int + 1).last() == bv[i as int]);
            assert(fv.take(i as int + 1).last() == fv[i as int]);
        }
        if failed[i] {
            let ghost qpre = queue.deep_view();
            queue.push(s);
            proof {
                assert(queue.deep_view() =~= qpre.push(bv[i as int]));
                assert(queue.deep_view() =~= old(queue).deep_view() + spec_failed_of(
                    bv.take(i as int + 1),
                    fv.take(i as int + 1),
                ));
            }
        } else {
            proof {
                assert(queue.deep_view() =~= old(queue).deep_view() + spec_failed_of(
                    bv.take(i as int + 1),
                    fv.take(i as int + 1),
                ));
            }
        }
        i = i + 1;
    }
    proof {
        assert(bv.take(n as int) =~= bv);
        assert(fv.take(n as int) =~= fv);
    }
}

/// Ingests one fetched transaction: decodes its logs into events and records
/// the signature in the seen table, idempotently, with its block time.
pub fn record_transaction(
    store: &mut ProgressStore,
    signature: String,
    block_time: i64,
    logs: &Vec<String>,
) -> (events: Vec<BoEvent>)
    requires
        old(store).wf(),
    ensures
        final(store).wf(),
        final(store).settings_map() == old(store).settings_map(),
        final(store).sig_map() == spec_mark(old(store).sig_map(), signature@, block_time),
        final(store).sig_map().contains_key(signature@),
        events.deep_view() == spec_events_of_logs(logs.deep_view()),
{
    let events = BoEvent::from_logs(logs);
    store.mark_signature(signature, block_time);
    events
}

/// Persists the cycle's new watermark: the chain-B cursor slot is updated to
/// the newest signature observed, and only ever by the scanner that owns it.
pub fn record_sol_watermark(store: &mut ProgressStore, watermark: String)
    requires
        old(store).wf(),
    ensures
        final(store).wf(),
        final(store).sig_map() == old(store).sig_map(),
        old(store).settings_map().contains_key(Setting::SolCurrentScannedSignature)
            ==> final(store).settings_map() == old(store).settings_map().insert(
            Setting::SolCurrentScannedSignature,
            watermark@,
        ),
        !old(store).settings_map().contains_key(Setting::SolCurrentScannedSignature)
            ==> *final(store) == *old(store),
{
    store.set(Setting::SolCurrentScannedSignature, watermark);
}

} // verus!
