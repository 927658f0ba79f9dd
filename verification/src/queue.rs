//! The queue of body downloads that are under way, with the highest block
//! number that was ever requested through it.

use crate::primitives::H256;
use vstd::prelude::*;

verus! {

/// A header as far as the download queue reads it.
#[derive(Clone, Copy, Debug, PartialEq, Eq, Structural, Hash)]
pub struct SealedHeader {
    pub number: u64,
    pub hash: H256,
}

/// One download under way: a range of headers whose bodies are fetched as
/// one unit, under the ticket that the queue gave it.
#[derive(Debug)]
pub struct BodiesRequest {
    pub id: u64,
    pub headers: Vec<SealedHeader>,
}

/// The highest requested block number after a range of headers, sorted by
/// number, was pushed: the larger of the mark so far and the number of the
/// last header; the mark so far where the range is empty.
pub open spec fn mark_after(mark: Option<u64>, headers: Seq<SealedHeader>) -> Option<u64> {
    if headers.len() == 0 {
        mark
    } else {
        match mark {
            Some(m) => Some(if headers.last().number > m { headers.last().number } else { m }),
            None => Some(headers.last().number),
        }
    }
}

/// The headers stand in the order of their block numbers.
pub open spec fn sorted_by_number(headers: Seq<SealedHeader>) -> bool {
    forall|i: int, j: int|
        0 <= i <= j < headers.len() ==> (#[trigger] headers[i]).number <= (
        #[trigger] headers[j]).number
}

/// A mark that is not lower than another: one that is set is above none.
pub open spec fn mark_le(low: Option<u64>, high: Option<u64>) -> bool {
    match (low, high) {
        (None, _) => true,
        (Some(_), None) => false,
        (Some(l), Some(h)) => l <= h,
    }
}

/// The place of the download with ticket `id` in `inner`, if it is under way.
pub open spec fn in_flight_at(inner: Seq<BodiesRequest>, id: u64, at: int) -> bool {
    0 <= at < inner.len() && inner[at].id == id
}

/// The downloads that are under way and the highest block number requested.
#[derive(Debug)]
pub struct BodiesRequestQueue {
    inner: Vec<BodiesRequest>,
    next_id: u64,
    last_requested_block_number: Option<u64>,
}

impl BodiesRequestQueue {
    /// The downloads under way, in the order in which they were pushed.
    pub closed spec fn view(&self) -> Seq<BodiesRequest> {
        self.inner@
    }

    /// The ticket that the next download gets.
    pub closed spec fn spec_next_id(&self) -> u64 {
        self.next_id
    }

    /// The highest block number that was requested, if any was.
    pub closed spec fn spec_last_requested(&self) -> Option<u64> {
        self.last_requested_block_number
    }

    /// Every ticket under way was handed out already, and none twice.
    pub open spec fn wf(&self) -> bool {
        &&& forall|i: int| 0 <= i < self@.len() ==> (#[trigger] self@[i]).id < self.spec_next_id()
        &&& forall|i: int, j: int|
            0 <= i < j < self@.len() ==> (#[trigger] self@[i]).id != (#[trigger] self@[j]).id
    }

    /// A queue with nothing under way and no block requested yet.
    pub fn new() -> (queue: Self)
        ensures
            queue.wf(),
            queue@.len() == 0,
            queue.spec_next_id() == 0,
            queue.spec_last_requested() == None::<u64>,
    {
        BodiesRequestQueue { inner: Vec::new(), next_id: 0, last_requested_block_number: None }
    }

    /// Whether no download is under way.
    pub fn is_empty(&self) -> (empty: bool)
        ensures
            empty == (self@.len() == 0),
    {
        self.inner.len() == 0
    }

    /// The number of downloads under way.
    pub fn len(&self) -> (len: usize)
        ensures
            len == self@.len(),
    {
        self.inner.len()
    }

    /// The highest block number that was requested, if any was.
    pub fn last_requested_block_number(&self) -> (mark: Option<u64>)
        ensures
            mark == self.spec_last_requested(),
    {
        self.last_requested_block_number
    }

    /// Drops every download under way and forgets the highest block number.
    /// Tickets are not handed out again.
    pub fn clear(&mut self)
        requires
            old(self).wf(),
        ensures
            final(self).wf(),
            final(self)@.len() == 0,
            final(self).spec_last_requested() == None::<u64>,
            final(self).spec_next_id() == old(self).spec_next_id(),
    {
        self.inner.clear();
        self.last_requested_block_number = None;
    }

    /// Whether one more download can be given a ticket.
    pub fn has_ticket(&self) -> (free: bool)
        ensures
            free == (self.spec_next_id() < u64::MAX),
    {
        self.next_id < u64::MAX
    }

    /// Puts a new download under way for the given headers, which the caller
    /// has sorted by block number, and returns its ticket. The highest
    /// requested block number rises to the number of the last header, unless
    /// it is that high already or there is no header.
    pub fn push_new_request(&mut self, request: Vec<SealedHeader>) -> (id: u64)
        requires
            old(self).wf(),
            old(self).spec_next_id() < u64::MAX,
        ensures
            final(self).wf(),
            id == old(self).spec_next_id(),
            final(self).spec_next_id() == id + 1,
            final(self).spec_last_requested() == mark_after(
                old(self).spec_last_requested(),
                request@,
            ),
            final(self)@.len() == old(self)@.len() + 1,
            final(self)@.last().id == id,
            final(self)@.last().headers == request,
            final(self)@.drop_last() == old(self)@,
    {
        let n = request.len();
        if n > 0 {
            let last: u64 = request[n - 1].number;
            self.last_requested_block_number = match self.last_requested_block_number {
                Some(num) => Some(if last > num { last } else { num }),
                None => Some(last),
            };
        }
        let id: u64 = self.next_id;
        self.next_id = id + 1;
        let ghost before = self.inner@;
        self.inner.push(BodiesRequest { id, headers: request });
        assert(self.inner@.drop_last() == before);
        assert(before == old(self)@);
        assert forall|i: int| 0 <= i < self.inner@.len() implies (#[trigger] self.inner@[i]).id
            < self.next_id by {
            if i < before.len() {
                assert(self.inner@[i] == before[i]);
            }
        }
        assert forall|i: int, j: int| 0 <= i < j < self.inner@.len() implies (
        #[trigger] self.inner@[i]).id != (#[trigger] self.inner@[j]).id by {
            assert(self.inner@[i] == before[i]);
            if j < before.len() {
                assert(self.inner@[j] == before[j]);
            }
        }
        id
    }

    /// Takes the download with the given ticket out of the queue, whatever
    /// its place among those under way, and hands it back; `None` where no
    /// such download is under way. The others keep their order, and the
    /// highest requested block number stays.
    pub fn complete(&mut self, id: u64) -> (done: Option<BodiesRequest>)
        requires
            old(self).wf(),
        ensures
            final(self).wf(),
            final(self).spec_next_id() == old(self).spec_next_id(),
            final(self).spec_last_requested() == old(self).spec_last_requested(),
            match done {
                Some(request) => exists|at: int|
                    {
                        &&& #[trigger] in_flight_at(old(self)@, id, at)
                        &&& request == old(self)@[at]
                        &&& final(self)@ == old(self)@.remove(at)
                    },
                None => {
                    &&& final(self)@ == old(self)@
                    &&& forall|at: int| !#[trigger] in_flight_at(old(self)@, id, at)
                },
            },
    {
        let mut i: usize = 0;
        while i < self.inner.len()
            invariant
                old(self).wf(),
                *self == *old(self),
                i <= self.inner@.len(),
                forall|k: int| 0 <= k < i ==> !#[trigger] in_flight_at(self.inner@, id, k),
            decreases self.inner@.len() - i,
        {
            if self.inner[i].id == id {
                let ghost before = self.inner@;
                assert(before == old(self)@);
                let request = self.inner.remove(i);
                assert(in_flight_at(old(self)@, id, i as int));
                assert forall|a: int| 0 <= a < self.inner@.len() implies (
                #[trigger] self.inner@[a]).id < self.next_id by {
                    assert(self.inner@[a] == before[if a < i { a } else { a + 1 }]);
                }
                assert forall|a: int, b: int| 0 <= a < b < self.inner@.len() implies (
                #[trigger] self.inner@[a]).id != (#[trigger] self.inner@[b]).id by {
                    assert(self.inner@[a] == before[if a < i { a } else { a + 1 }]);
                    assert(self.inner@[b] == before[if b < i { b } else { b + 1 }]);
                }
                return Some(request);
            }
            i += 1;
        }
        None
    }
}

/// Pushing never lowers the highest requested block number, whatever the
/// range holds.
pub proof fn lemma_push_never_lowers_mark(mark: Option<u64>, headers: Seq<SealedHeader>)
    ensures
        mark_le(mark, mark_after(mark, headers)),
{
}

/// Pushing an empty range leaves the highest requested block number as it is.
pub proof fn lemma_empty_push_keeps_mark(mark: Option<u64>)
    ensures
        mark_after(mark, Seq::<SealedHeader>::empty()) == mark,
{
}

/// Pushing a range that ends at or below the mark leaves the mark as it is.
pub proof fn lemma_lower_push_keeps_mark(mark: u64, headers: Seq<SealedHeader>)
    requires
        headers.len() > 0,
        headers.last().number <= mark,
    ensures
        mark_after(Some(mark), headers) == Some(mark),
{
}

/// After a sorted range was pushed, no header of it has a block number
/// above the mark.
pub proof fn lemma_sorted_push_covers_range(mark: Option<u64>, headers: Seq<SealedHeader>)
    requires
        sorted_by_number(headers),
        headers.len() > 0,
    ensures
        mark_after(mark, headers).is_some(),
        forall|k: int|
            0 <= k < headers.len() ==> (#[trigger] headers[k]).number <= mark_after(
                mark,
                headers,
            ).unwrap(),
{
    assert forall|k: int| 0 <= k < headers.len() implies (#[trigger] headers[k]).number
        <= mark_after(mark, headers).unwrap() by {
        assert(headers[k].number <= headers[headers.len() - 1].number);
    }
}

} // verus!
