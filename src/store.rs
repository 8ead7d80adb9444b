//! The pending-request table of the rendezvous store: the record that carries
//! a public request from the handler that received it to the agent's answer.

use vstd::prelude::*;
use crate::models::PendingRequest;

verus! {

/// One pending record as the table's model sees it: request id, channel id,
/// expiry, and the response blob once completed.
pub type PendingEntry = (Seq<char>, Seq<char>, int, Option<Seq<char>>);

pub type PendingView = Seq<PendingEntry>;

/// The index of the first record with id `id` at or after `i`, or the length.
pub open spec fn id_index_from(s: PendingView, id: Seq<char>, i: int) -> int
    decreases s.len() - i,
{
    if i < 0 || i >= s.len() {
        s.len() as int
    } else if s[i].0 == id {
        i
    } else {
        id_index_from(s, id, i + 1)
    }
}

pub open spec fn id_index(s: PendingView, id: Seq<char>) -> int {
    id_index_from(s, id, 0)
}

pub open spec fn find_pending(s: PendingView, id: Seq<char>) -> Option<PendingEntry> {
    if id_index(s, id) < s.len() {
        Some(s[id_index(s, id)])
    } else {
        None
    }
}

/// The response blob of a completed record.
pub open spec fn completed_blob(s: PendingView, id: Seq<char>) -> Option<Seq<char>> {
    match find_pending(s, id) {
        Some(e) => e.3,
        None => None,
    }
}

/// Inserting a new record; a duplicate id leaves the table as it is.
pub open spec fn put_spec(s: PendingView, id: Seq<char>, channel: Seq<char>, ttl: int) -> PendingView {
    if id_index(s, id) < s.len() {
        s
    } else {
        s.push((id, channel, ttl, None))
    }
}

/// Completing a pending record; an unknown or already completed one is left as it is.
pub open spec fn complete_spec(s: PendingView, id: Seq<char>, blob: Seq<char>) -> PendingView {
    let i = id_index(s, id);
    if i < s.len() && s[i].3 is None {
        s.update(i, (id, s[i].1, s[i].2, Some(blob)))
    } else {
        s
    }
}

/// Reading and deleting a record.
pub open spec fn take_spec(s: PendingView, id: Seq<char>) -> PendingView {
    if id_index(s, id) < s.len() {
        s.remove(id_index(s, id))
    } else {
        s
    }
}

/// The operations that change the table.
pub enum PendingOp {
    Put(Seq<char>, Seq<char>, int),
    Complete(Seq<char>, Seq<char>),
    Take(Seq<char>),
}

pub open spec fn apply_op(s: PendingView, op: PendingOp) -> PendingView {
    match op {
        PendingOp::Put(id, ch, ttl) => put_spec(s, id, ch, ttl),
        PendingOp::Complete(id, blob) => complete_spec(s, id, blob),
        PendingOp::Take(id) => take_spec(s, id),
    }
}

pub open spec fn apply_ops(s: PendingView, ops: Seq<PendingOp>) -> PendingView
    decreases ops.len(),
{
    if ops.len() == 0 {
        s
    } else {
        apply_op(apply_ops(s, ops.drop_last()), ops.last())
    }
}

pub proof fn lemma_id_index_from(s: PendingView, id: Seq<char>, i: int)
    requires
        0 <= i <= s.len(),
    ensures
        i <= id_index_from(s, id, i) <= s.len(),
        id_index_from(s, id, i) < s.len() ==> s[id_index_from(s, id, i)].0 == id,
        forall|j: int| i <= j < id_index_from(s, id, i) ==> #[trigger] s[j].0 != id,
    decreases s.len() - i,
{
    if i < s.len() && s[i].0 != id {
        lemma_id_index_from(s, id, i + 1);
    }
}

/// The first index holding `id` is the one before which no record holds it.
pub proof fn lemma_id_index_is(s: PendingView, id: Seq<char>, i: int)
    requires
        0 <= i < s.len(),
        s[i].0 == id,
        forall|p: int| 0 <= p < i ==> #[trigger] s[p].0 != id,
    ensures
        id_index(s, id) == i,
{
    lemma_id_index_from(s, id, 0);
    let f = id_index(s, id);
    if f < i {
        assert(s[f].0 != id);
    } else if f > i {
        assert(s[i].0 != id);
    }
}

/// One operation that does not take `r` leaves a completed `r` completed with
/// the same blob.
pub proof fn lemma_op_keeps_completed(s: PendingView, r: Seq<char>, x: Seq<char>, op: PendingOp)
    requires
        completed_blob(s, r) == Some(x),
        !(op matches PendingOp::Take(k) && k == r),
    ensures
        completed_blob(apply_op(s, op), r) == Some(x),
{
    lemma_id_index_from(s, r, 0);
    let i = id_index(s, r);
    assert(i < s.len());
    match op {
        PendingOp::Put(k, ch, ttl) => {
            lemma_id_index_from(s, k, 0);
            let t = apply_op(s, op);
            if id_index(s, k) >= s.len() {
                assert forall|p: int| 0 <= p < i implies #[trigger] t[p].0 != r by {
                    assert(t[p] == s[p]);
                }
                lemma_id_index_is(t, r, i);
            }
        },
        PendingOp::Complete(k, blob) => {
            lemma_id_index_from(s, k, 0);
            let j = id_index(s, k);
            let t = apply_op(s, op);
            if j < s.len() && s[j].3 is None {
                assert(j != i);
                assert forall|p: int| 0 <= p < i implies #[trigger] t[p].0 != r by {
                    assert(t[p].0 == s[p].0);
                }
                lemma_id_index_is(t, r, i);
            }
        },
        PendingOp::Take(k) => {
            lemma_id_index_from(s, k, 0);
            let j = id_index(s, k);
            let t = apply_op(s, op);
            if j < s.len() {
                assert(j != i);
                if j < i {
                    assert forall|p: int| 0 <= p < i - 1 implies #[trigger] t[p].0 != r by {
                        if p < j {
                            assert(t[p] == s[p]);
                        } else {
                            assert(t[p] == s[p + 1]);
                        }
                    }
                    assert(t[i - 1] == s[i]);
                    lemma_id_index_is(t, r, i - 1);
                } else {
                    assert forall|p: int| 0 <= p < i implies #[trigger] t[p].0 != r by {
                        assert(t[p] == s[p]);
                    }
                    assert(t[i] == s[i]);
                    lemma_id_index_is(t, r, i);
                }
            }
        },
    }
}

/// Once `complete_pending(r, x)` has taken effect, every later read of `r`
/// finds it completed with blob `x`, whatever else happens to the table, until
/// `r` is taken.
pub proof fn lemma_completed_until_taken(s: PendingView, r: Seq<char>, x: Seq<char>, ops: Seq<PendingOp>)
    requires
        completed_blob(s, r) == Some(x),
        forall|i: int| 0 <= i < ops.len() ==> !(#[trigger] ops[i] matches PendingOp::Take(k) && k == r),
    ensures
        completed_blob(apply_ops(s, ops), r) == Some(x),
    decreases ops.len(),
{
    if ops.len() > 0 {
        let init = ops.drop_last();
        assert forall|i: int| 0 <= i < init.len() implies !(#[trigger] init[i] matches PendingOp::Take(k) && k == r) by {
            assert(init[i] == ops[i]);
        }
        lemma_completed_until_taken(s, r, x, init);
        assert(ops.last() == ops[ops.len() - 1]);
        lemma_op_keeps_completed(apply_ops(s, init), r, x, ops.last());
    }
}

/// Completing a pending record makes it completed with the given blob.
pub proof fn lemma_complete_sets_blob(s: PendingView, r: Seq<char>, x: Seq<char>)
    requires
        find_pending(s, r) matches Some(e) && e.3 is None,
    ensures
        completed_blob(complete_spec(s, r, x), r) == Some(x),
{
    lemma_id_index_from(s, r, 0);
    let i = id_index(s, r);
    let t = complete_spec(s, r, x);
    assert forall|p: int| 0 <= p < i implies #[trigger] t[p].0 != r by {
        assert(t[p] == s[p]);
    }
    lemma_id_index_is(t, r, i);
}

/// Why a table operation was refused.
#[derive(Debug, Clone, Copy, PartialEq, Eq, Structural)]
pub enum StoreError {
    /// A record with this request id exists already.
    DuplicateRequest,
    /// No record has this request id.
    UnknownRequest,
    /// The record was completed before; it completes once.
    AlreadyCompleted,
}

/// A pending record with its state.
#[derive(Debug, Clone)]
pub struct PendingRecord {
    pub request: PendingRequest,
    /// The serialised response, once the agent answered.
    pub response_data: Option<String>,
}

pub open spec fn record_view(r: PendingRecord) -> PendingEntry {
    (
        r.request.request_id@,
        r.request.connection_id@,
        r.request.ttl as int,
        match r.response_data {
            Some(d) => Some(d@),
            None => None,
        },
    )
}

/// The pending requests, in order of insertion.
#[derive(Debug, Clone)]
pub struct PendingTable {
    records: Vec<PendingRecord>,
}

impl View for PendingTable {
    type V = PendingView;

    closed spec fn view(&self) -> PendingView {
        self.records@.map_values(|r: PendingRecord| record_view(r))
    }
}

impl PendingTable {
    pub fn new() -> (r: Self)
        ensures
            r@ == Seq::<PendingEntry>::empty(),
    {
        let r = PendingTable { records: Vec::new() };
        assert(r@ =~= Seq::<PendingEntry>::empty());
        r
    }

    pub fn len(&self) -> (r: usize)
        ensures
            r == self@.len(),
    {
        self.records.len()
    }

    fn index_of(&self, id: &String) -> (r: usize)
        ensures
            r == id_index(self@, id@),
            r <= self@.len(),
    {
        let mut i: usize = 0;
        while i < self.records.len()
            invariant
                i <= self@.len(),
                self@.len() == self.records@.len(),
                id_index(self@, id@) == id_index_from(self@, id@, i as int),
            decreases self@.len() - i,
        {
            assert(self@[i as int] == record_view(self.records@[i as int]));
            if self.records[i].request.request_id == *id {
                return i;
            }
            i = i + 1;
        }
        i
    }

    /// Inserts a new pending record; refuses a request id already present.
    pub fn put_pending(&mut self, request: PendingRequest) -> (r: Result<(), StoreError>)
        ensures
            final(self)@ == put_spec(
                old(self)@,
                request.request_id@,
                request.connection_id@,
                request.ttl as int,
            ),
            r is Err <==> find_pending(old(self)@, request.request_id@) is Some,
            r matches Err(e) ==> e == StoreError::DuplicateRequest,
    {
        let i = self.index_of(&request.request_id);
        if i < self.records.len() {
            return Err(StoreError::DuplicateRequest);
        }
        let ghost before = self@;
        let rec = PendingRecord { request, response_data: None };
        self.records.push(rec);
        assert(self@ =~= before.push(record_view(rec)));
        Ok(())
    }

    /// Marks a pending record completed with the agent's response; the record
    /// and its blob change together.
    pub fn complete_pending(&mut self, request_id: &str, response_data: String) -> (r: Result<
        (),
        StoreError,
    >)
        ensures
            final(self)@ == complete_spec(old(self)@, request_id@, response_data@),
            find_pending(old(self)@, request_id@) is None ==> r == Err::<(), StoreError>(
                StoreError::UnknownRequest,
            ),
            find_pending(old(self)@, request_id@) matches Some(e) ==> (e.3 is Some <==> r
                == Err::<(), StoreError>(StoreError::AlreadyCompleted)) && (e.3 is None <==> r
                is Ok),
    {
        let key = String::from_str(request_id);
        let i = self.index_of(&key);
        proof {
            lemma_id_index_from(self@, key@, 0);
        }
        if i >= self.records.len() {
            return Err(StoreError::UnknownRequest);
        }
        assert(self@[i as int] == record_view(self.records@[i as int]));
        if self.records[i].response_data.is_some() {
            return Err(StoreError::AlreadyCompleted);
        }
        let ghost before = self@;
        let ghost old_records = self.records@;
        let mut rec = self.records.remove(i);
        rec.response_data = Some(response_data);
        self.records.insert(i, rec);
        assert(self.records@ =~= old_records.update(i as int, rec));
        assert(self@ =~= before.update(
            i as int,
            (request_id@, before[i as int].1, before[i as int].2, Some(response_data@)),
        ));
        Ok(())
    }

    /// The record with this request id, if any.
    pub fn get_pending(&self, request_id: &str) -> (r: Option<&PendingRecord>)
        ensures
            r matches Some(rec) ==> find_pending(self@, request_id@) == Some(record_view(*rec)),
            r is None ==> find_pending(self@, request_id@) is None,
    {
        let key = String::from_str(request_id);
        let i = self.index_of(&key);
        if i < self.records.len() {
            assert(self@[i as int] == record_view(self.records@[i as int]));
            Some(&self.records[i])
        } else {
            None
        }
    }

    /// Reads and deletes the record with this request id.
    pub fn take_pending(&mut self, request_id: &str) -> (r: Option<PendingRecord>)
        ensures
            final(self)@ == take_spec(old(self)@, request_id@),
            r matches Some(rec) ==> find_pending(old(self)@, request_id@) == Some(record_view(rec)),
            r is None ==> find_pending(old(self)@, request_id@) is None,
    {
        let key = String::from_str(request_id);
        let i = self.index_of(&key);
        if i < self.records.len() {
            let ghost before = self@;
            assert(self@[i as int] == record_view(self.records@[i as int]));
            let rec = self.records.remove(i);
            assert(self@ =~= before.remove(i as int));
            Some(rec)
        } else {
            None
        }
    }

    /// The ids of the records whose expiry is before `now`, in table order.
    pub fn scan_expired(&self, now: i64) -> (r: Vec<String>)
        ensures
            r@.map_values(|x: String| x@) == self@.filter(|e: PendingEntry| e.2 < now).map_values(
                |e: PendingEntry| e.0,
            ),
    {
        let mut out: Vec<String> = Vec::new();
        let mut i: usize = 0;
        while i < self.records.len()
            invariant
                i <= self@.len(),
                self@.len() == self.records@.len(),
                out@.map_values(|x: String| x@) == self@.take(i as int).filter(
                    |e: PendingEntry| e.2 < now,
                ).map_values(|e: PendingEntry| e.0),
            decreases self@.len() - i,
        {
            proof {
                reveal(Seq::filter);
            }
            let ghost t = self@.take(i + 1);
            assert(t.drop_last() =~= self@.take(i as int));
            assert(self@[i as int] == record_view(self.records@[i as int]));
            let ghost before = out@;
            if self.records[i].request.ttl < now {
                out.push(self.records[i].request.request_id.clone());
                assert(out@.map_values(|x: String| x@) =~= before.map_values(|x: String| x@).push(
                    self@[i as int].0,
                ));
            }
            i = i + 1;
        }
        assert(self@.take(i as int) =~= self@);
        out
    }
}

} // verus!
