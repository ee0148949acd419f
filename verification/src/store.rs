//! The record table: records keyed by a store-assigned monotonic id, with
//! the conditional updates the lifecycle engine relies on. Appending and
//! sealing are guarded by `done == false` at this layer, so a lost race can
//! never mutate a sealed record or seal one twice.
use crate::record::MessagesModel;
use crate::record::Messages;
use crate::record::Record;
use crate::record::RecordModel;
use vstd::prelude::*;

verus! {

/// Every stored record satisfies its own invariant and sits at the slot its
/// id names: the record with id `k + 1` is the `k`-th inserted.
pub open spec fn store_wf(s: Seq<RecordModel>) -> bool {
    forall|k: int|
        0 <= k < s.len() ==> (#[trigger] s[k]).wf() && s[k].id == k + 1
}

/// A well-formed store never outgrows the id space: the newest record's id
/// is the store's length.
pub proof fn lemma_store_len(s: Seq<RecordModel>)
    requires
        store_wf(s),
    ensures
        s.len() <= i64::MAX,
{
    if s.len() > i64::MAX {
        assert(s[s.len() - 1].id == s.len() - 1 + 1);
    }
}

/// Whether the store holds a record with id `id`.
pub open spec fn has_record(s: Seq<RecordModel>, id: i64) -> bool {
    1 <= id <= s.len()
}

/// Whether record `id` exists and is still open for appends.
pub open spec fn record_open(s: Seq<RecordModel>, id: i64) -> bool {
    has_record(s, id) && !s[id - 1].done
}

/// Whether record `id` exists and has been sealed.
pub open spec fn record_sealed(s: Seq<RecordModel>, id: i64) -> bool {
    has_record(s, id) && s[id - 1].done
}

/// A record as created: open, empty, owned by `cid`.
pub open spec fn fresh_record(id: i64, slug: Seq<char>, created_at: i64, cid: i64) -> RecordModel {
    RecordModel {
        id,
        slug,
        created_at,
        messages: MessagesModel { cid, ids: Seq::empty() },
        done: false,
        count: 0,
    }
}

/// `r` with one more message reference and the count kept in step.
pub open spec fn with_append(r: RecordModel, mid: i32) -> RecordModel {
    RecordModel {
        messages: MessagesModel { cid: r.messages.cid, ids: r.messages.ids.push(mid) },
        count: (r.count + 1) as i64,
        ..r
    }
}

/// `r` sealed.
pub open spec fn with_sealed(r: RecordModel) -> RecordModel {
    RecordModel { done: true, ..r }
}

/// The store after a successful conditional append to record `id`.
pub open spec fn store_after_add(s: Seq<RecordModel>, id: i64, mid: i32) -> Seq<RecordModel> {
    s.update(id - 1, with_append(s[id - 1], mid))
}

/// The store after a successful seal of record `id`.
pub open spec fn store_after_seal(s: Seq<RecordModel>, id: i64) -> Seq<RecordModel> {
    s.update(id - 1, with_sealed(s[id - 1]))
}

/// The in-memory record table.
pub struct RecordStore {
    records: Vec<Record>,
}

impl View for RecordStore {
    type V = Seq<RecordModel>;

    closed spec fn view(&self) -> Seq<RecordModel> {
        self.records@.map_values(|r: Record| r@)
    }
}

impl RecordStore {
    /// The store invariant.
    pub open spec fn wf(self) -> bool {
        store_wf(self@)
    }

    /// An empty store.
    pub fn new() -> (s: RecordStore)
        ensures
            s@ == Seq::<RecordModel>::empty(),
            s.wf(),
    {
        let s = RecordStore { records: Vec::new() };
        proof {
            assert(s@ =~= Seq::<RecordModel>::empty());
        }
        s
    }

    /// Number of records ever created.
    pub fn len(&self) -> (n: usize)
        ensures
            n == self@.len(),
    {
        self.records.len()
    }

    /// Creates a new open, empty record owned by conversation `cid` and
    /// returns its store-assigned id, one past the previous newest.
    pub fn insert(&mut self, cid: i64, slug: String, created_at: i64) -> (id: i64)
        requires
            old(self).wf(),
            old(self)@.len() < i64::MAX,
        ensures
            final(self).wf(),
            id == old(self)@.len() + 1,
            final(self)@ == old(self)@.push(fresh_record(id, slug@, created_at, cid)),
    {
        proof {
            assert(self@.len() == self.records@.len());
        }
        let id = self.records.len() as i64 + 1;
        let rec = Record {
            id,
            slug,
            created_at,
            messages: Messages { cid, ids: Vec::new() },
            done: false,
            count: 0,
        };
        let ghost m = rec@;
        self.records.push(rec);
        proof {
            assert(self@ =~= old(self)@.push(m));
            assert(m == fresh_record(id, m.slug, created_at, cid));
            assert(forall|k: int|
                0 <= k < self@.len() ==> (#[trigger] self@[k]).wf() && self@[k].id == k + 1);
        }
        id
    }

    /// Looks up record `id`, requiring its lifecycle flag to equal `done`:
    /// a copy comes back exactly when such a record exists.
    pub fn fetch(&self, id: i64, done: bool) -> (r: Option<Record>)
        requires
            self.wf(),
        ensures
            match r {
                Some(rec) => has_record(self@, id) && self@[id - 1].done == done && rec@
                    == self@[id - 1],
                None => !(has_record(self@, id) && self@[id - 1].done == done),
            },
    {
        proof {
            lemma_store_len(self@);
        }
        let n = self.records.len();
        if id >= 1 && id <= n as i64 {
            let idx = (id - 1) as usize;
            let rec = &self.records[idx];
            if rec.done == done {
                Some(rec.duplicate())
            } else {
                None
            }
        } else {
            None
        }
    }

    /// The conditional append: adds one message reference to record `id`
    /// and bumps its count, exactly when the record exists and is open;
    /// a sealed or absent record leaves the store untouched.
    pub fn append_if_open(&mut self, id: i64, mid: i32) -> (ok: bool)
        requires
            old(self).wf(),
            record_open(old(self)@, id) ==> old(self)@[id - 1].count < i64::MAX,
        ensures
            final(self).wf(),
            ok == record_open(old(self)@, id),
            ok ==> final(self)@ == store_after_add(old(self)@, id, mid),
            !ok ==> final(self)@ == old(self)@,
    {
        proof {
            lemma_store_len(self@);
        }
        let n = self.records.len();
        if id >= 1 && id <= n as i64 {
            let idx = (id - 1) as usize;
            if !self.records[idx].done {
                let rec = &mut self.records[idx];
                rec.messages.ids.push(mid);
                rec.count = rec.count + 1;
                proof {
                    assert(self@ =~= store_after_add(old(self)@, id, mid));
                    assert(forall|k: int|
                        0 <= k < self@.len() ==> (#[trigger] self@[k]).wf() && self@[k].id == k
                            + 1);
                }
                true
            } else {
                false
            }
        } else {
            false
        }
    }

    /// The conditional seal: marks record `id` done exactly when it exists
    /// and is still open, returning a copy of the record as it was; sealing
    /// a sealed or absent record is a no-op reported as `None`.
    pub fn seal_if_open(&mut self, id: i64) -> (r: Option<Record>)
        requires
            old(self).wf(),
        ensures
            final(self).wf(),
            match r {
                Some(rec) => record_open(old(self)@, id) && rec@ == old(self)@[id - 1]
                    && final(self)@ == store_after_seal(old(self)@, id),
                None => !record_open(old(self)@, id) && final(self)@ == old(self)@,
            },
    {
        proof {
            lemma_store_len(self@);
        }
        let n = self.records.len();
        if id >= 1 && id <= n as i64 {
            let idx = (id - 1) as usize;
            if !self.records[idx].done {
                let copy = self.records[idx].duplicate();
                let rec = &mut self.records[idx];
                rec.done = true;
                proof {
                    assert(self@ =~= store_after_seal(old(self)@, id));
                    assert(forall|k: int|
                        0 <= k < self@.len() ==> (#[trigger] self@[k]).wf() && self@[k].id == k
                            + 1);
                }
                Some(copy)
            } else {
                None
            }
        } else {
            None
        }
    }
}

} // verus!
