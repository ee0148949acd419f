//! The record data model: a bundle of message references accumulated inside
//! one owning conversation, together with its well-formedness invariant.
use vstd::prelude::*;

verus! {

/// The ordered message references of a record, together with the
/// conversation they were sent in (the conversation copies are sourced from
/// during retrieval).
pub struct Messages {
    /// Identifier of the owning conversation.
    pub cid: i64,
    /// Identifiers of the referenced messages, in insertion order.
    pub ids: Vec<i32>,
}

/// Mathematical model of [`Messages`].
pub ghost struct MessagesModel {
    pub cid: i64,
    pub ids: Seq<i32>,
}

impl View for Messages {
    type V = MessagesModel;

    open spec fn view(&self) -> MessagesModel {
        MessagesModel { cid: self.cid, ids: self.ids@ }
    }
}

/// A persisted record: an append-only bundle of message references that
/// becomes immutable (and retrievable) once `done` is set.
pub struct Record {
    /// Store-assigned identifier, unique and monotonic, starting at 1.
    pub id: i64,
    /// Random capability token embedded in the shareable link.
    pub slug: String,
    /// Creation time, seconds since the epoch.
    pub created_at: i64,
    /// The referenced messages and their owning conversation.
    pub messages: Messages,
    /// False while recording is in progress, true once sealed.
    pub done: bool,
    /// Always equal to the number of message references.
    pub count: i64,
}

/// Mathematical model of [`Record`].
pub ghost struct RecordModel {
    pub id: i64,
    pub slug: Seq<char>,
    pub created_at: i64,
    pub messages: MessagesModel,
    pub done: bool,
    pub count: i64,
}

impl View for Record {
    type V = RecordModel;

    open spec fn view(&self) -> RecordModel {
        RecordModel {
            id: self.id,
            slug: self.slug@,
            created_at: self.created_at,
            messages: self.messages@,
            done: self.done,
            count: self.count,
        }
    }
}

impl RecordModel {
    /// The record invariant: the redundant `count` field always equals the
    /// number of message references, and the id is one the store assigns.
    pub open spec fn wf(self) -> bool {
        &&& self.count == self.messages.ids.len() as int
        &&& self.id >= 1
    }
}

/// Copies a vector of message identifiers element by element.
pub fn copy_ids(v: &Vec<i32>) -> (r: Vec<i32>)
    ensures
        r@ == v@,
{
    let mut r: Vec<i32> = Vec::new();
    let mut i: usize = 0;
    while i < v.len()
        invariant
            i <= v@.len(),
            r@ == v@.subrange(0, i as int),
        decreases v@.len() - i,
    {
        r.push(v[i]);
        i = i + 1;
    }
    proof {
        assert(r@ == v@.subrange(0, v@.len() as int));
        assert(v@.subrange(0, v@.len() as int) == v@);
    }
    r
}

impl Record {
    /// Returns a copy of the record with an identical model.
    pub fn duplicate(&self) -> (r: Record)
        ensures
            r@ == self@,
    {
        Record {
            id: self.id,
            slug: self.slug.clone(),
            created_at: self.created_at,
            messages: Messages { cid: self.messages.cid, ids: copy_ids(&self.messages.ids) },
            done: self.done,
            count: self.count,
        }
    }
}

} // verus!
