//! Library-wide laws, proved from the contracts the store and the engine
//! state: sealed records are immutable, and a whole recording session is
//! deterministic in the messages it was sent.
use crate::codec::decode_spec;
use crate::codec::lemma_token_round_trip;
use crate::codec::token_spec;
use crate::ext::is_slug_char;
use crate::ext::lemma_slug_char_not_dash;
use crate::record::RecordModel;
use crate::store::fresh_record;
use crate::store::record_open;
use crate::store::record_sealed;
use crate::store::store_after_add;
use crate::store::store_after_seal;
use crate::store::store_wf;
use vstd::prelude::*;

verus! {

/// A sealed record is never mutated: each store transition the engine can
/// make — a conditional append or a conditional seal, both legal only on an
/// open record, and the creation of a fresh record — leaves the model of a
/// sealed record exactly as it is.
pub proof fn lemma_sealed_immutable(
    s: Seq<RecordModel>,
    id: i64,
    j: i64,
    mid: i32,
    r: RecordModel,
)
    requires
        store_wf(s),
        record_sealed(s, id),
    ensures
        record_open(s, j) ==> store_after_add(s, j, mid)[id - 1] == s[id - 1],
        record_open(s, j) ==> store_after_seal(s, j)[id - 1] == s[id - 1],
        s.push(r)[id - 1] == s[id - 1],
{
    if record_open(s, j) {
        assert(j != id);
    }
}

/// The shareable token of every engine-created record decodes back to that
/// record: a slug drawn from the slug alphabet never contains the delimiter,
/// so the round trip holds for every id the store can assign.
pub proof fn lemma_record_token_round_trips(id: i64, slug: Seq<char>)
    requires
        id >= 1,
        forall|i: int| 0 <= i < slug.len() ==> is_slug_char(#[trigger] slug[i]),
    ensures
        decode_spec(token_spec(id as int, slug)) == Some((id as int, slug)),
{
    assert forall|i: int| 0 <= i < slug.len() implies slug[i] != '-' by {
        lemma_slug_char_not_dash(slug[i]);
    }
    lemma_token_round_trip(id as int, slug);
}

/// The store after appending each of `mids` to record `id`, in order.
pub open spec fn store_after_adds(s: Seq<RecordModel>, id: i64, mids: Seq<i32>) -> Seq<
    RecordModel,
>
    decreases mids.len(),
{
    if mids.len() == 0 {
        s
    } else {
        store_after_add(store_after_adds(s, id, mids.drop_last()), id, mids.last())
    }
}

/// Appending a sequence of messages to an open record keeps the store
/// well-formed, keeps the record open, extends its references in order,
/// counts every one of them, and touches no other record.
pub proof fn lemma_adds(s: Seq<RecordModel>, id: i64, mids: Seq<i32>)
    requires
        store_wf(s),
        record_open(s, id),
        s[id - 1].count + mids.len() <= i64::MAX,
    ensures
        ({
            let t = store_after_adds(s, id, mids);
            &&& store_wf(t)
            &&& t.len() == s.len()
            &&& record_open(t, id)
            &&& t[id - 1].messages.ids == s[id - 1].messages.ids + mids
            &&& t[id - 1].count == s[id - 1].count + mids.len()
            &&& t[id - 1].messages.cid == s[id - 1].messages.cid
            &&& t[id - 1].slug == s[id - 1].slug
            &&& t[id - 1].created_at == s[id - 1].created_at
            &&& t[id - 1].id == s[id - 1].id
            &&& (forall|k: int| 0 <= k < s.len() && k != id - 1 ==> t[k] == s[k])
        }),
    decreases mids.len(),
{
    let t = store_after_adds(s, id, mids);
    if mids.len() == 0 {
        assert(t[id - 1].messages.ids =~= s[id - 1].messages.ids + mids);
    } else {
        lemma_adds(s, id, mids.drop_last());
        let t1 = store_after_adds(s, id, mids.drop_last());
        assert(t[id - 1].messages.ids =~= s[id - 1].messages.ids + mids);
        assert(forall|k: int|
            0 <= k < t.len() ==> (#[trigger] t[k]).wf() && t[k].id == k + 1);
    }
}

/// Session determinism: from the menu phase, opening a record, sending any
/// sequence of content messages and ending the record yields exactly one
/// new record — sealed, owned by the recording conversation, holding
/// exactly the sent message references in order, with its count equal to
/// their number. Every content message finds the record open, and no
/// previously stored record is touched.
pub proof fn lemma_session_determinism(
    s0: Seq<RecordModel>,
    cid: i64,
    slug: Seq<char>,
    created_at: i64,
    mids: Seq<i32>,
)
    requires
        store_wf(s0),
        s0.len() < i64::MAX,
        mids.len() <= i64::MAX,
    ensures
        ({
            let id = (s0.len() + 1) as i64;
            let s1 = s0.push(fresh_record(id, slug, created_at, cid));
            let s2 = store_after_adds(s1, id, mids);
            let s3 = store_after_seal(s2, id);
            &&& (forall|k: int|
                0 <= k <= mids.len() ==> record_open(
                    store_after_adds(s1, id, #[trigger] mids.take(k)),
                    id,
                ))
            &&& record_sealed(s3, id)
            &&& s3.len() == s0.len() + 1
            &&& s3[id - 1].messages.ids == mids
            &&& s3[id - 1].count == mids.len()
            &&& s3[id - 1].messages.cid == cid
            &&& s3[id - 1].slug == slug
            &&& (forall|k: int| 0 <= k < s0.len() ==> s3[k] == s0[k])
        }),
{
    let id = (s0.len() + 1) as i64;
    let s1 = s0.push(fresh_record(id, slug, created_at, cid));
    assert(store_wf(s1)) by {
        assert(forall|k: int|
            0 <= k < s1.len() ==> (#[trigger] s1[k]).wf() && s1[k].id == k + 1);
    }
    assert(record_open(s1, id));
    assert forall|k: int| 0 <= k <= mids.len() implies record_open(
        store_after_adds(s1, id, #[trigger] mids.take(k)),
        id,
    ) by {
        lemma_adds(s1, id, mids.take(k));
    }
    lemma_adds(s1, id, mids);
    let s2 = store_after_adds(s1, id, mids);
    let s3 = store_after_seal(s2, id);
    assert(s3[id - 1].messages.ids =~= mids);
}

} // verus!
