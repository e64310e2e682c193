use crate::mapper::{map_spec, opt_hash, opt_str, req_decimals, req_str};
use crate::payload::RawFieldV;
use crate::record::{TokenRecord, TokenRecordV};
use vstd::prelude::*;

verus! {

/// A committed record together with the creation stamp the store assigned.
pub struct StoredRecord {
    pub record: TokenRecord,
    pub created_at: u64,
}

/// The mathematical image of a [`StoredRecord`].
#[verifier::ext_equal]
pub struct StoredRecordV {
    pub record: TokenRecordV,
    pub created_at: u64,
}

impl View for StoredRecord {
    type V = StoredRecordV;

    open spec fn view(&self) -> StoredRecordV {
        StoredRecordV { record: self.record@, created_at: self.created_at }
    }
}

impl Clone for StoredRecord {
    /// A clone carries exactly the same record and stamp.
    fn clone(&self) -> (r: Self)
        ensures
            r@ == self@,
    {
        StoredRecord { record: self.record.clone(), created_at: self.created_at }
    }
}

/// The mathematical image of the store: every committed record in commit
/// order, and the stamp the next commit will take.
#[verifier::ext_equal]
pub struct StoreV {
    pub records: Seq<StoredRecordV>,
    pub next_stamp: u64,
}

impl StoreV {
    /// Stamps start at one, so every committed record carries a populated
    /// (nonzero) stamp, and stamps rise strictly in commit order.
    pub open spec fn wf(self) -> bool {
        &&& 1 <= self.next_stamp
        &&& forall|i: int|
            0 <= i < self.records.len() ==> 1 <= #[trigger] self.records[i].created_at
                < self.next_stamp
        &&& forall|i: int, j: int|
            0 <= i < j < self.records.len() ==> self.records[i].created_at
                < self.records[j].created_at
    }

    /// What a commit does: append the record under the next stamp.
    pub open spec fn commit_spec(self, t: TokenRecordV) -> StoreV {
        StoreV {
            records: self.records.push(
                StoredRecordV { record: t, created_at: self.next_stamp },
            ),
            next_stamp: (self.next_stamp + 1) as u64,
        }
    }
}

/// Every committed record, most recent first.
pub open spec fn list_all_spec(records: Seq<StoredRecordV>) -> Seq<StoredRecordV> {
    records.reverse()
}

/// The append-only history of committed token records.
pub struct TokenStore {
    pub records: Vec<StoredRecord>,
    pub next_stamp: u64,
}

impl View for TokenStore {
    type V = StoreV;

    open spec fn view(&self) -> StoreV {
        StoreV {
            records: self.records@.map_values(|r: StoredRecord| r@),
            next_stamp: self.next_stamp,
        }
    }
}

impl TokenStore {
    /// A fresh, empty store.
    pub fn new() -> (s: Self)
        ensures
            s@.wf(),
            s@.records == Seq::<StoredRecordV>::empty(),
            s@.next_stamp == 1,
    {
        let s = TokenStore { records: Vec::new(), next_stamp: 1 };
        proof {
            assert(s@.records =~= Seq::<StoredRecordV>::empty());
        }
        s
    }

    /// Durably appends the record, assigning the creation stamp at commit
    /// time. Never deduplicates: committing equal fields twice stores two
    /// records under two stamps.
    pub fn commit(&mut self, record: TokenRecord) -> (stamp: u64)
        requires
            old(self)@.wf(),
            old(self)@.next_stamp < u64::MAX,
        ensures
            final(self)@ == old(self)@.commit_spec(record@),
            final(self)@.wf(),
            stamp == old(self)@.next_stamp,
    {
        let stamp = self.next_stamp;
        let ghost prior = self@;
        self.records.push(StoredRecord { record, created_at: stamp });
        self.next_stamp = stamp + 1;
        proof {
            assert(self@.records =~= prior.commit_spec(
                self.records@[prior.records.len() as int].record@,
            ).records);
        }
        stamp
    }

    /// Every committed record, most recent first.
    pub fn list_all(&self) -> (r: Vec<StoredRecord>)
        ensures
            r@.map_values(|x: StoredRecord| x@) == list_all_spec(self@.records),
    {
        let n = self.records.len();
        let mut out: Vec<StoredRecord> = Vec::new();
        let mut i: usize = 0;
        while i < n
            invariant
                n == self.records.len(),
                0 <= i <= n,
                out@.len() == i,
                forall|j: int| 0 <= j < i ==> #[trigger] out@[j]@ == self@.records[n - 1 - j],
            decreases n - i,
        {
            let rec = &self.records[n - 1 - i];
            out.push(rec.clone());
            i = i + 1;
        }
        proof {
            assert(out@.map_values(|x: StoredRecord| x@) =~= list_all_spec(self@.records));
        }
        out
    }
}

/// Law: after any sequence of successful commits the listing holds exactly
/// one entry per committed record, ordered by creation stamp strictly
/// descending (most recent first).
pub proof fn lemma_listing_complete_and_ordered(s: StoreV)
    requires
        s.wf(),
    ensures
        list_all_spec(s.records).len() == s.records.len(),
        forall|i: int, j: int|
            0 <= i < j < s.records.len() ==> list_all_spec(s.records)[i].created_at
                > list_all_spec(s.records)[j].created_at,
{
    let listed = list_all_spec(s.records);
    let n = s.records.len() as int;
    assert forall|i: int, j: int| 0 <= i < j < n implies listed[i].created_at
        > listed[j].created_at by {
        assert(listed[i] == s.records[n - 1 - i]);
        assert(listed[j] == s.records[n - 1 - j]);
    }
}

/// Law: a payload the mapper accepts, once committed, stands at the head of
/// the listing with exactly the fields the payload carried and a populated
/// (nonzero) creation stamp.
pub proof fn lemma_map_commit_roundtrip(s: StoreV, data: Seq<Seq<RawFieldV>>)
    requires
        s.wf(),
        map_spec(data) is Ok,
    ensures
        ({
            let t = map_spec(data)->Ok_0;
            let listed = list_all_spec(s.commit_spec(t).records);
            let fields = data.first();
            &&& listed.len() == s.records.len() + 1
            &&& listed.first().record == t
            &&& 1 <= listed.first().created_at
            &&& listed.first().record.owner_id == req_str(fields, "owner_id"@)->Ok_0
            &&& listed.first().record.total_supply == req_str(fields, "total_supply"@)->Ok_0
            &&& listed.first().record.spec_version == req_str(fields, "spec"@)->Ok_0
            &&& listed.first().record.name == req_str(fields, "name"@)->Ok_0
            &&& listed.first().record.symbol == req_str(fields, "symbol"@)->Ok_0
            &&& listed.first().record.icon == opt_str(fields, "icon"@)->Ok_0
            &&& listed.first().record.reference == opt_str(fields, "reference"@)->Ok_0
            &&& listed.first().record.reference_hash == opt_hash(fields, "reference_hash"@)->Ok_0
            &&& listed.first().record.decimals == req_decimals(fields, "decimals"@)->Ok_0
            &&& listed.first().record.image == req_str(fields, "image"@)->Ok_0
            &&& listed.first().record.description == req_str(fields, "description"@)->Ok_0
            &&& listed.first().record.auction_duration == req_str(
                fields,
                "auction_duration"@,
            )->Ok_0
            &&& listed.first().record.min_buy_amount == req_str(fields, "min_buy_amount"@)->Ok_0
        }),
{
    let t = map_spec(data)->Ok_0;
    let committed = s.commit_spec(t).records;
    let listed = list_all_spec(committed);
    assert(listed.first() == committed[committed.len() - 1]);
}

} // verus!
