use crate::broadcast::Broadcaster;
use crate::checkpoint::{CheckpointStore, CheckpointV};
use crate::mapper::{map_spec, ValidationError, ValidationErrorV};
use crate::payload::{payload_view, RawFieldV, RawObject};
use crate::record::{TokenRecord, TokenRecordV};
use crate::store::{StoreV, StoredRecordV, TokenStore};
use vstd::prelude::*;

verus! {

/// A decoded event as the external source hands it over: its kind, the block
/// it came from, and its loosely-typed payload. Never mutated here.
pub struct EventRecord {
    pub event_kind: String,
    pub block_height: u64,
    pub data: Vec<RawObject>,
}

/// The mathematical image of an [`EventRecord`].
#[verifier::ext_equal]
pub struct EventRecordV {
    pub event_kind: Seq<char>,
    pub block_height: u64,
    pub data: Seq<Seq<RawFieldV>>,
}

impl View for EventRecord {
    type V = EventRecordV;

    open spec fn view(&self) -> EventRecordV {
        EventRecordV {
            event_kind: self.event_kind@,
            block_height: self.block_height,
            data: payload_view(self.data@),
        }
    }
}

/// The one event kind the pipeline persists and fans out.
pub open spec fn registration_kind() -> Seq<char> {
    "register_token"@
}

/// What the dispatcher decides for one event before any storage work.
pub enum DispatchAction {
    Discard,
    Reject(ValidationError),
    Commit(TokenRecord),
}

/// The mathematical image of a [`DispatchAction`].
pub enum DispatchActionV {
    Discard,
    Reject(ValidationErrorV),
    Commit(TokenRecordV),
}

impl View for DispatchAction {
    type V = DispatchActionV;

    open spec fn view(&self) -> DispatchActionV {
        match self {
            DispatchAction::Discard => DispatchActionV::Discard,
            DispatchAction::Reject(e) => DispatchActionV::Reject(e@),
            DispatchAction::Commit(t) => DispatchActionV::Commit(t@),
        }
    }
}

/// The decision owed to one event: an event of another kind is discarded
/// without error; a registration event with an invalid payload is rejected
/// with the mapper's error; a valid one has its mapped record committed.
pub open spec fn plan_spec(e: EventRecordV) -> DispatchActionV {
    if e.event_kind != registration_kind() {
        DispatchActionV::Discard
    } else {
        match map_spec(e.data) {
            Ok(t) => DispatchActionV::Commit(t),
            Err(v) => DispatchActionV::Reject(v),
        }
    }
}

/// Decides, without side effects, what the pipeline owes one event.
pub fn plan_event(event: &EventRecord) -> (a: DispatchAction)
    ensures
        a@ == plan_spec(event@),
{
    let kind = "register_token".to_owned();
    if !(event.event_kind == kind) {
        DispatchAction::Discard
    } else {
        match crate::mapper::map(&event.data) {
            Ok(t) => DispatchAction::Commit(t),
            Err(e) => DispatchAction::Reject(e),
        }
    }
}

/// The mathematical image of the whole pipeline.
#[verifier::ext_equal]
pub struct PipelineV {
    pub store: StoreV,
    pub feed: crate::broadcast::FeedV,
    pub checkpoint: CheckpointV,
}

impl PipelineV {
    /// Store and feed are each well-formed, and the persisted and broadcast
    /// views agree: the publish history is exactly the committed records in
    /// commit order.
    pub open spec fn wf(self) -> bool {
        &&& self.store.wf()
        &&& self.feed.wf()
        &&& self.feed.history == self.store.records.map_values(|r: StoredRecordV| r.record)
    }

    /// One event's passage through the pipeline: filter, map, commit,
    /// publish, checkpoint advance. A discarded or rejected event leaves
    /// every part untouched; a committed one reaches storage, every open
    /// subscriber, and the cursor, in that order.
    pub open spec fn handle_spec(self, e: EventRecordV) -> PipelineV {
        match plan_spec(e) {
            DispatchActionV::Discard => self,
            DispatchActionV::Reject(_) => self,
            DispatchActionV::Commit(t) => PipelineV {
                store: self.store.commit_spec(t),
                feed: self.feed.publish_spec(t),
                checkpoint: CheckpointV {
                    key: self.checkpoint.key,
                    height: Some(e.block_height),
                },
            },
        }
    }
}

/// How the dispatcher reports one event: filtered out, rejected by the
/// mapper, or committed, published and checkpointed.
pub enum DispatchOutcome {
    Skipped,
    Rejected(ValidationError),
    Committed,
}

/// The event-to-storage-to-fanout pipeline: the store of committed records,
/// the live-feed broadcaster, and the resumption cursor.
pub struct Pipeline {
    pub store: TokenStore,
    pub feed: Broadcaster,
    pub checkpoint: CheckpointStore,
}

impl View for Pipeline {
    type V = PipelineV;

    open spec fn view(&self) -> PipelineV {
        PipelineV { store: self.store@, feed: self.feed@, checkpoint: self.checkpoint@ }
    }
}

impl Pipeline {
    /// A fresh pipeline: nothing committed, nobody subscribed, the cursor
    /// not yet advanced.
    pub fn new(cursor: String) -> (p: Self)
        ensures
            p@.wf(),
            p@.store.records == Seq::<StoredRecordV>::empty(),
            p@.store.next_stamp == 1,
            p@.feed.next_id == 1,
            p@.feed.subs == Seq::<crate::broadcast::SubscriberV>::empty(),
            p@.feed.history == Seq::<TokenRecordV>::empty(),
            p@.checkpoint.key == cursor@,
            p@.checkpoint.height is None,
    {
        let p = Pipeline {
            store: TokenStore::new(),
            feed: Broadcaster::new(),
            checkpoint: CheckpointStore::new(cursor),
        };
        proof {
            assert(p@.feed.history =~~= p@.store.records.map_values(
                |r: StoredRecordV| r.record,
            ));
        }
        p
    }

    /// Drives one event through the pipeline. Only a successfully committed
    /// record is published, and only then does the cursor advance to the
    /// event's block height; a rejected or filtered event changes nothing
    /// and never halts the pipeline.
    pub fn handle_event(&mut self, event: &EventRecord) -> (o: DispatchOutcome)
        requires
            old(self)@.wf(),
            old(self)@.store.next_stamp < u64::MAX,
        ensures
            final(self)@.wf(),
            final(self)@ == old(self)@.handle_spec(event@),
            match plan_spec(event@) {
                DispatchActionV::Discard => o == DispatchOutcome::Skipped,
                DispatchActionV::Reject(v) => (o matches DispatchOutcome::Rejected(e) && e@
                    == v),
                DispatchActionV::Commit(_) => o == DispatchOutcome::Committed,
            },
    {
        match plan_event(event) {
            DispatchAction::Discard => DispatchOutcome::Skipped,
            DispatchAction::Reject(e) => DispatchOutcome::Rejected(e),
            DispatchAction::Commit(record) => {
                let to_publish = record.clone();
                let _stamp = self.store.commit(record);
                self.feed.publish(&to_publish);
                self.checkpoint.save(event.block_height);
                proof {
                    assert(self@.feed.history =~~= self@.store.records.map_values(
                        |r: StoredRecordV| r.record,
                    ));
                    assert(self@ =~~= old(self)@.handle_spec(event@));
                }
                DispatchOutcome::Committed
            },
        }
    }
}

/// Law: redelivery duplicates. Reprocessing an event the pipeline had
/// already committed — the restart path after a crash between the commit
/// and the checkpoint advance — stores a second record with the same fields
/// and publishes it a second time: nothing deduplicates, so delivery is
/// at-least-once rather than exactly-once.
pub proof fn lemma_redelivery_duplicates(p: PipelineV, e: EventRecordV)
    requires
        p.wf(),
        plan_spec(e) is Commit,
    ensures
        ({
            let t = plan_spec(e)->Commit_0;
            let n = p.store.records.len() as int;
            let twice = p.handle_spec(e).handle_spec(e);
            &&& twice.store.records.len() == n + 2
            &&& twice.store.records[n].record == t
            &&& twice.store.records[n + 1].record == t
            &&& twice.feed.history == p.feed.history.push(t).push(t)
            &&& twice.checkpoint.height == Some(e.block_height)
        }),
{
}

} // verus!
