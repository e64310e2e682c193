use near_pump_listener::broadcast::Broadcaster;
use near_pump_listener::dispatcher::{DispatchOutcome, EventRecord, Pipeline};
use near_pump_listener::mapper::ValidationError;
use near_pump_listener::payload::{RawField, RawObject, RawValue};
use near_pump_listener::record::TokenRecord;
use near_pump_listener::store::TokenStore;

fn field(name: &str, value: RawValue) -> RawField {
    RawField { name: name.to_string(), value }
}

fn text(v: &str) -> RawValue {
    RawValue::Str(v.to_string())
}

/// A complete, valid registration payload.
fn scenario_object() -> RawObject {
    RawObject {
        fields: vec![
            field("owner_id", text("alice.token")),
            field("total_supply", text("1000000")),
            field("spec", text("ft-1.0.0")),
            field("name", text("Demo")),
            field("symbol", text("DEMO")),
            field("decimals", RawValue::Int(18)),
            field("image", text("https://x/i.png")),
            field("description", text("d")),
            field("auction_duration", text("86400")),
            field("min_buy_amount", text("1")),
        ],
    }
}

fn scenario_payload() -> Vec<RawObject> {
    vec![scenario_object()]
}

fn scenario_event() -> EventRecord {
    EventRecord {
        event_kind: "register_token".to_string(),
        block_height: 184520318,
        data: scenario_payload(),
    }
}

fn assert_scenario_fields(t: &TokenRecord) {
    assert_eq!(t.owner_id, "alice.token");
    assert_eq!(t.total_supply, "1000000");
    assert_eq!(t.spec_version, "ft-1.0.0");
    assert_eq!(t.name, "Demo");
    assert_eq!(t.symbol, "DEMO");
    assert_eq!(t.decimals, 18u8);
    assert_eq!(t.image, "https://x/i.png");
    assert_eq!(t.description, "d");
    assert_eq!(t.auction_duration, "86400");
    assert_eq!(t.min_buy_amount, "1");
    assert!(t.icon.is_none());
    assert!(t.reference.is_none());
    assert!(t.reference_hash.is_none());
}

#[test]
fn scenario_commit_lists_and_fans_out() {
    let mut p = Pipeline::new("block_height".to_string());
    let sub = p.feed.subscribe(16);
    let outcome = p.handle_event(&scenario_event());
    assert!(matches!(outcome, DispatchOutcome::Committed));

    let listed = p.store.list_all();
    assert_eq!(listed.len(), 1);
    assert_scenario_fields(&listed[0].record);
    assert!(listed[0].created_at >= 1);

    let received = p.feed.recv(sub).expect("one message owed");
    assert_scenario_fields(&received);
    assert!(p.feed.recv(sub).is_none());

    assert_eq!(p.checkpoint.load(), Some(184520318));
}

#[test]
fn map_accepts_optional_fields_and_decodes_hash() {
    let mut obj = scenario_object();
    obj.fields.push(field("icon", text("data:image/png;base64,xyz")));
    obj.fields.push(field("reference", text("ref-1")));
    obj.fields.push(field("reference_hash", text("AQID")));
    let t = near_pump_listener::mapper::map(&vec![obj]).expect("valid payload");
    assert_eq!(t.icon.as_deref(), Some("data:image/png;base64,xyz"));
    assert_eq!(t.reference.as_deref(), Some("ref-1"));
    assert_eq!(t.reference_hash, Some(vec![1u8, 2, 3]));
}

#[test]
fn map_names_each_missing_required_field() {
    let required = [
        "owner_id",
        "total_supply",
        "spec",
        "name",
        "symbol",
        "decimals",
        "image",
        "description",
        "auction_duration",
        "min_buy_amount",
    ];
    for name in required {
        let mut obj = scenario_object();
        obj.fields.retain(|f| f.name != name);
        match near_pump_listener::mapper::map(&vec![obj]) {
            Err(ValidationError::MissingField(n)) => assert_eq!(n, name),
            other => panic!("expected a missing-field error for {name}, got {:?}", other.is_ok()),
        }
    }
}

#[test]
fn map_treats_null_required_field_as_missing() {
    let mut obj = scenario_object();
    obj.fields.retain(|f| f.name != "symbol");
    obj.fields.push(field("symbol", RawValue::Null));
    match near_pump_listener::mapper::map(&vec![obj]) {
        Err(ValidationError::MissingField(n)) => assert_eq!(n, "symbol"),
        _ => panic!("expected a missing-field error"),
    }
}

#[test]
fn map_rejects_empty_payload() {
    assert!(matches!(near_pump_listener::mapper::map(&Vec::new()), Err(ValidationError::MissingElement)));
}

#[test]
fn map_rejects_decimals_out_of_byte_range() {
    for bad in [256i64, -1i64] {
        let mut obj = scenario_object();
        obj.fields.retain(|f| f.name != "decimals");
        obj.fields.push(field("decimals", RawValue::Int(bad)));
        match near_pump_listener::mapper::map(&vec![obj]) {
            Err(ValidationError::InvalidField(n)) => assert_eq!(n, "decimals"),
            _ => panic!("expected an invalid-field error"),
        }
    }
}

#[test]
fn map_rejects_ill_typed_fields() {
    let mut obj = scenario_object();
    obj.fields.retain(|f| f.name != "owner_id");
    obj.fields.push(field("owner_id", RawValue::Int(3)));
    match near_pump_listener::mapper::map(&vec![obj]) {
        Err(ValidationError::InvalidField(n)) => assert_eq!(n, "owner_id"),
        _ => panic!("expected an invalid-field error"),
    }

    let mut obj = scenario_object();
    obj.fields.push(field("icon", RawValue::Other));
    match near_pump_listener::mapper::map(&vec![obj]) {
        Err(ValidationError::InvalidField(n)) => assert_eq!(n, "icon"),
        _ => panic!("expected an invalid-field error"),
    }
}

#[test]
fn map_rejects_undecodable_reference_hash() {
    let mut obj = scenario_object();
    obj.fields.push(field("reference_hash", text("!not-base64!")));
    match near_pump_listener::mapper::map(&vec![obj]) {
        Err(ValidationError::InvalidField(n)) => assert_eq!(n, "reference_hash"),
        _ => panic!("expected an invalid-field error"),
    }
}

#[test]
fn map_accepts_boundary_decimals() {
    for ok in [0i64, 255i64] {
        let mut obj = scenario_object();
        obj.fields.retain(|f| f.name != "decimals");
        obj.fields.push(field("decimals", RawValue::Int(ok)));
        let t = near_pump_listener::mapper::map(&vec![obj]).expect("valid payload");
        assert_eq!(t.decimals as i64, ok);
    }
}

#[test]
fn map_takes_the_earliest_of_duplicate_fields() {
    let mut obj = scenario_object();
    obj.fields.push(field("name", text("shadowed")));
    let t = near_pump_listener::mapper::map(&vec![obj]).expect("valid payload");
    assert_eq!(t.name, "Demo");
}

#[test]
fn listing_is_most_recent_first() {
    let mut store = TokenStore::new();
    let names = ["first", "second", "third"];
    for name in names {
        let mut obj = scenario_object();
        obj.fields.retain(|f| f.name != "name");
        obj.fields.push(field("name", text(name)));
        let t = near_pump_listener::mapper::map(&vec![obj]).expect("valid payload");
        store.commit(t);
    }
    let listed = store.list_all();
    assert_eq!(listed.len(), 3);
    assert_eq!(listed[0].record.name, "third");
    assert_eq!(listed[1].record.name, "second");
    assert_eq!(listed[2].record.name, "first");
    assert!(listed[0].created_at > listed[1].created_at);
    assert!(listed[1].created_at > listed[2].created_at);
}

fn named_record(name: &str) -> TokenRecord {
    let mut obj = scenario_object();
    obj.fields.retain(|f| f.name != "name");
    obj.fields.push(field("name", text(name)));
    near_pump_listener::mapper::map(&vec![obj]).expect("valid payload")
}

#[test]
fn subscriber_receives_all_in_publish_order() {
    let mut b = Broadcaster::new();
    let sub = b.subscribe(10);
    for name in ["a", "b", "c"] {
        b.publish(&named_record(name));
    }
    assert_eq!(b.recv(sub).expect("first").name, "a");
    assert_eq!(b.recv(sub).expect("second").name, "b");
    assert_eq!(b.recv(sub).expect("third").name, "c");
    assert!(b.recv(sub).is_none());
}

#[test]
fn overflowing_subscriber_loses_only_the_oldest() {
    let mut b = Broadcaster::new();
    let sub = b.subscribe(2);
    for name in ["a", "b", "c"] {
        b.publish(&named_record(name));
    }
    assert_eq!(b.recv(sub).expect("kept").name, "b");
    assert_eq!(b.recv(sub).expect("kept").name, "c");
    assert!(b.recv(sub).is_none());
}

#[test]
fn publish_with_no_subscribers_is_a_no_op() {
    let mut b = Broadcaster::new();
    b.publish(&named_record("quiet"));
    assert!(b.recv(1).is_none());
}

#[test]
fn closed_subscriber_is_pruned_without_touching_others() {
    let mut b = Broadcaster::new();
    let doomed = b.subscribe(4);
    let healthy = b.subscribe(4);
    b.close(doomed);
    b.publish(&named_record("kept"));
    assert!(b.recv(doomed).is_none());
    assert_eq!(b.recv(healthy).expect("delivered").name, "kept");
}

#[test]
fn unsubscribed_listener_gets_nothing() {
    let mut b = Broadcaster::new();
    let sub = b.subscribe(4);
    b.unsubscribe(sub);
    b.publish(&named_record("gone"));
    assert!(b.recv(sub).is_none());
}

#[test]
fn dispatcher_skips_foreign_event_kinds() {
    let mut p = Pipeline::new("block_height".to_string());
    let sub = p.feed.subscribe(4);
    let mut ev = scenario_event();
    ev.event_kind = "transfer".to_string();
    let outcome = p.handle_event(&ev);
    assert!(matches!(outcome, DispatchOutcome::Skipped));
    assert!(p.store.list_all().is_empty());
    assert!(p.feed.recv(sub).is_none());
    assert_eq!(p.checkpoint.load(), None);
}

#[test]
fn dispatcher_rejects_invalid_payload_without_side_effects() {
    let mut p = Pipeline::new("block_height".to_string());
    let sub = p.feed.subscribe(4);
    let mut ev = scenario_event();
    ev.data[0].fields.retain(|f| f.name != "owner_id");
    match p.handle_event(&ev) {
        DispatchOutcome::Rejected(ValidationError::MissingField(n)) => assert_eq!(n, "owner_id"),
        _ => panic!("expected a rejection naming owner_id"),
    }
    assert!(p.store.list_all().is_empty());
    assert!(p.feed.recv(sub).is_none());
    assert_eq!(p.checkpoint.load(), None);
}

#[test]
fn redelivered_event_is_stored_and_published_twice() {
    let mut p = Pipeline::new("block_height".to_string());
    let sub = p.feed.subscribe(8);
    let ev = scenario_event();
    assert!(matches!(p.handle_event(&ev), DispatchOutcome::Committed));
    assert!(matches!(p.handle_event(&ev), DispatchOutcome::Committed));

    let listed = p.store.list_all();
    assert_eq!(listed.len(), 2);
    assert_scenario_fields(&listed[0].record);
    assert_scenario_fields(&listed[1].record);
    assert_ne!(listed[0].created_at, listed[1].created_at);

    assert_scenario_fields(&p.feed.recv(sub).expect("first publish"));
    assert_scenario_fields(&p.feed.recv(sub).expect("second publish"));
    assert!(p.feed.recv(sub).is_none());
}

#[test]
fn late_subscriber_sees_no_history() {
    let mut p = Pipeline::new("block_height".to_string());
    assert!(matches!(p.handle_event(&scenario_event()), DispatchOutcome::Committed));
    let sub = p.feed.subscribe(4);
    assert!(p.feed.recv(sub).is_none());
}
