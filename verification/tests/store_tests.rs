//! Behaviour of the document store: store/fetch round trip, overwrite,
//! absence, the validation gate, corruption detection, and independence of
//! distinct keys.

use order_store::store::{fetch_decision, DocumentStore, FetchError, MemBackend};
use order_store::{DeliveryInfo, ItemsInfo, Order, PaymentInfo, ValidationError};

fn sample_order(uid: &str) -> Order {
    Order {
        order_uid: uid.to_string(),
        track_number: "WBILMTESTTRACK".to_string(),
        entry: "WBIL".to_string(),
        delivery: DeliveryInfo {
            name: "Test Testov".to_string(),
            phone: "+9720000000".to_string(),
            zip: "2639809".to_string(),
            city: "Kiryat Mozkin".to_string(),
            address: "Ploshad Mira 15".to_string(),
            region: "Kraiot".to_string(),
            email: "test@gmail.com".to_string(),
        },
        payment: PaymentInfo {
            transaction: uid.to_string(),
            request_id: String::new(),
            currency: "USD".to_string(),
            provider: "wbpay".to_string(),
            amount: 1817,
            payment_dt: 1637907727,
            bank: "alpha".to_string(),
            delivery_cost: 1500,
            goods_total: 317,
            custom_fee: 0,
        },
        items: vec![ItemsInfo {
            chrt_id: 9934930,
            track_number: "WBILMTESTTRACK".to_string(),
            price: 453,
            rid: "ab4219087a764ae0btest".to_string(),
            name: "Mascaras".to_string(),
            sale: 30,
            size: "0".to_string(),
            total_price: 317,
            nm_id: 2389212,
            brand: "Vivienne Sabo".to_string(),
            status: 202,
        }],
        locale: "en".to_string(),
        internal_signature: String::new(),
        customer_id: "test".to_string(),
        delivery_service: "meest".to_string(),
        shardkey: "9".to_string(),
        sm_id: 99,
        date_created: "2021-11-26T06:22:19Z".to_string(),
        oof_shard: "1".to_string(),
    }
}

#[test]
fn scenario_store_then_fetch() {
    let mut store = DocumentStore::new();
    let doc = sample_order("b563feb7b2b84b6test");
    assert_eq!(doc.items[0].chrt_id, 9934930);
    assert_eq!(doc.items[0].price, 453);
    assert_eq!(doc.payment.amount, 1817);
    let key = store.store(&doc).expect("valid document must store");
    assert_eq!(key, "b563feb7b2b84b6test".to_string());
    let fetched = store.fetch("b563feb7b2b84b6test").expect("stored key must fetch");
    assert_eq!(fetched, doc);
    assert_eq!(store.fetch("unknown-id"), Err(FetchError::NotFound));
}

#[test]
fn fetch_round_trip_preserves_every_field() {
    let mut store = DocumentStore::new();
    let mut doc = sample_order("order-1");
    doc.items.push(ItemsInfo {
        chrt_id: 1,
        track_number: "T2".to_string(),
        price: 2,
        rid: "r2".to_string(),
        name: "second".to_string(),
        sale: 0,
        size: "XL".to_string(),
        total_price: 2,
        nm_id: 5,
        brand: "b".to_string(),
        status: 0,
    });
    store.store(&doc).unwrap();
    let fetched = store.fetch("order-1").unwrap();
    assert_eq!(fetched, doc);
    assert_eq!(fetched.items.len(), 2);
    assert_eq!(fetched.items[1].name, "second".to_string());
}

#[test]
fn overwrite_same_key_keeps_last_document() {
    let mut store = DocumentStore::new();
    let d1 = sample_order("dup-key");
    let mut d2 = sample_order("dup-key");
    d2.locale = "ru".to_string();
    d2.payment.amount = 99;
    store.store(&d1).unwrap();
    store.store(&d2).unwrap();
    let fetched = store.fetch("dup-key").unwrap();
    assert_eq!(fetched, d2);
    assert_ne!(fetched, d1);
}

#[test]
fn fetch_never_stored_key_is_not_found() {
    let store = DocumentStore::new();
    assert_eq!(store.fetch("nothing-here"), Err(FetchError::NotFound));
    assert_eq!(store.fetch(""), Err(FetchError::NotFound));
}

#[test]
fn validation_gate_empty_identifier() {
    let mut store = DocumentStore::new();
    let doc = sample_order("");
    assert_eq!(store.store(&doc), Err(ValidationError::EmptyOrderUid));
    // The rejected write left no entry behind.
    assert_eq!(store.fetch(""), Err(FetchError::NotFound));
}

#[test]
fn validation_gate_negative_payment_timestamp() {
    let mut store = DocumentStore::new();
    let mut doc = sample_order("neg-dt");
    doc.payment.payment_dt = -1;
    assert_eq!(store.store(&doc), Err(ValidationError::NegativePaymentDate));
    assert_eq!(store.fetch("neg-dt"), Err(FetchError::NotFound));
}

#[test]
fn validation_error_messages_name_the_field() {
    assert_eq!(ValidationError::EmptyOrderUid.message(), "order_uid must not be empty");
    assert_eq!(
        ValidationError::NegativePaymentDate.message(),
        "payment_dt must be non-negative"
    );
}

#[test]
fn corrupt_blob_is_reported_not_fatal() {
    // A syntactically plausible but structurally incomplete blob, written
    // to the backend outside the validation path.
    let mut backend = MemBackend::new();
    backend.put(
        "bad-key".to_string(),
        "{\"order_uid\":\"bad-key\",\"track_number\":\"T\"}".to_string(),
    );
    let store = DocumentStore::from_backend(backend);
    assert_eq!(store.fetch("bad-key"), Err(FetchError::CorruptDocument));
}

#[test]
fn corrupt_empty_blob_is_reported() {
    let mut backend = MemBackend::new();
    backend.put("k".to_string(), String::new());
    let store = DocumentStore::from_backend(backend);
    assert_eq!(store.fetch("k"), Err(FetchError::CorruptDocument));
}

#[test]
fn stored_blob_failing_validation_is_corrupt() {
    // A well-formed encoding of a document with an empty identifier: it
    // parses, but fails structural validation, so a fetch reports it.
    let empty_uid_doc = sample_order("");
    let blob = order_store::encode_order(&empty_uid_doc);
    let mut backend = MemBackend::new();
    backend.put("seeded".to_string(), blob);
    let store = DocumentStore::from_backend(backend);
    assert_eq!(store.fetch("seeded"), Err(FetchError::CorruptDocument));
}

#[test]
fn distinct_keys_are_independent() {
    let mut store = DocumentStore::new();
    let mut docs = Vec::new();
    for i in 0..5 {
        let mut d = sample_order(&format!("key-{}", i));
        d.sm_id = i as u64;
        store.store(&d).unwrap();
        docs.push(d);
    }
    for i in 0..5 {
        let fetched = store.fetch(&format!("key-{}", i)).unwrap();
        assert_eq!(fetched, docs[i]);
    }
    assert_eq!(store.fetch("key-5"), Err(FetchError::NotFound));
}

#[test]
fn fetch_decision_mirrors_fetch() {
    assert_eq!(fetch_decision(None), Err(FetchError::NotFound));
    assert_eq!(
        fetch_decision(Some("not a document".to_string())),
        Err(FetchError::CorruptDocument)
    );
    let doc = sample_order("row-1");
    let blob = order_store::encode_order(&doc);
    assert_eq!(fetch_decision(Some(blob)), Ok(doc));
}

#[test]
fn store_returns_the_identifier_as_key() {
    let mut store = DocumentStore::new();
    let doc = sample_order("the-key");
    let key = store.store(&doc).unwrap();
    assert_eq!(key, "the-key".to_string());
    assert!(store.fetch(&key).is_ok());
}
