//! Behaviour of the wire codec: exact encodings, lossless round trips
//! including escaping and numeric extremes, strictness of the decoder, and
//! that the canonical text is plain JSON to an independent parser.

use order_store::store::store_prepare;
use order_store::{decode_order, encode_order};
use order_store::{DeliveryInfo, ItemsInfo, Order, PaymentInfo};

fn minimal_order(uid: &str) -> Order {
    Order {
        order_uid: uid.to_string(),
        track_number: String::new(),
        entry: String::new(),
        delivery: DeliveryInfo {
            name: String::new(),
            phone: String::new(),
            zip: String::new(),
            city: String::new(),
            address: String::new(),
            region: String::new(),
            email: String::new(),
        },
        payment: PaymentInfo {
            transaction: String::new(),
            request_id: String::new(),
            currency: String::new(),
            provider: String::new(),
            amount: 0,
            payment_dt: 0,
            bank: String::new(),
            delivery_cost: 0,
            goods_total: 0,
            custom_fee: 0,
        },
        items: Vec::new(),
        locale: String::new(),
        internal_signature: String::new(),
        customer_id: String::new(),
        delivery_service: String::new(),
        shardkey: String::new(),
        sm_id: 0,
        date_created: String::new(),
        oof_shard: String::new(),
    }
}

fn one_item(chrt_id: u64, price: u32) -> ItemsInfo {
    ItemsInfo {
        chrt_id,
        track_number: "TRK".to_string(),
        price,
        rid: "rid-1".to_string(),
        name: "thing".to_string(),
        sale: 10,
        size: "M".to_string(),
        total_price: price,
        nm_id: 42,
        brand: "brandname".to_string(),
        status: 202,
    }
}

#[test]
fn encode_minimal_document_exact_text() {
    let mut doc = minimal_order("a");
    doc.sm_id = 7;
    let text = encode_order(&doc);
    let mut expected = String::new();
    expected.push_str("{\"order_uid\":\"a\",\"track_number\":\"\",\"entry\":\"\",");
    expected.push_str("\"delivery\":{\"name\":\"\",\"phone\":\"\",\"zip\":\"\",\"city\":\"\",");
    expected.push_str("\"address\":\"\",\"region\":\"\",\"email\":\"\"},");
    expected.push_str("\"payment\":{\"transaction\":\"\",\"request_id\":\"\",\"currency\":\"\",");
    expected.push_str("\"provider\":\"\",\"amount\":0,\"payment_dt\":0,\"bank\":\"\",");
    expected.push_str("\"delivery_cost\":0,\"goods_total\":0,\"custom_fee\":0},");
    expected.push_str("\"items\":[],\"locale\":\"\",\"internal_signature\":\"\",");
    expected.push_str("\"customer_id\":\"\",\"delivery_service\":\"\",\"shardkey\":\"\",");
    expected.push_str("\"sm_id\":7,\"date_created\":\"\",\"oof_shard\":\"\"}");
    assert_eq!(text, expected);
}

#[test]
fn decode_inverts_encode_on_minimal_document() {
    let doc = minimal_order("a");
    let text = encode_order(&doc);
    let back = decode_order(&text).expect("canonical text must decode");
    assert_eq!(back, doc);
}

#[test]
fn round_trip_with_escaped_characters() {
    let mut doc = minimal_order("esc-1");
    doc.delivery.name = "a\"b\\c".to_string();
    doc.delivery.address = "line\"\"end\\\\".to_string();
    doc.locale = "\\".to_string();
    doc.customer_id = "\"".to_string();
    let text = encode_order(&doc);
    let back = decode_order(&text).expect("escaped text must decode");
    assert_eq!(back, doc);
}

#[test]
fn round_trip_with_unicode_text() {
    let mut doc = minimal_order("uni-1");
    doc.delivery.city = "Киръят Мозкин".to_string();
    doc.delivery.name = "测试 テスト ✓".to_string();
    let text = encode_order(&doc);
    let back = decode_order(&text).expect("unicode text must decode");
    assert_eq!(back, doc);
}

#[test]
fn round_trip_numeric_extremes() {
    let mut doc = minimal_order("num-1");
    doc.sm_id = u64::MAX;
    doc.payment.amount = u32::MAX;
    doc.payment.payment_dt = i64::MAX;
    doc.payment.custom_fee = 0;
    doc.items.push(one_item(u64::MAX, u32::MAX));
    let text = encode_order(&doc);
    let back = decode_order(&text).expect("extreme numbers must decode");
    assert_eq!(back, doc);
}

#[test]
fn round_trip_preserves_item_order() {
    let mut doc = minimal_order("items-1");
    doc.items.push(one_item(1, 10));
    doc.items.push(one_item(2, 20));
    doc.items.push(one_item(3, 30));
    let back = decode_order(&encode_order(&doc)).unwrap();
    assert_eq!(back.items.len(), 3);
    assert_eq!(back.items[0].chrt_id, 1);
    assert_eq!(back.items[1].chrt_id, 2);
    assert_eq!(back.items[2].chrt_id, 3);
}

#[test]
fn decode_rejects_trailing_text() {
    let doc = minimal_order("t");
    let mut text = encode_order(&doc);
    text.push(' ');
    assert!(decode_order(&text).is_none());
}

#[test]
fn decode_rejects_whitespace_variant() {
    let text = "{ \"order_uid\": \"a\" }";
    assert!(decode_order(text).is_none());
}

#[test]
fn decode_rejects_missing_items_field() {
    let mut text = String::new();
    text.push_str("{\"order_uid\":\"a\",\"track_number\":\"\",\"entry\":\"\",");
    text.push_str("\"delivery\":{\"name\":\"\",\"phone\":\"\",\"zip\":\"\",\"city\":\"\",");
    text.push_str("\"address\":\"\",\"region\":\"\",\"email\":\"\"},");
    text.push_str("\"payment\":{\"transaction\":\"\",\"request_id\":\"\",\"currency\":\"\",");
    text.push_str("\"provider\":\"\",\"amount\":0,\"payment_dt\":0,\"bank\":\"\",");
    text.push_str("\"delivery_cost\":0,\"goods_total\":0,\"custom_fee\":0},");
    text.push_str("\"locale\":\"\",\"internal_signature\":\"\",");
    text.push_str("\"customer_id\":\"\",\"delivery_service\":\"\",\"shardkey\":\"\",");
    text.push_str("\"sm_id\":7,\"date_created\":\"\",\"oof_shard\":\"\"}");
    assert!(decode_order(&text).is_none());
}

#[test]
fn decode_rejects_leading_zero_numbers() {
    let good = encode_order(&minimal_order("z"));
    let bad = good.replace("\"sm_id\":0", "\"sm_id\":00");
    assert!(decode_order(&bad).is_none());
}

#[test]
fn decode_rejects_number_out_of_field_range() {
    let good = encode_order(&minimal_order("r"));
    // amount is a 32-bit field; this value does not fit it.
    let bad = good.replace("\"amount\":0", "\"amount\":4294967296");
    assert!(decode_order(&bad).is_none());
}

#[test]
fn decode_rejects_document_with_empty_identifier() {
    // Encodes fine, but fails structural validation on the read path.
    let doc = minimal_order("");
    let text = encode_order(&doc);
    assert!(decode_order(&text).is_none());
}

#[test]
fn decode_rejects_bad_escape() {
    let good = encode_order(&minimal_order("e"));
    let bad = good.replace("\"locale\":\"\"", "\"locale\":\"\\n\"");
    assert!(decode_order(&bad).is_none());
}

#[test]
fn encoded_text_is_plain_json() {
    let mut doc = minimal_order("b563feb7b2b84b6test");
    doc.payment.amount = 1817;
    doc.items.push(one_item(9934930, 453));
    doc.delivery.name = "quote\" and back\\slash".to_string();
    let text = encode_order(&doc);
    let value: serde_json::Value = serde_json::from_str(&text).expect("must be valid JSON");
    assert_eq!(
        value.get("order_uid").and_then(|v| v.as_str()),
        Some("b563feb7b2b84b6test")
    );
    assert_eq!(
        value.get("payment").and_then(|p| p.get("amount")).and_then(|v| v.as_u64()),
        Some(1817)
    );
    let items = value.get("items").and_then(|v| v.as_array()).expect("items is an array");
    assert_eq!(items.len(), 1);
    assert_eq!(items[0].get("chrt_id").and_then(|v| v.as_u64()), Some(9934930));
    assert_eq!(items[0].get("price").and_then(|v| v.as_u64()), Some(453));
    assert_eq!(
        value.get("delivery").and_then(|d| d.get("name")).and_then(|v| v.as_str()),
        Some("quote\" and back\\slash")
    );
}

#[test]
fn store_prepare_yields_key_and_blob() {
    let doc = minimal_order("prep-1");
    let (key, blob) = store_prepare(&doc).expect("valid document");
    assert_eq!(key, "prep-1".to_string());
    assert_eq!(blob, encode_order(&doc));
    assert_eq!(decode_order(&blob).unwrap(), doc);
}

#[test]
fn store_prepare_rejects_invalid_documents() {
    assert!(store_prepare(&minimal_order("")).is_err());
    let mut doc = minimal_order("x");
    doc.payment.payment_dt = -7;
    assert!(store_prepare(&doc).is_err());
}
