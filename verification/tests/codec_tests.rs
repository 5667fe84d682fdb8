use billing_pipeline::codec::{decode, DecodeError, EncodeError, Field};
use billing_pipeline::event::{amounts_consistent, dec_check, dec_parse, BillingEvent};

fn sample_event() -> BillingEvent {
    BillingEvent {
        id: "E1".to_string(),
        order_type: "standard".to_string(),
        revenue_code: "R100".to_string(),
        customer: "ACME".to_string(),
        invoice_number: "INV-7".to_string(),
        pieces: 3,
        weight: 1200,
        bill_type: "freight".to_string(),
        ready_to_bill: true,
        bill_date: "2024-05-01".to_string(),
        mileage: "12.5".to_string(),
        worker: "w-9".to_string(),
        commodity: "steel".to_string(),
        commodity_descr: "coils".to_string(),
        consignee_ref_number: "C-55".to_string(),
        other_charge_amount: "10.00".to_string(),
        freight_charge_amount: "20.00".to_string(),
        total_amount: "30.00".to_string(),
        is_summary: false,
        is_cancelled: false,
        bol_number: "BOL-1".to_string(),
        user: "ops".to_string(),
    }
}

#[test]
fn round_trip_plain_event() {
    let e = sample_event();
    let bytes = e.encode().expect("well-formed event encodes");
    let back = decode(&bytes).expect("own encoding decodes");
    assert!(back == e);
}

#[test]
fn round_trip_with_escapes_and_unicode() {
    let mut e = sample_event();
    e.customer = "He said \"hi\" \\ done".to_string();
    e.commodity_descr = "tab\there\nnewline\u{1}ctl".to_string();
    e.user = "Ünïcode 字".to_string();
    let bytes = e.encode().expect("encodes");
    let back = decode(&bytes).expect("decodes");
    assert!(back == e);
}

#[test]
fn encoding_is_canonical_json() {
    let e = sample_event();
    let bytes = e.encode().unwrap();
    let text = String::from_utf8(bytes).expect("encoding is UTF-8");
    assert!(text.starts_with("{\"id\":\"E1\",\"order_type\":\"standard\""));
    assert!(text.ends_with("\"user\":\"ops\"}"));
    assert!(text.contains("\"pieces\":3"));
    assert!(text.contains("\"mileage\":12.5"));
    assert!(text.contains("\"ready_to_bill\":true"));
    assert!(text.contains("\"is_summary\":false"));
}

#[test]
fn serde_json_reads_our_encoding() {
    let e = sample_event();
    let bytes = e.encode().unwrap();
    let v: serde_json::Value = serde_json::from_slice(&bytes).expect("valid JSON");
    assert_eq!(v["id"], serde_json::Value::String("E1".to_string()));
    assert_eq!(v["pieces"].as_u64(), Some(3));
    assert_eq!(v["ready_to_bill"].as_bool(), Some(true));
    assert_eq!(v["total_amount"].as_str(), Some("30.00"));
    assert_eq!(v["mileage"].as_f64(), Some(12.5));
    assert_eq!(v.as_object().unwrap().len(), 22);
}

#[test]
fn decodes_members_in_any_order_and_ignores_unknown_fields() {
    let e = sample_event();
    let bytes = e.encode().unwrap();
    let v: serde_json::Value = serde_json::from_slice(&bytes).unwrap();
    // Rebuild the object with extra members; serde_json's map iteration
    // order differs from our canonical order once keys are re-inserted.
    let mut m = serde_json::Map::new();
    m.insert("zz_extra".to_string(), serde_json::Value::String("x".to_string()));
    m.insert(
        "nested".to_string(),
        serde_json::from_str("{\"a\":[1,2,{\"b\":\"}\"}],\"c\":null}").unwrap(),
    );
    for (k, val) in v.as_object().unwrap() {
        m.insert(k.clone(), val.clone());
    }
    let text = serde_json::Value::Object(m).to_string();
    let back = decode(text.as_bytes()).expect("reordered object with extras decodes");
    assert!(back == e);
}

#[test]
fn escape_sequences_decode() {
    let e = sample_event();
    let text = String::from_utf8(e.encode().unwrap()).unwrap();

    // Hex escapes name the character by its scalar value.
    let t2 = text.replace("\"customer\":\"ACME\"", "\"customer\":\"\\u0041CM\\u0045\"");
    let back = decode(t2.as_bytes()).expect("hex escapes decode");
    assert_eq!(back.customer, "ACME");

    // The common short escapes.
    let t3 = text.replace("\"worker\":\"w-9\"", "\"worker\":\"w\\n\\t\\\\9\\/\"");
    let back = decode(t3.as_bytes()).expect("short escapes decode");
    assert_eq!(back.worker, "w\n\t\\9/");

    // A lone surrogate is not a scalar value.
    let t4 = text.replace("\"customer\":\"ACME\"", "\"customer\":\"\\uD800\"");
    assert_eq!(decode(t4.as_bytes()), Err(DecodeError::Malformed));
}

#[test]
fn malformed_utf8_is_malformed() {
    let bytes = vec![0x7b, 0xff, 0xfe, 0x7d];
    assert_eq!(decode(&bytes), Err(DecodeError::Malformed));
}

#[test]
fn malformed_syntax_is_malformed() {
    assert_eq!(decode(b"not json"), Err(DecodeError::Malformed));
    assert_eq!(decode(b"{\"id\":\"E1\""), Err(DecodeError::Malformed));
    assert_eq!(decode(b""), Err(DecodeError::Malformed));
}

#[test]
fn missing_field_is_schema_violation() {
    assert_eq!(
        decode(b"{}"),
        Err(DecodeError::SchemaViolation(Field::Id))
    );
    let e = sample_event();
    let bytes = e.encode().unwrap();
    let v: serde_json::Value = serde_json::from_slice(&bytes).unwrap();
    let mut m = v.as_object().unwrap().clone();
    m.remove("weight");
    let text = serde_json::Value::Object(m).to_string();
    assert_eq!(
        decode(text.as_bytes()),
        Err(DecodeError::SchemaViolation(Field::Weight))
    );
}

#[test]
fn wrong_type_is_schema_violation() {
    let e = sample_event();
    let bytes = e.encode().unwrap();
    let v: serde_json::Value = serde_json::from_slice(&bytes).unwrap();

    let mut m = v.as_object().unwrap().clone();
    m.insert("id".to_string(), serde_json::Value::from(5));
    let text = serde_json::Value::Object(m).to_string();
    assert_eq!(decode(text.as_bytes()), Err(DecodeError::SchemaViolation(Field::Id)));

    let mut m = v.as_object().unwrap().clone();
    m.insert("pieces".to_string(), serde_json::Value::String("3".to_string()));
    let text = serde_json::Value::Object(m).to_string();
    assert_eq!(decode(text.as_bytes()), Err(DecodeError::SchemaViolation(Field::Pieces)));

    let mut m = v.as_object().unwrap().clone();
    m.insert("pieces".to_string(), serde_json::Value::from(4294967296u64));
    let text = serde_json::Value::Object(m).to_string();
    assert_eq!(decode(text.as_bytes()), Err(DecodeError::SchemaViolation(Field::Pieces)));

    let mut m = v.as_object().unwrap().clone();
    m.insert("mileage".to_string(), serde_json::Value::from(-1));
    let text = serde_json::Value::Object(m).to_string();
    assert_eq!(decode(text.as_bytes()), Err(DecodeError::SchemaViolation(Field::Mileage)));

    let mut m = v.as_object().unwrap().clone();
    m.insert("is_summary".to_string(), serde_json::Value::from(0));
    let text = serde_json::Value::Object(m).to_string();
    assert_eq!(decode(text.as_bytes()), Err(DecodeError::SchemaViolation(Field::IsSummary)));
}

#[test]
fn unrepresentable_mileage_fails_encoding() {
    let mut e = sample_event();
    e.mileage = "12.5mi".to_string();
    assert_eq!(e.encode(), Err(EncodeError::Unrepresentable(Field::Mileage)));
    e.mileage = "".to_string();
    assert_eq!(e.encode(), Err(EncodeError::Unrepresentable(Field::Mileage)));
    e.mileage = "007".to_string();
    assert_eq!(e.encode(), Err(EncodeError::Unrepresentable(Field::Mileage)));
}

#[test]
fn decimal_parsing_exact_values() {
    assert_eq!(dec_parse("30.00"), Some((3000, 2)));
    assert_eq!(dec_parse("0"), Some((0, 0)));
    assert_eq!(dec_parse("12.5"), Some((125, 1)));
    assert_eq!(dec_parse("1000"), Some((1000, 0)));
    assert_eq!(dec_parse("1."), None);
    assert_eq!(dec_parse(".5"), None);
    assert_eq!(dec_parse("1.2.3"), None);
    assert_eq!(dec_parse("-1"), None);
    assert!(dec_check("0.25"));
    assert!(!dec_check("01"));
}

#[test]
fn amount_invariant_holds_on_sample() {
    let e = sample_event();
    assert!(e.validate());
    assert!(amounts_consistent("10.00", "20.00", "30.00"));
    assert!(amounts_consistent("10.00", "20.00", "30"));
    assert!(amounts_consistent("0.5", "0.25", "0.75"));
    assert!(!amounts_consistent("10.00", "20.00", "31.00"));
    // Charges that do not parse leave the invariant vacuously true.
    assert!(amounts_consistent("n/a", "20.00", "99.00"));
}

#[test]
fn validate_rejects_bad_events() {
    let mut e = sample_event();
    e.total_amount = "31.00".to_string();
    assert!(!e.validate());

    let mut e = sample_event();
    e.is_cancelled = true;
    assert!(!e.validate());

    let mut e = sample_event();
    e.is_summary = true;
    e.total_amount = "0".to_string();
    assert!(e.validate());
}
