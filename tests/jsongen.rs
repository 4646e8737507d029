use cpu_benchmark::jsongen::{append_decimal, generate_complex_json, json_record_text};
use cpu_benchmark::jsontree::{count_elements, JsonNode};

/// The document built with `format!`, record by record.
fn expected_document(size_target: usize) -> String {
    let mut result = String::from("{\"data\":[");
    let mut counter = 0;
    loop {
        let record = format!(
            "{{\"id\":{},\"name\":\"obj{}\",\"nested\":{{\"value\":{},\"array\":[1,2,3,4,5]}}}},",
            counter,
            counter,
            counter % 1000
        );
        if result.len() >= size_target || result.len() + record.len() > size_target {
            break;
        }
        result.push_str(&record);
        counter += 1;
    }
    if result.ends_with(',') {
        result.pop();
    }
    result.push_str("]}");
    result
}

#[test]
fn decimal_text() {
    let mut s = String::from("n=");
    append_decimal(&mut s, 0);
    assert_eq!(s, "n=0");
    let mut t = String::new();
    append_decimal(&mut t, 1_234_567_890);
    assert_eq!(t, "1234567890");
    let mut u = String::new();
    append_decimal(&mut u, usize::MAX);
    assert_eq!(u, usize::MAX.to_string());
}

#[test]
fn record_text() {
    assert_eq!(
        json_record_text(1042),
        "{\"id\":1042,\"name\":\"obj1042\",\"nested\":{\"value\":42,\"array\":[1,2,3,4,5]}},"
    );
}

#[test]
fn empty_document_when_nothing_fits() {
    assert_eq!(generate_complex_json(0), "{\"data\":[]}");
    assert_eq!(generate_complex_json(9), "{\"data\":[]}");
    assert_eq!(generate_complex_json(40), "{\"data\":[]}");
}

#[test]
fn document_matches_record_by_record_build() {
    for target in [70usize, 75, 76, 150, 1000, 4096, 100_000] {
        let doc = generate_complex_json(target);
        assert_eq!(doc, expected_document(target), "target {}", target);
        assert!(doc.len() <= target.max(9) + 1);
        let parsed: serde_json::Value = serde_json::from_str(&doc).unwrap();
        assert!(parsed.is_object());
    }
}

fn shape(value: &serde_json::Value) -> JsonNode {
    match value {
        serde_json::Value::Array(items) => JsonNode::Array(items.iter().map(shape).collect()),
        serde_json::Value::Object(members) => JsonNode::Object(members.values().map(shape).collect()),
        _ => JsonNode::Scalar,
    }
}

#[test]
fn element_counts_of_shapes() {
    assert_eq!(count_elements(&JsonNode::Scalar), 1);
    assert_eq!(count_elements(&JsonNode::Array(vec![])), 1);
    let nested = JsonNode::Object(vec![
        JsonNode::Scalar,
        JsonNode::Array(vec![JsonNode::Scalar, JsonNode::Scalar]),
    ]);
    assert_eq!(count_elements(&nested), 5);
}

#[test]
fn element_count_of_parsed_document() {
    let text = r#"{"data":[{"id":1,"name":"obj1","nested":{"value":123,"array":[1,2,3,4,5]}}]}"#;
    let parsed: serde_json::Value = serde_json::from_str(text).unwrap();
    assert_eq!(count_elements(&shape(&parsed)), 13);
    let doc: serde_json::Value = serde_json::from_str(&generate_complex_json(1000)).unwrap();
    let records = doc["data"].as_array().unwrap().len() as u64;
    assert_eq!(count_elements(&shape(&doc)), 2 + records * 11);
}
