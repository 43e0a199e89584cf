use yeti_vectors::errors::VectorError;
use yeti_vectors::fields::{FieldsAction, FieldsRun};
use yeti_vectors::pipeline::FieldMapping;
use yeti_vectors::value::Value;

fn mapping(source: &str, target: &str, field_type: &str, model: &str) -> FieldMapping {
    FieldMapping {
        source: source.to_string(),
        target: target.to_string(),
        field_type: field_type.to_string(),
        model: model.to_string(),
    }
}

fn text_record(key: &str, text: &str) -> Value {
    Value::Object(vec![(key.to_string(), Value::Text(text.to_string()))])
}

fn number_array(emb: &[u64]) -> Value {
    Value::Array(emb.iter().map(|&b| Value::Number(b)).collect())
}

#[test]
fn round_trip_shape() {
    let record = Value::Object(vec![
        ("other".to_string(), Value::Bool(true)),
        ("t".to_string(), Value::Text("hello world".to_string())),
    ]);
    let mappings = vec![mapping("t", "v", "text", "bge-small-en-v1.5")];
    let mut run = FieldsRun::new(record, mappings);
    let emb: Vec<u64> = (0..384u64).map(|i| (i as f64 * 0.5).to_bits()).collect();
    match run.next() {
        FieldsAction::NeedText { text, model } => {
            assert_eq!(text, "hello world");
            assert_eq!(model, "bge-small-en-v1.5");
        }
        other => panic!("expected a text encode, got {:?}", other),
    }
    run.supply(&emb);
    assert!(matches!(run.next(), FieldsAction::Done));
    let out = run.into_record();
    assert_eq!(out.get("other"), Some(&Value::Bool(true)));
    match out.get("v") {
        Some(Value::Array(items)) => {
            assert_eq!(items.len(), emb.len());
            assert_eq!(out.get("v"), Some(&number_array(&emb)));
        }
        other => panic!("expected a numeric array, got {:?}", other),
    }
}

#[test]
fn missing_source_skips() {
    let record = Value::Object(vec![("x".to_string(), Value::Bool(false))]);
    let mappings = vec![mapping("t", "v", "text", "m")];
    let mut run = FieldsRun::new(record, mappings);
    assert!(matches!(run.next(), FieldsAction::Done));
    let out = run.into_record();
    assert_eq!(out, Value::Object(vec![("x".to_string(), Value::Bool(false))]));
    assert_eq!(out.get("v"), None);
}

#[test]
fn null_source_skips() {
    let record = Value::Object(vec![("t".to_string(), Value::Null)]);
    let mappings = vec![mapping("t", "v", "text", "m")];
    let mut run = FieldsRun::new(record, mappings);
    assert!(matches!(run.next(), FieldsAction::Done));
    let out = run.into_record();
    assert_eq!(out, Value::Object(vec![("t".to_string(), Value::Null)]));
}

#[test]
fn empty_text_skips() {
    let record = text_record("t", "");
    let mappings = vec![mapping("t", "v", "text", "m")];
    let mut run = FieldsRun::new(record, mappings);
    assert!(matches!(run.next(), FieldsAction::Done));
    let out = run.into_record();
    assert_eq!(out.get("v"), None);
    assert_eq!(out, text_record("t", ""));
}

#[test]
fn type_mismatch_is_an_error() {
    let record = Value::Object(vec![("t".to_string(), Value::Number((7.0f64).to_bits()))]);
    let mappings = vec![mapping("t", "v", "text", "m")];
    let mut run = FieldsRun::new(record, mappings);
    match run.next() {
        FieldsAction::Failed { error } => {
            assert_eq!(error, VectorError::TextSourceNotText { field: "t".to_string() });
            assert_eq!(error.message(), "Text field 't' must be a string");
        }
        other => panic!("expected a failure, got {:?}", other),
    }
    let out = run.into_record();
    assert_eq!(
        out,
        Value::Object(vec![("t".to_string(), Value::Number((7.0f64).to_bits()))])
    );
}

#[test]
fn image_source_must_be_a_string() {
    let record = Value::Object(vec![("img".to_string(), Value::Bool(true))]);
    let mappings = vec![mapping("img", "v", "image", "clip-vit-b-32")];
    let mut run = FieldsRun::new(record, mappings);
    match run.next() {
        FieldsAction::Failed { error } => {
            assert_eq!(error, VectorError::ImageSourceNotText { field: "img".to_string() });
            assert_eq!(error.message(), "Image field 'img' must be a base64 string");
        }
        other => panic!("expected a failure, got {:?}", other),
    }
}

#[test]
fn invalid_base64_is_a_decode_error() {
    let record = text_record("img", "!!!not-base64!!!");
    let mappings = vec![mapping("img", "v", "image", "clip-vit-b-32")];
    let mut run = FieldsRun::new(record, mappings);
    match run.next() {
        FieldsAction::Failed { error } => match &error {
            VectorError::ImageDecode { field, cause } => {
                assert_eq!(field, "img");
                assert!(!cause.is_empty());
                assert!(error
                    .message()
                    .starts_with("Failed to decode base64 from 'img': "));
            }
            other => panic!("expected a decode error, got {:?}", other),
        },
        other => panic!("expected a failure, got {:?}", other),
    }
}

#[test]
fn valid_base64_yields_the_decoded_bytes() {
    let record = text_record("img", "aGVsbG8=");
    let mappings = vec![mapping("img", "v", "image", "clip-vit-b-32")];
    let mut run = FieldsRun::new(record, mappings);
    match run.next() {
        FieldsAction::NeedImage { bytes, model } => {
            assert_eq!(bytes, b"hello".to_vec());
            assert_eq!(model, "clip-vit-b-32");
        }
        other => panic!("expected an image encode, got {:?}", other),
    }
}

#[test]
fn empty_base64_decodes_to_no_bytes() {
    let record = text_record("img", "");
    let mappings = vec![mapping("img", "v", "image", "clip-vit-b-32")];
    let mut run = FieldsRun::new(record, mappings);
    match run.next() {
        FieldsAction::NeedImage { bytes, .. } => assert!(bytes.is_empty()),
        other => panic!("expected an image encode, got {:?}", other),
    }
}

#[test]
fn earlier_writes_stay_on_a_later_failure() {
    let record = Value::Object(vec![
        ("a".to_string(), Value::Text("first".to_string())),
        ("b".to_string(), Value::Bool(false)),
    ]);
    let mappings = vec![
        mapping("a", "va", "text", "m"),
        mapping("b", "vb", "text", "m"),
    ];
    let mut run = FieldsRun::new(record, mappings);
    assert!(matches!(run.next(), FieldsAction::NeedText { .. }));
    let emb: Vec<u64> = vec![(1.0f64).to_bits()];
    run.supply(&emb);
    assert!(matches!(
        run.next(),
        FieldsAction::Failed { error: VectorError::TextSourceNotText { .. } }
    ));
    let out = run.into_record();
    assert_eq!(out.get("va"), Some(&number_array(&emb)));
    assert_eq!(out.get("vb"), None);
}

#[test]
fn mappings_apply_in_order() {
    let record = Value::Object(vec![
        ("a".to_string(), Value::Text("one".to_string())),
        ("b".to_string(), Value::Text("two".to_string())),
    ]);
    let mappings = vec![
        mapping("a", "va", "text", "m1"),
        mapping("b", "vb", "", "m2"),
    ];
    let mut run = FieldsRun::new(record, mappings);
    match run.next() {
        FieldsAction::NeedText { text, model } => {
            assert_eq!(text, "one");
            assert_eq!(model, "m1");
        }
        other => panic!("unexpected {:?}", other),
    }
    run.supply(&vec![(0.25f64).to_bits()]);
    match run.next() {
        FieldsAction::NeedText { text, model } => {
            assert_eq!(text, "two");
            assert_eq!(model, "m2");
        }
        other => panic!("unexpected {:?}", other),
    }
    run.supply(&vec![(0.75f64).to_bits()]);
    assert!(matches!(run.next(), FieldsAction::Done));
    let out = run.into_record();
    assert_eq!(out.get("va"), Some(&number_array(&[(0.25f64).to_bits()])));
    assert_eq!(out.get("vb"), Some(&number_array(&[(0.75f64).to_bits()])));
}
