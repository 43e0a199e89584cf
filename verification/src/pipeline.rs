use vstd::prelude::*;

use crate::errors::VectorError;
use crate::value::{spec_get, Value};

verus! {

/// What decoding a string as standard Base64 yields: a function of the
/// input characters alone, `None` on malformed input.
pub uninterp spec fn base64_decoding(s: Seq<char>) -> Option<Seq<u8>>;

/// Relies on base64's `Engine::decode` with the standard alphabet and
/// padding: the outcome depends on the input characters alone, and a
/// malformed input yields the engine's decode error, rendered as text.
#[verifier::external_body]
fn decode_base64(s: &str) -> (r: Result<Vec<u8>, String>)
    ensures
        r is Ok <==> base64_decoding(s@) is Some,
        r matches Ok(bytes) ==> Some(bytes@) == base64_decoding(s@),
{
    base64::Engine::decode(&base64::engine::general_purpose::STANDARD, s).map_err(
        |e| format!("{}", e),
    )
}

/// One field mapping: read `source`, encode it with `model` according to
/// `field_type`, write the vector to `target`.
#[derive(Clone, PartialEq, Debug)]
pub struct FieldMapping {
    pub source: String,
    pub target: String,
    pub field_type: String,
    pub model: String,
}

/// How one mapping treats one record.
pub enum StepKind {
    /// Source absent or null, or an empty text source: nothing to embed.
    Skip,
    /// A non-empty text source to encode.
    Text,
    /// A well-formed Base64 image source to decode and encode.
    Image,
    /// An image mapping whose source is not a string.
    RejectImageType,
    /// An image mapping whose source is not valid Base64.
    RejectImageDecode,
    /// A text mapping whose source is not a string.
    RejectTextType,
}

/// The decision the vectorizer takes for `record` under mapping `m`.
pub open spec fn spec_classify(record: Value, m: FieldMapping) -> StepKind {
    match spec_get(record, m.source@) {
        None => StepKind::Skip,
        Some(v) => if v is Null {
            StepKind::Skip
        } else if m.field_type@ == "image"@ {
            match v {
                Value::Text(s) => if base64_decoding(s@) is Some {
                    StepKind::Image
                } else {
                    StepKind::RejectImageDecode
                },
                _ => StepKind::RejectImageType,
            }
        } else {
            match v {
                Value::Text(s) => if s@.len() == 0 {
                    StepKind::Skip
                } else {
                    StepKind::Text
                },
                _ => StepKind::RejectTextType,
            }
        },
    }
}

/// The text a `Text` step encodes.
pub open spec fn spec_source_text(record: Value, m: FieldMapping) -> Seq<char> {
    spec_get(record, m.source@)->Some_0->Text_0@
}

/// The bytes an `Image` step encodes.
pub open spec fn spec_source_bytes(record: Value, m: FieldMapping) -> Seq<u8> {
    base64_decoding(spec_get(record, m.source@)->Some_0->Text_0@)->Some_0
}

/// Null or missing sources are skipped: a record that lacks the mapped
/// source field, or carries it as null, is left untouched by that
/// mapping, and no error is raised.
pub proof fn lemma_null_missing_skip(record: Value, m: FieldMapping)
    requires
        spec_get(record, m.source@) is None || spec_get(record, m.source@) == Some(Value::Null),
    ensures
        spec_classify(record, m) is Skip,
{
}

/// An empty text source is skipped: a text mapping whose source value is
/// the empty string embeds nothing and leaves its target unset.
pub proof fn lemma_empty_text_skip(record: Value, m: FieldMapping, s: String)
    requires
        spec_get(record, m.source@) == Some(Value::Text(s)),
        s@.len() == 0,
        m.field_type@ != "image"@,
    ensures
        spec_classify(record, m) is Skip,
{
}

/// The concrete outcome of classifying one mapping against one record.
#[derive(Debug)]
pub enum MappingStep {
    Skip,
    EncodeText { text: String },
    EncodeImage { bytes: Vec<u8> },
    Reject { error: VectorError },
}

/// The relation `classify_mapping` guarantees between its inputs and its
/// result: the step agrees with the decision, and carries exactly the
/// source text, the decoded bytes, or the error naming the source field.
pub open spec fn classify_ok(record: Value, m: FieldMapping, r: MappingStep) -> bool {
    match spec_classify(record, m) {
        StepKind::Skip => r is Skip,
        StepKind::Text => r matches MappingStep::EncodeText { text } && text@ == spec_source_text(
            record,
            m,
        ),
        StepKind::Image => r matches MappingStep::EncodeImage { bytes } && bytes@
            == spec_source_bytes(record, m),
        StepKind::RejectImageType => r matches MappingStep::Reject { error } && error matches
            VectorError::ImageSourceNotText { field } && field@ == m.source@,
        StepKind::RejectImageDecode => r matches MappingStep::Reject { error } && error matches
            VectorError::ImageDecode { field, cause } && field@ == m.source@,
        StepKind::RejectTextType => r matches MappingStep::Reject { error } && error matches
            VectorError::TextSourceNotText { field } && field@ == m.source@,
    }
}

/// Classifies one mapping against one record: the per-field logic that
/// decides between skipping, encoding text, decoding-then-encoding an
/// image, and rejecting a wrongly shaped source value.
pub fn classify_mapping(record: &Value, m: &FieldMapping) -> (r: MappingStep)
    ensures
        classify_ok(*record, *m, r),
{
    let source_val = match record.get(m.source.as_str()) {
        None => {
            return MappingStep::Skip;
        },
        Some(v) => v,
    };
    if matches!(source_val, Value::Null) {
        return MappingStep::Skip;
    }
    if crate::strutil::str_equal(m.field_type.as_str(), "image") {
        match source_val {
            Value::Text(s) => match decode_base64(s.as_str()) {
                Ok(bytes) => MappingStep::EncodeImage { bytes },
                Err(cause) => MappingStep::Reject {
                    error: VectorError::ImageDecode { field: m.source.clone(), cause },
                },
            },
            _ => MappingStep::Reject {
                error: VectorError::ImageSourceNotText { field: m.source.clone() },
            },
        }
    } else {
        match source_val {
            Value::Text(s) => if s.as_str().is_empty() {
                MappingStep::Skip
            } else {
                MappingStep::EncodeText { text: s.clone() }
            },
            _ => MappingStep::Reject {
                error: VectorError::TextSourceNotText { field: m.source.clone() },
            },
        }
    }
}

/// An embedding vector holds its numbers as binary64 bit patterns.
pub open spec fn is_embedding_value(v: Value, emb: Seq<u64>) -> bool {
    v matches Value::Array(items) && items@.len() == emb.len() && (forall|i: int|
        0 <= i < emb.len() ==> items@[i] == Value::Number(emb[i]))
}

/// The record value an embedding is written as: an ordered numeric array.
pub fn embedding_value(emb: &Vec<u64>) -> (r: Value)
    ensures
        is_embedding_value(r, emb@),
{
    let n = emb.len();
    let mut items: Vec<Value> = Vec::new();
    let mut i: usize = 0;
    #[verifier::loop_isolation(false)]
    while i < n
        invariant
            0 <= i <= n,
            items@.len() == i,
            forall|j: int| 0 <= j < i ==> items@[j] == Value::Number(emb@[j]),
        decreases n - i,
    {
        items.push(Value::Number(emb[i]));
        i += 1;
    }
    Value::Array(items)
}

/// The single vector of an encoder's reply to a one-text request, or the
/// invariant-violation error when the reply is empty.
pub fn first_text_embedding(mut embs: Vec<Vec<u64>>) -> (r: Result<Vec<u64>, VectorError>)
    ensures
        embs@.len() > 0 ==> r == Ok::<Vec<u64>, VectorError>(embs@[0]),
        embs@.len() == 0 ==> r == Err::<Vec<u64>, VectorError>(VectorError::TextEmbedEmpty),
{
    if embs.len() == 0 {
        Err(VectorError::TextEmbedEmpty)
    } else {
        Ok(embs.remove(0))
    }
}

/// As `first_text_embedding`, for the image encoder's reply.
pub fn first_image_embedding(mut embs: Vec<Vec<u64>>) -> (r: Result<Vec<u64>, VectorError>)
    ensures
        embs@.len() > 0 ==> r == Ok::<Vec<u64>, VectorError>(embs@[0]),
        embs@.len() == 0 ==> r == Err::<Vec<u64>, VectorError>(VectorError::ImageEmbedEmpty),
{
    if embs.len() == 0 {
        Err(VectorError::ImageEmbedEmpty)
    } else {
        Ok(embs.remove(0))
    }
}

} // verus!
