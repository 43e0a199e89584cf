use vstd::prelude::*;

use vstd::string::StringExecFns;

verus! {

/// A structured vectorization failure. Each variant identifies the field or
/// model it concerns; `message` renders the human-readable description that
/// callers receive.
#[derive(Clone, PartialEq, Debug)]
pub enum VectorError {
    /// A text mapping whose source value is not a string.
    TextSourceNotText { field: String },
    /// An image mapping whose source value is not a string.
    ImageSourceNotText { field: String },
    /// An image mapping whose source string is not valid Base64.
    ImageDecode { field: String, cause: String },
    /// A text encoder could not be constructed.
    TextModelInit { model: String, cause: String },
    /// An image encoder could not be constructed.
    ImageModelInit { model: String, cause: String },
    /// A previous holder of the text encoder's exclusive access panicked.
    TextModelPoisoned { cause: String },
    /// A previous holder of the image encoder's exclusive access panicked.
    ImageModelPoisoned { cause: String },
    /// The text encoder rejected or failed on its input.
    TextEmbedFailed { cause: String },
    /// A batched text encoding failed as a whole, for every record in it.
    BatchEmbedFailed { model: String, cause: String },
    /// The image encoder rejected or failed on its input.
    ImageEmbedFailed { cause: String },
    /// The text encoder returned no vector for a non-empty request.
    TextEmbedEmpty,
    /// The image encoder returned no vector for a non-empty request.
    ImageEmbedEmpty,
}

/// The exact description text of each failure.
pub open spec fn spec_message(e: VectorError) -> Seq<char> {
    match e {
        VectorError::TextSourceNotText { field } => "Text field '"@ + field@
            + "' must be a string"@,
        VectorError::ImageSourceNotText { field } => "Image field '"@ + field@
            + "' must be a base64 string"@,
        VectorError::ImageDecode { field, cause } => "Failed to decode base64 from '"@ + field@
            + "': "@ + cause@,
        VectorError::TextModelInit { model, cause } => "Failed to init text model '"@ + model@
            + "': "@ + cause@,
        VectorError::ImageModelInit { model, cause } => "Failed to init image model '"@ + model@
            + "': "@ + cause@,
        VectorError::TextModelPoisoned { cause } => "Text model mutex poisoned: "@ + cause@,
        VectorError::ImageModelPoisoned { cause } => "Image model mutex poisoned: "@ + cause@,
        VectorError::TextEmbedFailed { cause } => "Text embedding failed: "@ + cause@,
        VectorError::BatchEmbedFailed { model, cause } => "Batch text embedding failed for model '"@
            + model@ + "': "@ + cause@,
        VectorError::ImageEmbedFailed { cause } => "Image embedding failed: "@ + cause@,
        VectorError::TextEmbedEmpty => "Text embedding returned empty result"@,
        VectorError::ImageEmbedEmpty => "Image embedding returned empty result"@,
    }
}

/// `head + tail`, assembled as one owned string.
fn join2(head: &str, tail: &str) -> (r: String)
    ensures
        r@ == head@ + tail@,
{
    let mut s: String = head.to_owned();
    s.append(tail);
    s
}

/// `head + middle + tail`, assembled as one owned string.
fn wrap(head: &str, middle: &str, tail: &str) -> (r: String)
    ensures
        r@ == head@ + middle@ + tail@,
{
    let mut s: String = head.to_owned();
    s.append(middle);
    s.append(tail);
    s
}

/// `head + middle + sep + tail`, assembled as one owned string.
fn wrap2(head: &str, middle: &str, sep: &str, tail: &str) -> (r: String)
    ensures
        r@ == head@ + middle@ + sep@ + tail@,
{
    let mut s: String = head.to_owned();
    s.append(middle);
    s.append(sep);
    s.append(tail);
    s
}

impl VectorError {
    /// The human-readable description of this failure.
    pub fn message(&self) -> (r: String)
        ensures
            r@ == spec_message(*self),
    {
        match self {
            VectorError::TextSourceNotText { field } => wrap(
                "Text field '",
                field.as_str(),
                "' must be a string",
            ),
            VectorError::ImageSourceNotText { field } => wrap(
                "Image field '",
                field.as_str(),
                "' must be a base64 string",
            ),
            VectorError::ImageDecode { field, cause } => wrap2(
                "Failed to decode base64 from '",
                field.as_str(),
                "': ",
                cause.as_str(),
            ),
            VectorError::TextModelInit { model, cause } => wrap2(
                "Failed to init text model '",
                model.as_str(),
                "': ",
                cause.as_str(),
            ),
            VectorError::ImageModelInit { model, cause } => wrap2(
                "Failed to init image model '",
                model.as_str(),
                "': ",
                cause.as_str(),
            ),
            VectorError::TextModelPoisoned { cause } => join2(
                "Text model mutex poisoned: ",
                cause.as_str(),
            ),
            VectorError::ImageModelPoisoned { cause } => join2(
                "Image model mutex poisoned: ",
                cause.as_str(),
            ),
            VectorError::TextEmbedFailed { cause } => join2(
                "Text embedding failed: ",
                cause.as_str(),
            ),
            VectorError::BatchEmbedFailed { model, cause } => wrap2(
                "Batch text embedding failed for model '",
                model.as_str(),
                "': ",
                cause.as_str(),
            ),
            VectorError::ImageEmbedFailed { cause } => join2(
                "Image embedding failed: ",
                cause.as_str(),
            ),
            VectorError::TextEmbedEmpty => "Text embedding returned empty result".to_owned(),
            VectorError::ImageEmbedEmpty => "Image embedding returned empty result".to_owned(),
        }
    }
}

} // verus!
