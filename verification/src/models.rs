use vstd::prelude::*;

use crate::strutil::str_equal;

verus! {

/// The text encoder architectures this engine knows how to load.
#[derive(Clone, Copy, PartialEq, Eq, Structural, Debug)]
pub enum TextModelKind {
    BgeSmallEnV15,
    BgeBaseEnV15,
    BgeLargeEnV15,
    AllMiniLmL6V2,
}

/// The image encoder architectures this engine knows how to load.
#[derive(Clone, Copy, PartialEq, Eq, Structural, Debug)]
pub enum ImageModelKind {
    ClipVitB32,
}

/// Whether a text-model name is one of the known aliases, fully qualified
/// or short.
pub open spec fn spec_text_model_known(name: Seq<char>) -> bool {
    ||| name == "BAAI/bge-small-en-v1.5"@
    ||| name == "bge-small-en-v1.5"@
    ||| name == "BAAI/bge-base-en-v1.5"@
    ||| name == "bge-base-en-v1.5"@
    ||| name == "BAAI/bge-large-en-v1.5"@
    ||| name == "bge-large-en-v1.5"@
    ||| name == "sentence-transformers/all-MiniLM-L6-v2"@
    ||| name == "all-MiniLM-L6-v2"@
}

/// The kind a text-model name resolves to; an unknown name falls back to
/// the fixed default rather than failing.
pub open spec fn spec_parse_text_model(name: Seq<char>) -> TextModelKind {
    if name == "BAAI/bge-small-en-v1.5"@ || name == "bge-small-en-v1.5"@ {
        TextModelKind::BgeSmallEnV15
    } else if name == "BAAI/bge-base-en-v1.5"@ || name == "bge-base-en-v1.5"@ {
        TextModelKind::BgeBaseEnV15
    } else if name == "BAAI/bge-large-en-v1.5"@ || name == "bge-large-en-v1.5"@ {
        TextModelKind::BgeLargeEnV15
    } else if name == "sentence-transformers/all-MiniLM-L6-v2"@ || name == "all-MiniLM-L6-v2"@ {
        TextModelKind::AllMiniLmL6V2
    } else {
        TextModelKind::BgeSmallEnV15
    }
}

/// Whether an image-model name is one of the known aliases.
pub open spec fn spec_image_model_known(name: Seq<char>) -> bool {
    ||| name == "clip-ViT-B-32"@
    ||| name == "CLIP-ViT-B-32"@
    ||| name == "clip-vit-b-32"@
}

/// The kind an image-model name resolves to; an unknown name falls back to
/// the fixed default rather than failing.
pub open spec fn spec_parse_image_model(name: Seq<char>) -> ImageModelKind {
    ImageModelKind::ClipVitB32
}

/// Resolves a user-supplied text-model name to a kind. Never fails: an
/// unrecognized name degrades to the fixed default kind.
pub fn parse_text_model(name: &str) -> (r: TextModelKind)
    ensures
        r == spec_parse_text_model(name@),
{
    if str_equal(name, "BAAI/bge-small-en-v1.5") || str_equal(name, "bge-small-en-v1.5") {
        TextModelKind::BgeSmallEnV15
    } else if str_equal(name, "BAAI/bge-base-en-v1.5") || str_equal(name, "bge-base-en-v1.5") {
        TextModelKind::BgeBaseEnV15
    } else if str_equal(name, "BAAI/bge-large-en-v1.5") || str_equal(name, "bge-large-en-v1.5") {
        TextModelKind::BgeLargeEnV15
    } else if str_equal(name, "sentence-transformers/all-MiniLM-L6-v2") || str_equal(
        name,
        "all-MiniLM-L6-v2",
    ) {
        TextModelKind::AllMiniLmL6V2
    } else {
        TextModelKind::BgeSmallEnV15
    }
}

/// Resolves a user-supplied image-model name to a kind. Never fails: an
/// unrecognized name degrades to the fixed default kind.
pub fn parse_image_model(name: &str) -> (r: ImageModelKind)
    ensures
        r == spec_parse_image_model(name@),
{
    ImageModelKind::ClipVitB32
}

/// True when the text-model name is a known alias; the caller may log a
/// diagnostic for an unknown name before it degrades to the default.
pub fn is_known_text_model(name: &str) -> (r: bool)
    ensures
        r == spec_text_model_known(name@),
{
    str_equal(name, "BAAI/bge-small-en-v1.5") || str_equal(name, "bge-small-en-v1.5") || str_equal(
        name,
        "BAAI/bge-base-en-v1.5",
    ) || str_equal(name, "bge-base-en-v1.5") || str_equal(name, "BAAI/bge-large-en-v1.5")
        || str_equal(name, "bge-large-en-v1.5") || str_equal(
        name,
        "sentence-transformers/all-MiniLM-L6-v2",
    ) || str_equal(name, "all-MiniLM-L6-v2")
}

/// True when the image-model name is a known alias.
pub fn is_known_image_model(name: &str) -> (r: bool)
    ensures
        r == spec_image_model_known(name@),
{
    str_equal(name, "clip-ViT-B-32") || str_equal(name, "CLIP-ViT-B-32") || str_equal(
        name,
        "clip-vit-b-32",
    )
}

/// Default on unknown: a name outside the alias table resolves to exactly
/// the kind that the fixed default alias resolves to, with no error raised.
pub proof fn lemma_unknown_text_model_defaults(name: Seq<char>)
    requires
        !spec_text_model_known(name),
    ensures
        spec_parse_text_model(name) == spec_parse_text_model("bge-small-en-v1.5"@),
{
}

/// The image parser's counterpart: every unknown name resolves to the
/// default image kind.
pub proof fn lemma_unknown_image_model_defaults(name: Seq<char>)
    requires
        !spec_image_model_known(name),
    ensures
        spec_parse_image_model(name) == ImageModelKind::ClipVitB32,
{
}

} // verus!
