use yeti_vectors::models::{
    is_known_image_model, is_known_text_model, parse_image_model, parse_text_model, ImageModelKind,
    TextModelKind,
};

#[test]
fn known_text_aliases_resolve() {
    assert_eq!(parse_text_model("BAAI/bge-small-en-v1.5"), TextModelKind::BgeSmallEnV15);
    assert_eq!(parse_text_model("bge-small-en-v1.5"), TextModelKind::BgeSmallEnV15);
    assert_eq!(parse_text_model("BAAI/bge-base-en-v1.5"), TextModelKind::BgeBaseEnV15);
    assert_eq!(parse_text_model("bge-base-en-v1.5"), TextModelKind::BgeBaseEnV15);
    assert_eq!(parse_text_model("BAAI/bge-large-en-v1.5"), TextModelKind::BgeLargeEnV15);
    assert_eq!(parse_text_model("bge-large-en-v1.5"), TextModelKind::BgeLargeEnV15);
    assert_eq!(
        parse_text_model("sentence-transformers/all-MiniLM-L6-v2"),
        TextModelKind::AllMiniLmL6V2
    );
    assert_eq!(parse_text_model("all-MiniLM-L6-v2"), TextModelKind::AllMiniLmL6V2);
}

#[test]
fn unknown_text_name_defaults() {
    assert_eq!(
        parse_text_model("totally-unknown-name"),
        parse_text_model("bge-small-en-v1.5")
    );
    assert_eq!(parse_text_model("totally-unknown-name"), TextModelKind::BgeSmallEnV15);
    assert_eq!(parse_text_model(""), TextModelKind::BgeSmallEnV15);
}

#[test]
fn known_image_aliases_resolve() {
    assert_eq!(parse_image_model("clip-ViT-B-32"), ImageModelKind::ClipVitB32);
    assert_eq!(parse_image_model("CLIP-ViT-B-32"), ImageModelKind::ClipVitB32);
    assert_eq!(parse_image_model("clip-vit-b-32"), ImageModelKind::ClipVitB32);
}

#[test]
fn unknown_image_name_defaults() {
    assert_eq!(parse_image_model("no-such-model"), ImageModelKind::ClipVitB32);
}

#[test]
fn recognition_flags() {
    assert!(is_known_text_model("bge-base-en-v1.5"));
    assert!(!is_known_text_model("totally-unknown-name"));
    assert!(is_known_image_model("clip-vit-b-32"));
    assert!(!is_known_image_model("bge-small-en-v1.5"));
}
