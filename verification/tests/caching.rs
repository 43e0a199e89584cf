use yeti_vectors::cache::{finish_image_construction, finish_text_construction, ModelCache};
use yeti_vectors::dirs::{models_subdir, ModelsDirConfig};
use yeti_vectors::errors::VectorError;
use yeti_vectors::pipeline::{first_image_embedding, first_text_embedding};

#[test]
fn repeated_lookups_construct_once() {
    let mut cache: ModelCache<String> = ModelCache::new();
    let mut constructions: usize = 0;
    let name = "bge-small-en-v1.5";
    for _ in 0..3 {
        if cache.lookup(name).is_none() {
            constructions += 1;
            cache.insert(name.to_string(), "handle".to_string());
        }
        assert_eq!(cache.lookup(name), Some(&"handle".to_string()));
    }
    assert_eq!(constructions, 1);
}

#[test]
fn distinct_identifiers_are_independent() {
    let mut cache: ModelCache<u32> = ModelCache::new();
    cache.insert("a".to_string(), 1);
    cache.insert("b".to_string(), 2);
    assert_eq!(cache.lookup("a"), Some(&1));
    assert_eq!(cache.lookup("b"), Some(&2));
    assert_eq!(cache.lookup("c"), None);
    assert!(cache.contains("a"));
    assert!(!cache.contains("c"));
}

#[test]
fn racing_constructions_converge() {
    let mut cache: ModelCache<u32> = ModelCache::new();
    // Two callers each observe a miss before either has inserted.
    let first_caller_missed = cache.lookup("m").is_none();
    let second_caller_missed = cache.lookup("m").is_none();
    assert!(first_caller_missed && second_caller_missed);
    // The caller whose construction finishes first inserts its handle.
    cache.insert("m".to_string(), 1);
    // The race loser re-checks and adopts the present handle instead.
    if !cache.contains("m") {
        cache.insert("m".to_string(), 2);
    }
    assert_eq!(cache.lookup("m"), Some(&1));
    // The key is never left without a value once any attempt succeeded.
    assert!(cache.contains("m"));
}

#[test]
fn construction_outcome_drives_the_cache() {
    let mut cache: ModelCache<u32> = ModelCache::new();
    assert_eq!(finish_text_construction(&mut cache, "m".to_string(), Ok(5)), Ok(()));
    assert_eq!(cache.lookup("m"), Some(&5));
    // A handle already present stays; the race loser's build is dropped.
    assert_eq!(finish_text_construction(&mut cache, "m".to_string(), Ok(9)), Ok(()));
    assert_eq!(cache.lookup("m"), Some(&5));
    // A failed construction inserts nothing and names the model and cause.
    let r = finish_text_construction(&mut cache, "x".to_string(), Err("no weights".to_string()));
    assert_eq!(
        r,
        Err(VectorError::TextModelInit {
            model: "x".to_string(),
            cause: "no weights".to_string(),
        })
    );
    assert!(!cache.contains("x"));
}

#[test]
fn image_construction_outcome_drives_the_cache() {
    let mut cache: ModelCache<u32> = ModelCache::new();
    let r = finish_image_construction(&mut cache, "clip".to_string(), Err("corrupt".to_string()));
    assert_eq!(
        r,
        Err(VectorError::ImageModelInit {
            model: "clip".to_string(),
            cause: "corrupt".to_string(),
        })
    );
    assert!(!cache.contains("clip"));
    assert_eq!(finish_image_construction(&mut cache, "clip".to_string(), Ok(3)), Ok(()));
    assert_eq!(cache.lookup("clip"), Some(&3));
}

#[test]
fn failed_construction_leaves_the_cache_empty() {
    let mut cache: ModelCache<u32> = ModelCache::new();
    let miss = cache.lookup("broken").is_none();
    assert!(miss);
    assert!(!cache.contains("broken"));
    cache.insert("broken".to_string(), 7);
    assert!(cache.contains("broken"));
}

#[test]
fn unconfigured_resolver_defaults() {
    let cfg = ModelsDirConfig::new();
    assert_eq!(cfg.resolve(), ".fastembed_cache");
}

#[test]
fn first_configuration_sticks() {
    let mut cfg = ModelsDirConfig::new();
    cfg.set("/data/models".to_string());
    assert_eq!(cfg.resolve(), "/data/models");
    cfg.set("/elsewhere".to_string());
    assert_eq!(cfg.resolve(), "/data/models");
}

#[test]
fn models_subdir_joins_the_root() {
    assert_eq!(models_subdir("/srv/yeti"), "/srv/yeti/models");
    assert_eq!(models_subdir("."), "./models");
}

#[test]
fn first_embedding_of_a_reply() {
    let reply: Vec<Vec<u64>> = vec![vec![1, 2, 3], vec![4, 5, 6]];
    assert_eq!(first_text_embedding(reply), Ok(vec![1, 2, 3]));
    assert_eq!(
        first_text_embedding(Vec::new()),
        Err(VectorError::TextEmbedEmpty)
    );
    assert_eq!(first_image_embedding(vec![vec![9]]), Ok(vec![9]));
    assert_eq!(
        first_image_embedding(Vec::new()),
        Err(VectorError::ImageEmbedEmpty)
    );
}

#[test]
fn embed_empty_messages() {
    assert_eq!(
        VectorError::TextEmbedEmpty.message(),
        "Text embedding returned empty result"
    );
    assert_eq!(
        VectorError::ImageEmbedEmpty.message(),
        "Image embedding returned empty result"
    );
}

#[test]
fn error_messages_name_their_subjects() {
    let e = VectorError::TextModelInit {
        model: "bge-small-en-v1.5".to_string(),
        cause: "no weights".to_string(),
    };
    assert_eq!(
        e.message(),
        "Failed to init text model 'bge-small-en-v1.5': no weights"
    );
    let e = VectorError::ImageModelInit {
        model: "clip-vit-b-32".to_string(),
        cause: "corrupt".to_string(),
    };
    assert_eq!(e.message(), "Failed to init image model 'clip-vit-b-32': corrupt");
    let e = VectorError::TextModelPoisoned { cause: "poisoned lock".to_string() };
    assert_eq!(e.message(), "Text model mutex poisoned: poisoned lock");
    let e = VectorError::ImageModelPoisoned { cause: "poisoned lock".to_string() };
    assert_eq!(e.message(), "Image model mutex poisoned: poisoned lock");
    let e = VectorError::TextEmbedFailed { cause: "bad input".to_string() };
    assert_eq!(e.message(), "Text embedding failed: bad input");
    let e = VectorError::BatchEmbedFailed { model: "X".to_string(), cause: "bad batch".to_string() };
    assert_eq!(e.message(), "Batch text embedding failed for model 'X': bad batch");
    let e = VectorError::ImageEmbedFailed { cause: "bad image".to_string() };
    assert_eq!(e.message(), "Image embedding failed: bad image");
    let e = VectorError::ImageDecode {
        field: "img".to_string(),
        cause: "invalid padding".to_string(),
    };
    assert_eq!(
        e.message(),
        "Failed to decode base64 from 'img': invalid padding"
    );
}
