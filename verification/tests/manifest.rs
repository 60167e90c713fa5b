use ssrs::cache::{
    get_model, list_models, register_model, register_model_at, remove_model, Manifest, ModelEntry,
    ModelVariant,
};
use ssrs::model::{detect_variant, find_model, model_files};

fn ids(entries: &[ModelEntry]) -> Vec<String> {
    entries.iter().map(|e| e.model_id.clone()).collect()
}

#[test]
fn registered_model_can_be_read_back() {
    let mut m = Manifest::new();
    register_model_at(&mut m, Some("/h"), "openai/whisper-tiny", ModelVariant::Gguf, 90061);
    let e = get_model(&m, "openai/whisper-tiny").unwrap();
    assert_eq!(e.model_id, "openai/whisper-tiny");
    assert_eq!(e.variant, ModelVariant::Gguf);
    assert_eq!(e.downloaded_at, "1d 01:01:01");
    assert_eq!(e.path, "/h/.cache/ssrs/openai__whisper-tiny");
    assert!(get_model(&m, "openai/whisper-base").is_none());
}

#[test]
fn listing_is_in_ascending_id_order() {
    let mut m = Manifest::new();
    for id in ["openai/whisper-small", "distil/whisper", "openai/whisper-base", "Zeta/model", "é/x"] {
        register_model_at(&mut m, None, id, ModelVariant::Safetensors, 0);
    }
    let mut expected: Vec<String> =
        ["openai/whisper-small", "distil/whisper", "openai/whisper-base", "Zeta/model", "é/x"]
            .iter()
            .map(|s| s.to_string())
            .collect();
    expected.sort();
    assert_eq!(ids(&list_models(&m)), expected);
    assert_eq!(m.len(), 5);
}

#[test]
fn registering_again_replaces_the_entry() {
    let mut m = Manifest::new();
    register_model_at(&mut m, None, "a/b", ModelVariant::Safetensors, 0);
    register_model_at(&mut m, None, "a/b", ModelVariant::Gguf, 60);
    assert_eq!(m.len(), 1);
    let e = get_model(&m, "a/b").unwrap();
    assert_eq!(e.variant, ModelVariant::Gguf);
    assert_eq!(e.downloaded_at, "0d 00:01:00");
}

#[test]
fn removing_forgets_only_that_model() {
    let mut m = Manifest::new();
    register_model_at(&mut m, None, "a", ModelVariant::Safetensors, 0);
    register_model_at(&mut m, None, "b", ModelVariant::Gguf, 0);
    let removed = remove_model(&mut m, "a").unwrap();
    assert_eq!(removed.path, "./a");
    assert!(get_model(&m, "a").is_none());
    assert!(get_model(&m, "b").is_some());
    assert!(remove_model(&mut m, "a").is_none());
    assert_eq!(ids(&list_models(&m)), vec!["b".to_string()]);
}

#[test]
fn register_stamps_the_current_time() {
    let mut m = Manifest::new();
    register_model(&mut m, Some("/h"), "x/y", ModelVariant::Gguf);
    let e = get_model(&m, "x/y").unwrap();
    assert!(e.downloaded_at.contains("d "));
    assert_eq!(e.downloaded_at.len() - e.downloaded_at.find('d').unwrap(), 10);
    assert_eq!(e.path, "/h/.cache/ssrs/x__y");
}

#[test]
fn records_keep_keys_apart_from_entries() {
    let mut m = Manifest::new();
    let entry = ModelEntry {
        model_id: "other".to_string(),
        variant: ModelVariant::Gguf,
        downloaded_at: "t".to_string(),
        path: "p".to_string(),
    };
    m.insert("key".to_string(), entry);
    let recs = m.records();
    assert_eq!(recs.len(), 1);
    assert_eq!(recs[0].0, "key");
    assert_eq!(recs[0].1.model_id, "other");
}

#[test]
fn missing_model_is_reported() {
    let m = Manifest::new();
    assert_eq!(
        find_model(&m, "openai/whisper-tiny").err().unwrap(),
        "Model 'openai/whisper-tiny' not found. Run `ssrs models download openai/whisper-tiny` first."
    );
}

#[test]
fn model_files_are_in_the_model_dir() {
    let f = model_files("/c/m", ModelVariant::Gguf);
    assert_eq!(f.config, "/c/m/config.json");
    assert_eq!(f.tokenizer, "/c/m/tokenizer.json");
    assert_eq!(f.filters, "/c/m/mel_filters.npz");
    assert_eq!(f.weights, "/c/m/model.gguf");
    assert_eq!(model_files("/c/m", ModelVariant::Safetensors).weights, "/c/m/model.safetensors");
    assert_eq!(detect_variant(true), ModelVariant::Gguf);
    assert_eq!(detect_variant(false), ModelVariant::Safetensors);
}
