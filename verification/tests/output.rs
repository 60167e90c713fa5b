use ssrs::cache::{ModelEntry, ModelVariant};
use ssrs::hub::{
    choose_weights, removal_message, render_model_list, render_search_results, search_url,
    variant_name, weights_file, ModelInfo,
};
use ssrs::transcript::{render_joined_text, render_plain_text, render_srt, srt_timestamp, SrtCue};

fn strings(v: &[&str]) -> Vec<String> {
    v.iter().map(|s| s.to_string()).collect()
}

#[test]
fn plain_text_ends_each_segment_with_a_space() {
    let t = strings(&[" Hello, this is a test ", "   ", "of it."]);
    assert_eq!(render_plain_text(&t), "Hello, this is a test of it. ");
    assert_eq!(render_plain_text(&strings(&[" ", ""])), "");
}

#[test]
fn joined_text_separates_segments_by_one_space() {
    let t = strings(&[" Hello, this is a test ", "   ", "of it."]);
    assert_eq!(render_joined_text(&t), "Hello, this is a test of it.");
    assert_eq!(render_joined_text(&strings(&[])), "");
    assert_eq!(render_joined_text(&strings(&["", " a"])), "a");
}

#[test]
fn plain_text_is_joined_text_and_a_space() {
    let t = strings(&["x ", " ", " y"]);
    assert_eq!(render_plain_text(&t), format!("{} ", render_joined_text(&t)));
}

#[test]
fn srt_timestamps() {
    assert_eq!(srt_timestamp(0), "00:00:00,000");
    assert_eq!(srt_timestamp(4000), "00:00:04,000");
    assert_eq!(srt_timestamp(3_723_045), "01:02:03,045");
    assert_eq!(srt_timestamp(360_000_000), "100:00:00,000");
}

#[test]
fn srt_document_numbers_cues_from_one() {
    let cues = vec![
        SrtCue { start_ms: 0, end_ms: 4000, text: " Hello, this is a test of the transcription system. ".to_string() },
        SrtCue { start_ms: 30000, end_ms: 61500, text: "More.".to_string() },
    ];
    assert_eq!(
        render_srt(&cues),
        "1\n00:00:00,000 --> 00:00:04,000\nHello, this is a test of the transcription system.\n\n\
         2\n00:00:30,000 --> 00:01:01,500\nMore.\n\n"
    );
}

#[test]
fn search_url_for_a_query() {
    assert_eq!(
        search_url(Some("tiny"), 10),
        "https://huggingface.co/api/models?pipeline_tag=automatic-speech-recognition&sort=downloads&direction=-1&limit=10&search=tiny"
    );
    assert_eq!(
        search_url(None, 3),
        "https://huggingface.co/api/models?pipeline_tag=automatic-speech-recognition&sort=downloads&direction=-1&limit=3"
    );
}

#[test]
fn search_table_matches_the_format_widths() {
    let ms = vec![ModelInfo { id: "openai/whisper-tiny".to_string(), downloads: 12345, likes: 7 }];
    let expected = format!(
        "{:<50} {:<12} {:<8}\n{}\n{:<50} {:<12} {:<8}\n",
        "Model ID", "Downloads", "Likes", "-".repeat(72), "openai/whisper-tiny", 12345, 7
    );
    assert_eq!(render_search_results(&ms), expected);
    assert_eq!(render_search_results(&[]), "No models found.\n");
}

#[test]
fn model_list_table_matches_the_format_widths() {
    let es = vec![ModelEntry {
        model_id: "openai/whisper-base".to_string(),
        variant: ModelVariant::Safetensors,
        downloaded_at: "19675d 22:13:20".to_string(),
        path: "/p".to_string(),
    }];
    let expected = format!(
        "{:<50} {:<15} {:<30}\n{}\n{:<50} {:<15} {:<30}\n",
        "Model ID", "Variant", "Downloaded", "-".repeat(97), "openai/whisper-base",
        format!("{:?}", ModelVariant::Safetensors), "19675d 22:13:20"
    );
    assert_eq!(render_model_list(&es), expected);
    assert_eq!(
        render_model_list(&[]),
        "No models cached. Use `ssrs models download <model_id>` to download one.\n"
    );
    assert_eq!(variant_name(ModelVariant::Gguf), "Gguf");
}

#[test]
fn weights_are_chosen_quantized_first() {
    assert_eq!(choose_weights("m", true, true), Ok(ModelVariant::Gguf));
    assert_eq!(choose_weights("m", false, true), Ok(ModelVariant::Safetensors));
    assert_eq!(
        choose_weights("a/b", false, false),
        Err("No compatible weights found in 'a/b'. Expected model.safetensors or model.gguf.".to_string())
    );
    assert_eq!(weights_file(ModelVariant::Gguf), "model.gguf");
}

#[test]
fn removal_messages() {
    assert_eq!(removal_message("a/b", true), "Model 'a/b' removed.");
    assert_eq!(removal_message("a/b", false), "Model 'a/b' not found in cache.");
}
