use rzem_ai_inference::inference::metadata::ImageMetadata;
use rzem_ai_inference::inference::png_metadata::{
    encode_png_with_metadata, metadata_from_text_chunks, png_text_chunks, TextChunk,
};

fn sample() -> ImageMetadata {
    ImageMetadata {
        prompt: "A red fox in snow".to_string(),
        negative_prompt: Some("blurry".to_string()),
        steps: 4,
        cfg_scale: "1".to_string(),
        width: 2,
        height: 2,
        seed: 42,
        model: "flux-schnell".to_string(),
        sampler: Some("euler".to_string()),
        scheduler: None,
    }
}

fn chunk(keyword: &str, text: &str) -> TextChunk {
    TextChunk { keyword: keyword.to_string(), text: text.to_string() }
}

#[test]
fn png_carries_both_text_chunks() {
    let m = sample();
    let rgb = vec![10u8; 12];
    let png = encode_png_with_metadata(&rgb, 2, 2, &m, "{\"steps\":4}".to_string()).unwrap();
    assert_eq!(&png[..8], &[137, 80, 78, 71, 13, 10, 26, 10]);
    let chunks = png_text_chunks(&png).unwrap();
    assert_eq!(chunks.len(), 2);
    assert_eq!(chunks[0].keyword, "parameters");
    assert_eq!(chunks[0].text, m.to_parameters_string());
    assert_eq!(chunks[1].keyword, "rzem-metadata");
    assert_eq!(chunks[1].text, "{\"steps\":4}");
}

#[test]
fn png_read_back_falls_to_parameters() {
    let m = sample();
    let rgb = vec![0u8; 12];
    let png = encode_png_with_metadata(&rgb, 2, 2, &m, "not json".to_string()).unwrap();
    let chunks = png_text_chunks(&png).unwrap();
    let read = metadata_from_text_chunks(&chunks, vec![None, None]).unwrap();
    assert_eq!(read.prompt, m.prompt);
    assert_eq!(read.negative_prompt, m.negative_prompt);
    assert_eq!(read.steps, 4);
    assert_eq!(read.cfg_scale, "1");
    assert_eq!(read.seed, 42);
    assert_eq!((read.width, read.height), (2, 2));
    assert_eq!(read.model, "flux-schnell");
    assert_eq!(read.sampler, Some("euler".to_string()));
    assert_eq!(read.scheduler, None);
}

#[test]
fn png_refuses_bad_images() {
    let m = sample();
    assert!(encode_png_with_metadata(&[], 0, 2, &m, String::new()).is_err());
    assert!(encode_png_with_metadata(&[1, 2, 3], 2, 2, &m, String::new()).is_err());
    let mut wide = sample();
    wide.prompt = "\u{65e5}\u{672c}".to_string();
    assert!(encode_png_with_metadata(&[0u8; 12], 2, 2, &wide, String::new()).is_err());
    assert!(encode_png_with_metadata(&[0u8; 12], 2, 2, &m, "\u{2603}".to_string()).is_err());
    assert!(encode_png_with_metadata(&[0u8; 12], 2, 2, &m, "caf\u{e9}".to_string()).is_ok());
}

#[test]
fn png_text_of_garbage_is_an_error() {
    assert!(png_text_chunks(b"not a png").is_err());
    assert!(png_text_chunks(&[]).is_err());
}

#[test]
fn json_chunk_comes_first() {
    let chunks = vec![
        chunk("parameters", "a cat\nSteps: 9, Seed: 3"),
        chunk("rzem-metadata", "{}"),
        chunk("rzem-metadata", "{}"),
    ];
    let mut from_json = sample();
    from_json.prompt = "from json".to_string();
    let mut second = sample();
    second.prompt = "second".to_string();
    let picked = metadata_from_text_chunks(&chunks, vec![None, Some(from_json), Some(second)]).unwrap();
    assert_eq!(picked.prompt, "from json");

    let picked = metadata_from_text_chunks(&chunks, vec![Some(sample()), None, None]).unwrap();
    assert_eq!(picked.prompt, "a cat");
    assert_eq!(picked.steps, 9);
    assert_eq!(picked.seed, 3);
}

#[test]
fn parameters_without_settings_are_skipped() {
    let chunks = vec![
        chunk("parameters", "no settings here"),
        chunk("Parameters", "x\nSteps: 5"),
        chunk("parameters", "y\nSteps: 7"),
    ];
    let picked = metadata_from_text_chunks(&chunks, vec![None, None, None]).unwrap();
    assert_eq!(picked.prompt, "y");
    assert_eq!(picked.steps, 7);
    assert!(metadata_from_text_chunks(&chunks[..1].to_vec(), vec![None]).is_none());
    assert!(metadata_from_text_chunks(&Vec::new(), Vec::new()).is_none());
}

#[test]
fn png_long_texts_read_back() {
    let mut m = sample();
    m.prompt = "a".repeat(200_000);
    let json = "j".repeat(100_000);
    let png = encode_png_with_metadata(&[7u8; 12], 2, 2, &m, json.clone()).unwrap();
    let chunks = png_text_chunks(&png).unwrap();
    assert_eq!(chunks.len(), 2);
    assert_eq!(chunks[0].text, m.to_parameters_string());
    assert_eq!(chunks[1].text, json);
}
