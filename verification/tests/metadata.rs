use rzem_ai_inference::numbers::is_float_text;
use rzem_ai_inference::inference::metadata::ImageMetadata;

fn sample() -> ImageMetadata {
    ImageMetadata {
        prompt: "A beautiful sunset over mountains".to_string(),
        negative_prompt: Some("blurry, low quality".to_string()),
        steps: 20,
        cfg_scale: "7.5".to_string(),
        width: 1024,
        height: 768,
        seed: 12345,
        model: "flux-schnell".to_string(),
        sampler: Some("euler".to_string()),
        scheduler: Some("normal".to_string()),
    }
}

#[test]
fn test_parameters_roundtrip() {
    let metadata = sample();

    let params_str = metadata.to_parameters_string();
    let parsed = ImageMetadata::from_parameters_string(&params_str).unwrap();

    assert_eq!(parsed.prompt, metadata.prompt);
    assert_eq!(parsed.steps, metadata.steps);
    assert_eq!(parsed.seed, metadata.seed);
}

#[test]
fn parameters_text_layout() {
    let text = sample().to_parameters_string();
    assert_eq!(
        text,
        "A beautiful sunset over mountains\nNegative prompt: blurry, low quality\nSteps: 20, CFG scale: 7.5, Seed: 12345, Size: 1024x768, Model: flux-schnell, Sampler: euler, Scheduler: normal"
    );
    let mut bare = sample();
    bare.negative_prompt = Some(String::new());
    bare.sampler = None;
    bare.scheduler = None;
    bare.seed = -7;
    assert_eq!(
        bare.to_parameters_string(),
        "A beautiful sunset over mountains\nSteps: 20, CFG scale: 7.5, Seed: -7, Size: 1024x768, Model: flux-schnell"
    );
}

#[test]
fn every_field_reads_back() {
    let m = sample();
    let r = ImageMetadata::from_parameters_string(&m.to_parameters_string()).unwrap();
    assert_eq!(r.negative_prompt, m.negative_prompt);
    assert_eq!(r.cfg_scale, m.cfg_scale);
    assert_eq!((r.width, r.height), (m.width, m.height));
    assert_eq!(r.model, m.model);
    assert_eq!(r.sampler, m.sampler);
    assert_eq!(r.scheduler, m.scheduler);
}

#[test]
fn missing_settings_line_gives_nothing() {
    assert!(ImageMetadata::from_parameters_string("just a prompt").is_none());
    assert!(ImageMetadata::from_parameters_string("").is_none());
}

#[test]
fn unreadable_settings_take_defaults() {
    let r = ImageMetadata::from_parameters_string("cat\r\ndog\nSteps: many, Seed: x, Size: big").unwrap();
    assert_eq!(r.prompt, "cat\ndog");
    assert_eq!(r.negative_prompt, None);
    assert_eq!(r.steps, 4);
    assert_eq!(r.seed, -1);
    assert_eq!((r.width, r.height), (1024, 1024));
    assert_eq!(r.cfg_scale, "1");
    assert_eq!(r.model, "unknown");
    assert_eq!(r.sampler, None);
}

#[test]
fn later_parts_win_and_extremes_parse() {
    let r = ImageMetadata::from_parameters_string(
        "p\nSteps: 1, Steps: +4294967295, Seed: -9223372036854775808, Size: 5x6, Size: 7y",
    )
    .unwrap();
    assert_eq!(r.steps, 4294967295);
    assert_eq!(r.seed, i64::MIN);
    assert_eq!((r.width, r.height), (5, 6));
    let s = ImageMetadata::from_parameters_string("p\nSteps: 4294967296").unwrap();
    assert_eq!(s.steps, 4);
}

#[test]
fn negative_prompt_prefix_is_stripped_repeatedly() {
    let r = ImageMetadata::from_parameters_string("p\nNegative prompt:Negative prompt:  ugly \nSteps: 2").unwrap();
    assert_eq!(r.negative_prompt, Some("ugly".to_string()));
    assert_eq!(r.steps, 2);
}

#[test]
fn guidance_that_is_no_number_reads_as_one() {
    let read = |cfg: &str| {
        let text = format!("p\nSteps: 4, CFG scale: {}, Seed: 1, Size: 8x8, Model: m", cfg);
        ImageMetadata::from_parameters_string(&text).unwrap().cfg_scale
    };
    assert_eq!(read("abc"), "1");
    assert_eq!(read("7.5x"), "1");
    assert_eq!(read("."), "1");
    assert_eq!(read("1e"), "1");
    assert_eq!(read("7.5"), "7.5");
    assert_eq!(read("-.5E+3"), "-.5E+3");
    assert_eq!(read("inf"), "inf");
    assert_eq!(read("NaN"), "NaN");
    let missing = ImageMetadata::from_parameters_string("p\nSteps: 4, Seed: 1").unwrap();
    assert_eq!(missing.cfg_scale, "1");
}

#[test]
fn float_texts_follow_std_parsing() {
    for t in ["0", "+3.", "-.25", "1e10", "2E-3", "infinity", "-INF", "nan", "007.50e+01"] {
        assert!(is_float_text(t), "{}", t);
        assert!(t.parse::<f64>().is_ok());
    }
    for t in ["", "+", ".", "e5", "1e", "1.2.3", " 1", "1 ", "0x10", "in", "1_0", "--1"] {
        assert!(!is_float_text(t), "{}", t);
        assert!(t.parse::<f64>().is_err());
    }
}
