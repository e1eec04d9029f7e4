use rzem_ai_inference::image_analysis::{read_analysis, AnalysisError};

#[test]
fn analysis_joins_and_trims_text_blocks() {
    let blocks = vec![Some("  A fox ".to_string()), None, Some("in snow\n".to_string())];
    assert_eq!(read_analysis(&blocks), Ok("A fox in snow".to_string()));
}

#[test]
fn analysis_without_text_is_an_error() {
    assert_eq!(read_analysis(&[None]), Err(AnalysisError::EmptyResponse));
    assert_eq!(read_analysis(&[Some(String::new())]), Err(AnalysisError::EmptyResponse));
    assert_eq!(read_analysis(&[]), Err(AnalysisError::EmptyResponse));
    assert_eq!(AnalysisError::EmptyResponse.message(), "The image analysis returned an empty response");
}

#[test]
fn analysis_of_blank_text_is_empty() {
    assert_eq!(read_analysis(&[Some("   ".to_string())]), Ok(String::new()));
}
