//! Reading the reply of the image-analysis request: the prompt that
//! recreates an image is the text of the reply's content blocks.
use vstd::prelude::*;
use crate::chatbot::{reply_concat, reply_text};
use crate::lines::trimmed;
use crate::text::trim;

verus! {

/// Why a reply yields no prompt.
#[derive(Debug, Clone, Copy, PartialEq, Eq)]
pub enum AnalysisError {
    /// The reply carried no text.
    EmptyResponse,
}

impl AnalysisError {
    /// The message of the error.
    pub fn message(&self) -> (s: String)
        ensures
            s@ == "The image analysis returned an empty response"@,
    {
        String::from_str("The image analysis returned an empty response")
    }
}

/// The prompt an image-analysis reply gives: the texts of its content
/// blocks concatenated and trimmed; a reply without text is an error.
pub fn read_analysis(blocks: &[Option<String>]) -> (r: Result<String, AnalysisError>)
    ensures
        r is Err <==> reply_text(blocks@).len() == 0,
        r matches Ok(prompt) ==> prompt@ == trim(reply_text(blocks@)),
{
    let text = reply_concat(blocks);
    if text.as_str().is_empty() {
        return Err(AnalysisError::EmptyResponse);
    }
    Ok(trimmed(text.as_str()))
}

} // verus!
