use rzem_ai_inference::chatbot::{conversation, ChatMessage};
use rzem_ai_inference::chatbot::{
    build_system_prompt, extract_suggested_prompt, read_reply, role_str, summarize_loras, user_turn,
    ChatError, MessageRole,
};

#[test]
fn test_extract_suggested_prompt_markdown() {
    let text = r#"Here's my suggestion:

```prompt
A majestic dragon flying over mountains at sunset, detailed scales, dramatic lighting
```

This prompt focuses on the key elements."#;

    let result = extract_suggested_prompt(text);
    assert_eq!(
        result,
        Some(
            "A majestic dragon flying over mountains at sunset, detailed scales, dramatic lighting"
                .to_string()
        )
    );
}

#[test]
fn test_extract_suggested_prompt_none() {
    let text = "Here's some advice without a specific prompt suggestion.";
    let result = extract_suggested_prompt(text);
    assert!(result.is_none());
}

#[test]
fn test_build_system_prompt() {
    let loras = vec!["anime".to_string(), "cinematic".to_string()];
    let prompt = build_system_prompt(1024, 768, "flux-schnell", 4, "3.5", &loras);

    assert!(prompt.contains("1024x768"));
    assert!(prompt.contains("flux-schnell"));
    assert!(prompt.contains("anime, cinematic"));
}

#[test]
fn system_prompt_fills_every_setting() {
    let prompt = build_system_prompt(512, 512, "flux-dev", 28, "3.5", &[]);
    assert!(prompt.contains("512x512"));
    assert!(prompt.contains("Steps: 28"));
    assert!(prompt.contains("3.5"));
    assert!(prompt.contains("None"));
    assert!(!prompt.contains("{width}"));
    assert!(!prompt.contains("{loras}"));
}

#[test]
fn lora_summary_is_none_or_joined() {
    assert_eq!(summarize_loras(&[]), "None");
    assert_eq!(summarize_loras(&["a".to_string()]), "a");
    assert_eq!(summarize_loras(&["a".to_string(), "b".to_string()]), "a, b");
}

#[test]
fn suggested_prompt_is_trimmed_and_needs_a_closing_fence() {
    assert_eq!(extract_suggested_prompt("```prompt\n  a cat  \n```"), Some("a cat".to_string()));
    assert_eq!(extract_suggested_prompt("```prompt\nno end"), None);
}

#[test]
fn user_turn_quotes_the_current_prompt() {
    assert_eq!(user_turn("", "hi"), "hi");
    assert_eq!(user_turn("a cat", "make it blue"), "My current prompt is: \"a cat\"\n\nmake it blue");
}

#[test]
fn reply_of_blocks() {
    let r = read_reply(&[Some("  Try this:\n```prompt\nred fox\n```".to_string()), None]).unwrap();
    assert_eq!(r.message, "Try this:\n```prompt\nred fox\n```");
    assert_eq!(r.suggested_prompt, Some("red fox".to_string()));
    assert!(matches!(read_reply(&[None]), Err(ChatError::EmptyResponse)));
}

#[test]
fn role_names() {
    assert_eq!(role_str(MessageRole::User), "user");
    assert_eq!(role_str(MessageRole::Assistant), "assistant");
}

#[test]
fn conversation_turns() {
    let history = vec![
        ChatMessage { role: MessageRole::User, content: "hi".to_string(), timestamp: 1 },
        ChatMessage { role: MessageRole::Assistant, content: "hello".to_string(), timestamp: 2 },
    ];
    let turns = conversation(&history, "a cat", "bluer");
    assert_eq!(turns.len(), 3);
    assert_eq!(turns[0], ("user".to_string(), "hi".to_string()));
    assert_eq!(turns[1], ("assistant".to_string(), "hello".to_string()));
    assert_eq!(turns[2], ("user".to_string(), "My current prompt is: \"a cat\"\n\nbluer".to_string()));
}
