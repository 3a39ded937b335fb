use backend::chatml::{ChatMLMessage, ChatMLParseError, ChatMLPrompt};

#[test]
fn test_chatml_message_creation() {
    let system_msg = ChatMLMessage::system("You are a helpful assistant.");
    assert_eq!(system_msg.role, "system");
    assert_eq!(system_msg.content, "You are a helpful assistant.");

    let user_msg = ChatMLMessage::user("Hello!");
    assert_eq!(user_msg.role, "user");
    assert_eq!(user_msg.content, "Hello!");

    let assistant_msg = ChatMLMessage::assistant("Hi there!");
    assert_eq!(assistant_msg.role, "assistant");
    assert_eq!(assistant_msg.content, "Hi there!");
}

#[test]
fn test_chatml_message_to_string() {
    let msg = ChatMLMessage::system("You are helpful.");
    let expected = "<|im_start|>system\nYou are helpful.<|im_end|>";
    assert_eq!(msg.to_chatml(), expected);
}

#[test]
fn test_chatml_prompt_building() {
    let mut prompt = ChatMLPrompt::new();
    prompt
        .add_system("You are a helpful assistant.")
        .add_user("What is the capital of France?")
        .add_assistant("The capital of France is Paris.");

    assert_eq!(prompt.messages.len(), 3);
    assert_eq!(prompt.messages[0].role, "system");
    assert_eq!(prompt.messages[1].role, "user");
    assert_eq!(prompt.messages[2].role, "assistant");
}

#[test]
fn test_chatml_prompt_to_string() {
    let mut prompt = ChatMLPrompt::new();
    prompt.add_system("You are helpful.").add_user("Hello!");

    let expected =
        "<|im_start|>system\nYou are helpful.<|im_end|>\n<|im_start|>user\nHello!<|im_end|>";
    assert_eq!(prompt.to_chatml(), expected);
}

#[test]
fn test_chatml_prompt_for_generation() {
    let mut prompt = ChatMLPrompt::new();
    prompt.add_system("You are helpful.").add_user("Hello!");

    let expected = "<|im_start|>system\nYou are helpful.<|im_end|>\n<|im_start|>user\nHello!<|im_end|>\n<|im_start|>assistant\n";
    assert_eq!(prompt.to_chatml_for_generation(), expected);
}

#[test]
fn test_chatml_parsing() {
    let input =
        "<|im_start|>system\nYou are helpful.<|im_end|>\n<|im_start|>user\nHello!<|im_end|>";
    let prompt = ChatMLPrompt::from_chatml(input).unwrap();

    assert_eq!(prompt.messages.len(), 2);
    assert_eq!(prompt.messages[0].role, "system");
    assert_eq!(prompt.messages[0].content, "You are helpful.");
    assert_eq!(prompt.messages[1].role, "user");
    assert_eq!(prompt.messages[1].content, "Hello!");
}

#[test]
fn test_chatml_parsing_incomplete_assistant() {
    let input = "<|im_start|>system\nYou are helpful.<|im_end|>\n<|im_start|>user\nHello!<|im_end|>\n<|im_start|>assistant\nHi there!";
    let prompt = ChatMLPrompt::from_chatml(input).unwrap();

    assert_eq!(prompt.messages.len(), 3);
    assert_eq!(prompt.messages[2].role, "assistant");
    assert_eq!(prompt.messages[2].content, "Hi there!");
}

#[test]
fn test_last_assistant_message() {
    let mut prompt = ChatMLPrompt::new();
    prompt
        .add_system("You are helpful.")
        .add_user("Hello!")
        .add_assistant("Hi there!")
        .add_user("How are you?")
        .add_assistant("I'm doing well!");

    assert_eq!(prompt.last_assistant_message(), Some("I'm doing well!"));
}

#[test]
fn test_messages_with_role() {
    let mut prompt = ChatMLPrompt::new();
    prompt
        .add_system("You are helpful.")
        .add_user("Hello!")
        .add_user("How are you?")
        .add_assistant("I'm doing well!");

    let user_messages = prompt.messages_with_role("user");
    assert_eq!(user_messages.len(), 2);
    assert_eq!(user_messages[0].content, "Hello!");
    assert_eq!(user_messages[1].content, "How are you?");
}

#[test]
fn test_round_trip_parsing() {
    let mut original = ChatMLPrompt::new();
    original
        .add_system("You are a helpful assistant.")
        .add_user("What is 2+2?")
        .add_assistant("2+2 equals 4.");

    let chatml_string = original.to_chatml();
    let parsed = ChatMLPrompt::from_chatml(&chatml_string).unwrap();

    assert_eq!(original, parsed);
}

#[test]
fn parse_keeps_an_unterminated_last_turn() {
    let prompt = ChatMLPrompt::from_chatml("<|im_start|>assistant\nHi there").unwrap();
    assert_eq!(prompt.messages, vec![ChatMLMessage::assistant("Hi there")]);
}

#[test]
fn parse_rejects_a_role_without_newline() {
    let parsed = ChatMLPrompt::from_chatml("<|im_start|>textwithnonewline<|im_end|>");
    match parsed {
        Err(ChatMLParseError::InvalidFormat(detail)) => {
            assert_eq!(detail, "No newline found after role in ChatML message");
        }
        other => panic!("expected a format error, got {:?}", other),
    }
}

#[test]
fn parse_rejects_a_later_role_without_newline() {
    let parsed =
        ChatMLPrompt::from_chatml("<|im_start|>user\nHello<|im_end|>\n<|im_start|>assistant");
    assert!(matches!(parsed, Err(ChatMLParseError::InvalidFormat(_))));
}

#[test]
fn parse_of_plain_text_is_empty() {
    let prompt = ChatMLPrompt::from_chatml("plain text").unwrap();
    assert_eq!(prompt.messages.len(), 0);
}

#[test]
fn parse_of_nothing_is_empty() {
    assert_eq!(ChatMLPrompt::from_chatml("").unwrap().messages.len(), 0);
    assert_eq!(ChatMLPrompt::from_chatml(" \n\t ").unwrap().messages.len(), 0);
}

#[test]
fn parse_keeps_the_role_as_written() {
    let prompt = ChatMLPrompt::from_chatml("junk <|im_start|> user \nHi<|im_end|>").unwrap();
    assert_eq!(prompt.messages, vec![ChatMLMessage::new(" user ", "Hi")]);
}

#[test]
fn parse_counts_characters_not_bytes() {
    let input = "\u{3000}é<|im_start|>usér\nnaïve — 日本語<|im_end|>\u{a0}<|im_start|>assistant\nça va";
    let prompt = ChatMLPrompt::from_chatml(input).unwrap();
    assert_eq!(
        prompt.messages,
        vec![
            ChatMLMessage::new("usér", "naïve — 日本語"),
            ChatMLMessage::assistant("ça va"),
        ]
    );
}

#[test]
fn round_trip_keeps_start_markers_in_content() {
    let mut original = ChatMLPrompt::new();
    original.add_user("a <|im_start|> b").add_assistant("").add_message(ChatMLMessage::new("", "x\ny"));
    let parsed = ChatMLPrompt::from_chatml(&original.to_chatml()).unwrap();
    assert_eq!(original, parsed);
}

#[test]
fn generation_text_of_an_empty_prompt_is_the_suffix() {
    assert_eq!(ChatMLPrompt::new().to_chatml_for_generation(), "<|im_start|>assistant\n");
    assert_eq!(ChatMLPrompt::new().to_chatml(), "");
}

#[test]
fn last_assistant_message_of_a_prompt_without_one_is_none() {
    let mut prompt = ChatMLPrompt::new();
    prompt.add_system("s").add_user("u");
    assert_eq!(prompt.last_assistant_message(), None);
    assert_eq!(prompt.messages_with_role("assistant").len(), 0);
}

#[test]
fn parse_errors_read_as_sentences() {
    assert_eq!(
        ChatMLParseError::InvalidFormat("x".to_string()).message(),
        "Invalid ChatML format: x"
    );
    assert_eq!(ChatMLParseError::MissingMarkers.message(), "Missing required markers");
}

#[test]
fn with_messages_keeps_the_messages() {
    let prompt = ChatMLPrompt::with_messages(vec![ChatMLMessage::user("a")]);
    assert_eq!(prompt.messages, vec![ChatMLMessage::user("a")]);
    assert_eq!(prompt.messages[0].duplicate(), ChatMLMessage::user("a"));
    assert_eq!(prompt.duplicate(), prompt);
    assert_eq!(ChatMLPrompt::default(), ChatMLPrompt::new());
}
