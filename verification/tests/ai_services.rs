use backend::ai_services::{
    chatml_request, complete_chatml, extract_marked_content, plain_completion_lines,
    plain_request, tts_request,
};
use backend::chatml::{ChatMLMessage, ChatMLPrompt};
use backend::models::{KoboldCppGenerate, TtsRequest, Voice};

#[test]
fn marked_content_is_found_pair_by_pair() {
    assert_eq!(
        extract_marked_content("a[b]c[d]e", "[", "]"),
        vec!["b".to_string(), "d".to_string()]
    );
    assert_eq!(
        extract_marked_content(
            "<|im_start|>one<|im_end|> noise <|im_start|>two<|im_end|>",
            "<|im_start|>",
            "<|im_end|>"
        ),
        vec!["one".to_string(), "two".to_string()]
    );
}

#[test]
fn marked_content_needs_an_end_marker() {
    assert_eq!(extract_marked_content("a[b]c[d", "[", "]"), vec!["b".to_string()]);
    assert_eq!(extract_marked_content("a[b[c", "[", "]"), Vec::<String>::new());
    assert_eq!(extract_marked_content("no markers", "[", "]"), Vec::<String>::new());
    assert_eq!(extract_marked_content("", "[", "]"), Vec::<String>::new());
}

#[test]
fn marked_content_starts_behind_the_first_start_marker() {
    assert_eq!(extract_marked_content("[[a]]", "[", "]"), vec!["[a".to_string()]);
    assert_eq!(
        extract_marked_content("x[]y[é]", "[", "]"),
        vec!["".to_string(), "é".to_string()]
    );
    assert_eq!(
        extract_marked_content("|a||b|", "|", "|"),
        vec!["a".to_string(), "b".to_string()]
    );
}

#[test]
fn plain_completion_is_the_marked_content_or_the_raw_text() {
    assert_eq!(
        plain_completion_lines("<|im_start|>Hi<|im_end|><|im_start|>there<|im_end|>"),
        vec!["Hi".to_string(), "there".to_string()]
    );
    assert_eq!(
        plain_completion_lines("  just text\n"),
        vec!["  just text\n".to_string()]
    );
    assert_eq!(plain_completion_lines("<|im_start|>open"), vec!["<|im_start|>open".to_string()]);
}

fn sent() -> ChatMLPrompt {
    let mut prompt = ChatMLPrompt::new();
    prompt.add_system("You are helpful.").add_user("Hello!");
    prompt
}

#[test]
fn completion_becomes_the_assistant_turn() {
    let completed = complete_chatml(&sent(), "  Hi there!\n");
    assert_eq!(
        completed.messages,
        vec![
            ChatMLMessage::system("You are helpful."),
            ChatMLMessage::user("Hello!"),
            ChatMLMessage::assistant("Hi there!"),
        ]
    );
}

#[test]
fn completion_with_an_end_marker_is_cut_there() {
    let completed = complete_chatml(&sent(), "Hi!<|im_end|>\n<|im_start|>user\nAnd you?");
    assert_eq!(
        completed.messages,
        vec![
            ChatMLMessage::system("You are helpful."),
            ChatMLMessage::user("Hello!"),
            ChatMLMessage::assistant("Hi!"),
            ChatMLMessage::user("And you?"),
        ]
    );
}

#[test]
fn unreadable_completion_is_kept_whole() {
    let completed = complete_chatml(&sent(), " Hi!<|im_end|><|im_start|>broken ");
    assert_eq!(
        completed.messages,
        vec![
            ChatMLMessage::system("You are helpful."),
            ChatMLMessage::user("Hello!"),
            ChatMLMessage::assistant(" Hi!<|im_end|><|im_start|>broken "),
        ]
    );
}

#[test]
fn transcript_request_carries_the_generation_text() {
    let request: KoboldCppGenerate = chatml_request(&sent());
    assert_eq!(
        request.prompt,
        "<|im_start|>system\nYou are helpful.<|im_end|>\n<|im_start|>user\nHello!<|im_end|>\n<|im_start|>assistant\n"
    );
    assert_eq!(request.max_context_length, 8192);
    assert_eq!(request.max_length, 1000);
    assert!(!request.quiet);
    assert_eq!(f64::from_bits(request.rep_pen), 1.0);
    assert_eq!(request.rep_pen_range, 1024);
    assert_eq!(f64::from_bits(request.rep_pen_slope), 0.7);
    assert_eq!(f64::from_bits(request.temperature), 0.9);
    assert_eq!(f64::from_bits(request.tfs), 1.0);
    assert_eq!(f64::from_bits(request.top_a), 0.0);
    assert_eq!(request.top_k, 100);
    assert_eq!(f64::from_bits(request.top_p), 0.9);
    assert_eq!(f64::from_bits(request.typical), 1.0);
}

#[test]
fn plain_request_carries_the_prompt_as_it_is() {
    let request = plain_request("Tell me a story");
    assert_eq!(request.prompt, "Tell me a story");
    assert_eq!(request.max_length, 200);
    assert_eq!(request.max_context_length, 8192);
}

#[test]
fn speech_request_takes_the_voice() {
    let voice = Voice {
        temperature: 0.25f64.to_bits(),
        exaggeration: 0.5f64.to_bits(),
        cfg_weight: 0.75f64.to_bits(),
        speed_factor: 1.5f64.to_bits(),
        voice_name: "knight.wav".to_string(),
    };
    let request: TtsRequest = tts_request("Line one\nLine two", &voice);
    assert_eq!(request.text, "Line one\nLine two");
    assert_eq!(f64::from_bits(request.temperature), 0.25);
    assert_eq!(f64::from_bits(request.exaggeration), 0.5);
    assert_eq!(f64::from_bits(request.cfg_weight), 0.75);
    assert_eq!(f64::from_bits(request.speed_factor), 1.5);
    assert_eq!(request.seed, 42);
    assert_eq!(request.language, "en");
    assert_eq!(request.voice_mode, "clone");
    assert!(request.split_text);
    assert_eq!(request.chunk_size, 240);
    assert_eq!(request.output_format, "mp3");
    assert_eq!(request.reference_audio_filename, "knight.wav");
}
