use backend::utils::{
    audio_file_path, character_file_path, character_slug, chat_file_path_from_character,
    generate_job_id, image_file_path, job_file_path, job_file_path_from_id,
    job_file_path_from_slug, job_slug, prompt_file_path, prompt_slug, to_slug,
};

fn slug(input: &str) -> String {
    to_slug(input).unwrap()
}

#[test]
fn test_to_slug() {
    assert_eq!(slug("Brave Knight"), "brave-knight");
    assert_eq!(slug("Send a Joke Text"), "send-a-joke-text");
    assert_eq!(slug("The Jokester!!!"), "the-jokester");
    assert_eq!(slug("Multiple   Spaces"), "multiple-spaces");
    assert_eq!(slug("Special@#$Characters"), "specialcharacters");
    assert_eq!(slug("--Start-and-End--"), "start-and-end");
    assert_eq!(slug(""), "");
}

#[test]
fn test_job_slug() {
    assert_eq!(
        job_slug("Brave Knight", "Send a Joke Text").unwrap(),
        "brave-knight-send-a-joke-text"
    );
    assert_eq!(
        job_slug("The Jokester", "Daily Update").unwrap(),
        "the-jokester-daily-update"
    );
}

#[test]
fn test_file_paths() {
    assert_eq!(
        character_file_path("Brave Knight").unwrap(),
        "./data/characters/brave-knight.json"
    );
    assert_eq!(
        prompt_file_path("Send a Joke Text").unwrap(),
        "./data/prompts/send-a-joke-text.json"
    );
    assert_eq!(
        job_file_path("Brave Knight", "Send a Joke Text").unwrap(),
        "./data/jobs/brave-knight-send-a-joke-text.json"
    );
}

#[test]
fn slug_drops_what_is_not_ascii() {
    assert_eq!(slug("Café  Noir_2"), "caf-noir2");
    assert_eq!(slug(" \t tabs\nand\u{3000}wide "), "tabs-and-wide");
    assert_eq!(slug("a - b"), "a-b");
    assert_eq!(slug("!!!"), "");
}

#[test]
fn character_and_prompt_slugs_are_slugs() {
    assert_eq!(character_slug("Brave Knight").unwrap(), "brave-knight");
    assert_eq!(prompt_slug("Daily Update").unwrap(), "daily-update");
}

#[test]
fn other_file_paths() {
    assert_eq!(job_file_path_from_slug("a-b"), "./data/jobs/a-b.json");
    assert_eq!(
        chat_file_path_from_character("Brave Knight").unwrap(),
        "./data/chats/brave-knight.json"
    );
    assert_eq!(
        audio_file_path("Brave Knight", "x.mp3").unwrap(),
        "./data/audio/brave-knight/x.mp3"
    );
    assert_eq!(
        image_file_path("Brave Knight", "x.png").unwrap(),
        "./data/images/brave-knight/x.png"
    );
}

#[test]
fn job_file_path_from_id_writes_the_hyphenated_form() {
    assert_eq!(
        job_file_path_from_id(0x12345678_9012_3456_7890_123456789012),
        "./data/jobs/12345678-9012-3456-7890-123456789012.json"
    );
    assert_eq!(
        job_file_path_from_id(0xABCDEF),
        "./data/jobs/00000000-0000-0000-0000-000000abcdef.json"
    );
}

#[test]
fn generated_ids_are_random_uuids() {
    let first = generate_job_id();
    let second = generate_job_id();
    let mask: u128 = 0x0000_0000_0000_F000_C000_0000_0000_0000;
    let marks: u128 = 0x0000_0000_0000_4000_8000_0000_0000_0000;
    assert_eq!(first & mask, marks);
    assert_eq!(second & mask, marks);
    assert_ne!(first, second);
}
