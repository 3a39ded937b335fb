use backend::models::{default_false, default_true, duplicate_texts, Job, Voice};

#[test]
fn default_voice_has_the_default_weights() {
    let voice = Voice::default();
    assert_eq!(f64::from_bits(voice.temperature), 0.8);
    assert_eq!(f64::from_bits(voice.exaggeration), 0.4);
    assert_eq!(f64::from_bits(voice.cfg_weight), 0.5);
    assert_eq!(f64::from_bits(voice.speed_factor), 1.0);
    assert_eq!(voice.voice_name, "default.wav");
}

#[test]
fn copies_hold_the_same_values() {
    let voice = Voice { voice_name: "a.wav".to_string(), ..Voice::default() };
    let copy = voice.duplicate();
    assert_eq!(copy.voice_name, "a.wav");
    assert_eq!(copy.temperature, voice.temperature);

    let job = Job {
        id: Some(7),
        characters: vec!["a".to_string(), "b".to_string()],
        prompts: vec!["p".to_string()],
        cadence: "0 * * * * *".to_string(),
        prompt_override: Some("say".to_string()),
    };
    let copy = job.duplicate();
    assert_eq!(copy.id, Some(7));
    assert_eq!(copy.characters, job.characters);
    assert_eq!(copy.prompts, job.prompts);
    assert_eq!(copy.cadence, job.cadence);
    assert_eq!(copy.prompt_override, job.prompt_override);
    assert_eq!(duplicate_texts(&job.characters), job.characters);
}

#[test]
fn flag_defaults() {
    assert!(default_true());
    assert!(!default_false());
}
