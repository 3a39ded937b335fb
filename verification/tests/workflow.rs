use backend::chatml::ChatMLPrompt;
use backend::models::{
    Character, Chat, Job, KoboldCppGenerate, KoboldCppResponse, KoboldCppResult, Prompt, Voice,
};
use backend::workflow::{
    advance, join_lines, push_response_lines, select_candidates, step, validate_job,
    ErrorCategory, RunContext, WorkflowAction, WorkflowError, WorkflowEvent, WorkflowPhase,
    WorkflowRun,
};
use rand::rngs::StdRng;
use rand::SeedableRng;

const ID: u128 = 0x12345678_9012_3456_7890_123456789012;

fn context(setup: &[&str]) -> RunContext {
    RunContext {
        job: Job {
            id: None,
            characters: vec!["Brave Knight".to_string()],
            prompts: vec!["Greeting".to_string()],
            cadence: "0 * * * * *".to_string(),
            prompt_override: None,
        },
        character: Character {
            name: "Brave Knight".to_string(),
            description: "A knight".to_string(),
            personality: "Bold".to_string(),
            background: "The realm".to_string(),
            voice: None,
        },
        prompt: Prompt {
            title: "Greeting".to_string(),
            description: "Greets".to_string(),
            context: "A meeting".to_string(),
            setup: setup.iter().map(|s| s.to_string()).collect(),
            create_audio: false,
            create_images: false,
        },
        chat_history: Chat { character: "Brave Knight".to_string(), messages: vec![] },
        save_to_chat_history: false,
    }
}

fn answers(texts: &[&str]) -> WorkflowEvent {
    WorkflowEvent::Completed(KoboldCppResponse {
        results: texts.iter().map(|text| KoboldCppResult { text: text.to_string() }).collect(),
    })
}

fn completed(text: &str) -> WorkflowEvent {
    answers(&[text])
}

fn request_of(action: WorkflowAction) -> KoboldCppGenerate {
    match action {
        WorkflowAction::Complete(request) => request,
        other => panic!("expected a completion request, got {:?}", other),
    }
}

fn lines_of(action: WorkflowAction) -> Vec<String> {
    match action {
        WorkflowAction::Finish(output) => output.message.text,
        other => panic!("expected a finished run, got {:?}", other),
    }
}

fn error_of(action: WorkflowAction) -> WorkflowError {
    match action {
        WorkflowAction::Fail(error) => error,
        other => panic!("expected a failed run, got {:?}", other),
    }
}

const SYSTEM: &str = "<|im_start|>system\nYou are Brave Knight, described as: A knight\nPersonality: Bold\nBackground: The realm\n\nContext: A meeting<|im_end|>\n";

#[test]
fn a_run_sends_each_setup_item_behind_the_earlier_answers() {
    let context = context(&["Hello", "How are you?", "Farewell"]);
    let (run, action) = advance(WorkflowRun::new(), &context, ID, WorkflowEvent::Start);
    assert_eq!(run.phase, WorkflowPhase::AwaitingStep);
    let request = request_of(action);
    assert_eq!(request.max_length, 1000);
    assert_eq!(
        request.prompt,
        format!("{SYSTEM}<|im_start|>user\nHello<|im_end|>\n<|im_start|>assistant\n")
    );

    let (run, action) = advance(run, &context, ID, completed(" Well met! "));
    assert_eq!(run.phase, WorkflowPhase::AwaitingStep);
    assert_eq!(run.lines, vec!["Well met!".to_string()]);
    assert_eq!(
        request_of(action).prompt,
        format!(
            "{SYSTEM}<|im_start|>user\nHello<|im_end|>\n<|im_start|>assistant\nWell met!<|im_end|>\n<|im_start|>user\nHow are you?<|im_end|>\n<|im_start|>assistant\n"
        )
    );

    let (run, action) = advance(run, &context, ID, completed("Fine.<br>And you?\n\n"));
    assert_eq!(
        run.lines,
        vec!["Well met!".to_string(), "Fine.".to_string(), "And you?".to_string()]
    );
    assert_eq!(
        request_of(action).prompt,
        format!(
            "{SYSTEM}<|im_start|>user\nHello<|im_end|>\n<|im_start|>assistant\nWell met!<|im_end|>\n<|im_start|>user\nHow are you?<|im_end|>\n<|im_start|>assistant\nFine.<br>And you?<|im_end|>\n<|im_start|>user\nFarewell<|im_end|>\n<|im_start|>assistant\n"
        )
    );

    let (run, action) = advance(run, &context, ID, completed("Until we meet again."));
    assert_eq!(run.phase, WorkflowPhase::Finished);
    match action {
        WorkflowAction::Finish(output) => {
            assert_eq!(
                output.message.text,
                vec![
                    "Well met!".to_string(),
                    "Fine.".to_string(),
                    "And you?".to_string(),
                    "Until we meet again.".to_string(),
                ]
            );
            assert!(output.message.audio.is_empty());
            assert!(output.message.images.is_empty());
            assert!(!output.message.read);
            assert!(output.audio_file.is_none());
        }
        other => panic!("expected a finished run, got {:?}", other),
    }
}

#[test]
fn a_failed_completion_ends_the_run_with_nothing() {
    let context = context(&["one", "two", "three"]);
    let (run, _) = advance(WorkflowRun::new(), &context, ID, WorkflowEvent::Start);
    let (run, _) = advance(run, &context, ID, completed("first answer"));
    assert_eq!(run.lines, vec!["first answer".to_string()]);

    let (run, action) = advance(
        run,
        &context,
        ID,
        WorkflowEvent::CompletionFailed("connection refused".to_string()),
    );
    assert_eq!(run.phase, WorkflowPhase::Failed);
    assert!(run.lines.is_empty());
    assert!(run.results.is_empty());
    let error = error_of(action);
    assert_eq!(error, WorkflowError::Completion("connection refused".to_string()));
    assert_eq!(error.message(), "AI workflow execution failed: connection refused");
    assert_eq!(error.category(), ErrorCategory::Internal);

    let (run, action) = advance(run, &context, ID, completed("third answer"));
    assert_eq!(run.phase, WorkflowPhase::Failed);
    assert!(run.lines.is_empty());
    assert_eq!(error_of(action), WorkflowError::OutOfTurn);
}

#[test]
fn a_completion_without_markers_is_one_trimmed_line() {
    let context = context(&["Say hi"]);
    let (run, _) = advance(WorkflowRun::new(), &context, ID, WorkflowEvent::Start);
    let (run, action) = advance(run, &context, ID, completed("  Hello there, traveler!  \n"));
    assert_eq!(run.phase, WorkflowPhase::Finished);
    assert_eq!(lines_of(action), vec!["Hello there, traveler!".to_string()]);
}

#[test]
fn an_unreadable_completion_is_kept_as_the_answer() {
    let context = context(&["Say hi"]);
    let (run, _) = advance(WorkflowRun::new(), &context, ID, WorkflowEvent::Start);
    let (_, action) = advance(run, &context, ID, completed("Hi<|im_end|><|im_start|>oops"));
    assert_eq!(lines_of(action), vec!["Hi<|im_end|><|im_start|>oops".to_string()]);
}

#[test]
fn no_candidate_is_a_failure() {
    let context = context(&["Say hi"]);
    let (run, _) = advance(WorkflowRun::new(), &context, ID, WorkflowEvent::Start);
    let (run, action) = advance(run, &context, ID, answers(&[]));
    assert_eq!(run.phase, WorkflowPhase::Failed);
    let error = error_of(action);
    assert_eq!(error, WorkflowError::NoResults);
    assert_eq!(
        error.message(),
        "AI workflow execution failed: No results returned from LLM"
    );
}

#[test]
fn only_the_first_candidate_is_read() {
    let context = context(&["Say hi"]);
    let (run, _) = advance(WorkflowRun::new(), &context, ID, WorkflowEvent::Start);
    let event = answers(&["first", "second"]);
    let (_, action) = advance(run, &context, ID, event);
    assert_eq!(lines_of(action), vec!["first".to_string()]);
}

#[test]
fn a_job_without_candidates_fails_before_any_call() {
    let mut no_character = context(&["Say hi"]);
    no_character.job.characters.clear();
    no_character.job.prompts.clear();
    let (run, action) = advance(WorkflowRun::new(), &no_character, ID, WorkflowEvent::Start);
    assert_eq!(run.phase, WorkflowPhase::Failed);
    let error = error_of(action);
    assert_eq!(error, WorkflowError::NoCharacters);
    assert_eq!(error.message(), "Job must have at least one character");
    assert_eq!(error.category(), ErrorCategory::InvalidInput);
    assert_eq!(validate_job(&no_character.job), Err(WorkflowError::NoCharacters));

    let mut no_prompt = context(&["Say hi"]);
    no_prompt.job.prompts.clear();
    let (_, action) = advance(WorkflowRun::new(), &no_prompt, ID, WorkflowEvent::Start);
    let error = error_of(action);
    assert_eq!(error, WorkflowError::NoPrompts);
    assert_eq!(error.message(), "Job must have at least one prompt");
    assert_eq!(error.category(), ErrorCategory::InvalidInput);
    assert_eq!(validate_job(&no_prompt.job), Err(WorkflowError::NoPrompts));
    assert_eq!(validate_job(&context(&[]).job), Ok(()));
}

#[test]
fn an_override_is_sent_as_it_is() {
    let mut context = context(&["never sent"]);
    context.job.prompt_override = Some("Tell me a story".to_string());
    let (run, action) = advance(WorkflowRun::new(), &context, ID, WorkflowEvent::Start);
    assert_eq!(run.phase, WorkflowPhase::AwaitingOverride);
    let request = request_of(action);
    assert_eq!(request.prompt, "Tell me a story");
    assert_eq!(request.max_length, 200);

    let answer = "<|im_start|>Once<|im_end|> <|im_start|> upon a time <|im_end|>";
    let (run, action) = advance(run, &context, ID, completed(answer));
    assert_eq!(run.phase, WorkflowPhase::Finished);
    assert_eq!(lines_of(action), vec!["Once".to_string(), " upon a time ".to_string()]);
}

#[test]
fn an_override_answer_without_markers_is_the_raw_line() {
    let mut context = context(&[]);
    context.job.prompt_override = Some("Tell me a story".to_string());
    let (run, _) = advance(WorkflowRun::new(), &context, ID, WorkflowEvent::Start);
    let (_, action) = advance(run, &context, ID, completed(" raw\ntext "));
    assert_eq!(lines_of(action), vec![" raw\ntext ".to_string()]);

    let (run, _) = advance(WorkflowRun::new(), &context, ID, WorkflowEvent::Start);
    let failed = WorkflowEvent::CompletionFailed("timeout".to_string());
    let (run, action) = advance(run, &context, ID, failed);
    assert_eq!(run.phase, WorkflowPhase::Failed);
    assert_eq!(error_of(action), WorkflowError::Completion("timeout".to_string()));

    let (run, _) = advance(WorkflowRun::new(), &context, ID, WorkflowEvent::Start);
    let (_, action) = advance(run, &context, ID, answers(&[]));
    assert_eq!(error_of(action), WorkflowError::NoResults);
}

#[test]
fn a_prompt_without_setup_finishes_at_once() {
    let context = context(&[]);
    let (run, action) = advance(WorkflowRun::new(), &context, ID, WorkflowEvent::Start);
    assert_eq!(run.phase, WorkflowPhase::Finished);
    assert!(lines_of(action).is_empty());
}

#[test]
fn audio_of_a_preview_comes_back_inline() {
    let mut context = context(&["Say hi"]);
    context.prompt.create_audio = true;
    let (run, _) = advance(WorkflowRun::new(), &context, ID, WorkflowEvent::Start);
    let (run, action) = advance(run, &context, ID, completed("Hi<br>there"));
    assert_eq!(run.phase, WorkflowPhase::AwaitingSpeech);
    match action {
        WorkflowAction::Synthesize(request) => {
            assert_eq!(request.text, "Hi\nthere");
            assert_eq!(f64::from_bits(request.temperature), 0.8);
            assert_eq!(f64::from_bits(request.exaggeration), 0.4);
            assert_eq!(f64::from_bits(request.cfg_weight), 0.5);
            assert_eq!(f64::from_bits(request.speed_factor), 1.0);
            assert_eq!(request.reference_audio_filename, "default.wav");
        }
        other => panic!("expected a speech request, got {:?}", other),
    }

    let (run, action) = advance(run, &context, ID, WorkflowEvent::Spoken(b"hello".to_vec()));
    assert_eq!(run.phase, WorkflowPhase::Finished);
    match action {
        WorkflowAction::Finish(output) => {
            assert_eq!(output.message.text, vec!["Hi".to_string(), "there".to_string()]);
            assert_eq!(output.message.audio, vec!["aGVsbG8=".to_string()]);
            assert!(output.audio_file.is_none());
        }
        other => panic!("expected a finished run, got {:?}", other),
    }
}

#[test]
fn audio_of_a_recorded_run_is_kept_under_the_fresh_identifier() {
    let mut context = context(&["Say hi"]);
    context.prompt.create_audio = true;
    context.save_to_chat_history = true;
    context.character.voice = Some(Voice {
        temperature: 0.25f64.to_bits(),
        exaggeration: 0.5f64.to_bits(),
        cfg_weight: 0.75f64.to_bits(),
        speed_factor: 1.5f64.to_bits(),
        voice_name: "knight.wav".to_string(),
    });
    let (run, _) = advance(WorkflowRun::new(), &context, ID, WorkflowEvent::Start);
    let (run, action) = advance(run, &context, ID, completed("Hi"));
    match action {
        WorkflowAction::Synthesize(request) => {
            assert_eq!(request.text, "Hi");
            assert_eq!(f64::from_bits(request.speed_factor), 1.5);
            assert_eq!(request.reference_audio_filename, "knight.wav");
        }
        other => panic!("expected a speech request, got {:?}", other),
    }

    let (_, action) = advance(run, &context, ID, WorkflowEvent::Spoken(vec![0, 255, 16]));
    match action {
        WorkflowAction::Finish(output) => {
            assert_eq!(output.message.text, vec!["Hi".to_string()]);
            assert_eq!(
                output.message.audio,
                vec!["12345678-9012-3456-7890-123456789012".to_string()]
            );
            let file = output.audio_file.unwrap();
            assert_eq!(file.directory, "./data/audio/brave-knight");
            assert_eq!(
                file.path,
                "./data/audio/brave-knight/12345678-9012-3456-7890-123456789012.mp3"
            );
            assert_eq!(file.content, vec![0, 255, 16]);
        }
        other => panic!("expected a finished run, got {:?}", other),
    }
}

#[test]
fn a_failed_synthesis_fails_the_run() {
    let mut context = context(&["Say hi"]);
    context.prompt.create_audio = true;
    let (run, _) = advance(WorkflowRun::new(), &context, ID, WorkflowEvent::Start);
    let (run, _) = advance(run, &context, ID, completed("Hi"));
    let failed = WorkflowEvent::SpeechFailed("status 500".to_string());
    let (run, action) = advance(run, &context, ID, failed);
    assert_eq!(run.phase, WorkflowPhase::Failed);
    assert!(run.lines.is_empty());
    let error = error_of(action);
    assert_eq!(error, WorkflowError::Synthesis("status 500".to_string()));
    assert_eq!(error.message(), "TTS call failed: status 500");
    assert_eq!(error.category(), ErrorCategory::Internal);
}

#[test]
fn events_out_of_turn_fail_the_run() {
    let context = context(&["Say hi"]);
    let (_, action) = advance(WorkflowRun::new(), &context, ID, completed("early"));
    assert_eq!(error_of(action), WorkflowError::OutOfTurn);

    let (run, _) = advance(WorkflowRun::new(), &context, ID, WorkflowEvent::Start);
    let (run, action) = advance(run, &context, ID, WorkflowEvent::Spoken(vec![1]));
    assert_eq!(run.phase, WorkflowPhase::Failed);
    let error = error_of(action);
    assert_eq!(error, WorkflowError::OutOfTurn);
    assert_eq!(error.message(), "AI workflow execution failed: event out of turn");

    let (run, _) = advance(WorkflowRun::new(), &context, ID, WorkflowEvent::Start);
    let (_, action) = advance(run, &context, ID, WorkflowEvent::Start);
    assert_eq!(error_of(action), WorkflowError::OutOfTurn);

    let (run, _) = advance(WorkflowRun::new(), &context, ID, WorkflowEvent::Start);
    let (run, _) = advance(run, &context, ID, completed("Hi"));
    assert_eq!(run.phase, WorkflowPhase::Finished);
    let (_, action) = advance(run, &context, ID, completed("again"));
    assert_eq!(error_of(action), WorkflowError::OutOfTurn);

    let stray = WorkflowRun {
        phase: WorkflowPhase::AwaitingStep,
        results: vec![ChatMLPrompt::new()],
        lines: vec![],
    };
    let (_, action) = advance(stray, &context, ID, completed("Hi"));
    assert_eq!(error_of(action), WorkflowError::OutOfTurn);
}

#[test]
fn step_draws_a_fresh_identifier() {
    let mut context = context(&[]);
    context.prompt.create_audio = true;
    context.save_to_chat_history = true;
    let (run, action) = step(WorkflowRun::new(), &context, WorkflowEvent::Start);
    assert!(matches!(action, WorkflowAction::Synthesize(_)));
    let (_, action) = step(run, &context, WorkflowEvent::Spoken(vec![1, 2, 3]));
    match action {
        WorkflowAction::Finish(output) => {
            assert_eq!(output.message.audio.len(), 1);
            let reference = &output.message.audio[0];
            assert_eq!(reference.len(), 36);
            assert_eq!(&reference[14..15], "4");
            assert_eq!(
                output.audio_file.unwrap().path,
                format!("./data/audio/brave-knight/{reference}.mp3")
            );
        }
        other => panic!("expected a finished run, got {:?}", other),
    }
}

#[test]
fn candidates_are_drawn_from_the_job() {
    let job = Job {
        id: None,
        characters: vec!["a".to_string(), "b".to_string(), "c".to_string()],
        prompts: vec!["p".to_string(), "q".to_string()],
        cadence: "0 * * * * *".to_string(),
        prompt_override: None,
    };
    let mut rng = StdRng::seed_from_u64(7);
    let mut seen_characters = std::collections::BTreeSet::new();
    let mut seen_prompts = std::collections::BTreeSet::new();
    for _ in 0..200 {
        let selection = select_candidates(&job, &mut rng).unwrap();
        assert!(job.characters.contains(&selection.character));
        assert!(job.prompts.contains(&selection.prompt));
        seen_characters.insert(selection.character);
        seen_prompts.insert(selection.prompt);
    }
    assert_eq!(seen_characters.len(), 3);
    assert_eq!(seen_prompts.len(), 2);

    let mut same = StdRng::seed_from_u64(7);
    let mut again = StdRng::seed_from_u64(7);
    assert_eq!(select_candidates(&job, &mut same), select_candidates(&job, &mut again));
}

#[test]
fn nothing_is_drawn_from_a_job_without_candidates() {
    let mut rng = StdRng::seed_from_u64(1);
    let mut job = Job {
        id: None,
        characters: vec![],
        prompts: vec!["p".to_string()],
        cadence: "0 * * * * *".to_string(),
        prompt_override: None,
    };
    assert_eq!(select_candidates(&job, &mut rng), Err(WorkflowError::NoCharacters));
    job.characters = vec!["a".to_string()];
    job.prompts = vec![];
    assert_eq!(select_candidates(&job, &mut rng), Err(WorkflowError::NoPrompts));
}

#[test]
fn response_lines_split_on_tags_and_line_ends() {
    let mut lines = vec![];
    push_response_lines(&mut lines, " a <br> b\r\nc<br><br>\n<br>d ");
    assert_eq!(
        lines,
        vec!["a".to_string(), "b".to_string(), "c".to_string(), "d".to_string()]
    );
    assert_eq!(join_lines(&lines), "a\nb\nc\nd");
    assert_eq!(join_lines(&[].to_vec()), "");
    assert_eq!(join_lines(&vec!["only".to_string()]), "only");
}
