//! One workflow run as a state machine: the run is advanced by what the
//! outside services answered, and says what to ask of them next.
//!
//! A run answers the setup items of a prompt one by one. Each step sends the
//! whole conversation so far, since the completion service keeps no state.
//! A failed call ends the run with nothing to show; an answer that cannot be
//! read as a transcript is kept as the assistant's turn.

use base64::Engine;
use rand::rngs::StdRng;
use rand::seq::SliceRandom;
use vstd::prelude::*;
use vstd::string::StringExecFns;

use crate::ai_services::{
    chatml_request, complete_chatml, completed_transcript, completion_request,
    lemma_answer_becomes_the_assistant_turn, marked_or_raw, plain_completion_lines,
    plain_request, speech_request, tts_request, PLAIN_MAX_LENGTH, TRANSCRIPT_MAX_LENGTH,
};
use crate::chatml::{
    assistant_role, end_marker, generation_text, last_with_role, message_of, newline, readable,
    ChatMLMessageView, ChatMLPrompt,
};
use crate::llm_prompt::{build_setup_item_chatml_prompt, step_prompt, transcripts};
use crate::models::{
    default_voice, Character, CharacterView, Chat, ChatView, Job, JobView, KoboldCppGenerate,
    KoboldCppGenerateView, KoboldCppResponse, Message, MessageView, Prompt, PromptView,
    TtsRequest, TtsRequestView, Voice, VoiceView,
};
use crate::text::{
    chars_of, contains_text, is_line_break, lemma_one_line, lemma_replace_absent,
    lemma_trim_is_idempotent, push_trimmed_lines, replace, replace_text, texts, trim,
    trimmed_lines, whitespace,
};
use crate::utils::{
    audio_directory, audio_file_path, generate_job_id, is_random_uuid, slug_text, uuid_string,
    uuid_text,
};

verus! {

/// `rand::rngs::StdRng`, the source of randomness that a caller hands in.
/// Nothing of its inside is read here.
#[verifier::external_type_specification]
#[verifier::external_body]
pub struct ExStdRng(StdRng);

/// What `base64`'s standard engine, with padding, makes of `bytes`.
pub uninterp spec fn base64_standard(bytes: Seq<u8>) -> Seq<char>;

/// Whether the base64 text of `len` bytes has a length that fits in `usize`.
pub open spec fn encodable(len: nat) -> bool {
    len / 3 * 4 + 4 <= usize::MAX
}

/// Encodes with `base64::engine::general_purpose::STANDARD`. Trusted: the
/// text is the standard base64 form of the bytes. The crate panics where the
/// text's length overflows; such inputs are left out.
#[verifier::external_body]
fn encode_base64(bytes: &Vec<u8>) -> (text: String)
    requires
        encodable(bytes@.len()),
    ensures
        text@ == base64_standard(bytes@),
{
    base64::engine::general_purpose::STANDARD.encode(bytes)
}

/// Draws one of `names` with `rand::seq::SliceRandom::choose`. Trusted:
/// nothing is drawn from an empty list, and what is drawn from another is
/// one of its items.
#[verifier::external_body]
fn choose_name<'a>(names: &'a Vec<String>, rng: &mut StdRng) -> (picked: Option<&'a String>)
    ensures
        names@.len() == 0 ==> picked is None,
        names@.len() > 0 ==> picked is Some && texts(names@).contains(picked.unwrap()@),
{
    names.choose(rng)
}

/// Why a run ended without a message.
#[derive(Debug, Clone, PartialEq)]
pub enum WorkflowError {
    /// The job names no character.
    NoCharacters,
    /// The job names no prompt.
    NoPrompts,
    /// The call of the completion service failed.
    Completion(String),
    /// The completion service answered without a candidate.
    NoResults,
    /// The call of the speech service failed.
    Synthesis(String),
    /// The event answers nothing that the run has asked for.
    OutOfTurn,
}

pub enum WorkflowErrorView {
    NoCharacters,
    NoPrompts,
    Completion(Seq<char>),
    NoResults,
    Synthesis(Seq<char>),
    OutOfTurn,
}

impl View for WorkflowError {
    type V = WorkflowErrorView;

    open spec fn view(&self) -> WorkflowErrorView {
        match self {
            WorkflowError::NoCharacters => WorkflowErrorView::NoCharacters,
            WorkflowError::NoPrompts => WorkflowErrorView::NoPrompts,
            WorkflowError::Completion(reason) => WorkflowErrorView::Completion(reason@),
            WorkflowError::NoResults => WorkflowErrorView::NoResults,
            WorkflowError::Synthesis(reason) => WorkflowErrorView::Synthesis(reason@),
            WorkflowError::OutOfTurn => WorkflowErrorView::OutOfTurn,
        }
    }
}

/// How a failure is to be reported to a caller.
#[derive(Debug, Clone, Copy, PartialEq, Eq, Structural)]
pub enum ErrorCategory {
    NotFound,
    InvalidInput,
    Internal,
}

/// The category of an error: a job that cannot be run is the caller's
/// fault, everything else the service's.
pub open spec fn category_of(error: WorkflowErrorView) -> ErrorCategory {
    match error {
        WorkflowErrorView::NoCharacters => ErrorCategory::InvalidInput,
        WorkflowErrorView::NoPrompts => ErrorCategory::InvalidInput,
        _ => ErrorCategory::Internal,
    }
}

/// The error in words.
pub open spec fn error_text(error: WorkflowErrorView) -> Seq<char> {
    match error {
        WorkflowErrorView::NoCharacters => "Job must have at least one character"@,
        WorkflowErrorView::NoPrompts => "Job must have at least one prompt"@,
        WorkflowErrorView::Completion(reason) => "AI workflow execution failed: "@ + reason,
        WorkflowErrorView::NoResults =>
            "AI workflow execution failed: No results returned from LLM"@,
        WorkflowErrorView::Synthesis(reason) => "TTS call failed: "@ + reason,
        WorkflowErrorView::OutOfTurn => "AI workflow execution failed: event out of turn"@,
    }
}

impl WorkflowError {
    pub fn category(&self) -> (category: ErrorCategory)
        ensures
            category == category_of(self@),
    {
        match self {
            WorkflowError::NoCharacters => ErrorCategory::InvalidInput,
            WorkflowError::NoPrompts => ErrorCategory::InvalidInput,
            _ => ErrorCategory::Internal,
        }
    }

    pub fn message(&self) -> (text: String)
        ensures
            text@ == error_text(self@),
    {
        match self {
            WorkflowError::NoCharacters => "Job must have at least one character".to_string(),
            WorkflowError::NoPrompts => "Job must have at least one prompt".to_string(),
            WorkflowError::Completion(reason) => {
                let mut text = "AI workflow execution failed: ".to_string();
                text.append(reason.as_str());
                text
            },
            WorkflowError::NoResults => {
                "AI workflow execution failed: No results returned from LLM".to_string()
            },
            WorkflowError::Synthesis(reason) => {
                let mut text = "TTS call failed: ".to_string();
                text.append(reason.as_str());
                text
            },
            WorkflowError::OutOfTurn => {
                "AI workflow execution failed: event out of turn".to_string()
            },
        }
    }
}

/// The error that keeps a job from being run, if any.
pub open spec fn job_fault(job: JobView) -> Option<WorkflowErrorView> {
    if job.characters.len() == 0 {
        Some(WorkflowErrorView::NoCharacters)
    } else if job.prompts.len() == 0 {
        Some(WorkflowErrorView::NoPrompts)
    } else {
        None
    }
}

/// Checks that a job names a character and a prompt.
pub fn validate_job(job: &Job) -> (checked: Result<(), WorkflowError>)
    ensures
        match checked {
            Ok(_) => job_fault(job@) is None,
            Err(error) => job_fault(job@) == Some(error@),
        },
{
    if job.characters.len() == 0 {
        Err(WorkflowError::NoCharacters)
    } else if job.prompts.len() == 0 {
        Err(WorkflowError::NoPrompts)
    } else {
        Ok(())
    }
}

/// The character and the prompt drawn for one execution of a job.
#[derive(Debug, Clone, PartialEq)]
pub struct Selection {
    pub character: String,
    pub prompt: String,
}

/// Draws the character and the prompt of one execution, the character
/// first.
///
/// Fails exactly where the job names no character or no prompt. What is
/// drawn is among the job's candidates.
pub fn select_candidates(job: &Job, rng: &mut StdRng) -> (drawn: Result<Selection, WorkflowError>)
    ensures
        match drawn {
            Ok(selection) => job_fault(job@) is None && job@.characters.contains(
                selection.character@,
            ) && job@.prompts.contains(selection.prompt@),
            Err(error) => job_fault(job@) == Some(error@),
        },
{
    match validate_job(job) {
        Err(error) => Err(error),
        Ok(_) => {
            let character = match choose_name(&job.characters, rng) {
                Some(name) => name.clone(),
                None => {
                    return Err(WorkflowError::NoCharacters);
                },
            };
            match choose_name(&job.prompts, rng) {
                Some(title) => Ok(Selection { character, prompt: title.clone() }),
                None => Err(WorkflowError::NoPrompts),
            }
        },
    }
}

/// What a run works on, fixed from its start to its end.
#[derive(Debug, Clone)]
pub struct RunContext {
    pub job: Job,
    pub character: Character,
    pub prompt: Prompt,
    pub chat_history: Chat,
    /// Whether the run is recorded in the chat history; a run that is not
    /// hands its audio back inline.
    pub save_to_chat_history: bool,
}

pub struct RunContextView {
    pub job: JobView,
    pub character: CharacterView,
    pub prompt: PromptView,
    pub chat_history: ChatView,
    pub save_to_chat_history: bool,
}

impl View for RunContext {
    type V = RunContextView;

    open spec fn view(&self) -> RunContextView {
        RunContextView {
            job: self.job@,
            character: self.character@,
            prompt: self.prompt@,
            chat_history: self.chat_history@,
            save_to_chat_history: self.save_to_chat_history,
        }
    }
}

/// Where a run stands.
#[derive(Debug, Clone, Copy, PartialEq, Eq, Structural)]
pub enum WorkflowPhase {
    /// Nothing has been asked yet.
    Ready,
    /// The answer to the override prompt is awaited.
    AwaitingOverride,
    /// The answer to the next setup item is awaited.
    AwaitingStep,
    /// The audio of the lines is awaited.
    AwaitingSpeech,
    /// The run has handed out its message.
    Finished,
    /// The run has failed.
    Failed,
}

/// The state of a run between two events.
#[derive(Debug, Clone)]
pub struct WorkflowRun {
    pub phase: WorkflowPhase,
    /// The parsed result of each completed step.
    pub results: Vec<ChatMLPrompt>,
    /// The lines gathered so far.
    pub lines: Vec<String>,
}

pub struct WorkflowRunView {
    pub phase: WorkflowPhase,
    pub results: Seq<Seq<ChatMLMessageView>>,
    pub lines: Seq<Seq<char>>,
}

impl View for WorkflowRun {
    type V = WorkflowRunView;

    open spec fn view(&self) -> WorkflowRunView {
        WorkflowRunView {
            phase: self.phase,
            results: transcripts(self.results@),
            lines: texts(self.lines@),
        }
    }
}

/// What the outside has to tell a run.
#[derive(Debug, Clone)]
pub enum WorkflowEvent {
    /// The run is to begin.
    Start,
    /// The completion service answered.
    Completed(KoboldCppResponse),
    /// The call of the completion service failed.
    CompletionFailed(String),
    /// The speech service answered with this audio.
    Spoken(Vec<u8>),
    /// The call of the speech service failed.
    SpeechFailed(String),
}

pub enum WorkflowEventView {
    Start,
    Completed(Seq<Seq<char>>),
    CompletionFailed(Seq<char>),
    Spoken(Seq<u8>),
    SpeechFailed(Seq<char>),
}

impl View for WorkflowEvent {
    type V = WorkflowEventView;

    open spec fn view(&self) -> WorkflowEventView {
        match self {
            WorkflowEvent::Start => WorkflowEventView::Start,
            WorkflowEvent::Completed(response) => WorkflowEventView::Completed(response@),
            WorkflowEvent::CompletionFailed(reason) => WorkflowEventView::CompletionFailed(
                reason@,
            ),
            WorkflowEvent::Spoken(audio) => WorkflowEventView::Spoken(audio@),
            WorkflowEvent::SpeechFailed(reason) => WorkflowEventView::SpeechFailed(reason@),
        }
    }
}

/// Audio that is to be written to disk.
#[derive(Debug, Clone)]
pub struct AudioFile {
    pub directory: String,
    pub path: String,
    pub content: Vec<u8>,
}

pub struct AudioFileView {
    pub directory: Seq<char>,
    pub path: Seq<char>,
    pub content: Seq<u8>,
}

impl View for AudioFile {
    type V = AudioFileView;

    open spec fn view(&self) -> AudioFileView {
        AudioFileView { directory: self.directory@, path: self.path@, content: self.content@ }
    }
}

/// What a finished run hands out: the message, and the audio that is to be
/// kept on disk for it.
#[derive(Debug, Clone)]
pub struct RunOutput {
    pub message: Message,
    pub audio_file: Option<AudioFile>,
}

pub struct RunOutputView {
    pub message: MessageView,
    pub audio_file: Option<AudioFileView>,
}

impl View for RunOutput {
    type V = RunOutputView;

    open spec fn view(&self) -> RunOutputView {
        RunOutputView {
            message: self.message@,
            audio_file: match self.audio_file {
                Some(file) => Some(file@),
                None => None,
            },
        }
    }
}

/// What a run asks of the outside.
#[derive(Debug, Clone)]
pub enum WorkflowAction {
    /// Call the completion service and come back with `Completed` or
    /// `CompletionFailed`.
    Complete(KoboldCppGenerate),
    /// Call the speech service and come back with `Spoken` or
    /// `SpeechFailed`.
    Synthesize(TtsRequest),
    /// The run has succeeded.
    Finish(RunOutput),
    /// The run has failed.
    Fail(WorkflowError),
}

pub enum WorkflowActionView {
    Complete(KoboldCppGenerateView),
    Synthesize(TtsRequestView),
    Finish(RunOutputView),
    Fail(WorkflowErrorView),
}

impl View for WorkflowAction {
    type V = WorkflowActionView;

    open spec fn view(&self) -> WorkflowActionView {
        match self {
            WorkflowAction::Complete(request) => WorkflowActionView::Complete(request@),
            WorkflowAction::Synthesize(request) => WorkflowActionView::Synthesize(request@),
            WorkflowAction::Finish(output) => WorkflowActionView::Finish(output@),
            WorkflowAction::Fail(error) => WorkflowActionView::Fail(error@),
        }
    }
}

/// `lines` in a row, `separator` between each two.
pub open spec fn joined(lines: Seq<Seq<char>>, separator: Seq<char>) -> Seq<char>
    decreases lines.len(),
{
    if lines.len() == 0 {
        Seq::empty()
    } else if lines.len() == 1 {
        lines[0]
    } else {
        joined(lines.drop_last(), separator) + separator + lines.last()
    }
}

/// The lines of an answer: `<br>`, newline and carriage return end a line;
/// each line loses the whitespace at its ends; blank lines are dropped.
pub open spec fn response_lines(answer: Seq<char>) -> Seq<Seq<char>> {
    trimmed_lines(replace_text(answer, "<br>"@, newline()))
}

/// The lines that the last assistant turn of a completed step adds.
pub open spec fn step_lines(completed: Seq<ChatMLMessageView>) -> Seq<Seq<char>> {
    match last_with_role(completed, assistant_role()) {
        Some(answer) => response_lines(answer),
        None => Seq::empty(),
    }
}

/// The voice of a character, or the default voice where it has none.
pub open spec fn voice_of(character: CharacterView) -> VoiceView {
    match character.voice {
        Some(voice) => voice,
        None => default_voice(),
    }
}

/// The state of a run that has not begun.
pub open spec fn fresh_run() -> WorkflowRunView {
    WorkflowRunView { phase: WorkflowPhase::Ready, results: Seq::empty(), lines: Seq::empty() }
}

/// A run that failed keeps nothing.
pub open spec fn failed(error: WorkflowErrorView) -> (WorkflowRunView, WorkflowActionView) {
    (
        WorkflowRunView {
            phase: WorkflowPhase::Failed,
            results: Seq::empty(),
            lines: Seq::empty(),
        },
        WorkflowActionView::Fail(error),
    )
}

/// The message of a run with these lines and this audio.
pub open spec fn message_with(lines: Seq<Seq<char>>, audio: Seq<Seq<char>>) -> MessageView {
    MessageView { text: lines, audio, images: Seq::empty(), read: false }
}

/// A run that succeeded keeps nothing either: its lines are in the message.
pub open spec fn finished(output: RunOutputView) -> (WorkflowRunView, WorkflowActionView) {
    (
        WorkflowRunView {
            phase: WorkflowPhase::Finished,
            results: Seq::empty(),
            lines: Seq::empty(),
        },
        WorkflowActionView::Finish(output),
    )
}

/// The request that sends setup item `results.len()`, behind everything
/// that the earlier steps said.
pub open spec fn step_request(
    context: RunContextView,
    results: Seq<Seq<ChatMLMessageView>>,
) -> KoboldCppGenerateView {
    completion_request(
        generation_text(
            step_prompt(
                context.character,
                context.prompt,
                context.prompt.setup[results.len() as int],
                results,
                context.chat_history,
            ),
        ),
        TRANSCRIPT_MAX_LENGTH,
    )
}

/// What follows once all lines are gathered: the speech service is asked
/// where the prompt wants audio, else the run is done.
pub open spec fn concluded(context: RunContextView, lines: Seq<Seq<char>>) -> (
    WorkflowRunView,
    WorkflowActionView,
) {
    if context.prompt.create_audio {
        (
            WorkflowRunView { phase: WorkflowPhase::AwaitingSpeech, results: Seq::empty(), lines },
            WorkflowActionView::Synthesize(
                speech_request(joined(lines, newline()), voice_of(context.character)),
            ),
        )
    } else {
        finished(RunOutputView { message: message_with(lines, Seq::empty()), audio_file: None })
    }
}

/// What `Start` does to a run that has not begun.
pub open spec fn started(context: RunContextView) -> (WorkflowRunView, WorkflowActionView) {
    match job_fault(context.job) {
        Some(error) => failed(error),
        None => match context.job.prompt_override {
            Some(text) => (
                WorkflowRunView {
                    phase: WorkflowPhase::AwaitingOverride,
                    results: Seq::empty(),
                    lines: Seq::empty(),
                },
                WorkflowActionView::Complete(completion_request(text, PLAIN_MAX_LENGTH)),
            ),
            None => if context.prompt.setup.len() == 0 {
                concluded(context, Seq::empty())
            } else {
                (
                    WorkflowRunView {
                        phase: WorkflowPhase::AwaitingStep,
                        results: Seq::empty(),
                        lines: Seq::empty(),
                    },
                    WorkflowActionView::Complete(step_request(context, Seq::empty())),
                )
            },
        },
    }
}

/// What the answer to a setup item does: the first candidate is read behind
/// the transcript that was sent, the lines of its last assistant turn are
/// gathered, and the next setup item is sent or the run concluded.
pub open spec fn step_answered(
    run: WorkflowRunView,
    context: RunContextView,
    candidates: Seq<Seq<char>>,
) -> (WorkflowRunView, WorkflowActionView) {
    if run.results.len() >= context.prompt.setup.len() {
        failed(WorkflowErrorView::OutOfTurn)
    } else if candidates.len() == 0 {
        failed(WorkflowErrorView::NoResults)
    } else {
        let sent = step_prompt(
            context.character,
            context.prompt,
            context.prompt.setup[run.results.len() as int],
            run.results,
            context.chat_history,
        );
        let completed = completed_transcript(sent, candidates[0]);
        let lines = run.lines + step_lines(completed);
        let results = run.results.push(completed);
        if results.len() < context.prompt.setup.len() {
            (
                WorkflowRunView { phase: WorkflowPhase::AwaitingStep, results, lines },
                WorkflowActionView::Complete(step_request(context, results)),
            )
        } else {
            concluded(context, lines)
        }
    }
}

/// What the answer to an override prompt does: the texts between markers
/// in the first candidate, or the candidate itself, are the lines.
pub open spec fn override_answered(context: RunContextView, candidates: Seq<Seq<char>>) -> (
    WorkflowRunView,
    WorkflowActionView,
) {
    if candidates.len() == 0 {
        failed(WorkflowErrorView::NoResults)
    } else {
        concluded(context, marked_or_raw(candidates[0]))
    }
}

/// The name of the file that holds the audio with identifier `id`.
pub open spec fn audio_file_name(id: u128) -> Seq<char> {
    uuid_text(id) + ".mp3"@
}

/// The file that keeps the audio of a recorded run, where its place can be
/// named.
pub open spec fn audio_file_for(character: Seq<char>, id: u128, audio: Seq<u8>) -> Option<
    AudioFileView,
> {
    match slug_text(character) {
        Some(slug) => Some(
            AudioFileView {
                directory: "./data/audio/"@ + slug,
                path: "./data/audio/"@ + slug + ("/"@ + audio_file_name(id)),
                content: audio,
            },
        ),
        None => None,
    }
}

/// What the audio does: a recorded run refers to it by a fresh identifier
/// and has it written to disk; another run hands it back as base64 text.
pub open spec fn spoken(
    run: WorkflowRunView,
    context: RunContextView,
    fresh_id: u128,
    audio: Seq<u8>,
) -> (WorkflowRunView, WorkflowActionView) {
    if context.save_to_chat_history {
        finished(
            RunOutputView {
                message: message_with(run.lines, seq![uuid_text(fresh_id)]),
                audio_file: audio_file_for(context.character.name, fresh_id, audio),
            },
        )
    } else {
        finished(
            RunOutputView {
                message: message_with(run.lines, seq![base64_standard(audio)]),
                audio_file: None,
            },
        )
    }
}

/// The state that follows `run` on `event`, and what the run then asks for.
///
/// An event that does not answer what the run has asked for fails the run.
pub open spec fn transition(
    run: WorkflowRunView,
    context: RunContextView,
    fresh_id: u128,
    event: WorkflowEventView,
) -> (WorkflowRunView, WorkflowActionView) {
    match (run.phase, event) {
        (WorkflowPhase::Ready, WorkflowEventView::Start) => started(context),
        (WorkflowPhase::AwaitingStep, WorkflowEventView::Completed(candidates)) => step_answered(
            run,
            context,
            candidates,
        ),
        (
            WorkflowPhase::AwaitingOverride,
            WorkflowEventView::Completed(candidates),
        ) => override_answered(context, candidates),
        (WorkflowPhase::AwaitingStep, WorkflowEventView::CompletionFailed(reason)) => failed(
            WorkflowErrorView::Completion(reason),
        ),
        (WorkflowPhase::AwaitingOverride, WorkflowEventView::CompletionFailed(reason)) => failed(
            WorkflowErrorView::Completion(reason),
        ),
        (WorkflowPhase::AwaitingSpeech, WorkflowEventView::Spoken(audio)) => spoken(
            run,
            context,
            fresh_id,
            audio,
        ),
        (WorkflowPhase::AwaitingSpeech, WorkflowEventView::SpeechFailed(reason)) => failed(
            WorkflowErrorView::Synthesis(reason),
        ),
        _ => failed(WorkflowErrorView::OutOfTurn),
    }
}

/// Appends the lines of an answer to `lines`.
pub fn push_response_lines(lines: &mut Vec<String>, answer: &str)
    ensures
        texts(final(lines)@) == texts(old(lines)@) + response_lines(answer@),
{
    let chars = chars_of(answer);
    let line_break_tag = chars_of("<br>");
    let line_break: Vec<char> = vec!['\n'];
    proof {
        reveal_strlit("<br>");
        assert(line_break@ =~= newline());
    }
    let normalized = replace(&chars, &line_break_tag, &line_break);
    push_trimmed_lines(lines, &normalized);
}

/// `lines` in a row, a newline between each two.
pub fn join_lines(lines: &Vec<String>) -> (text: String)
    ensures
        text@ == joined(texts(lines@), newline()),
{
    let mut text = String::new();
    let mut i: usize = 0;
    let ghost all = texts(lines@);
    while i < lines.len()
        invariant
            i <= lines.len(),
            all == texts(lines@),
            text@ == joined(all.take(i as int), newline()),
        decreases lines.len() - i,
    {
        proof {
            let upto = all.take(i + 1);
            assert(upto.drop_last() =~= all.take(i as int));
        }
        if i > 0 {
            text.push('\n');
        }
        text.append(lines[i].as_str());
        i += 1;
    }
    proof {
        assert(all.take(lines.len() as int) =~= all);
    }
    text
}

fn fail(error: WorkflowError) -> (next: (WorkflowRun, WorkflowAction))
    ensures
        (next.0@, next.1@) == failed(error@),
{
    let run = WorkflowRun { phase: WorkflowPhase::Failed, results: Vec::new(), lines: Vec::new() };
    proof {
        assert(run@.results =~= Seq::<Seq<ChatMLMessageView>>::empty());
        assert(run@.lines =~= Seq::<Seq<char>>::empty());
    }
    (run, WorkflowAction::Fail(error))
}

fn finish(output: RunOutput) -> (next: (WorkflowRun, WorkflowAction))
    ensures
        (next.0@, next.1@) == finished(output@),
{
    let run = WorkflowRun {
        phase: WorkflowPhase::Finished,
        results: Vec::new(),
        lines: Vec::new(),
    };
    proof {
        assert(run@.results =~= Seq::<Seq<ChatMLMessageView>>::empty());
        assert(run@.lines =~= Seq::<Seq<char>>::empty());
    }
    (run, WorkflowAction::Finish(output))
}

fn message_of_run(lines: Vec<String>, audio: Vec<String>) -> (message: Message)
    ensures
        message@ == message_with(texts(lines@), texts(audio@)),
{
    let message = Message { text: lines, audio, images: Vec::new(), read: false };
    proof {
        assert(message@.images =~= Seq::<Seq<char>>::empty());
    }
    message
}

fn voice_for(character: &Character) -> (voice: Voice)
    ensures
        voice@ == voice_of(character@),
{
    match &character.voice {
        Some(voice) => voice.duplicate(),
        None => Voice::default(),
    }
}

fn conclude(context: &RunContext, lines: Vec<String>) -> (next: (WorkflowRun, WorkflowAction))
    ensures
        (next.0@, next.1@) == concluded(context@, texts(lines@)),
{
    if context.prompt.create_audio {
        let text = join_lines(&lines);
        let voice = voice_for(&context.character);
        let request = tts_request(text.as_str(), &voice);
        let run = WorkflowRun { phase: WorkflowPhase::AwaitingSpeech, results: Vec::new(), lines };
        proof {
            assert(run@.results =~= Seq::<Seq<ChatMLMessageView>>::empty());
        }
        (run, WorkflowAction::Synthesize(request))
    } else {
        let audio: Vec<String> = Vec::new();
        proof {
            assert(texts(audio@) =~= Seq::<Seq<char>>::empty());
        }
        finish(RunOutput { message: message_of_run(lines, audio), audio_file: None })
    }
}

fn request_step(context: &RunContext, results: &Vec<ChatMLPrompt>) -> (request: KoboldCppGenerate)
    requires
        results.len() < context.prompt.setup.len(),
    ensures
        request@ == step_request(context@, transcripts(results@)),
{
    let sent = build_setup_item_chatml_prompt(
        &context.character,
        &context.prompt,
        context.prompt.setup[results.len()].as_str(),
        results.as_slice(),
        &context.chat_history,
    );
    chatml_request(&sent)
}

fn start(context: &RunContext) -> (next: (WorkflowRun, WorkflowAction))
    ensures
        (next.0@, next.1@) == started(context@),
{
    match validate_job(&context.job) {
        Err(error) => fail(error),
        Ok(_) => match &context.job.prompt_override {
            Some(text) => {
                let run = WorkflowRun {
                    phase: WorkflowPhase::AwaitingOverride,
                    results: Vec::new(),
                    lines: Vec::new(),
                };
                proof {
                    assert(run@.results =~= Seq::<Seq<ChatMLMessageView>>::empty());
                    assert(run@.lines =~= Seq::<Seq<char>>::empty());
                }
                (run, WorkflowAction::Complete(plain_request(text.as_str())))
            },
            None => {
                let lines: Vec<String> = Vec::new();
                proof {
                    assert(texts(lines@) =~= Seq::<Seq<char>>::empty());
                }
                if context.prompt.setup.len() == 0 {
                    conclude(context, lines)
                } else {
                    let results: Vec<ChatMLPrompt> = Vec::new();
                    proof {
                        assert(transcripts(results@) =~= Seq::<Seq<ChatMLMessageView>>::empty());
                    }
                    let request = request_step(context, &results);
                    (
                        WorkflowRun { phase: WorkflowPhase::AwaitingStep, results, lines },
                        WorkflowAction::Complete(request),
                    )
                }
            },
        },
    }
}

fn answer_step(run: WorkflowRun, context: &RunContext, response: KoboldCppResponse) -> (next: (
    WorkflowRun,
    WorkflowAction,
))
    ensures
        (next.0@, next.1@) == step_answered(run@, context@, response@),
{
    if run.results.len() >= context.prompt.setup.len() {
        return fail(WorkflowError::OutOfTurn);
    }
    if response.results.len() == 0 {
        return fail(WorkflowError::NoResults);
    }
    let mut results = run.results;
    let mut lines = run.lines;
    let sent = build_setup_item_chatml_prompt(
        &context.character,
        &context.prompt,
        context.prompt.setup[results.len()].as_str(),
        results.as_slice(),
        &context.chat_history,
    );
    let completed = complete_chatml(&sent, response.results[0].text.as_str());
    match completed.last_assistant_message() {
        Some(answer) => {
            push_response_lines(&mut lines, answer);
        },
        None => {},
    }
    let ghost before = transcripts(results@);
    results.push(completed);
    proof {
        assert(transcripts(results@) =~= before.push(completed@));
    }
    if results.len() < context.prompt.setup.len() {
        let request = request_step(context, &results);
        (
            WorkflowRun { phase: WorkflowPhase::AwaitingStep, results, lines },
            WorkflowAction::Complete(request),
        )
    } else {
        conclude(context, lines)
    }
}

fn answer_override(context: &RunContext, response: KoboldCppResponse) -> (next: (
    WorkflowRun,
    WorkflowAction,
))
    ensures
        (next.0@, next.1@) == override_answered(context@, response@),
{
    if response.results.len() == 0 {
        fail(WorkflowError::NoResults)
    } else {
        conclude(context, plain_completion_lines(response.results[0].text.as_str()))
    }
}

fn audio_file(character: &str, id: u128, audio: Vec<u8>) -> (file: Option<AudioFile>)
    ensures
        match file {
            Some(file) => audio_file_for(character@, id, audio@) == Some(file@),
            None => audio_file_for(character@, id, audio@) is None,
        },
{
    let mut name = uuid_string(id);
    name.append(".mp3");
    match audio_directory(character) {
        Some(directory) => match audio_file_path(character, name.as_str()) {
            Some(path) => {
                Some(AudioFile { directory, path, content: audio })
            },
            None => None,
        },
        None => None,
    }
}

fn speak(run: WorkflowRun, context: &RunContext, fresh_id: u128, audio: Vec<u8>) -> (next: (
    WorkflowRun,
    WorkflowAction,
))
    requires
        encodable(audio@.len()),
    ensures
        (next.0@, next.1@) == spoken(run@, context@, fresh_id, audio@),
{
    let mut references: Vec<String> = Vec::new();
    if context.save_to_chat_history {
        let reference = uuid_string(fresh_id);
        references.push(reference);
        proof {
            assert(texts(references@) =~= seq![uuid_text(fresh_id)]);
        }
        let file = audio_file(context.character.name.as_str(), fresh_id, audio);
        finish(RunOutput { message: message_of_run(run.lines, references), audio_file: file })
    } else {
        let encoded = encode_base64(&audio);
        references.push(encoded);
        proof {
            assert(texts(references@) =~= seq![base64_standard(audio@)]);
        }
        finish(RunOutput { message: message_of_run(run.lines, references), audio_file: None })
    }
}

impl WorkflowRun {
    /// A run that has not begun.
    pub fn new() -> (run: Self)
        ensures
            run@ == fresh_run(),
    {
        let run = WorkflowRun {
            phase: WorkflowPhase::Ready,
            results: Vec::new(),
            lines: Vec::new(),
        };
        proof {
            assert(run@.results =~= Seq::<Seq<ChatMLMessageView>>::empty());
            assert(run@.lines =~= Seq::<Seq<char>>::empty());
        }
        run
    }
}

/// Whether the base64 text of the audio that an event brings has a length
/// that fits in `usize`.
pub open spec fn within_limits(event: WorkflowEventView) -> bool {
    match event {
        WorkflowEventView::Spoken(audio) => encodable(audio.len()),
        _ => true,
    }
}

/// Advances a run by one event. `fresh_id` is the identifier under which
/// the audio of a recorded run is kept; it is read only where audio
/// arrives.
pub fn advance(
    run: WorkflowRun,
    context: &RunContext,
    fresh_id: u128,
    event: WorkflowEvent,
) -> (next: (WorkflowRun, WorkflowAction))
    requires
        within_limits(event@),
    ensures
        (next.0@, next.1@) == transition(run@, context@, fresh_id, event@),
{
    match event {
        WorkflowEvent::Start => match run.phase {
            WorkflowPhase::Ready => start(context),
            _ => fail(WorkflowError::OutOfTurn),
        },
        WorkflowEvent::Completed(response) => match run.phase {
            WorkflowPhase::AwaitingStep => answer_step(run, context, response),
            WorkflowPhase::AwaitingOverride => answer_override(context, response),
            _ => fail(WorkflowError::OutOfTurn),
        },
        WorkflowEvent::CompletionFailed(reason) => match run.phase {
            WorkflowPhase::AwaitingStep => fail(WorkflowError::Completion(reason)),
            WorkflowPhase::AwaitingOverride => fail(WorkflowError::Completion(reason)),
            _ => fail(WorkflowError::OutOfTurn),
        },
        WorkflowEvent::Spoken(audio) => match run.phase {
            WorkflowPhase::AwaitingSpeech => speak(run, context, fresh_id, audio),
            _ => fail(WorkflowError::OutOfTurn),
        },
        WorkflowEvent::SpeechFailed(reason) => match run.phase {
            WorkflowPhase::AwaitingSpeech => fail(WorkflowError::Synthesis(reason)),
            _ => fail(WorkflowError::OutOfTurn),
        },
    }
}

/// Advances a run by one event, with a freshly drawn identifier for the
/// audio that may arrive.
pub fn step(run: WorkflowRun, context: &RunContext, event: WorkflowEvent) -> (next: (
    WorkflowRun,
    WorkflowAction,
))
    requires
        within_limits(event@),
    ensures
        exists|fresh_id: u128|
            is_random_uuid(fresh_id) && (next.0@, next.1@) == transition(
                run@,
                context@,
                fresh_id,
                event@,
            ),
{
    let fresh_id = generate_job_id();
    advance(run, context, fresh_id, event)
}

/// Whether a text is one line: it holds no `<br>`, no newline and no
/// carriage return.
pub open spec fn is_one_line(text: Seq<char>) -> bool {
    &&& !contains_text(text, "<br>"@)
    &&& forall|i: int| 0 <= i < text.len() ==> !is_line_break(#[trigger] text[i])
}

/// An answer that is, trimmed, one line without end marker adds exactly
/// that line, provided that the transcript that was sent is readable.
pub proof fn lemma_plain_answer_is_one_line(sent: Seq<ChatMLMessageView>, answer: Seq<char>)
    requires
        readable(sent),
        trim(answer).len() > 0,
        is_one_line(trim(answer)),
        !contains_text(trim(answer), end_marker()),
    ensures
        step_lines(completed_transcript(sent, answer)) == seq![trim(answer)],
{
    let line = trim(answer);
    lemma_answer_becomes_the_assistant_turn(sent, answer);
    let completed = sent.push(message_of(assistant_role(), line));
    lemma_replace_absent(line, "<br>"@, newline());
    lemma_trim_is_idempotent(answer, whitespace());
    lemma_one_line(line);
}

/// A run of one setup item whose answer is, trimmed, one line without end
/// marker succeeds with exactly that line, provided that the transcript of
/// the step is readable and the prompt wants no audio.
pub proof fn lemma_single_step_run(context: RunContextView, fresh_id: u128, answer: Seq<char>)
    requires
        job_fault(context.job) is None,
        context.job.prompt_override is None,
        context.prompt.setup.len() == 1,
        !context.prompt.create_audio,
        readable(
            step_prompt(
                context.character,
                context.prompt,
                context.prompt.setup[0],
                Seq::empty(),
                context.chat_history,
            ),
        ),
        trim(answer).len() > 0,
        is_one_line(trim(answer)),
        !contains_text(trim(answer), end_marker()),
    ensures
        ({
            let begun = transition(fresh_run(), context, fresh_id, WorkflowEventView::Start);
            let ended = transition(
                begun.0,
                context,
                fresh_id,
                WorkflowEventView::Completed(seq![answer]),
            );
            &&& begun.1 is Complete
            &&& ended == finished(
                RunOutputView {
                    message: message_with(seq![trim(answer)], Seq::empty()),
                    audio_file: None,
                },
            )
        }),
{
    let sent = step_prompt(
        context.character,
        context.prompt,
        context.prompt.setup[0],
        Seq::empty(),
        context.chat_history,
    );
    lemma_plain_answer_is_one_line(sent, answer);
}

/// A failed completion call ends the run: nothing that was gathered is
/// kept, and the failure is handed out.
pub proof fn lemma_completion_failure_aborts(
    run: WorkflowRunView,
    context: RunContextView,
    fresh_id: u128,
    reason: Seq<char>,
)
    requires
        run.phase == WorkflowPhase::AwaitingStep || run.phase == WorkflowPhase::AwaitingOverride,
    ensures
        transition(run, context, fresh_id, WorkflowEventView::CompletionFailed(reason)) == failed(
            WorkflowErrorView::Completion(reason),
        ),
{
}

/// A run that has failed stays failed and empty, whatever comes.
pub proof fn lemma_failed_run_stays_failed(
    run: WorkflowRunView,
    context: RunContextView,
    fresh_id: u128,
    event: WorkflowEventView,
)
    requires
        run.phase == WorkflowPhase::Failed,
    ensures
        transition(run, context, fresh_id, event) == failed(WorkflowErrorView::OutOfTurn),
{
}

/// A transition into failure leaves nothing in the run: neither a line nor
/// the result of a step.
pub proof fn lemma_failure_keeps_no_line(
    run: WorkflowRunView,
    context: RunContextView,
    fresh_id: u128,
    event: WorkflowEventView,
)
    ensures
        transition(run, context, fresh_id, event).1 is Fail ==> transition(
            run,
            context,
            fresh_id,
            event,
        ).0 == (WorkflowRunView {
            phase: WorkflowPhase::Failed,
            results: Seq::empty(),
            lines: Seq::empty(),
        }),
{
}


/// A job that names no character or no prompt fails at the start, before
/// anything is asked of a service.
pub proof fn lemma_faulty_job_asks_nothing(context: RunContextView, fresh_id: u128)
    requires
        job_fault(context.job) is Some,
    ensures
        transition(fresh_run(), context, fresh_id, WorkflowEventView::Start) == failed(
            job_fault(context.job)->0,
        ),
{
}

} // verus!
