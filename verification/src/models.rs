//! The records that the prompt assembly, the workflow and the scheduler
//! read, each with the mathematical value that contracts speak of.

use vstd::prelude::*;

use crate::text::texts;

verus! {

/// The text that an optional string holds.
pub open spec fn optional_text(item: Option<String>) -> Option<Seq<char>> {
    match item {
        Some(s) => Some(s@),
        None => None,
    }
}

/// Parameters of the speech synthesis for one character.
///
/// The four weights are IEEE 754 binary64 values, held as their bit
/// patterns.
#[derive(Debug, Clone)]
pub struct Voice {
    pub temperature: u64,
    pub exaggeration: u64,
    pub cfg_weight: u64,
    pub speed_factor: u64,
    pub voice_name: String,
}

pub struct VoiceView {
    pub temperature: u64,
    pub exaggeration: u64,
    pub cfg_weight: u64,
    pub speed_factor: u64,
    pub voice_name: Seq<char>,
}

impl View for Voice {
    type V = VoiceView;

    open spec fn view(&self) -> VoiceView {
        VoiceView {
            temperature: self.temperature,
            exaggeration: self.exaggeration,
            cfg_weight: self.cfg_weight,
            speed_factor: self.speed_factor,
            voice_name: self.voice_name@,
        }
    }
}

/// The bit pattern of 0.8.
pub const DEFAULT_TEMPERATURE: u64 = 0x3FE9_9999_9999_999A;

/// The bit pattern of 0.4.
pub const DEFAULT_EXAGGERATION: u64 = 0x3FD9_9999_9999_999A;

/// The bit pattern of 0.5.
pub const DEFAULT_CFG_WEIGHT: u64 = 0x3FE0_0000_0000_0000;

/// The bit pattern of 1.0.
pub const DEFAULT_SPEED_FACTOR: u64 = 0x3FF0_0000_0000_0000;

/// The voice of a character that names none.
pub open spec fn default_voice() -> VoiceView {
    VoiceView {
        temperature: DEFAULT_TEMPERATURE,
        exaggeration: DEFAULT_EXAGGERATION,
        cfg_weight: DEFAULT_CFG_WEIGHT,
        speed_factor: DEFAULT_SPEED_FACTOR,
        voice_name: "default.wav"@,
    }
}

impl Default for Voice {
    fn default() -> (voice: Self)
        ensures
            voice@ == default_voice(),
    {
        Voice {
            temperature: DEFAULT_TEMPERATURE,
            exaggeration: DEFAULT_EXAGGERATION,
            cfg_weight: DEFAULT_CFG_WEIGHT,
            speed_factor: DEFAULT_SPEED_FACTOR,
            voice_name: "default.wav".to_string(),
        }
    }
}

impl Voice {
    /// A copy of the voice.
    pub fn duplicate(&self) -> (voice: Self)
        ensures
            voice@ == self@,
    {
        Voice {
            temperature: self.temperature,
            exaggeration: self.exaggeration,
            cfg_weight: self.cfg_weight,
            speed_factor: self.speed_factor,
            voice_name: self.voice_name.clone(),
        }
    }
}

/// A character of the roster.
#[derive(Debug, Clone)]
pub struct Character {
    pub name: String,
    pub description: String,
    pub personality: String,
    pub background: String,
    pub voice: Option<Voice>,
}

pub struct CharacterView {
    pub name: Seq<char>,
    pub description: Seq<char>,
    pub personality: Seq<char>,
    pub background: Seq<char>,
    pub voice: Option<VoiceView>,
}

impl View for Character {
    type V = CharacterView;

    open spec fn view(&self) -> CharacterView {
        CharacterView {
            name: self.name@,
            description: self.description@,
            personality: self.personality@,
            background: self.background@,
            voice: match self.voice {
                Some(v) => Some(v@),
                None => None,
            },
        }
    }
}

/// A scripted conversation: each setup item is answered by one completion
/// call.
#[derive(Debug, Clone)]
pub struct Prompt {
    pub title: String,
    pub description: String,
    pub context: String,
    pub setup: Vec<String>,
    pub create_audio: bool,
    pub create_images: bool,
}

pub struct PromptView {
    pub title: Seq<char>,
    pub description: Seq<char>,
    pub context: Seq<char>,
    pub setup: Seq<Seq<char>>,
    pub create_audio: bool,
    pub create_images: bool,
}

impl View for Prompt {
    type V = PromptView;

    open spec fn view(&self) -> PromptView {
        PromptView {
            title: self.title@,
            description: self.description@,
            context: self.context@,
            setup: texts(self.setup@),
            create_audio: self.create_audio,
            create_images: self.create_images,
        }
    }
}

/// What one workflow run produced.
#[derive(Debug, Clone)]
pub struct Message {
    pub text: Vec<String>,
    pub audio: Vec<String>,
    pub images: Vec<String>,
    pub read: bool,
}

pub struct MessageView {
    pub text: Seq<Seq<char>>,
    pub audio: Seq<Seq<char>>,
    pub images: Seq<Seq<char>>,
    pub read: bool,
}

impl View for Message {
    type V = MessageView;

    open spec fn view(&self) -> MessageView {
        MessageView {
            text: texts(self.text@),
            audio: texts(self.audio@),
            images: texts(self.images@),
            read: self.read,
        }
    }
}

/// The messages that a character has produced so far.
#[derive(Debug, Clone)]
pub struct Chat {
    pub character: String,
    pub messages: Vec<Message>,
}

pub struct ChatView {
    pub character: Seq<char>,
    pub messages: Seq<MessageView>,
}

impl View for Chat {
    type V = ChatView;

    open spec fn view(&self) -> ChatView {
        ChatView {
            character: self.character@,
            messages: self.messages@.map_values(|m: Message| m@),
        }
    }
}

/// A recurring task: one of its characters answers one of its prompts at
/// each time that its cadence names.
///
/// The identifier is the 128-bit value of a UUID.
#[derive(Debug, Clone)]
pub struct Job {
    pub id: Option<u128>,
    pub characters: Vec<String>,
    pub prompts: Vec<String>,
    pub cadence: String,
    pub prompt_override: Option<String>,
}

pub struct JobView {
    pub id: Option<u128>,
    pub characters: Seq<Seq<char>>,
    pub prompts: Seq<Seq<char>>,
    pub cadence: Seq<char>,
    pub prompt_override: Option<Seq<char>>,
}

impl View for Job {
    type V = JobView;

    open spec fn view(&self) -> JobView {
        JobView {
            id: self.id,
            characters: texts(self.characters@),
            prompts: texts(self.prompts@),
            cadence: self.cadence@,
            prompt_override: optional_text(self.prompt_override),
        }
    }
}

/// A request to the completion service.
///
/// The sampling weights are IEEE 754 binary64 values, held as their bit
/// patterns.
#[derive(Debug, Clone)]
pub struct KoboldCppGenerate {
    pub max_context_length: u32,
    pub max_length: u32,
    pub prompt: String,
    pub quiet: bool,
    pub rep_pen: u64,
    pub rep_pen_range: u32,
    pub rep_pen_slope: u64,
    pub temperature: u64,
    pub tfs: u64,
    pub top_a: u64,
    pub top_k: u32,
    pub top_p: u64,
    pub typical: u64,
}

pub struct KoboldCppGenerateView {
    pub max_context_length: u32,
    pub max_length: u32,
    pub prompt: Seq<char>,
    pub quiet: bool,
    pub rep_pen: u64,
    pub rep_pen_range: u32,
    pub rep_pen_slope: u64,
    pub temperature: u64,
    pub tfs: u64,
    pub top_a: u64,
    pub top_k: u32,
    pub top_p: u64,
    pub typical: u64,
}

impl View for KoboldCppGenerate {
    type V = KoboldCppGenerateView;

    open spec fn view(&self) -> KoboldCppGenerateView {
        KoboldCppGenerateView {
            max_context_length: self.max_context_length,
            max_length: self.max_length,
            prompt: self.prompt@,
            quiet: self.quiet,
            rep_pen: self.rep_pen,
            rep_pen_range: self.rep_pen_range,
            rep_pen_slope: self.rep_pen_slope,
            temperature: self.temperature,
            tfs: self.tfs,
            top_a: self.top_a,
            top_k: self.top_k,
            top_p: self.top_p,
            typical: self.typical,
        }
    }
}

/// One candidate of a completion.
#[derive(Debug, Clone)]
pub struct KoboldCppResult {
    pub text: String,
}

/// The answer of the completion service: its candidates, the best first.
#[derive(Debug, Clone)]
pub struct KoboldCppResponse {
    pub results: Vec<KoboldCppResult>,
}

impl View for KoboldCppResponse {
    type V = Seq<Seq<char>>;

    /// The texts of the candidates.
    open spec fn view(&self) -> Seq<Seq<char>> {
        self.results@.map_values(|result: KoboldCppResult| result.text@)
    }
}

/// A request to the speech service.
#[derive(Debug, Clone)]
pub struct TtsRequest {
    pub text: String,
    pub temperature: u64,
    pub exaggeration: u64,
    pub cfg_weight: u64,
    pub speed_factor: u64,
    pub seed: i32,
    pub language: String,
    pub voice_mode: String,
    pub split_text: bool,
    pub chunk_size: i32,
    pub output_format: String,
    pub reference_audio_filename: String,
}

pub struct TtsRequestView {
    pub text: Seq<char>,
    pub temperature: u64,
    pub exaggeration: u64,
    pub cfg_weight: u64,
    pub speed_factor: u64,
    pub seed: i32,
    pub language: Seq<char>,
    pub voice_mode: Seq<char>,
    pub split_text: bool,
    pub chunk_size: i32,
    pub output_format: Seq<char>,
    pub reference_audio_filename: Seq<char>,
}

impl View for TtsRequest {
    type V = TtsRequestView;

    open spec fn view(&self) -> TtsRequestView {
        TtsRequestView {
            text: self.text@,
            temperature: self.temperature,
            exaggeration: self.exaggeration,
            cfg_weight: self.cfg_weight,
            speed_factor: self.speed_factor,
            seed: self.seed,
            language: self.language@,
            voice_mode: self.voice_mode@,
            split_text: self.split_text,
            chunk_size: self.chunk_size,
            output_format: self.output_format@,
            reference_audio_filename: self.reference_audio_filename@,
        }
    }
}

/// A copy of a vector of strings.
pub fn duplicate_texts(items: &Vec<String>) -> (copy: Vec<String>)
    ensures
        texts(copy@) == texts(items@),
{
    let mut copy: Vec<String> = Vec::new();
    let mut i: usize = 0;
    while i < items.len()
        invariant
            i <= items.len(),
            texts(copy@) == texts(items@.take(i as int)),
        decreases items.len() - i,
    {
        let ghost before = copy@;
        copy.push(items[i].clone());
        proof {
            assert(texts(copy@) =~= texts(before).push(items@[i as int]@));
        }
        i += 1;
    }
    copy
}

impl Job {
    /// A copy of the job.
    pub fn duplicate(&self) -> (job: Self)
        ensures
            job@ == self@,
    {
        Job {
            id: self.id,
            characters: duplicate_texts(&self.characters),
            prompts: duplicate_texts(&self.prompts),
            cadence: self.cadence.clone(),
            prompt_override: match &self.prompt_override {
                Some(text) => Some(text.clone()),
                None => None,
            },
        }
    }
}

pub fn default_true() -> (b: bool)
    ensures
        b,
{
    true
}

pub fn default_false() -> (b: bool)
    ensures
        !b,
{
    false
}

} // verus!
