//! What is sent to the completion and speech services, and what is made of
//! their answers. The calls themselves are not made here.

use vstd::prelude::*;
use vstd::string::StringExecFns;

use crate::chatml::{
    assistant_role, end_marker, generation_text, lemma_generation_round_trip, message_of, parse,
    readable, start_marker, ChatMLMessageView, ChatMLPrompt,
};
use crate::models::{
    KoboldCppGenerate, KoboldCppGenerateView, TtsRequest, TtsRequestView, Voice, VoiceView,
};
use crate::text::{
    chars_of, contains_text, find, find_from, lemma_find_from_some, string_of_range, texts, trim,
    trim_bounds,
};

verus! {

/// The bit pattern of 1.0.
pub const ONE: u64 = 0x3FF0_0000_0000_0000;

/// The bit pattern of 0.9.
pub const NINE_TENTHS: u64 = 0x3FEC_CCCC_CCCC_CCCD;

/// The bit pattern of 0.7.
pub const SEVEN_TENTHS: u64 = 0x3FE6_6666_6666_6666;

/// The bit pattern of 0.0.
pub const ZERO: u64 = 0;

/// The longest answer asked for when a transcript is sent.
pub const TRANSCRIPT_MAX_LENGTH: u32 = 1000;

/// The longest answer asked for when a plain prompt is sent.
pub const PLAIN_MAX_LENGTH: u32 = 200;

/// The request that asks for at most `max_length` tokens behind `prompt`.
pub open spec fn completion_request(prompt: Seq<char>, max_length: u32) -> KoboldCppGenerateView {
    KoboldCppGenerateView {
        max_context_length: 8192,
        max_length,
        prompt,
        quiet: false,
        rep_pen: ONE,
        rep_pen_range: 1024,
        rep_pen_slope: SEVEN_TENTHS,
        temperature: NINE_TENTHS,
        tfs: ONE,
        top_a: ZERO,
        top_k: 100,
        top_p: NINE_TENTHS,
        typical: ONE,
    }
}

fn request_for(prompt: String, max_length: u32) -> (request: KoboldCppGenerate)
    ensures
        request@ == completion_request(prompt@, max_length),
{
    KoboldCppGenerate {
        max_context_length: 8192,
        max_length,
        prompt,
        quiet: false,
        rep_pen: ONE,
        rep_pen_range: 1024,
        rep_pen_slope: SEVEN_TENTHS,
        temperature: NINE_TENTHS,
        tfs: ONE,
        top_a: ZERO,
        top_k: 100,
        top_p: NINE_TENTHS,
        typical: ONE,
    }
}

/// The request that sends a transcript, opened for the assistant's answer.
pub fn chatml_request(chatml_prompt: &ChatMLPrompt) -> (request: KoboldCppGenerate)
    ensures
        request@ == completion_request(generation_text(chatml_prompt@), TRANSCRIPT_MAX_LENGTH),
{
    request_for(chatml_prompt.to_chatml_for_generation(), TRANSCRIPT_MAX_LENGTH)
}

/// The request that sends a plain prompt as it is.
pub fn plain_request(prompt: &str) -> (request: KoboldCppGenerate)
    ensures
        request@ == completion_request(prompt@, PLAIN_MAX_LENGTH),
{
    request_for(prompt.to_string(), PLAIN_MAX_LENGTH)
}

/// The request that has `text` spoken in `voice`.
pub open spec fn speech_request(text: Seq<char>, voice: VoiceView) -> TtsRequestView {
    TtsRequestView {
        text,
        temperature: voice.temperature,
        exaggeration: voice.exaggeration,
        cfg_weight: voice.cfg_weight,
        speed_factor: voice.speed_factor,
        seed: 42,
        language: "en"@,
        voice_mode: "clone"@,
        split_text: true,
        chunk_size: 240,
        output_format: "mp3"@,
        reference_audio_filename: voice.voice_name,
    }
}

/// The request that has `text` spoken in `voice`.
pub fn tts_request(text: &str, voice: &Voice) -> (request: TtsRequest)
    ensures
        request@ == speech_request(text@, voice@),
{
    TtsRequest {
        text: text.to_string(),
        temperature: voice.temperature,
        exaggeration: voice.exaggeration,
        cfg_weight: voice.cfg_weight,
        speed_factor: voice.speed_factor,
        seed: 42,
        language: "en".to_string(),
        voice_mode: "clone".to_string(),
        split_text: true,
        chunk_size: 240,
        output_format: "mp3".to_string(),
        reference_audio_filename: voice.voice_name.clone(),
    }
}

/// The texts in `text[pos..]` that stand between a `start` and the next
/// `end` behind it, in order. Behind a `start` that no `end` follows there
/// is nothing more to find.
pub open spec fn marked_from(text: Seq<char>, start: Seq<char>, end: Seq<char>, pos: int) -> Seq<
    Seq<char>,
>
    decreases text.len() - pos,
{
    if start.len() == 0 {
        Seq::empty()
    } else {
        match find_from(text, start, pos) {
            None => Seq::empty(),
            Some(at) => {
                let from = at + start.len();
                match find_from(text, end, from) {
                    None => Seq::empty(),
                    Some(to) => {
                        proof {
                            lemma_find_from_some(text, start, pos);
                            lemma_find_from_some(text, end, from);
                        }
                        seq![text.subrange(from, to)] + marked_from(
                            text,
                            start,
                            end,
                            to + end.len(),
                        )
                    },
                }
            },
        }
    }
}

/// The texts in `text` that stand between a `start` and the next `end`.
pub open spec fn marked(text: Seq<char>, start: Seq<char>, end: Seq<char>) -> Seq<Seq<char>> {
    marked_from(text, start, end, 0)
}

/// Extracts every text that stands between `start_marker` and the next
/// `end_marker` behind it.
pub fn extract_marked_content(text: &str, start_marker: &str, end_marker: &str) -> (results: Vec<
    String,
>)
    requires
        start_marker@.len() > 0,
    ensures
        texts(results@) == marked(text@, start_marker@, end_marker@),
{
    let chars = chars_of(text);
    let start = chars_of(start_marker);
    let end = chars_of(end_marker);
    let mut results: Vec<String> = Vec::new();
    let mut pos: usize = 0;
    loop
        invariant
            pos <= chars.len(),
            chars@ == text@,
            start@ == start_marker@,
            end@ == end_marker@,
            start@.len() > 0,
            marked(chars@, start@, end@) == texts(results@) + marked_from(
                chars@,
                start@,
                end@,
                pos as int,
            ),
        decreases chars.len() - pos,
    {
        let from = match find(&chars, &start, pos) {
            Some(at) => at + start.len(),
            None => {
                return results;
            },
        };
        let to = match find(&chars, &end, from) {
            Some(to) => to,
            None => {
                return results;
            },
        };
        let piece = string_of_range(&chars, from, to);
        results.push(piece);
        pos = to + end.len();
    }
}

/// What an answer to a plain prompt says: the texts between the ChatML
/// markers where there are any, else the whole answer.
pub open spec fn marked_or_raw(answer: Seq<char>) -> Seq<Seq<char>> {
    let pieces = marked(answer, start_marker(), end_marker());
    if pieces.len() > 0 {
        pieces
    } else {
        seq![answer]
    }
}

/// Reads the answer to a plain prompt.
pub fn plain_completion_lines(answer: &str) -> (lines: Vec<String>)
    ensures
        texts(lines@) == marked_or_raw(answer@),
{
    proof {
        reveal_strlit("<|im_start|>");
    }
    let pieces = extract_marked_content(answer, "<|im_start|>", "<|im_end|>");
    if pieces.len() > 0 {
        pieces
    } else {
        let mut lines: Vec<String> = Vec::new();
        lines.push(answer.to_string());
        lines
    }
}

/// The transcript that stands after the service answered `answer` to the
/// transcript `sent`: what the sent text, continued by the trimmed answer,
/// parses to; where that fails, `sent` with the whole answer as one more
/// assistant turn.
pub open spec fn completed_transcript(sent: Seq<ChatMLMessageView>, answer: Seq<char>) -> Seq<
    ChatMLMessageView,
> {
    match parse(generation_text(sent) + trim(answer)) {
        Some(turns) => turns,
        None => sent.push(message_of(assistant_role(), answer)),
    }
}

/// Reads the answer to the transcript `sent`.
pub fn complete_chatml(sent: &ChatMLPrompt, answer: &str) -> (completed: ChatMLPrompt)
    ensures
        completed@ == completed_transcript(sent@, answer@),
{
    let mut whole = sent.to_chatml_for_generation();
    let chars = chars_of(answer);
    proof {
        assert(chars@.subrange(0, chars.len() as int) =~= chars@);
    }
    let bounds = trim_bounds(&chars, 0, chars.len());
    let trimmed = string_of_range(&chars, bounds.0, bounds.1);
    whole.append(trimmed.as_str());
    match ChatMLPrompt::from_chatml(whole.as_str()) {
        Ok(parsed) => parsed,
        Err(_) => {
            let mut fallback = sent.duplicate();
            fallback.add_assistant(answer);
            fallback
        },
    }
}

/// An answer without end marker behind a readable transcript is never
/// unreadable: it becomes the assistant's turn, without the whitespace at
/// its ends.
pub proof fn lemma_answer_becomes_the_assistant_turn(
    sent: Seq<ChatMLMessageView>,
    answer: Seq<char>,
)
    requires
        readable(sent),
        !contains_text(trim(answer), end_marker()),
    ensures
        completed_transcript(sent, answer) == sent.push(
            message_of(assistant_role(), trim(answer)),
        ),
{
    lemma_generation_round_trip(sent, trim(answer));
}

} // verus!
