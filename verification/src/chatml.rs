//! The ChatML transcript format: each turn is written as
//! `<|im_start|>{role}\n{content}<|im_end|>`, and a transcript is its turns
//! joined by newlines.

use vstd::prelude::*;
use vstd::string::StringExecFns;

use crate::text::{
    chars_of, contains_text, find, find_from, is_whitespace, lemma_find_from_is,
    lemma_find_from_none, lemma_find_from_shift, lemma_find_from_some, lemma_skip_whitespace,
    lemma_skip_whitespace_shift, occurs_at, same_text, skip_whitespace, skip_whitespace_from,
    string_of_range,
};

verus! {

/// One turn of a transcript.
#[derive(Debug, Clone, PartialEq)]
pub struct ChatMLMessage {
    pub role: String,
    pub content: String,
}

/// What a `ChatMLMessage` stands for: its role and content as text.
pub struct ChatMLMessageView {
    pub role: Seq<char>,
    pub content: Seq<char>,
}

impl View for ChatMLMessage {
    type V = ChatMLMessageView;

    open spec fn view(&self) -> ChatMLMessageView {
        ChatMLMessageView { role: self.role@, content: self.content@ }
    }
}

/// An ordered transcript.
#[derive(Debug, Clone, PartialEq)]
pub struct ChatMLPrompt {
    pub messages: Vec<ChatMLMessage>,
}

impl View for ChatMLPrompt {
    type V = Seq<ChatMLMessageView>;

    open spec fn view(&self) -> Seq<ChatMLMessageView> {
        self.messages@.map_values(|m: ChatMLMessage| m@)
    }
}

/// Why a text could not be read as a transcript.
#[derive(Debug)]
pub enum ChatMLParseError {
    InvalidFormat(String),
    MissingMarkers,
}

pub open spec fn start_marker() -> Seq<char> {
    "<|im_start|>"@
}

pub open spec fn end_marker() -> Seq<char> {
    "<|im_end|>"@
}

pub open spec fn newline() -> Seq<char> {
    seq!['\n']
}

pub open spec fn system_role() -> Seq<char> {
    "system"@
}

pub open spec fn user_role() -> Seq<char> {
    "user"@
}

pub open spec fn assistant_role() -> Seq<char> {
    "assistant"@
}

/// The opening of a turn that the completion service is to continue.
pub open spec fn generation_suffix() -> Seq<char> {
    "<|im_start|>assistant\n"@
}

pub open spec fn message_of(role: Seq<char>, content: Seq<char>) -> ChatMLMessageView {
    ChatMLMessageView { role, content }
}

/// The written form of one turn.
pub open spec fn message_text(m: ChatMLMessageView) -> Seq<char> {
    start_marker() + m.role + newline() + m.content + end_marker()
}

/// The written form of a transcript: its turns joined by newlines.
pub open spec fn prompt_text(ms: Seq<ChatMLMessageView>) -> Seq<char>
    decreases ms.len(),
{
    if ms.len() == 0 {
        Seq::empty()
    } else if ms.len() == 1 {
        message_text(ms[0])
    } else {
        prompt_text(ms.drop_last()) + newline() + message_text(ms.last())
    }
}

/// The written form of a transcript followed by the opening of an assistant
/// turn.
pub open spec fn generation_text(ms: Seq<ChatMLMessageView>) -> Seq<char> {
    if ms.len() == 0 {
        generation_suffix()
    } else {
        prompt_text(ms) + newline() + generation_suffix()
    }
}

/// The content of the last turn of `ms` whose role is `role`.
pub open spec fn last_with_role(ms: Seq<ChatMLMessageView>, role: Seq<char>) -> Option<Seq<char>>
    decreases ms.len(),
{
    if ms.len() == 0 {
        None
    } else if ms.last().role == role {
        Some(ms.last().content)
    } else {
        last_with_role(ms.drop_last(), role)
    }
}

/// `ms` followed by what the rest of a text parsed to, where it parsed.
pub open spec fn prefixed(
    ms: Seq<ChatMLMessageView>,
    rest: Option<Seq<ChatMLMessageView>>,
) -> Option<Seq<ChatMLMessageView>> {
    match rest {
        Some(more) => Some(ms + more),
        None => None,
    }
}

/// The turns written in `text` from offset `pos` on, or `None` where a start
/// marker is followed by no newline.
///
/// Whitespace before a turn is skipped. Without a further start marker the
/// reading ends. The role runs from the start marker to the next newline,
/// the content from there to the next end marker; without an end marker the
/// remaining text is the content of a last turn.
pub open spec fn parse_from(text: Seq<char>, pos: int) -> Option<Seq<ChatMLMessageView>>
    decreases text.len() - pos,
{
    if pos < 0 || pos > text.len() {
        Some(Seq::empty())
    } else {
        let at = skip_whitespace(text, pos);
        match find_from(text, start_marker(), at) {
            None => Some(Seq::empty()),
            Some(start) => {
                let role_at = start + start_marker().len();
                match find_from(text, newline(), role_at) {
                    None => None,
                    Some(line_end) => {
                        let role = text.subrange(role_at, line_end);
                        let content_at = line_end + 1;
                        match find_from(text, end_marker(), content_at) {
                            None => {
                                let content = text.subrange(content_at, text.len() as int);
                                Some(seq![message_of(role, content)])
                            },
                            Some(end) => {
                                proof {
                                    lemma_skip_whitespace(text, pos);
                                    lemma_find_from_some(text, start_marker(), at);
                                    lemma_find_from_some(text, newline(), role_at);
                                    lemma_find_from_some(text, end_marker(), content_at);
                                }
                                prefixed(
                                    seq![message_of(role, text.subrange(content_at, end))],
                                    parse_from(text, end + end_marker().len()),
                                )
                            },
                        }
                    },
                }
            },
        }
    }
}

/// The transcript that `text` holds.
pub open spec fn parse(text: Seq<char>) -> Option<Seq<ChatMLMessageView>> {
    parse_from(text, 0)
}

/// What is said of a start marker that no newline follows.
pub open spec fn missing_newline_detail() -> Seq<char> {
    "No newline found after role in ChatML message"@
}

impl ChatMLParseError {
    /// The error in words.
    pub fn message(&self) -> (text: String)
        ensures
            text@ == match self {
                ChatMLParseError::InvalidFormat(detail) => "Invalid ChatML format: "@ + detail@,
                ChatMLParseError::MissingMarkers => "Missing required markers"@,
            },
    {
        match self {
            ChatMLParseError::InvalidFormat(detail) => {
                let mut text = "Invalid ChatML format: ".to_string();
                text.append(detail.as_str());
                text
            },
            ChatMLParseError::MissingMarkers => "Missing required markers".to_string(),
        }
    }
}

impl ChatMLMessage {
    pub fn new(role: &str, content: &str) -> (m: Self)
        ensures
            m@ == message_of(role@, content@),
    {
        Self { role: role.to_string(), content: content.to_string() }
    }

    pub fn system(content: &str) -> (m: Self)
        ensures
            m@ == message_of(system_role(), content@),
    {
        Self::new("system", content)
    }

    pub fn user(content: &str) -> (m: Self)
        ensures
            m@ == message_of(user_role(), content@),
    {
        Self::new("user", content)
    }

    pub fn assistant(content: &str) -> (m: Self)
        ensures
            m@ == message_of(assistant_role(), content@),
    {
        Self::new("assistant", content)
    }

    /// Writes the turn out.
    pub fn to_chatml(&self) -> (text: String)
        ensures
            text@ == message_text(self@),
    {
        let mut text = "<|im_start|>".to_string();
        text.append(self.role.as_str());
        text.push('\n');
        text.append(self.content.as_str());
        text.append("<|im_end|>");
        text
    }

    /// A copy of the turn.
    pub fn duplicate(&self) -> (m: Self)
        ensures
            m@ == self@,
    {
        Self { role: self.role.clone(), content: self.content.clone() }
    }
}

impl Default for ChatMLPrompt {
    fn default() -> (p: Self)
        ensures
            p@ == Seq::<ChatMLMessageView>::empty(),
    {
        Self::new()
    }
}

impl ChatMLPrompt {
    /// A copy of the transcript.
    pub fn duplicate(&self) -> (p: Self)
        ensures
            p@ == self@,
    {
        let mut messages: Vec<ChatMLMessage> = Vec::new();
        let mut i: usize = 0;
        while i < self.messages.len()
            invariant
                i <= self.messages.len(),
                messages@.map_values(|m: ChatMLMessage| m@) == self@.take(i as int),
            decreases self.messages.len() - i,
        {
            let ghost before = messages@.map_values(|m: ChatMLMessage| m@);
            let copy = self.messages[i].duplicate();
            messages.push(copy);
            proof {
                assert(messages@.map_values(|m: ChatMLMessage| m@) =~= before.push(copy@));
            }
            i += 1;
        }
        Self { messages }
    }

    pub fn new() -> (p: Self)
        ensures
            p@ == Seq::<ChatMLMessageView>::empty(),
    {
        let p = Self { messages: Vec::new() };
        p
    }

    pub fn with_messages(messages: Vec<ChatMLMessage>) -> (p: Self)
        ensures
            p.messages == messages,
    {
        Self { messages }
    }

    pub fn add_message(&mut self, message: ChatMLMessage) -> (ret: &mut Self)
        ensures
            ret@ == old(self)@.push(message@),
            *final(self) == *final(ret),
    {
        self.messages.push(message);
        self
    }

    pub fn add_system(&mut self, content: &str) -> (ret: &mut Self)
        ensures
            ret@ == old(self)@.push(message_of(system_role(), content@)),
            *final(self) == *final(ret),
    {
        self.add_message(ChatMLMessage::system(content))
    }

    pub fn add_user(&mut self, content: &str) -> (ret: &mut Self)
        ensures
            ret@ == old(self)@.push(message_of(user_role(), content@)),
            *final(self) == *final(ret),
    {
        self.add_message(ChatMLMessage::user(content))
    }

    pub fn add_assistant(&mut self, content: &str) -> (ret: &mut Self)
        ensures
            ret@ == old(self)@.push(message_of(assistant_role(), content@)),
            *final(self) == *final(ret),
    {
        self.add_message(ChatMLMessage::assistant(content))
    }
}

impl ChatMLPrompt {
    /// Writes the transcript out.
    pub fn to_chatml(&self) -> (text: String)
        ensures
            text@ == prompt_text(self@),
    {
        let mut text = String::new();
        let mut i: usize = 0;
        while i < self.messages.len()
            invariant
                i <= self.messages.len(),
                text@ == prompt_text(self@.take(i as int)),
            decreases self.messages.len() - i,
        {
            let turn = self.messages[i].to_chatml();
            proof {
                let before = self@.take(i as int);
                let after = self@.take(i + 1);
                assert(after.drop_last() =~= before);
            }
            if i > 0 {
                text.push('\n');
            }
            text.append(turn.as_str());
            i += 1;
        }
        proof {
            assert(self@.take(self.messages.len() as int) =~= self@);
        }
        text
    }

    /// Writes the transcript out, followed by the opening of an assistant
    /// turn for the completion service to continue.
    pub fn to_chatml_for_generation(&self) -> (text: String)
        ensures
            text@ == generation_text(self@),
    {
        let mut text = self.to_chatml();
        if self.messages.len() > 0 {
            text.push('\n');
        }
        text.append("<|im_start|>assistant\n");
        text
    }

    /// The content of the most recent assistant turn.
    pub fn last_assistant_message(&self) -> (found: Option<&str>)
        ensures
            match found {
                Some(content) => last_with_role(self@, assistant_role()) == Some(content@),
                None => last_with_role(self@, assistant_role()) is None,
            },
    {
        let mut i: usize = self.messages.len();
        proof {
            assert(self@.take(i as int) =~= self@);
        }
        while i > 0
            invariant
                i <= self.messages.len(),
                last_with_role(self@, assistant_role()) == last_with_role(
                    self@.take(i as int),
                    assistant_role(),
                ),
            decreases i,
        {
            let m = &self.messages[i - 1];
            proof {
                let upto = self@.take(i as int);
                assert(upto.drop_last() =~= self@.take(i - 1));
            }
            if same_text(m.role.as_str(), "assistant") {
                return Some(m.content.as_str());
            }
            i -= 1;
        }
        None
    }

    /// The turns whose role is exactly `role`, in order.
    pub fn messages_with_role(&self, role: &str) -> (found: Vec<&ChatMLMessage>)
        ensures
            found@.map_values(|m: &ChatMLMessage| m@) == self@.filter(
                |m: ChatMLMessageView| m.role == role@,
            ),
    {
        let mut found: Vec<&ChatMLMessage> = Vec::new();
        let mut i: usize = 0;
        let ghost wanted = |m: ChatMLMessageView| m.role == role@;
        proof {
            reveal(Seq::filter);
        }
        while i < self.messages.len()
            invariant
                i <= self.messages.len(),
                wanted == |m: ChatMLMessageView| m.role == role@,
                found@.map_values(|m: &ChatMLMessage| m@) == self@.take(i as int).filter(wanted),
            decreases self.messages.len() - i,
        {
            let m = &self.messages[i];
            proof {
                reveal(Seq::filter);
                let upto = self@.take(i + 1);
                assert(upto.drop_last() =~= self@.take(i as int));
            }
            if same_text(m.role.as_str(), role) {
                found.push(m);
            }
            i += 1;
        }
        proof {
            assert(self@.take(self.messages.len() as int) =~= self@);
        }
        found
    }
}

impl ChatMLPrompt {
    /// Reads a transcript.
    ///
    /// Fails exactly when some start marker that the reading reaches is
    /// followed by no newline. A last turn without an end marker is read to
    /// the end of the text.
    pub fn from_chatml(input: &str) -> (parsed: Result<Self, ChatMLParseError>)
        ensures
            match parsed {
                Ok(prompt) => parse(input@) == Some(prompt@),
                Err(ChatMLParseError::InvalidFormat(detail)) => parse(input@) is None && detail@
                    == missing_newline_detail(),
                Err(ChatMLParseError::MissingMarkers) => false,
            },
    {
        let text = chars_of(input);
        let start = chars_of("<|im_start|>");
        let end = chars_of("<|im_end|>");
        let line_break: Vec<char> = vec!['\n'];
        let mut prompt = ChatMLPrompt::new();
        let mut pos: usize = 0;
        loop
            invariant
                pos <= text.len(),
                text@ == input@,
                start@ == start_marker(),
                end@ == end_marker(),
                line_break@ == newline(),
                parse(input@) == prefixed(prompt@, parse_from(input@, pos as int)),
            decreases text.len() - pos,
        {
            let at = skip_whitespace_from(&text, pos);
            match find(&text, &start, at) {
                None => {
                    return Ok(prompt);
                },
                Some(found_start) => {
                    let role_at = found_start + start.len();
                    match find(&text, &line_break, role_at) {
                        None => {
                            return Err(
                                ChatMLParseError::InvalidFormat(
                                    "No newline found after role in ChatML message".to_string(),
                                ),
                            );
                        },
                        Some(line_end) => {
                            let role = string_of_range(&text, role_at, line_end);
                            let content_at = line_end + 1;
                            match find(&text, &end, content_at) {
                                None => {
                                    let content = string_of_range(&text, content_at, text.len());
                                    prompt.add_message(ChatMLMessage { role, content });
                                    return Ok(prompt);
                                },
                                Some(found_end) => {
                                    let content = string_of_range(&text, content_at, found_end);
                                    prompt.add_message(ChatMLMessage { role, content });
                                    let next = found_end + end.len();
                                    pos = next;
                                },
                            }
                        },
                    }
                },
            }
        }
    }
}

/// Behind a prefix `a`, a text parses as it does alone.
pub proof fn lemma_parse_from_shift(a: Seq<char>, b: Seq<char>, pos: int)
    requires
        0 <= pos <= b.len(),
    ensures
        parse_from(a + b, a.len() + pos) == parse_from(b, pos),
    decreases b.len() - pos,
{
    let whole = a + b;
    let at = skip_whitespace(b, pos);
    lemma_skip_whitespace(b, pos);
    lemma_skip_whitespace_shift(a, b, pos);
    lemma_find_from_shift(a, b, start_marker(), at);
    if let Some(start) = find_from(b, start_marker(), at) {
        lemma_find_from_some(b, start_marker(), at);
        let role_at = start + start_marker().len();
        lemma_find_from_shift(a, b, newline(), role_at);
        if let Some(line_end) = find_from(b, newline(), role_at) {
            lemma_find_from_some(b, newline(), role_at);
            let content_at = line_end + 1;
            lemma_find_from_shift(a, b, end_marker(), content_at);
            assert(whole.subrange(a.len() + role_at, a.len() + line_end) =~= b.subrange(
                role_at,
                line_end,
            ));
            match find_from(b, end_marker(), content_at) {
                Some(end) => {
                    lemma_find_from_some(b, end_marker(), content_at);
                    assert(whole.subrange(a.len() + content_at, a.len() + end) =~= b.subrange(
                        content_at,
                        end,
                    ));
                    lemma_parse_from_shift(a, b, end + end_marker().len());
                },
                None => {
                    assert(whole.subrange(a.len() + content_at, whole.len() as int) =~= b.subrange(
                        content_at,
                        b.len() as int,
                    ));
                },
            }
        }
    }
}

/// A transcript of two or more turns is its first turn, a newline, and the
/// transcript of the others.
pub proof fn lemma_prompt_text_front(ms: Seq<ChatMLMessageView>)
    requires
        ms.len() >= 2,
    ensures
        prompt_text(ms) == message_text(ms[0]) + newline() + prompt_text(ms.drop_first()),
    decreases ms.len(),
{
    let init = ms.drop_last();
    let tail = ms.drop_first();
    if ms.len() == 2 {
        assert(prompt_text(init) == message_text(ms[0]));
    } else {
        lemma_prompt_text_front(init);
        assert(init.drop_first() =~= tail.drop_last());
    }
}

/// A written turn at the head of a text is read back as that turn, and the
/// reading goes on behind it.
pub proof fn lemma_parse_first(m: ChatMLMessageView, rest: Seq<char>)
    requires
        !m.role.contains('\n'),
        !contains_text(m.content, end_marker()),
    ensures
        parse_from(message_text(m) + rest, 0) == prefixed(
            seq![m],
            parse_from(message_text(m) + rest, message_text(m).len() as int),
        ),
{
    reveal_strlit("<|im_start|>");
    reveal_strlit("<|im_end|>");
    let text = message_text(m) + rest;
    let start = start_marker();
    let end = end_marker();
    let role_at = start.len() as int;
    let line_end = role_at + m.role.len();
    let content_at = line_end + 1;
    let content_end = content_at + m.content.len();
    assert(text.subrange(0, role_at) =~= start);
    lemma_find_from_is(text, start, 0, 0);
    assert(text.subrange(line_end, line_end + 1) =~= newline());
    assert forall|j: int| role_at <= j < line_end implies !occurs_at(text, newline(), j) by {
        if occurs_at(text, newline(), j) {
            assert(text.subrange(j, j + 1)[0] == '\n');
        }
    }
    lemma_find_from_is(text, newline(), role_at, line_end);
    assert(text.subrange(role_at, line_end) =~= m.role);
    assert(text.subrange(content_end, content_end + end.len()) =~= end);
    assert forall|j: int| content_at <= j < content_end implies !occurs_at(text, end, j) by {
        if occurs_at(text, end, j) {
            let hit = text.subrange(j, j + end.len());
            if j + end.len() <= content_end {
                assert(m.content.subrange(j - content_at, j - content_at + end.len()) =~= hit);
                assert(occurs_at(m.content, end, j - content_at));
            } else {
                let k = content_end - j;
                assert(hit[k] == text[content_end]);
            }
        }
    }
    lemma_find_from_is(text, end, content_at, content_end);
    assert(text.subrange(content_at, content_end) =~= m.content);
}

/// Whether a transcript is read back as it was written: no role holds a
/// newline, and no content holds an end marker.
pub open spec fn readable(ms: Seq<ChatMLMessageView>) -> bool {
    forall|i: int|
        0 <= i < ms.len() ==> !(#[trigger] ms[i]).role.contains('\n') && !contains_text(
            ms[i].content,
            end_marker(),
        )
}

/// A newline at the head of a text is passed over.
pub proof fn lemma_parse_skips_newline(rest: Seq<char>)
    ensures
        parse(newline() + rest) == parse(rest),
{
    let text = newline() + rest;
    lemma_parse_from_shift(newline(), rest, 0);
}

/// A written transcript at the head of a text is read back as it was
/// written, and the reading goes on behind it.
pub proof fn lemma_parse_after_written(ms: Seq<ChatMLMessageView>, rest: Seq<char>)
    requires
        readable(ms),
        ms.len() > 0,
    ensures
        parse(prompt_text(ms) + rest) == prefixed(ms, parse(rest)),
    decreases ms.len(),
{
    let first = ms[0];
    let tail = ms.drop_first();
    let head = message_text(first);
    if ms.len() == 1 {
        lemma_parse_first(first, rest);
        lemma_parse_from_shift(head, rest, 0);
    } else {
        lemma_prompt_text_front(ms);
        let behind = newline() + (prompt_text(tail) + rest);
        assert(prompt_text(ms) + rest =~= head + behind);
        lemma_parse_first(first, behind);
        lemma_parse_from_shift(head, behind, 0);
        lemma_parse_skips_newline(prompt_text(tail) + rest);
        assert forall|i: int| 0 <= i < tail.len() implies !(#[trigger] tail[i]).role.contains(
            '\n',
        ) && !contains_text(tail[i].content, end_marker()) by {
        }
        lemma_parse_after_written(tail, rest);
    }
}

/// A text without start marker holds no turn.
pub proof fn lemma_parse_of_nothing()
    ensures
        parse(Seq::empty()) == Some(Seq::<ChatMLMessageView>::empty()),
{
    reveal_strlit("<|im_start|>");
    let nothing = Seq::<char>::empty();
}

/// Reading what `to_chatml` wrote gives the transcript back, provided that
/// no role holds a newline and no content holds an end marker.
pub proof fn lemma_round_trip(ms: Seq<ChatMLMessageView>)
    requires
        readable(ms),
    ensures
        parse(prompt_text(ms)) == Some(ms),
{
    lemma_parse_of_nothing();
    let nothing = Seq::<char>::empty();
    if ms.len() == 0 {
    } else {
        lemma_parse_after_written(ms, nothing);
    }
}

/// A turn that was opened and never closed is read to the end of the text.
pub proof fn lemma_parse_open_turn(role: Seq<char>, content: Seq<char>)
    requires
        !role.contains('\n'),
        !contains_text(content, end_marker()),
    ensures
        parse(start_marker() + role + newline() + content) == Some(
            seq![message_of(role, content)],
        ),
{
    reveal_strlit("<|im_start|>");
    reveal_strlit("<|im_end|>");
    let text = start_marker() + role + newline() + content;
    let start = start_marker();
    let end = end_marker();
    let role_at = start.len() as int;
    let line_end = role_at + role.len();
    let content_at = line_end + 1;
    assert(text.subrange(0, role_at) =~= start);
    lemma_find_from_is(text, start, 0, 0);
    assert(text.subrange(line_end, line_end + 1) =~= newline());
    assert forall|j: int| role_at <= j < line_end implies !occurs_at(text, newline(), j) by {
        if occurs_at(text, newline(), j) {
            assert(text.subrange(j, j + 1)[0] == '\n');
        }
    }
    lemma_find_from_is(text, newline(), role_at, line_end);
    assert(text.subrange(role_at, line_end) =~= role);
    assert(text.subrange(content_at, text.len() as int) =~= content);
    if let Some(found) = find_from(text, end, content_at) {
        lemma_find_from_some(text, end, content_at);
        assert(content.subrange(found - content_at, found - content_at + end.len())
            =~= text.subrange(found, found + end.len()));
        assert(occurs_at(content, end, found - content_at));
    }
}

/// What was sent for generation, continued by an answer, is read as the
/// transcript that was sent with the answer as the assistant's turn,
/// provided that the transcript is readable and the answer holds no end
/// marker.
pub proof fn lemma_generation_round_trip(ms: Seq<ChatMLMessageView>, answer: Seq<char>)
    requires
        readable(ms),
        !contains_text(answer, end_marker()),
    ensures
        parse(generation_text(ms) + answer) == Some(
            ms.push(message_of(assistant_role(), answer)),
        ),
{
    reveal_strlit("<|im_start|>assistant\n");
    reveal_strlit("<|im_start|>");
    reveal_strlit("assistant");
    let open = generation_suffix() + answer;
    assert(generation_suffix() =~= start_marker() + assistant_role() + newline());
    lemma_parse_open_turn(assistant_role(), answer);
    let last = seq![message_of(assistant_role(), answer)];
    if ms.len() == 0 {
    } else {
        lemma_parse_skips_newline(open);
        lemma_parse_after_written(ms, newline() + open);
        assert(generation_text(ms) + answer =~= prompt_text(ms) + (newline() + open));
    }
}


/// A text that holds no start marker holds no turn, and is no error.
pub proof fn lemma_parse_without_start_marker(text: Seq<char>)
    requires
        !contains_text(text, start_marker()),
    ensures
        parse(text) == Some(Seq::<ChatMLMessageView>::empty()),
{
    lemma_skip_whitespace(text, 0);
    let at = skip_whitespace(text, 0);
    if find_from(text, start_marker(), at) is Some {
        lemma_find_from_some(text, start_marker(), at);
    }
}

/// A text that holds a start marker and no newline cannot be read: the role
/// behind the first start marker never ends.
pub proof fn lemma_parse_without_newline(text: Seq<char>)
    requires
        contains_text(text, start_marker()),
        !text.contains('\n'),
    ensures
        parse(text) is None,
{
    reveal_strlit("<|im_start|>");
    lemma_skip_whitespace(text, 0);
    let at = skip_whitespace(text, 0);
    let somewhere = choose|p: int| occurs_at(text, start_marker(), p);
    assert(text.subrange(somewhere, somewhere + start_marker().len())[0] == '<');
    if find_from(text, start_marker(), at) is None {
        lemma_find_from_none(text, start_marker(), at);
    }
    lemma_find_from_some(text, start_marker(), at);
    let role_at = find_from(text, start_marker(), at).unwrap() + start_marker().len();
    if find_from(text, newline(), role_at) is Some {
        lemma_find_from_some(text, newline(), role_at);
        let line_end = find_from(text, newline(), role_at).unwrap();
        assert(text.subrange(line_end, line_end + 1)[0] == '\n');
    }
}

} // verus!
