//! Assembly of the transcript that is sent for one step of a workflow run.
//!
//! The completion service keeps no state, so every transcript opens with the
//! character's grounding and replays what was said before.

use vstd::prelude::*;
use vstd::string::StringExecFns;

use crate::chatml::{
    assistant_role, generation_text, last_with_role, message_of, system_role, user_role,
    ChatMLMessageView, ChatMLPrompt,
};
use crate::models::{
    Character, CharacterView, Chat, ChatView, Job, MessageView, Prompt, PromptView,
};
use crate::text::texts;

verus! {

/// The system turn: who the character is, and the context of the prompt.
pub open spec fn system_message(character: CharacterView, prompt: PromptView) -> Seq<char> {
    "You are "@ + character.name + ", described as: "@ + character.description
        + "\nPersonality: "@ + character.personality + "\nBackground: "@ + character.background
        + "\n\nContext: "@ + prompt.context
}

/// The assistant turn that stands for an answer of the past.
pub open spec fn acknowledgement(name: Seq<char>) -> Seq<char> {
    "*"@ + name + " responds*"@
}

/// The assistant turn that stands for an answer to a middle setup item.
pub open spec fn fitting_acknowledgement(name: Seq<char>) -> Seq<char> {
    "*"@ + name + " responds appropriately*"@
}

/// Each line as a user turn, followed by the acknowledgement.
pub open spec fn acknowledged_lines(name: Seq<char>, lines: Seq<Seq<char>>) -> Seq<
    ChatMLMessageView,
>
    decreases lines.len(),
{
    if lines.len() == 0 {
        Seq::empty()
    } else {
        acknowledged_lines(name, lines.drop_last()) + seq![
            message_of(user_role(), lines.last()),
            message_of(assistant_role(), acknowledgement(name)),
        ]
    }
}

/// The replay of a chat history: the lines of each message, in order.
pub open spec fn history_turns(name: Seq<char>, messages: Seq<MessageView>) -> Seq<
    ChatMLMessageView,
>
    decreases messages.len(),
{
    if messages.len() == 0 {
        Seq::empty()
    } else {
        history_turns(name, messages.drop_last()) + acknowledged_lines(name, messages.last().text)
    }
}

/// The replay of the completed step `i`: its setup item as a user turn and,
/// where the step's result holds an assistant turn, the last of them. The
/// last setup item is never replayed.
pub open spec fn replayed_step(
    setup: Seq<Seq<char>>,
    results: Seq<Seq<ChatMLMessageView>>,
    i: int,
) -> Seq<ChatMLMessageView> {
    if i + 1 < setup.len() {
        match last_with_role(results[i], assistant_role()) {
            Some(answer) => seq![
                message_of(user_role(), setup[i]),
                message_of(assistant_role(), answer),
            ],
            None => seq![message_of(user_role(), setup[i])],
        }
    } else {
        Seq::empty()
    }
}

/// The replay of the first `n` completed steps.
pub open spec fn replayed_steps(
    setup: Seq<Seq<char>>,
    results: Seq<Seq<ChatMLMessageView>>,
    n: int,
) -> Seq<ChatMLMessageView>
    decreases n,
{
    if n <= 0 {
        Seq::empty()
    } else {
        replayed_steps(setup, results, n - 1) + replayed_step(setup, results, n - 1)
    }
}

/// The transcript for one step: the system turn, the replayed history, the
/// replayed earlier steps, and the step's own text as the last user turn.
pub open spec fn step_prompt(
    character: CharacterView,
    prompt: PromptView,
    step_text: Seq<char>,
    results: Seq<Seq<ChatMLMessageView>>,
    history: ChatView,
) -> Seq<ChatMLMessageView> {
    seq![message_of(system_role(), system_message(character, prompt))] + history_turns(
        character.name,
        history.messages,
    ) + replayed_steps(prompt.setup, results, results.len() as int) + seq![
        message_of(user_role(), step_text),
    ]
}

/// The transcripts that a slice of prompts holds.
pub open spec fn transcripts(results: Seq<ChatMLPrompt>) -> Seq<Seq<ChatMLMessageView>> {
    results.map_values(|p: ChatMLPrompt| p@)
}

fn system_message_text(character: &Character, prompt: &Prompt) -> (text: String)
    ensures
        text@ == system_message(character@, prompt@),
{
    let mut text = "You are ".to_string();
    text.append(character.name.as_str());
    text.append(", described as: ");
    text.append(character.description.as_str());
    text.append("\nPersonality: ");
    text.append(character.personality.as_str());
    text.append("\nBackground: ");
    text.append(character.background.as_str());
    text.append("\n\nContext: ");
    text.append(prompt.context.as_str());
    text
}

fn acknowledgement_text(name: &str) -> (text: String)
    ensures
        text@ == acknowledgement(name@),
{
    let mut text = "*".to_string();
    text.append(name);
    text.append(" responds*");
    text
}

fn fitting_acknowledgement_text(name: &str) -> (text: String)
    ensures
        text@ == fitting_acknowledgement(name@),
{
    let mut text = "*".to_string();
    text.append(name);
    text.append(" responds appropriately*");
    text
}

/// Appends the replay of `chat_history` to `built`.
fn replay_history(built: &mut ChatMLPrompt, name: &str, chat_history: &Chat)
    ensures
        final(built)@ == old(built)@ + history_turns(name@, chat_history@.messages),
{
    let ghost base = built@;
    let ghost all = chat_history@.messages;
    let mut i: usize = 0;
    while i < chat_history.messages.len()
        invariant
            i <= chat_history.messages.len(),
            all == chat_history@.messages,
            built@ == base + history_turns(name@, all.take(i as int)),
        decreases chat_history.messages.len() - i,
    {
        let message = &chat_history.messages[i];
        let ghost lines = texts(message.text@);
        let ghost before = built@;
        let mut j: usize = 0;
        while j < message.text.len()
            invariant
                j <= message.text.len(),
                lines == texts(message.text@),
                built@ == before + acknowledged_lines(name@, lines.take(j as int)),
            decreases message.text.len() - j,
        {
            built.add_user(message.text[j].as_str());
            let ack = acknowledgement_text(name);
            built.add_assistant(ack.as_str());
            proof {
                let upto = lines.take(j + 1);
                assert(upto.drop_last() =~= lines.take(j as int));
            }
            j += 1;
        }
        proof {
            assert(lines.take(message.text.len() as int) =~= lines);
            let upto = all.take(i + 1);
            assert(upto.drop_last() =~= all.take(i as int));
        }
        i += 1;
    }
    proof {
        assert(all.take(chat_history.messages.len() as int) =~= all);
    }
}

/// Builds the transcript for one setup item of a run.
///
/// `previous_responses[i]` is the parsed result of step `i` of the same run.
pub fn build_setup_item_chatml_prompt(
    character: &Character,
    prompt: &Prompt,
    setup_item: &str,
    previous_responses: &[ChatMLPrompt],
    chat_history: &Chat,
) -> (built: ChatMLPrompt)
    ensures
        built@ == step_prompt(
            character@,
            prompt@,
            setup_item@,
            transcripts(previous_responses@),
            chat_history@,
        ),
{
    let mut built = ChatMLPrompt::new();
    let system = system_message_text(character, prompt);
    built.add_system(system.as_str());
    replay_history(&mut built, character.name.as_str(), chat_history);

    let ghost base = built@;
    let ghost setup = prompt@.setup;
    let ghost results = transcripts(previous_responses@);
    let mut i: usize = 0;
    while i < previous_responses.len()
        invariant
            i <= previous_responses.len(),
            setup == prompt@.setup,
            results == transcripts(previous_responses@),
            built@ == base + replayed_steps(setup, results, i as int),
        decreases previous_responses.len() - i,
    {
        if i + 1 < prompt.setup.len() {
            built.add_user(prompt.setup[i].as_str());
            match previous_responses[i].last_assistant_message() {
                Some(answer) => {
                    built.add_assistant(answer);
                },
                None => {},
            }
        }
        i += 1;
    }
    built.add_user(setup_item);
    built
}

/// The replay of a chat history that may be absent.
pub open spec fn optional_history_turns(name: Seq<char>, history: Option<ChatView>) -> Seq<
    ChatMLMessageView,
> {
    match history {
        Some(chat) => history_turns(name, chat.messages),
        None => Seq::empty(),
    }
}

/// The view of a chat that may be absent.
pub open spec fn optional_chat(history: Option<&Chat>) -> Option<ChatView> {
    match history {
        Some(chat) => Some(chat@),
        None => None,
    }
}

/// The replay of the answered step `i`: its setup item and its answer. The
/// last setup item is never replayed.
pub open spec fn replayed_answer(setup: Seq<Seq<char>>, answers: Seq<Seq<char>>, i: int) -> Seq<
    ChatMLMessageView,
> {
    if i + 1 < setup.len() {
        seq![message_of(user_role(), setup[i]), message_of(assistant_role(), answers[i])]
    } else {
        Seq::empty()
    }
}

/// The replay of the first `n` answered steps.
pub open spec fn replayed_answers(setup: Seq<Seq<char>>, answers: Seq<Seq<char>>, n: int) -> Seq<
    ChatMLMessageView,
>
    decreases n,
{
    if n <= 0 {
        Seq::empty()
    } else {
        replayed_answers(setup, answers, n - 1) + replayed_answer(setup, answers, n - 1)
    }
}

/// The transcript for one step where the earlier answers are given as text.
pub open spec fn answered_step_prompt(
    character: CharacterView,
    prompt: PromptView,
    step_text: Seq<char>,
    answers: Seq<Seq<char>>,
    history: Option<ChatView>,
) -> Seq<ChatMLMessageView> {
    seq![message_of(system_role(), system_message(character, prompt))] + optional_history_turns(
        character.name,
        history,
    ) + replayed_answers(prompt.setup, answers, answers.len() as int) + seq![
        message_of(user_role(), step_text),
    ]
}

/// Setup item `i` in a transcript that holds the whole script: a user turn,
/// followed by a stand-in answer unless the item is the first or the last.
pub open spec fn scripted_turn(name: Seq<char>, setup: Seq<Seq<char>>, i: int) -> Seq<
    ChatMLMessageView,
> {
    if i == 0 || i == setup.len() - 1 {
        seq![message_of(user_role(), setup[i])]
    } else {
        seq![
            message_of(user_role(), setup[i]),
            message_of(assistant_role(), fitting_acknowledgement(name)),
        ]
    }
}

/// The first `n` setup items of the whole script.
pub open spec fn scripted_turns(name: Seq<char>, setup: Seq<Seq<char>>, n: int) -> Seq<
    ChatMLMessageView,
>
    decreases n,
{
    if n <= 0 {
        Seq::empty()
    } else {
        scripted_turns(name, setup, n - 1) + scripted_turn(name, setup, n - 1)
    }
}

/// The transcript that holds the whole script of a prompt.
pub open spec fn job_prompt(
    character: CharacterView,
    prompt: PromptView,
    history: Option<ChatView>,
) -> Seq<ChatMLMessageView> {
    seq![message_of(system_role(), system_message(character, prompt))] + optional_history_turns(
        character.name,
        history,
    ) + scripted_turns(character.name, prompt.setup, prompt.setup.len() as int)
}

/// The first `n` setup items as lines of a plain conversation.
pub open spec fn human_lines(setup: Seq<Seq<char>>, n: int) -> Seq<char>
    decreases n,
{
    if n <= 0 {
        Seq::empty()
    } else {
        human_lines(setup, n - 1) + "Human: "@ + setup[n - 1] + "\n"@
    }
}

/// The plain-text prompt: the character, the context and, where the prompt
/// has setup items, the conversation with the character's name as the last
/// line's opening.
pub open spec fn simple_prompt(character: CharacterView, prompt: PromptView) -> Seq<char> {
    let opening = "You are "@ + character.name + ". "@ + character.description
        + "\nPersonality: "@ + character.personality + "\nBackground: "@ + character.background
        + "\n\n"@ + "Context: "@ + prompt.context + "\n\n"@;
    if prompt.setup.len() == 0 {
        opening
    } else {
        opening + "Conversation:\n"@ + human_lines(prompt.setup, prompt.setup.len() as int)
            + character.name + ": "@
    }
}

/// Appends the replay of a chat history that may be absent.
fn replay_optional_history(built: &mut ChatMLPrompt, name: &str, chat_history: Option<&Chat>)
    ensures
        final(built)@ == old(built)@ + optional_history_turns(name@, optional_chat(chat_history)),
{
    match chat_history {
        Some(chat) => {
            replay_history(built, name, chat);
        },
        None => {},
    }
}

/// Builds the text that is sent for one setup item, the earlier answers
/// given as text.
pub fn build_setup_item_prompt(
    character: &Character,
    prompt: &Prompt,
    setup_item: &str,
    previous_responses: &[String],
    chat_history: Option<&Chat>,
) -> (sent: String)
    ensures
        sent@ == generation_text(
            answered_step_prompt(
                character@,
                prompt@,
                setup_item@,
                texts(previous_responses@),
                optional_chat(chat_history),
            ),
        ),
{
    let mut built = ChatMLPrompt::new();
    let system = system_message_text(character, prompt);
    built.add_system(system.as_str());
    replay_optional_history(&mut built, character.name.as_str(), chat_history);

    let ghost base = built@;
    let ghost setup = prompt@.setup;
    let ghost answers = texts(previous_responses@);
    let mut i: usize = 0;
    while i < previous_responses.len()
        invariant
            i <= previous_responses.len(),
            setup == prompt@.setup,
            answers == texts(previous_responses@),
            built@ == base + replayed_answers(setup, answers, i as int),
        decreases previous_responses.len() - i,
    {
        if i + 1 < prompt.setup.len() {
            built.add_user(prompt.setup[i].as_str());
            built.add_assistant(previous_responses[i].as_str());
        }
        i += 1;
    }
    built.add_user(setup_item);
    proof {
        assert(built@ =~= answered_step_prompt(
            character@,
            prompt@,
            setup_item@,
            answers,
            optional_chat(chat_history),
        ));
    }
    built.to_chatml_for_generation()
}

/// Builds the text that holds the whole script of a prompt at once.
pub fn build_job_prompt(
    character: &Character,
    prompt: &Prompt,
    chat_history: Option<&Chat>,
) -> (sent: String)
    ensures
        sent@ == generation_text(job_prompt(character@, prompt@, optional_chat(chat_history))),
{
    let mut built = ChatMLPrompt::new();
    let system = system_message_text(character, prompt);
    built.add_system(system.as_str());
    replay_optional_history(&mut built, character.name.as_str(), chat_history);

    let ghost base = built@;
    let ghost setup = prompt@.setup;
    let ghost name = character@.name;
    let count: usize = prompt.setup.len();
    let mut i: usize = 0;
    while i < count
        invariant
            i <= count,
            count == prompt.setup.len(),
            setup == prompt@.setup,
            name == character@.name,
            built@ == base + scripted_turns(name, setup, i as int),
        decreases count - i,
    {
        built.add_user(prompt.setup[i].as_str());
        if i != 0 && i != count - 1 {
            let ack = fitting_acknowledgement_text(character.name.as_str());
            built.add_assistant(ack.as_str());
        }
        i += 1;
    }
    built.to_chatml_for_generation()
}

/// Builds the plain-text prompt for a completion without a transcript.
pub fn build_simple_prompt(_job: &Job, character: &Character, prompt: &Prompt) -> (sent: String)
    ensures
        sent@ == simple_prompt(character@, prompt@),
{
    let mut sent = "You are ".to_string();
    sent.append(character.name.as_str());
    sent.append(". ");
    sent.append(character.description.as_str());
    sent.append("\nPersonality: ");
    sent.append(character.personality.as_str());
    sent.append("\nBackground: ");
    sent.append(character.background.as_str());
    sent.append("\n\n");
    sent.append("Context: ");
    sent.append(prompt.context.as_str());
    sent.append("\n\n");
    let count: usize = prompt.setup.len();
    if count > 0 {
        let ghost opening = sent@;
        let ghost setup = prompt@.setup;
        sent.append("Conversation:\n");
        let mut i: usize = 0;
        while i < count
            invariant
                i <= count,
                count == prompt.setup.len(),
                setup == prompt@.setup,
                sent@ == opening + "Conversation:\n"@ + human_lines(setup, i as int),
            decreases count - i,
        {
            sent.append("Human: ");
            sent.append(prompt.setup[i].as_str());
            sent.append("\n");
            i += 1;
        }
        sent.append(character.name.as_str());
        sent.append(": ");
    }
    sent
}

/// Whether each of the first `n` results holds an assistant turn.
pub open spec fn all_answered(results: Seq<Seq<ChatMLMessageView>>, n: int) -> bool {
    forall|i: int| 0 <= i < n ==> last_with_role(#[trigger] results[i], assistant_role()) is Some
}

/// The replay of `n` answered steps, none of them the last setup item, is
/// `n` pairs: each setup item as a user turn, followed by the last
/// assistant turn of its result.
pub proof fn lemma_replayed_steps_are_pairs(
    setup: Seq<Seq<char>>,
    results: Seq<Seq<ChatMLMessageView>>,
    n: int,
)
    requires
        0 <= n <= results.len(),
        n < setup.len(),
        all_answered(results, n),
    ensures
        replayed_steps(setup, results, n).len() == 2 * n,
        forall|i: int|
            0 <= i < n ==> #[trigger] replayed_steps(setup, results, n)[2 * i] == message_of(
                user_role(),
                setup[i],
            ),
        forall|i: int|
            0 <= i < n ==> #[trigger] replayed_steps(setup, results, n)[2 * i + 1] == message_of(
                assistant_role(),
                last_with_role(results[i], assistant_role())->0,
            ),
    decreases n,
{
    if n > 0 {
        lemma_replayed_steps_are_pairs(setup, results, n - 1);
        let before = replayed_steps(setup, results, n - 1);
        let all = replayed_steps(setup, results, n);
        assert forall|i: int| 0 <= i < n implies #[trigger] all[2 * i] == message_of(
            user_role(),
            setup[i],
        ) by {
        }
        assert forall|i: int| 0 <= i < n implies #[trigger] all[2 * i + 1] == message_of(
            assistant_role(),
            last_with_role(results[i], assistant_role())->0,
        ) by {
        }
    }
}

/// The transcript of a step behind `n` answered steps and an empty history
/// is the system turn, the `n` pairs of setup item and answer in order, and
/// the step's text as a last user turn that no assistant turn follows.
pub proof fn lemma_step_prompt_replays_every_step(
    character: CharacterView,
    prompt: PromptView,
    step_text: Seq<char>,
    results: Seq<Seq<ChatMLMessageView>>,
    history: ChatView,
)
    requires
        history.messages.len() == 0,
        results.len() < prompt.setup.len(),
        all_answered(results, results.len() as int),
    ensures
        ({
            let built = step_prompt(character, prompt, step_text, results, history);
            &&& built.len() == 2 * results.len() + 2
            &&& built[0] == message_of(system_role(), system_message(character, prompt))
            &&& forall|i: int|
                0 <= i < results.len() ==> #[trigger] built[2 * i + 1] == message_of(
                    user_role(),
                    prompt.setup[i],
                )
            &&& forall|i: int|
                0 <= i < results.len() ==> #[trigger] built[2 * i + 2] == message_of(
                    assistant_role(),
                    last_with_role(results[i], assistant_role())->0,
                )
            &&& built.last() == message_of(user_role(), step_text)
        }),
{
    let n = results.len() as int;
    lemma_replayed_steps_are_pairs(prompt.setup, results, n);
    let replay = replayed_steps(prompt.setup, results, n);
    let built = step_prompt(character, prompt, step_text, results, history);
    assert forall|i: int| 0 <= i < n implies #[trigger] built[2 * i + 1] == message_of(
        user_role(),
        prompt.setup[i],
    ) by {
    }
    assert forall|i: int| 0 <= i < n implies #[trigger] built[2 * i + 2] == message_of(
        assistant_role(),
        last_with_role(results[i], assistant_role())->0,
    ) by {
        assert(built[2 * i + 2] == replay[2 * i + 1]);
    }
}

} // verus!
