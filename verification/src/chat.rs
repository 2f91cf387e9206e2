//! Chat data: streamed generation chunks, the prior-message list, and the
//! generation-mode selector.
//!
//! A generation response arrives as a stream of [`MessageChunk`] records
//! (see `decoder`); each chunk carries an ordered list of [`TextChoice`]
//! slots, and [`MessageChunk::content`] reads the incremental text of one
//! slot. The message-list helpers hold the pure part of the chat-history
//! operations; the HTTP calls around them live outside the library.

use vstd::prelude::*;
use vstd::string::StringExecFns;

use crate::error::HampterError;

verus! {

/// Mathematical content of a [`TextDelta`].
#[verifier::ext_equal]
pub struct TextDeltaView {
    pub role: Option<Seq<char>>,
    pub content: Seq<char>,
}

/// Mathematical content of a [`TextChoice`].
#[verifier::ext_equal]
pub struct TextChoiceView {
    pub index: u64,
    pub delta: TextDeltaView,
    pub logprobs: Option<Seq<char>>,
    pub finish_reason: Option<Seq<char>>,
}

/// Mathematical content of a [`MessageChunk`].
#[verifier::ext_equal]
pub struct MessageChunkView {
    pub id: Seq<char>,
    pub object: Seq<char>,
    pub created: u64,
    pub model: Seq<char>,
    pub choices: Seq<TextChoiceView>,
}

/// The incremental text (and, on the first chunk, the role) of one choice.
#[derive(Clone, Debug)]
pub struct TextDelta {
    pub role: Option<String>,
    pub content: String,
}

/// One candidate completion slot within a chunk.
#[derive(Clone, Debug)]
pub struct TextChoice {
    pub index: u64,
    pub delta: TextDelta,
    pub logprobs: Option<String>,
    pub finish_reason: Option<String>,
}

/// One server-sent increment of a generation response, immutable once parsed.
#[derive(Clone, Debug)]
pub struct MessageChunk {
    pub id: String,
    pub object: String,
    pub created: u64,
    pub model: String,
    pub choices: Vec<TextChoice>,
}

impl View for TextDelta {
    type V = TextDeltaView;

    open spec fn view(&self) -> TextDeltaView {
        TextDeltaView { role: self.role.deep_view(), content: self.content@ }
    }
}

impl View for TextChoice {
    type V = TextChoiceView;

    open spec fn view(&self) -> TextChoiceView {
        TextChoiceView {
            index: self.index,
            delta: self.delta@,
            logprobs: self.logprobs.deep_view(),
            finish_reason: self.finish_reason.deep_view(),
        }
    }
}

impl View for MessageChunk {
    type V = MessageChunkView;

    open spec fn view(&self) -> MessageChunkView {
        MessageChunkView {
            id: self.id@,
            object: self.object@,
            created: self.created,
            model: self.model@,
            choices: self.choices@.map_values(|c: TextChoice| c@),
        }
    }
}

impl MessageChunk {
    /// The incremental text of the choice at the given position (position 0
    /// when none is given). A chunk may carry any number of choices, so an
    /// absent position is reported as `IndexError` rather than trusted away.
    pub fn content(&self, index: Option<usize>) -> (r: Result<&String, HampterError>)
        ensures
            ({
                let i = (match index {
                    Some(i) => i as int,
                    None => 0,
                });
                &&& i < self@.choices.len() ==> (r matches Ok(s) && s@
                    == self@.choices[i].delta.content)
                &&& i >= self@.choices.len() ==> r == Err::<&String, HampterError>(
                    HampterError::IndexError,
                )
            }),
    {
        let i: usize = match index {
            Some(i) => i,
            None => 0,
        };
        if i < self.choices.len() {
            Ok(&self.choices[i].delta.content)
        } else {
            Err(HampterError::IndexError)
        }
    }
}

/// Mathematical content of a [`Message`].
#[verifier::ext_equal]
pub struct MessageView {
    pub id: u64,
    pub is_bot: bool,
    pub is_main: bool,
    pub chat_id: u64,
    pub message: Seq<char>,
}

/// One prior message of a chat, as the generation request carries it.
#[derive(Clone, Debug)]
pub struct Message {
    pub id: u64,
    pub is_bot: bool,
    pub is_main: bool,
    pub chat_id: u64,
    pub message: String,
}

impl View for Message {
    type V = MessageView;

    open spec fn view(&self) -> MessageView {
        MessageView {
            id: self.id,
            is_bot: self.is_bot,
            is_main: self.is_main,
            chat_id: self.chat_id,
            message: self.message@,
        }
    }
}

impl Message {
    /// Builds a message; a missing id stands for "not assigned yet" and is
    /// stored as 0.
    pub fn new(
        id: Option<u64>,
        is_bot: bool,
        is_main: bool,
        chat_id: u64,
        content: &str,
    ) -> (m: Message)
        ensures
            m@ == (MessageView {
                id: (match id {
                    Some(v) => v,
                    None => 0,
                }),
                is_bot,
                is_main,
                chat_id,
                message: content@,
            }),
    {
        Message {
            id: match id {
                Some(v) => v,
                None => 0,
            },
            is_bot,
            is_main,
            chat_id,
            message: String::from_str(content),
        }
    }
}

/// Views of a whole message list.
pub open spec fn messages_view(messages: Seq<Message>) -> Seq<MessageView> {
    messages.map_values(|m: Message| m@)
}

/// The position of the first message with the given id, if any.
pub open spec fn find_message_index(messages: Seq<MessageView>, message_id: u64) -> Option<int>
    decreases messages.len(),
{
    if messages.len() == 0 {
        None
    } else if messages[0].id == message_id {
        Some(0)
    } else {
        match find_message_index(messages.skip(1), message_id) {
            Some(i) => Some(i + 1),
            None => None,
        }
    }
}

/// Scanning a prefix without a match pushes the first match past it.
proof fn lemma_find_message_index_from_scan(
    messages: Seq<MessageView>,
    message_id: u64,
    upto: int,
)
    requires
        0 <= upto <= messages.len(),
        forall|j: int| 0 <= j < upto ==> messages[j].id != message_id,
    ensures
        upto < messages.len() && messages[upto].id == message_id ==> find_message_index(
            messages,
            message_id,
        ) == Some(upto),
        upto == messages.len() ==> find_message_index(messages, message_id) is None,
    decreases upto,
{
    if upto == 0 {
    } else {
        assert(messages[0].id != message_id);
        lemma_find_message_index_from_scan(messages.skip(1), message_id, upto - 1);
        assert(messages.skip(1).len() == messages.len() - 1);
        if upto < messages.len() && messages[upto].id == message_id {
            assert(messages.skip(1)[upto - 1] == messages[upto]);
        }
    }
}

/// A clone of the first message with the given id, or `None` when no message
/// carries it.
pub fn get_message(messages: &Vec<Message>, message_id: u64) -> (r: Option<Message>)
    ensures
        ({
            let found = find_message_index(messages_view(messages@), message_id);
            &&& r matches Some(m) ==> (found matches Some(i) && m@ == messages_view(messages@)[i])
            &&& r is None <==> found is None
        }),
{
    let ghost msgs = messages_view(messages@);
    let n = messages.len();
    let mut k: usize = 0;
    while k < n
        invariant
            n == messages.len(),
            msgs == messages_view(messages@),
            0 <= k <= n,
            forall|j: int| 0 <= j < k ==> msgs[j].id != message_id,
        decreases n - k,
    {
        if messages[k].id == message_id {
            proof {
                lemma_find_message_index_from_scan(msgs, message_id, k as int);
            }
            return Some(
                Message {
                    id: messages[k].id,
                    is_bot: messages[k].is_bot,
                    is_main: messages[k].is_main,
                    chat_id: messages[k].chat_id,
                    message: String::from_str(messages[k].message.as_str()),
                },
            );
        }
        k = k + 1;
    }
    proof {
        lemma_find_message_index_from_scan(msgs, message_id, n as int);
    }
    None
}

/// Rewrites the text of the first message with the given id, leaving every
/// other message as it was; reports whether such a message was found.
pub fn edit_message(messages: &mut Vec<Message>, message_id: u64, content: &str) -> (found: bool)
    ensures
        ({
            let old_msgs = messages_view(old(messages)@);
            match find_message_index(old_msgs, message_id) {
                Some(i) => found && messages_view(final(messages)@) == old_msgs.update(
                    i,
                    (MessageView { message: content@, ..old_msgs[i] }),
                ),
                None => !found && final(messages)@ == old(messages)@,
            }
        }),
{
    let ghost old_msgs = messages_view(old(messages)@);
    let n = messages.len();
    let mut k: usize = 0;
    while k < n
        invariant
            n == messages.len(),
            messages@ == old(messages)@,
            old_msgs == messages_view(messages@),
            0 <= k <= n,
            forall|j: int| 0 <= j < k ==> old_msgs[j].id != message_id,
        decreases n - k,
    {
        if messages[k].id == message_id {
            proof {
                lemma_find_message_index_from_scan(old_msgs, message_id, k as int);
            }
            let mut updated = Message {
                id: messages[k].id,
                is_bot: messages[k].is_bot,
                is_main: messages[k].is_main,
                chat_id: messages[k].chat_id,
                message: String::from_str(content),
            };
            messages.set(k, updated);
            proof {
                assert(messages_view(messages@) =~= old_msgs.update(
                    k as int,
                    (MessageView { message: content@, ..old_msgs[k as int] }),
                ));
            }
            return true;
        }
        k = k + 1;
    }
    proof {
        lemma_find_message_index_from_scan(old_msgs, message_id, n as int);
    }
    false
}

/// The message list after removing, for each id in order, the first message
/// that carries it; an id without a match removes nothing.
pub open spec fn remove_messages_view(messages: Seq<MessageView>, ids: Seq<u64>) -> Seq<MessageView>
    decreases ids.len(),
{
    if ids.len() == 0 {
        messages
    } else {
        let once = (match find_message_index(messages, ids[0]) {
            Some(i) => messages.remove(i),
            None => messages,
        });
        remove_messages_view(once, ids.skip(1))
    }
}

/// Mapping to views commutes with removing one element.
proof fn lemma_messages_view_remove(messages: Seq<Message>, i: int)
    requires
        0 <= i < messages.len(),
    ensures
        messages_view(messages.remove(i)) == messages_view(messages).remove(i),
{
    assert(messages_view(messages.remove(i)) =~= messages_view(messages).remove(i));
}

/// Removes the first message with the given id, if one is there.
fn remove_first_message(messages: &mut Vec<Message>, message_id: u64)
    ensures
        messages_view(final(messages)@) == (match find_message_index(
            messages_view(old(messages)@),
            message_id,
        ) {
            Some(i) => messages_view(old(messages)@).remove(i),
            None => messages_view(old(messages)@),
        }),
{
    let ghost msgs = messages_view(messages@);
    let n = messages.len();
    let mut k: usize = 0;
    while k < n
        invariant
            n == messages.len(),
            messages@ == old(messages)@,
            msgs == messages_view(messages@),
            0 <= k <= n,
            forall|j: int| 0 <= j < k ==> msgs[j].id != message_id,
        decreases n - k,
    {
        if messages[k].id == message_id {
            proof {
                lemma_find_message_index_from_scan(msgs, message_id, k as int);
                lemma_messages_view_remove(messages@, k as int);
            }
            messages.remove(k);
            return ;
        }
        k = k + 1;
    }
    proof {
        lemma_find_message_index_from_scan(msgs, message_id, n as int);
    }
}

/// Removes, for each id in order, the first message that carries it.
pub fn delete_messages(messages: &mut Vec<Message>, message_ids: &Vec<u64>)
    ensures
        messages_view(final(messages)@) == remove_messages_view(
            messages_view(old(messages)@),
            message_ids@,
        ),
{
    let n = message_ids.len();
    let mut k: usize = 0;
    proof {
        assert(message_ids@.skip(0) =~= message_ids@);
    }
    while k < n
        invariant
            n == message_ids.len(),
            remove_messages_view(messages_view(messages@), message_ids@.skip(k as int))
                == remove_messages_view(messages_view(old(messages)@), message_ids@),
            0 <= k <= n,
        decreases n - k,
    {
        let ghost before = messages_view(messages@);
        let ghost ids_rest = message_ids@.skip(k as int);
        remove_first_message(messages, message_ids[k]);
        proof {
            assert(ids_rest[0] == message_ids@[k as int]);
            assert(ids_rest.skip(1) =~= message_ids@.skip(k as int + 1));
            assert(remove_messages_view(before, ids_rest) == remove_messages_view(
                messages_view(messages@),
                ids_rest.skip(1),
            ));
        }
        k = k + 1;
    }
    proof {
        assert(message_ids@.skip(n as int) =~= Seq::<u64>::empty());
    }
}

/// The mode a generation request runs in; each mode maps to one fixed
/// wire token.
#[derive(Clone, Copy, Debug, PartialEq, Eq, Structural)]
pub enum GenerationMode {
    New,
    Suggestion,
    SummaryFull,
    SummaryLast,
    Alternative,
}

/// The wire token of each generation mode.
pub open spec fn spec_mode_token(mode: GenerationMode) -> Seq<char> {
    match mode {
        GenerationMode::New => "NEW"@,
        GenerationMode::Alternative => "ALTERNATIVE"@,
        GenerationMode::Suggestion => "SUGGESTION"@,
        GenerationMode::SummaryFull => "SUMMARY_FULL"@,
        GenerationMode::SummaryLast => "SUMMARY_LAST"@,
    }
}

impl GenerationMode {
    /// The upper-case token this mode sends to the server.
    pub fn token(&self) -> (r: String)
        ensures
            r@ == spec_mode_token(*self),
    {
        match self {
            GenerationMode::New => String::from_str("NEW"),
            GenerationMode::Alternative => String::from_str("ALTERNATIVE"),
            GenerationMode::Suggestion => String::from_str("SUGGESTION"),
            GenerationMode::SummaryFull => String::from_str("SUMMARY_FULL"),
            GenerationMode::SummaryLast => String::from_str("SUMMARY_LAST"),
        }
    }
}

/// Checks the one documented precondition of a generation request and fixes
/// the mode default: a `Suggestion` request together with a prior message of
/// more than 20 characters is refused as `ValidationError`; every other
/// combination passes, with a missing mode standing for `New`.
pub fn validate_generation(mode: Option<GenerationMode>, message: Option<&Message>) -> (r: Result<
    GenerationMode,
    HampterError,
>)
    ensures
        ({
            let m = (match mode {
                Some(m) => m,
                None => GenerationMode::New,
            });
            if m == GenerationMode::Suggestion && (message matches Some(msg) && msg@.message.len()
                > 20) {
                r == Err::<GenerationMode, HampterError>(HampterError::ValidationError)
            } else {
                r == Ok::<GenerationMode, HampterError>(m)
            }
        }),
{
    let m = match mode {
        Some(m) => m,
        None => GenerationMode::New,
    };
    let too_long = match message {
        Some(msg) => msg.message.as_str().unicode_len() > 20,
        None => false,
    };
    if m == GenerationMode::Suggestion && too_long {
        Err(HampterError::ValidationError)
    } else {
        Ok(m)
    }
}

} // verus!
