use vstd::prelude::*;

use crate::error::{is_validation_error, AppError};
use crate::interop::{uuid_from_text, uuid_value};
use crate::models::{
    role_name, title_rule, CreateConversationRequest, Message, SendMessageRequest, MAX_CONTENT_CHARS,
};
use crate::openrouter::{OpenRouterError, OpenRouterMessage};
use crate::text::{is_blank, trim, trimmed};

verus! {

/// The conversation identifier of a request path, given what the UUID
/// parser made of it.
pub fn conversation_id_from(parsed: Option<u128>) -> (res: Result<u128, AppError>)
    ensures
        parsed matches Some(id) ==> res == Ok::<u128, AppError>(id),
        parsed is None ==> is_validation_error(res, "conversation_id must be a UUID"@),
{
    match parsed {
        Some(id) => Ok(id),
        None => Err(AppError::validation("conversation_id must be a UUID".to_owned())),
    }
}

/// Reads the conversation identifier of a request path.
pub fn parse_uuid(value: &str) -> (res: Result<u128, AppError>)
    ensures
        uuid_value(value@) matches Some(id) ==> res == Ok::<u128, AppError>(id),
        uuid_value(value@) is None ==> is_validation_error(res, "conversation_id must be a UUID"@),
{
    conversation_id_from(uuid_from_text(value))
}

/// The error for a request body that is not the JSON expected, where
/// `detail` says why.
pub fn invalid_json(detail: &str) -> (res: AppError)
    ensures
        is_validation_error(Err::<(), AppError>(res), "invalid JSON body: "@ + detail@),
{
    let mut message = "invalid JSON body: ".to_owned();
    message.append(detail);
    AppError::validation(message)
}

/// A stored message as the model sees it: its role name and its text.
pub open spec fn model_entry(m: Message) -> (Seq<char>, Seq<char>) {
    (role_name(m.role), m.content@)
}

/// Messages for the model, as role names and texts.
pub open spec fn entries(ms: Seq<OpenRouterMessage>) -> Seq<(Seq<char>, Seq<char>)> {
    ms.map_values(|o: OpenRouterMessage| (o.role@, o.content@))
}

/// Stored messages as the model sees them.
pub open spec fn model_entries(ms: Seq<Message>) -> Seq<(Seq<char>, Seq<char>)> {
    ms.map_values(|m: Message| model_entry(m))
}

/// A stored message as the model sees it.
pub fn model_message(m: &Message) -> (res: OpenRouterMessage)
    ensures
        (res.role@, res.content@) == model_entry(*m),
{
    OpenRouterMessage { role: m.role.as_str().to_owned(), content: m.content.clone() }
}

/// Stored messages as the model sees them, in the same order.
pub fn to_openrouter_messages(messages: Vec<Message>) -> (res: Vec<OpenRouterMessage>)
    ensures
        entries(res@) == model_entries(messages@),
{
    let mut res: Vec<OpenRouterMessage> = Vec::new();
    let n = messages.len();
    let mut i: usize = 0;
    while i < n
        invariant
            n == messages@.len(),
            i <= n,
            entries(res@) == model_entries(messages@.take(i as int)),
        decreases n - i,
    {
        let ghost before = res@;
        res.push(model_message(&messages[i]));
        assert(entries(res@) =~= entries(before).push(model_entry(messages@[i as int])));
        assert(model_entries(messages@.take(i + 1)) =~= model_entries(messages@.take(i as int)).push(
            model_entry(messages@[i as int]),
        ));
        i = i + 1;
    }
    assert(messages@.take(n as int) =~= messages@);
    res
}


/// How the assistant's answer to a message is delivered: whole, in the
/// response, or relayed piece by piece as server-sent events.
#[derive(Debug, Clone, Copy, PartialEq, Eq, Structural)]
pub enum TurnKind {
    Reply,
    Stream,
}

/// Where a conversation turn (a user's message and the assistant's
/// answer) stands.
#[derive(Debug)]
pub enum TurnState {
    /// Waiting for the conversation's messages so far.
    LoadingHistory { kind: TurnKind, conversation_id: u128, content: String },
    /// Waiting for the user's message to be stored.
    SavingPrompt { kind: TurnKind, conversation_id: u128, content: String, history: Vec<Message> },
    /// Waiting for the conversation's title to be settled.
    Retitling { kind: TurnKind, conversation_id: u128, history: Vec<Message>, prompt: Message },
    /// Waiting for the model's whole answer.
    AwaitingReply { conversation_id: u128, prompt: Message },
    /// Waiting for the model's answer to be stored.
    SavingReply { prompt: Message },
    /// Waiting for the model's answer stream to open.
    OpeningStream { conversation_id: u128 },
    /// Relaying the model's answer; `reply` is what arrived so far.
    Relaying { conversation_id: u128, reply: String },
    /// Waiting for the relayed answer to be stored.
    SavingStreamedReply,
    /// Nothing more happens.
    Finished,
}

/// What happened outside since the last step.
#[derive(Debug)]
pub enum TurnEvent {
    HistoryLoaded(Result<Vec<Message>, AppError>),
    PromptSaved(Result<Message, AppError>),
    Retitled(Result<(), AppError>),
    ReplyReceived(Result<String, OpenRouterError>),
    StreamOpened(Result<(), OpenRouterError>),
    ChunkReceived(Result<String, OpenRouterError>),
    StreamEnded,
    ReplySaved(Result<Message, AppError>),
}

/// What the server does next.
#[derive(Debug)]
pub enum TurnAction {
    /// List the conversation's messages (failing if it does not exist).
    LoadHistory { conversation_id: u128 },
    /// Store the user's message in the conversation.
    SavePrompt { conversation_id: u128, content: String },
    /// Store the assistant's answer in the conversation.
    SaveReply { conversation_id: u128, content: String },
    /// Give the conversation a title from its first message, if it has none yet.
    Retitle { conversation_id: u128, content: String },
    /// Ask the model for a whole answer to `messages`.
    RequestReply { messages: Vec<OpenRouterMessage> },
    /// Ask the model for an answer to `messages`, streamed.
    OpenStream { messages: Vec<OpenRouterMessage> },
    /// Answer the request with both stored messages.
    Respond { user_message: Message, assistant_message: Message },
    /// Answer the request with an error.
    Reject(AppError),
    /// Answer the request with an event stream.
    StartStream,
    /// Send a piece of the answer as a `chunk` event.
    EmitChunk(String),
    /// Send an `error` event and end the stream.
    EmitError(String),
    /// Send the `done` event and end the stream.
    EmitDone,
    /// The event did not fit the state; nothing happens.
    Ignore,
}

/// `action` answers the request with the validation error `msg`.
pub open spec fn rejects_invalid(action: TurnAction, msg: Seq<char>) -> bool {
    action matches TurnAction::Reject(e) && is_validation_error(Err::<(), AppError>(e), msg)
}

/// The first step of a turn, given what the UUID parser made of the path's
/// conversation identifier and the request body (or why it could not be
/// read): the identifier, then the body, then the content are checked.
pub open spec fn turn_begins(
    kind: TurnKind,
    parsed_id: Option<u128>,
    body: Result<SendMessageRequest, String>,
    next: TurnState,
    action: TurnAction,
) -> bool {
    match parsed_id {
        None => next is Finished && rejects_invalid(action, "conversation_id must be a UUID"@,
        ),
        Some(id) => match body {
            Err(detail) => next is Finished && rejects_invalid(action, "invalid JSON body: "@ + detail@,
            ),
            Ok(request) => {
                let c = trim(request.content@);
                if c.len() == 0 {
                    next is Finished && rejects_invalid(action, "content is required"@,
                    )
                } else if c.len() > MAX_CONTENT_CHARS {
                    next is Finished && rejects_invalid(action, "content must be 16000 characters or fewer"@,
                    )
                } else {
                    &&& next matches TurnState::LoadingHistory { kind: k, conversation_id, content }
                    &&& k == kind && conversation_id == id && content@ == c
                    &&& action == TurnAction::LoadHistory { conversation_id: id }
                }
            },
        },
    }
}


/// The first step of a turn, given what the UUID parser made of the path's
/// conversation identifier.
pub fn begin_turn(
    kind: TurnKind,
    parsed_id: Option<u128>,
    body: Result<SendMessageRequest, String>,
) -> (res: (TurnState, TurnAction))
    ensures
        turn_begins(kind, parsed_id, body, res.0, res.1),
        match (parsed_id, body) {
            (Some(id), Ok(request)) => {
                &&& 0 < trim(request.content@).len() <= 16000 ==> (res.0 matches TurnState::LoadingHistory {
                    kind: k,
                    conversation_id,
                    content,
                } && k == kind && conversation_id == id && content@ == trim(request.content@))
                &&& 0 < trim(request.content@).len() <= 16000 ==> res.1 == (TurnAction::LoadHistory {
                    conversation_id: id,
                })
                &&& !(0 < trim(request.content@).len() <= 16000) ==> (res.0 is Finished
                    && res.1 is Reject)
            },
            _ => res.0 is Finished && res.1 is Reject,
        },
{
    let conversation_id = match conversation_id_from(parsed_id) {
        Ok(id) => id,
        Err(e) => return (TurnState::Finished, TurnAction::Reject(e)),
    };
    let request = match body {
        Ok(request) => request,
        Err(detail) => return (TurnState::Finished, TurnAction::Reject(invalid_json(detail.as_str()))),
    };
    match request.validated_content() {
        Ok(content) => (
            TurnState::LoadingHistory { kind, conversation_id, content },
            TurnAction::LoadHistory { conversation_id },
        ),
        Err(e) => (TurnState::Finished, TurnAction::Reject(e)),
    }
}

/// The first step of a turn for the request path's conversation
/// identifier `conversation_id` and the request body (or why it could not
/// be read).
pub fn start_turn(
    kind: TurnKind,
    conversation_id: &str,
    body: Result<SendMessageRequest, String>,
) -> (res: (TurnState, TurnAction))
    ensures
        turn_begins(kind, uuid_value(conversation_id@), body, res.0, res.1),
{
    begin_turn(kind, uuid_from_text(conversation_id), body)
}

/// `action` sends an `error` event with the text `msg` and `next` is the end.
pub open spec fn ends_with_error(next: TurnState, action: TurnAction, msg: Seq<char>) -> bool {
    &&& next is Finished
    &&& action matches TurnAction::EmitError(t) && t@ == msg
}

/// `action` asks the model (whole or streamed, after `kind`) about the
/// history followed by the user's message.
pub open spec fn asks_model(kind: TurnKind, action: TurnAction, history: Seq<Message>, prompt: Message) -> bool {
    match kind {
        TurnKind::Reply => action matches TurnAction::RequestReply { messages } && entries(messages@)
            == model_entries(history.push(prompt)),
        TurnKind::Stream => action matches TurnAction::OpenStream { messages } && entries(messages@)
            == model_entries(history.push(prompt)),
    }
}

/// `action` stores the text `text` as the assistant's answer in the
/// conversation `conversation_id`.
pub open spec fn saves_reply(action: TurnAction, conversation_id: u128, text: Seq<char>) -> bool {
    action matches TurnAction::SaveReply { conversation_id: c, content }
        && c == conversation_id && content@ == text
}

/// One step of a turn: from `state` and `event` to `next` and `action`.
pub open spec fn turn_step(state: TurnState, event: TurnEvent, next: TurnState, action: TurnAction) -> bool {
    match (state, event) {
        (
            TurnState::LoadingHistory { kind, conversation_id, content },
            TurnEvent::HistoryLoaded(Ok(history)),
        ) => {
            &&& next == TurnState::SavingPrompt { kind, conversation_id, content, history }
            &&& action == TurnAction::SavePrompt { conversation_id, content }
        },
        (
            TurnState::SavingPrompt { kind, conversation_id, content, history },
            TurnEvent::PromptSaved(Ok(prompt)),
        ) => {
            &&& next == TurnState::Retitling { kind, conversation_id, history, prompt }
            &&& action == TurnAction::Retitle { conversation_id, content }
        },
        (
            TurnState::Retitling { kind, conversation_id, history, prompt },
            TurnEvent::Retitled(Ok(())),
        ) => {
            &&& kind == TurnKind::Reply ==> next == TurnState::AwaitingReply { conversation_id, prompt }
            &&& kind == TurnKind::Stream ==> next == TurnState::OpeningStream { conversation_id }
            &&& asks_model(kind, action, history@, prompt)
        },
        (TurnState::LoadingHistory { .. }, TurnEvent::HistoryLoaded(Err(e)))
        | (TurnState::SavingPrompt { .. }, TurnEvent::PromptSaved(Err(e)))
        | (TurnState::Retitling { .. }, TurnEvent::Retitled(Err(e)))
        | (TurnState::SavingReply { .. }, TurnEvent::ReplySaved(Err(e))) => {
            next is Finished && action == TurnAction::Reject(e)
        },
        (TurnState::AwaitingReply { .. }, TurnEvent::ReplyReceived(Err(e)))
        | (TurnState::OpeningStream { .. }, TurnEvent::StreamOpened(Err(e))) => {
            next is Finished && action == TurnAction::Reject(AppError::Upstream { source: e })
        },
        (
            TurnState::AwaitingReply { conversation_id, prompt },
            TurnEvent::ReplyReceived(Ok(text)),
        ) => {
            &&& next == TurnState::SavingReply { prompt }
            &&& saves_reply(action, conversation_id, trim(text@))
        },
        (TurnState::SavingReply { prompt }, TurnEvent::ReplySaved(Ok(reply))) => {
            &&& next is Finished
            &&& action == TurnAction::Respond { user_message: prompt, assistant_message: reply }
        },
        (TurnState::OpeningStream { conversation_id }, TurnEvent::StreamOpened(Ok(()))) => {
            &&& next matches TurnState::Relaying { conversation_id: c, reply }
            &&& c == conversation_id && reply@ == Seq::<char>::empty()
            &&& action is StartStream
        },
        (
            TurnState::Relaying { conversation_id, reply },
            TurnEvent::ChunkReceived(Ok(chunk)),
        ) => {
            &&& next matches TurnState::Relaying { conversation_id: c, reply: r }
            &&& c == conversation_id && r@ == reply@ + chunk@
            &&& action == TurnAction::EmitChunk(chunk)
        },
        (TurnState::Relaying { .. }, TurnEvent::ChunkReceived(Err(e))) => {
            ends_with_error(next, action, e.spec_message())
        },
        (TurnState::Relaying { conversation_id, reply }, TurnEvent::StreamEnded) => {
            if trim(reply@).len() == 0 {
                next is Finished && action is EmitDone
            } else {
                next is SavingStreamedReply && saves_reply(action, conversation_id, trim(reply@))
            }
        },
        (TurnState::SavingStreamedReply, TurnEvent::ReplySaved(Ok(_))) => {
            next is Finished && action is EmitDone
        },
        (TurnState::SavingStreamedReply, TurnEvent::ReplySaved(Err(e))) => {
            ends_with_error(next, action, e.spec_message())
        },
        _ => next == state && action is Ignore,
    }
}

/// Takes a turn one step on: decides what follows `event` in `state`.
pub fn advance(state: TurnState, event: TurnEvent) -> (res: (TurnState, TurnAction))
    ensures
        turn_step(state, event, res.0, res.1),
{
    match (state, event) {
        (
            TurnState::LoadingHistory { kind, conversation_id, content },
            TurnEvent::HistoryLoaded(loaded),
        ) => match loaded {
            Ok(history) => {
                let action = TurnAction::SavePrompt { conversation_id, content: content.clone() };
                (TurnState::SavingPrompt { kind, conversation_id, content, history }, action)
            },
            Err(e) => (TurnState::Finished, TurnAction::Reject(e)),
        },
        (
            TurnState::SavingPrompt { kind, conversation_id, content, history },
            TurnEvent::PromptSaved(saved),
        ) => match saved {
            Ok(prompt) => (
                TurnState::Retitling { kind, conversation_id, history, prompt },
                TurnAction::Retitle { conversation_id, content },
            ),
            Err(e) => (TurnState::Finished, TurnAction::Reject(e)),
        },
        (
            TurnState::Retitling { kind, conversation_id, history, prompt },
            TurnEvent::Retitled(done),
        ) => match done {
            Ok(()) => {
                let mut messages = to_openrouter_messages(history);
                let ghost before = messages@;
                messages.push(model_message(&prompt));
                assert(entries(messages@) =~= entries(before).push(model_entry(prompt)));
                assert(model_entries(history@.push(prompt)) =~= model_entries(history@).push(
                    model_entry(prompt),
                ));
                match kind {
                    TurnKind::Reply => (
                        TurnState::AwaitingReply { conversation_id, prompt },
                        TurnAction::RequestReply { messages },
                    ),
                    TurnKind::Stream => (
                        TurnState::OpeningStream { conversation_id },
                        TurnAction::OpenStream { messages },
                    ),
                }
            },
            Err(e) => (TurnState::Finished, TurnAction::Reject(e)),
        },
        (
            TurnState::AwaitingReply { conversation_id, prompt },
            TurnEvent::ReplyReceived(received),
        ) => match received {
            Ok(text) => (
                TurnState::SavingReply { prompt },
                TurnAction::SaveReply { conversation_id, content: trimmed(text.as_str()) },
            ),
            Err(e) => (TurnState::Finished, TurnAction::Reject(AppError::Upstream { source: e })),
        },
        (TurnState::SavingReply { prompt }, TurnEvent::ReplySaved(saved)) => match saved {
            Ok(reply) => (
                TurnState::Finished,
                TurnAction::Respond { user_message: prompt, assistant_message: reply },
            ),
            Err(e) => (TurnState::Finished, TurnAction::Reject(e)),
        },
        (TurnState::OpeningStream { conversation_id }, TurnEvent::StreamOpened(opened)) => match opened {
            Ok(()) => (
                TurnState::Relaying { conversation_id, reply: String::new() },
                TurnAction::StartStream,
            ),
            Err(e) => (TurnState::Finished, TurnAction::Reject(AppError::Upstream { source: e })),
        },
        (TurnState::Relaying { conversation_id, reply }, TurnEvent::ChunkReceived(received)) => match received {
            Ok(chunk) => {
                let mut reply = reply;
                reply.append(chunk.as_str());
                (TurnState::Relaying { conversation_id, reply }, TurnAction::EmitChunk(chunk))
            },
            Err(e) => (TurnState::Finished, TurnAction::EmitError(e.message())),
        },
        (TurnState::Relaying { conversation_id, reply }, TurnEvent::StreamEnded) => {
            if is_blank(reply.as_str()) {
                (TurnState::Finished, TurnAction::EmitDone)
            } else {
                (
                    TurnState::SavingStreamedReply,
                    TurnAction::SaveReply { conversation_id, content: trimmed(reply.as_str()) },
                )
            }
        },
        (TurnState::SavingStreamedReply, TurnEvent::ReplySaved(saved)) => match saved {
            Ok(_) => (TurnState::Finished, TurnAction::EmitDone),
            Err(e) => (TurnState::Finished, TurnAction::EmitError(e.message())),
        },
        (state, _) => (state, TurnAction::Ignore),
    }
}


/// The title of a conversation to be opened, from the request body (or why
/// it could not be read): an unreadable body is refused first, then the
/// title rule applies.
pub fn new_conversation_title(body: Result<CreateConversationRequest, String>) -> (res: Result<
    String,
    AppError,
>)
    ensures
        body matches Err(detail) ==> is_validation_error(res, "invalid JSON body: "@ + detail@),
        body matches Ok(request) ==> {
            &&& title_rule(request.title) matches Some(t) ==> (res matches Ok(r) && r@ == t)
            &&& title_rule(request.title) is None ==> is_validation_error(
                res,
                "title must be 120 characters or fewer"@,
            )
        },
{
    match body {
        Ok(request) => request.validated_title(),
        Err(detail) => Err(invalid_json(detail.as_str())),
    }
}


/// A turn answered whole, with every step succeeding, stores the user's
/// message, titles the conversation from it, asks the model about the
/// history followed by that message, stores the trimmed answer, and
/// answers with both stored messages.
pub proof fn lemma_reply_turn(
    conversation_id: u128,
    content: String,
    history: Vec<Message>,
    prompt: Message,
    text: String,
    reply: Message,
    states: Seq<TurnState>,
    actions: Seq<TurnAction>,
)
    requires
        states.len() == 6,
        actions.len() == 5,
        states[0] == (TurnState::LoadingHistory { kind: TurnKind::Reply, conversation_id, content }),
        turn_step(states[0], TurnEvent::HistoryLoaded(Ok(history)), states[1], actions[0]),
        turn_step(states[1], TurnEvent::PromptSaved(Ok(prompt)), states[2], actions[1]),
        turn_step(states[2], TurnEvent::Retitled(Ok(())), states[3], actions[2]),
        turn_step(states[3], TurnEvent::ReplyReceived(Ok(text)), states[4], actions[3]),
        turn_step(states[4], TurnEvent::ReplySaved(Ok(reply)), states[5], actions[4]),
    ensures
        actions[0] == (TurnAction::SavePrompt { conversation_id, content }),
        actions[1] == (TurnAction::Retitle { conversation_id, content }),
        asks_model(TurnKind::Reply, actions[2], history@, prompt),
        saves_reply(actions[3], conversation_id, trim(text@)),
        actions[4] == (TurnAction::Respond { user_message: prompt, assistant_message: reply }),
        states[5] is Finished,
{
}

/// A streamed turn, with every step succeeding, stores the user's message,
/// titles the conversation from it, asks the model for a stream about the
/// history followed by that message, and once the stream opens answers the
/// request with an event stream and starts relaying with nothing received.
pub proof fn lemma_stream_turn_opens(
    conversation_id: u128,
    content: String,
    history: Vec<Message>,
    prompt: Message,
    states: Seq<TurnState>,
    actions: Seq<TurnAction>,
)
    requires
        states.len() == 5,
        actions.len() == 4,
        states[0] == (TurnState::LoadingHistory { kind: TurnKind::Stream, conversation_id, content }),
        turn_step(states[0], TurnEvent::HistoryLoaded(Ok(history)), states[1], actions[0]),
        turn_step(states[1], TurnEvent::PromptSaved(Ok(prompt)), states[2], actions[1]),
        turn_step(states[2], TurnEvent::Retitled(Ok(())), states[3], actions[2]),
        turn_step(states[3], TurnEvent::StreamOpened(Ok(())), states[4], actions[3]),
    ensures
        actions[0] == (TurnAction::SavePrompt { conversation_id, content }),
        actions[1] == (TurnAction::Retitle { conversation_id, content }),
        asks_model(TurnKind::Stream, actions[2], history@, prompt),
        actions[3] is StartStream,
        states[4] matches TurnState::Relaying { conversation_id: c, reply } && c == conversation_id
            && reply@ == Seq::<char>::empty(),
{
}

/// A turn begins exactly when the path names a conversation, the body was
/// read, and its content trims to between one and sixteen thousand
/// characters: it then waits for the conversation's history, carrying the
/// trimmed content; otherwise it answers with an error at once.
pub proof fn lemma_turn_begins_on_valid_content(
    kind: TurnKind,
    parsed_id: Option<u128>,
    body: Result<SendMessageRequest, String>,
    next: TurnState,
    action: TurnAction,
)
    requires
        turn_begins(kind, parsed_id, body, next, action),
    ensures
        match (parsed_id, body) {
            (Some(id), Ok(request)) => {
                &&& 0 < trim(request.content@).len() <= 16000 ==> (next matches TurnState::LoadingHistory {
                    kind: k,
                    conversation_id,
                    content,
                } && k == kind && conversation_id == id && content@ == trim(request.content@))
                &&& 0 < trim(request.content@).len() <= 16000 ==> action == (TurnAction::LoadHistory {
                    conversation_id: id,
                })
                &&& !(0 < trim(request.content@).len() <= 16000) ==> (next is Finished
                    && action is Reject)
            },
            _ => next is Finished && action is Reject,
        },
{
}

/// Once the title is settled, the model is asked about the whole stored
/// history, every message in its order as its role name and text, followed
/// by the user's new message; a whole answer for a reply turn, a stream for
/// a streamed one.
pub proof fn lemma_model_asked_whole_history(
    state: TurnState,
    next: TurnState,
    action: TurnAction,
)
    requires
        turn_step(state, TurnEvent::Retitled(Ok(())), next, action),
        state is Retitling,
    ensures
        match state {
            TurnState::Retitling { kind, history, prompt, .. } => {
                &&& kind == TurnKind::Reply ==> (action matches TurnAction::RequestReply { messages }
                    && messages@.len() == history@.len() + 1 && (forall|i: int|
                    0 <= i < history@.len() ==> (#[trigger] messages@[i]).role@ == role_name(
                        history@[i].role,
                    ) && messages@[i].content@ == history@[i].content@)
                    && messages@[history@.len() as int].role@ == role_name(prompt.role)
                    && messages@[history@.len() as int].content@ == prompt.content@)
                &&& kind == TurnKind::Stream ==> (action matches TurnAction::OpenStream { messages }
                    && messages@.len() == history@.len() + 1 && (forall|i: int|
                    0 <= i < history@.len() ==> (#[trigger] messages@[i]).role@ == role_name(
                        history@[i].role,
                    ) && messages@[i].content@ == history@[i].content@)
                    && messages@[history@.len() as int].role@ == role_name(prompt.role)
                    && messages@[history@.len() as int].content@ == prompt.content@)
            },
            _ => true,
        },
{
    match state {
        TurnState::Retitling { kind, history, prompt, .. } => {
            let m = model_entries(history@.push(prompt));
            assert(m.len() == history@.len() + 1);
            match action {
                TurnAction::RequestReply { messages } | TurnAction::OpenStream { messages } => {
                    if asks_model(kind, action, history@, prompt) {
                        let e = entries(messages@);
                        assert(e.len() == messages@.len());
                        assert forall|i: int| 0 <= i < history@.len() implies (
                        #[trigger] messages@[i]).role@ == role_name(history@[i].role)
                            && messages@[i].content@ == history@[i].content@ by {
                            assert(e[i] == m[i]);
                            assert(history@.push(prompt)[i] == history@[i]);
                        }
                        assert(e[history@.len() as int] == m[history@.len() as int]);
                    }
                },
                _ => {},
            }
        },
        _ => {},
    }
}

/// The text of `chunks` one after the other.
pub open spec fn joined(chunks: Seq<String>) -> Seq<char>
    decreases chunks.len(),
{
    if chunks.len() == 0 {
        seq![]
    } else {
        joined(chunks.drop_last()) + chunks.last()@
    }
}

/// While an answer is relayed, every piece is passed on as it comes and
/// the answer so far is all the pieces one after the other; when the
/// stream ends, that text, trimmed, is stored unless it is blank.
pub proof fn lemma_relay(
    conversation_id: u128,
    chunks: Seq<String>,
    states: Seq<TurnState>,
    actions: Seq<TurnAction>,
    end: TurnState,
    last: TurnAction,
)
    requires
        states.len() == chunks.len() + 1,
        actions.len() == chunks.len(),
        states[0] matches TurnState::Relaying { conversation_id: c, reply } && c == conversation_id
            && reply@ == Seq::<char>::empty(),
        forall|i: int|
            0 <= i < chunks.len() ==> turn_step(
                #[trigger] states[i],
                TurnEvent::ChunkReceived(Ok(chunks[i])),
                states[i + 1],
                actions[i],
            ),
        turn_step(states[chunks.len() as int], TurnEvent::StreamEnded, end, last),
    ensures
        forall|i: int| 0 <= i < chunks.len() ==> #[trigger] actions[i] == TurnAction::EmitChunk(chunks[i]),
        states[chunks.len() as int] matches TurnState::Relaying { conversation_id: c, reply }
            && c == conversation_id && reply@ == joined(chunks),
        trim(joined(chunks)).len() == 0 ==> (end is Finished && last is EmitDone),
        trim(joined(chunks)).len() > 0 ==> (end is SavingStreamedReply && saves_reply(
            last,
            conversation_id,
            trim(joined(chunks)),
        )),
{
    lemma_relay_prefix(conversation_id, chunks, states, actions, chunks.len() as int);
    assert(chunks.take(chunks.len() as int) =~= chunks);
}

proof fn lemma_relay_prefix(
    conversation_id: u128,
    chunks: Seq<String>,
    states: Seq<TurnState>,
    actions: Seq<TurnAction>,
    n: int,
)
    requires
        0 <= n <= chunks.len(),
        states.len() == chunks.len() + 1,
        actions.len() == chunks.len(),
        states[0] matches TurnState::Relaying { conversation_id: c, reply } && c == conversation_id
            && reply@ == Seq::<char>::empty(),
        forall|i: int|
            0 <= i < chunks.len() ==> turn_step(
                #[trigger] states[i],
                TurnEvent::ChunkReceived(Ok(chunks[i])),
                states[i + 1],
                actions[i],
            ),
    ensures
        forall|i: int| 0 <= i < n ==> #[trigger] actions[i] == TurnAction::EmitChunk(chunks[i]),
        states[n] matches TurnState::Relaying { conversation_id: c, reply } && c == conversation_id
            && reply@ == joined(chunks.take(n)),
    decreases n,
{
    if n == 0 {
        assert(chunks.take(0) =~= Seq::<String>::empty());
    } else {
        lemma_relay_prefix(conversation_id, chunks, states, actions, n - 1);
        assert(turn_step(
            states[n - 1],
            TurnEvent::ChunkReceived(Ok(chunks[n - 1])),
            states[n],
            actions[n - 1],
        ));
        assert(chunks.take(n).drop_last() =~= chunks.take(n - 1));
        assert(chunks.take(n).last() == chunks[n - 1]);
    }
}

} // verus!
