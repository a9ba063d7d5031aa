use gpt_copy_v5_backend::error::AppError;
use gpt_copy_v5_backend::models::{Message, MessageRole, SendMessageRequest, Timestamp};
use gpt_copy_v5_backend::openrouter::{OpenRouterError, OpenRouterMessage};
use gpt_copy_v5_backend::routes::{
    advance, begin_turn, new_conversation_title, parse_uuid, start_turn, to_openrouter_messages, TurnAction,
    TurnEvent, TurnKind, TurnState,
};

const ID_TEXT: &str = "67e55044-10b1-426f-9247-bb680e5fe0c8";
const ID: u128 = 0x67e5504410b1426f9247bb680e5fe0c8;

fn at(secs: i64) -> Timestamp {
    Timestamp { secs, nanos: 0 }
}

fn message(id: u128, role: MessageRole, content: &str) -> Message {
    Message { id, conversation_id: ID, role, content: content.to_owned(), created_at: at(id as i64) }
}

fn body(content: &str) -> Result<SendMessageRequest, String> {
    Ok(SendMessageRequest { content: content.to_owned() })
}

#[test]
fn conversation_ids_are_uuids() {
    assert_eq!(parse_uuid(ID_TEXT).unwrap(), ID);
    let error = parse_uuid("not-a-uuid").unwrap_err();
    assert_eq!(error.message(), "conversation_id must be a UUID");
    assert_eq!(error.status(), 400);
}

#[test]
fn new_conversation_titles() {
    assert_eq!(new_conversation_title(Ok(Default::default())).unwrap(), "New chat");
    let error = new_conversation_title(Err("expected value".to_owned())).unwrap_err();
    assert_eq!(error.message(), "invalid JSON body: expected value");
}

#[test]
fn model_sees_roles_and_texts_in_order() {
    let messages = vec![message(1, MessageRole::User, "hi"), message(2, MessageRole::Assistant, "hello")];
    assert_eq!(
        to_openrouter_messages(messages),
        vec![
            OpenRouterMessage { role: "user".to_owned(), content: "hi".to_owned() },
            OpenRouterMessage { role: "assistant".to_owned(), content: "hello".to_owned() },
        ]
    );
}

#[test]
fn bad_requests_are_rejected_in_order() {
    let (state, action) = start_turn(TurnKind::Reply, "nope", Err("broken".to_owned()));
    assert!(matches!(state, TurnState::Finished));
    match action {
        TurnAction::Reject(e) => assert_eq!(e.message(), "conversation_id must be a UUID"),
        other => panic!("{other:?}"),
    }
    let (_, action) = start_turn(TurnKind::Reply, ID_TEXT, Err("broken".to_owned()));
    match action {
        TurnAction::Reject(e) => assert_eq!(e.message(), "invalid JSON body: broken"),
        other => panic!("{other:?}"),
    }
    let (_, action) = start_turn(TurnKind::Stream, ID_TEXT, body("   "));
    match action {
        TurnAction::Reject(e) => assert_eq!(e.message(), "content is required"),
        other => panic!("{other:?}"),
    }
}

#[test]
fn send_message_uses_mock_openrouter_and_saves_both_messages() {
    let (state, action) = start_turn(TurnKind::Reply, ID_TEXT, body("Hello model"));
    assert!(matches!(action, TurnAction::LoadHistory { conversation_id } if conversation_id == ID));
    let (state, action) = advance(state, TurnEvent::HistoryLoaded(Ok(vec![])));
    match &action {
        TurnAction::SavePrompt { conversation_id, content } => {
            assert_eq!(*conversation_id, ID);
            assert_eq!(content, "Hello model");
        },
        other => panic!("{other:?}"),
    }
    let user = message(10, MessageRole::User, "Hello model");
    let (state, action) = advance(state, TurnEvent::PromptSaved(Ok(user.clone())));
    assert!(matches!(&action, TurnAction::Retitle { content, .. } if content == "Hello model"));
    let (state, action) = advance(state, TurnEvent::Retitled(Ok(())));
    match &action {
        TurnAction::RequestReply { messages } => {
            assert_eq!(messages.len(), 1);
            assert_eq!(messages.last().unwrap().content, "Hello model");
        },
        other => panic!("{other:?}"),
    }
    let (state, action) =
        advance(state, TurnEvent::ReplyReceived(Ok("  Mock assistant response \n".to_owned())));
    match &action {
        TurnAction::SaveReply { conversation_id, content } => {
            assert_eq!(*conversation_id, ID);
            assert_eq!(content, "Mock assistant response");
        },
        other => panic!("{other:?}"),
    }
    let assistant = message(11, MessageRole::Assistant, "Mock assistant response");
    let (state, action) = advance(state, TurnEvent::ReplySaved(Ok(assistant.clone())));
    assert!(matches!(state, TurnState::Finished));
    match action {
        TurnAction::Respond { user_message, assistant_message } => {
            assert_eq!(user_message, user);
            assert_eq!(user_message.role.as_str(), "user");
            assert_eq!(assistant_message.content, "Mock assistant response");
        },
        other => panic!("{other:?}"),
    }
}

#[test]
fn history_comes_before_the_new_message() {
    let (state, _) = start_turn(TurnKind::Reply, ID_TEXT, body("third"));
    let history = vec![message(1, MessageRole::User, "first"), message(2, MessageRole::Assistant, "second")];
    let (state, _) = advance(state, TurnEvent::HistoryLoaded(Ok(history)));
    let (state, _) = advance(state, TurnEvent::PromptSaved(Ok(message(3, MessageRole::User, "third"))));
    let (_, action) = advance(state, TurnEvent::Retitled(Ok(())));
    match action {
        TurnAction::RequestReply { messages } => {
            let texts: Vec<&str> = messages.iter().map(|m| m.content.as_str()).collect();
            assert_eq!(texts, vec!["first", "second", "third"]);
            let roles: Vec<&str> = messages.iter().map(|m| m.role.as_str()).collect();
            assert_eq!(roles, vec!["user", "assistant", "user"]);
        },
        other => panic!("{other:?}"),
    }
}

#[test]
fn stream_uses_mocked_openrouter_and_persists_assistant_reply() {
    let (state, _) = start_turn(TurnKind::Stream, ID_TEXT, body("What is up?"));
    let (state, _) = advance(state, TurnEvent::HistoryLoaded(Ok(vec![])));
    let (state, _) =
        advance(state, TurnEvent::PromptSaved(Ok(message(5, MessageRole::User, "What is up?"))));
    let (state, action) = advance(state, TurnEvent::Retitled(Ok(())));
    match &action {
        TurnAction::OpenStream { messages } => {
            assert_eq!(messages.len(), 1);
            assert_eq!(messages.last().unwrap().content, "What is up?");
        },
        other => panic!("{other:?}"),
    }
    let (state, action) = advance(state, TurnEvent::StreamOpened(Ok(())));
    assert!(matches!(action, TurnAction::StartStream));
    let (state, action) = advance(state, TurnEvent::ChunkReceived(Ok("Mocked ".to_owned())));
    assert!(matches!(&action, TurnAction::EmitChunk(c) if c == "Mocked "));
    let (state, action) = advance(state, TurnEvent::ChunkReceived(Ok("assistant reply".to_owned())));
    assert!(matches!(&action, TurnAction::EmitChunk(c) if c == "assistant reply"));
    let (state, action) = advance(state, TurnEvent::StreamEnded);
    match &action {
        TurnAction::SaveReply { conversation_id, content } => {
            assert_eq!(*conversation_id, ID);
            assert_eq!(content, "Mocked assistant reply");
        },
        other => panic!("{other:?}"),
    }
    let saved = message(6, MessageRole::Assistant, "Mocked assistant reply");
    let (state, action) = advance(state, TurnEvent::ReplySaved(Ok(saved)));
    assert!(matches!(state, TurnState::Finished));
    assert!(matches!(action, TurnAction::EmitDone));
}

#[test]
fn blank_stream_is_not_stored() {
    let (state, _) = start_turn(TurnKind::Stream, ID_TEXT, body("hi"));
    let (state, _) = advance(state, TurnEvent::HistoryLoaded(Ok(vec![])));
    let (state, _) = advance(state, TurnEvent::PromptSaved(Ok(message(5, MessageRole::User, "hi"))));
    let (state, _) = advance(state, TurnEvent::Retitled(Ok(())));
    let (state, _) = advance(state, TurnEvent::StreamOpened(Ok(())));
    let (state, _) = advance(state, TurnEvent::ChunkReceived(Ok("  ".to_owned())));
    let (state, action) = advance(state, TurnEvent::StreamEnded);
    assert!(matches!(state, TurnState::Finished));
    assert!(matches!(action, TurnAction::EmitDone));
}

#[test]
fn stream_failure_ends_with_error_event() {
    let (state, _) = start_turn(TurnKind::Stream, ID_TEXT, body("hi"));
    let (state, _) = advance(state, TurnEvent::HistoryLoaded(Ok(vec![])));
    let (state, _) = advance(state, TurnEvent::PromptSaved(Ok(message(5, MessageRole::User, "hi"))));
    let (state, _) = advance(state, TurnEvent::Retitled(Ok(())));
    let (state, _) = advance(state, TurnEvent::StreamOpened(Ok(())));
    let failure = OpenRouterError::InvalidResponse("bad json".to_owned());
    let (state, action) = advance(state, TurnEvent::ChunkReceived(Err(failure)));
    assert!(matches!(state, TurnState::Finished));
    assert!(
        matches!(&action, TurnAction::EmitError(t) if t == "OpenRouter response was invalid: bad json")
    );
}

#[test]
fn failures_before_the_answer_reject_the_request() {
    let (state, _) = start_turn(TurnKind::Reply, ID_TEXT, body("hi"));
    let missing = AppError::not_found("conversation".to_owned());
    let (state, action) = advance(state, TurnEvent::HistoryLoaded(Err(missing.clone())));
    assert!(matches!(state, TurnState::Finished));
    assert!(matches!(action, TurnAction::Reject(e) if e == missing));

    let (state, _) = start_turn(TurnKind::Stream, ID_TEXT, body("hi"));
    let (state, _) = advance(state, TurnEvent::HistoryLoaded(Ok(vec![])));
    let (state, _) = advance(state, TurnEvent::PromptSaved(Ok(message(5, MessageRole::User, "hi"))));
    let (state, _) = advance(state, TurnEvent::Retitled(Ok(())));
    let (_, action) = advance(state, TurnEvent::StreamOpened(Err(OpenRouterError::MissingApiKey)));
    match action {
        TurnAction::Reject(e) => {
            assert_eq!(e.status(), 500);
            assert_eq!(e.message(), "OPENROUTER_API_KEY is not configured");
        },
        other => panic!("{other:?}"),
    }
}

#[test]
fn events_that_do_not_fit_are_ignored() {
    let (state, _) = start_turn(TurnKind::Reply, ID_TEXT, body("hi"));
    let (state, action) = advance(state, TurnEvent::StreamEnded);
    assert!(matches!(action, TurnAction::Ignore));
    assert!(matches!(state, TurnState::LoadingHistory { .. }));
}

#[test]
fn turn_begins_from_a_parsed_id() {
    let (state, action) = begin_turn(TurnKind::Stream, Some(7), body("  hi  "));
    match state {
        TurnState::LoadingHistory { kind, conversation_id, content } => {
            assert_eq!(kind, TurnKind::Stream);
            assert_eq!(conversation_id, 7);
            assert_eq!(content, "hi");
        },
        other => panic!("{other:?}"),
    }
    assert!(matches!(action, TurnAction::LoadHistory { conversation_id: 7 }));
    let (state, action) = begin_turn(TurnKind::Reply, None, body("hi"));
    assert!(matches!(state, TurnState::Finished));
    assert!(matches!(action, TurnAction::Reject(AppError::Validation { .. })));
}
