use vstd::prelude::*;

use crate::error::{is_validation_error, AppError};
use crate::interop::{instant_from_rfc3339, rfc3339_instant, uuid_from_text, uuid_value};
use crate::models::{role_named, Conversation, Message, MessageRole, Timestamp};
use crate::text::{same_text, title_from_message, title_from_text, DEFAULT_TITLE};

verus! {

/// A stored conversation, column by column, as text.
pub struct ConversationRow {
    pub id: String,
    pub title: String,
    pub created_at: String,
    pub updated_at: String,
}

/// A stored message, column by column, as text.
pub struct MessageRow {
    pub id: String,
    pub conversation_id: String,
    pub role: String,
    pub content: String,
    pub created_at: String,
}

/// The stored identifier, given what the UUID parser made of it.
pub fn stored_uuid(parsed: Option<u128>) -> (res: Result<u128, AppError>)
    ensures
        parsed matches Some(id) ==> res == Ok::<u128, AppError>(id),
        parsed is None ==> is_validation_error(res, "stored uuid is invalid"@),
{
    match parsed {
        Some(id) => Ok(id),
        None => Err(AppError::validation("stored uuid is invalid".to_owned())),
    }
}

/// Reads a stored identifier.
pub fn parse_stored_uuid(value: &str) -> (res: Result<u128, AppError>)
    ensures
        uuid_value(value@) matches Some(id) ==> res == Ok::<u128, AppError>(id),
        uuid_value(value@) is None ==> is_validation_error(res, "stored uuid is invalid"@),
{
    stored_uuid(uuid_from_text(value))
}

/// The instant of a parsed date and time.
pub open spec fn instant(p: (i64, u32)) -> Timestamp {
    Timestamp { secs: p.0, nanos: p.1 }
}

/// The stored instant, given what the RFC 3339 parser made of it.
pub fn stored_timestamp(parsed: Option<(i64, u32)>) -> (res: Result<Timestamp, AppError>)
    ensures
        parsed matches Some(p) ==> res == Ok::<Timestamp, AppError>(instant(p)),
        parsed is None ==> is_validation_error(res, "stored timestamp is invalid"@),
{
    match parsed {
        Some((secs, nanos)) => Ok(Timestamp { secs, nanos }),
        None => Err(AppError::validation("stored timestamp is invalid".to_owned())),
    }
}

/// Reads a stored date and time.
pub fn parse_stored_timestamp(value: &str) -> (res: Result<Timestamp, AppError>)
    ensures
        rfc3339_instant(value@) matches Some(p) ==> res == Ok::<Timestamp, AppError>(instant(p)),
        rfc3339_instant(value@) is None ==> is_validation_error(res, "stored timestamp is invalid"@),
{
    stored_timestamp(instant_from_rfc3339(value))
}

/// `res` is what a conversation row with the parsed identifier `id`, title
/// `title` and parsed instants `created` and `updated` decodes to: the
/// identifier is checked first, then the two instants in order.
pub open spec fn decodes_conversation(
    res: Result<Conversation, AppError>,
    id: Option<u128>,
    title: String,
    created: Option<(i64, u32)>,
    updated: Option<(i64, u32)>,
) -> bool {
    match (id, created, updated) {
        (Some(i), Some(c), Some(u)) => res == Ok::<Conversation, AppError>(
            Conversation { id: i, title, created_at: instant(c), updated_at: instant(u) },
        ),
        (None, _, _) => is_validation_error(res, "stored uuid is invalid"@),
        _ => is_validation_error(res, "stored timestamp is invalid"@),
    }
}

/// `res` is what `row` decodes to.
pub open spec fn conversation_decoding(row: ConversationRow, res: Result<Conversation, AppError>) -> bool {
    decodes_conversation(
        res,
        uuid_value(row.id@),
        row.title,
        rfc3339_instant(row.created_at@),
        rfc3339_instant(row.updated_at@),
    )
}

/// A conversation from its parsed columns.
pub fn conversation_from_parts(
    id: Option<u128>,
    title: String,
    created: Option<(i64, u32)>,
    updated: Option<(i64, u32)>,
) -> (res: Result<Conversation, AppError>)
    ensures
        decodes_conversation(res, id, title, created, updated),
{
    let id = stored_uuid(id)?;
    let created_at = stored_timestamp(created)?;
    let updated_at = stored_timestamp(updated)?;
    Ok(Conversation { id, title, created_at, updated_at })
}

/// Decodes a stored conversation.
pub fn conversation_from_row(row: &ConversationRow) -> (res: Result<Conversation, AppError>)
    ensures
        conversation_decoding(*row, res),
{
    let id = uuid_from_text(row.id.as_str());
    let created = instant_from_rfc3339(row.created_at.as_str());
    let updated = instant_from_rfc3339(row.updated_at.as_str());
    conversation_from_parts(id, row.title.clone(), created, updated)
}

/// `res` is what a message row with the given parsed columns decodes to:
/// identifier, conversation identifier, role and instant are checked in
/// this order.
pub open spec fn decodes_message(
    res: Result<Message, AppError>,
    id: Option<u128>,
    conversation_id: Option<u128>,
    role: Seq<char>,
    content: String,
    created: Option<(i64, u32)>,
) -> bool {
    match (id, conversation_id, role_named(role), created) {
        (Some(i), Some(c), Some(r), Some(t)) => res == Ok::<Message, AppError>(
            Message { id: i, conversation_id: c, role: r, content, created_at: instant(t) },
        ),
        (None, _, _, _) => is_validation_error(res, "stored uuid is invalid"@),
        (Some(_), None, _, _) => is_validation_error(res, "stored uuid is invalid"@),
        (Some(_), Some(_), None, _) => is_validation_error(res, "message role is invalid"@),
        _ => is_validation_error(res, "stored timestamp is invalid"@),
    }
}

/// `res` is what `row` decodes to.
pub open spec fn message_decoding(row: MessageRow, res: Result<Message, AppError>) -> bool {
    decodes_message(
        res,
        uuid_value(row.id@),
        uuid_value(row.conversation_id@),
        row.role@,
        row.content,
        rfc3339_instant(row.created_at@),
    )
}

/// A message from its parsed columns.
pub fn message_from_parts(
    id: Option<u128>,
    conversation_id: Option<u128>,
    role: &str,
    content: String,
    created: Option<(i64, u32)>,
) -> (res: Result<Message, AppError>)
    ensures
        decodes_message(res, id, conversation_id, role@, content, created),
{
    let id = stored_uuid(id)?;
    let conversation_id = stored_uuid(conversation_id)?;
    let role = MessageRole::from_db(role)?;
    let created_at = stored_timestamp(created)?;
    Ok(Message { id, conversation_id, role, content, created_at })
}

/// Decodes a stored message.
pub fn message_from_row(row: &MessageRow) -> (res: Result<Message, AppError>)
    ensures
        message_decoding(*row, res),
{
    let id = uuid_from_text(row.id.as_str());
    let conversation_id = uuid_from_text(row.conversation_id.as_str());
    let created = instant_from_rfc3339(row.created_at.as_str());
    message_from_parts(id, conversation_id, row.role.as_str(), row.content.clone(), created)
}


/// Decodes stored conversations in order; the first row that does not
/// decode ends the work with its error.
pub fn conversations_from_rows(rows: Vec<ConversationRow>) -> (res: Result<
    Vec<Conversation>,
    AppError,
>)
    ensures
        res matches Ok(v) ==> v@.len() == rows@.len() && forall|i: int|
            0 <= i < rows@.len() ==> conversation_decoding(
                #[trigger] rows@[i],
                Ok::<Conversation, AppError>(v@[i]),
            ),
        res matches Err(e) ==> exists|k: int|
            0 <= k < rows@.len() && conversation_decoding(
                #[trigger] rows@[k],
                Err::<Conversation, AppError>(e),
            ) && forall|j: int| 0 <= j < k ==> conversation_row_decodes(#[trigger] rows@[j]),
{
    let ghost original = rows@;
    let mut out: Vec<Conversation> = Vec::new();
    let n = rows.len();
    let mut i: usize = 0;
    while i < n
        invariant
            n == original.len(),
            rows@ == original,
            i <= n,
            out@.len() == i,
            forall|j: int|
                0 <= j < i ==> conversation_decoding(
                    #[trigger] original[j],
                    Ok::<Conversation, AppError>(out@[j]),
                ),
            forall|j: int| 0 <= j < i ==> conversation_row_decodes(#[trigger] original[j]),
        decreases n - i,
    {
        match conversation_from_row(&rows[i]) {
            Ok(c) => out.push(c),
            Err(e) => {
                assert(conversation_decoding(original[i as int], Err::<Conversation, AppError>(e)));
                return Err(e);
            },
        }
        i = i + 1;
    }
    Ok(out)
}

/// The conversation a lookup found, or the not-found error when it found
/// none.
pub fn found_conversation(row: Option<ConversationRow>) -> (res: Result<Conversation, AppError>)
    ensures
        row matches Some(r) ==> conversation_decoding(r, res),
        row is None ==> (res matches Err(AppError::NotFound { resource })
            && resource@ == "conversation"@),
{
    match row {
        Some(r) => conversation_from_row(&r),
        None => Err(AppError::not_found("conversation".to_owned())),
    }
}

/// Every column of `row` decodes.
pub open spec fn message_row_decodes(row: MessageRow) -> bool {
    &&& uuid_value(row.id@) is Some
    &&& uuid_value(row.conversation_id@) is Some
    &&& role_named(row.role@) is Some
    &&& rfc3339_instant(row.created_at@) is Some
}

/// Every column of `row` decodes.
pub open spec fn conversation_row_decodes(row: ConversationRow) -> bool {
    &&& uuid_value(row.id@) is Some
    &&& rfc3339_instant(row.created_at@) is Some
    &&& rfc3339_instant(row.updated_at@) is Some
}

/// Decodes stored messages in order; the first row that does not decode
/// ends the work with its error.
pub fn messages_from_rows(rows: Vec<MessageRow>) -> (res: Result<Vec<Message>, AppError>)
    ensures
        res matches Ok(v) ==> v@.len() == rows@.len() && forall|i: int|
            0 <= i < rows@.len() ==> message_decoding(
                #[trigger] rows@[i],
                Ok::<Message, AppError>(v@[i]),
            ),
        res matches Err(e) ==> exists|k: int|
            0 <= k < rows@.len() && message_decoding(
                #[trigger] rows@[k],
                Err::<Message, AppError>(e),
            ) && forall|j: int| 0 <= j < k ==> message_row_decodes(#[trigger] rows@[j]),
{
    let ghost original = rows@;
    let mut out: Vec<Message> = Vec::new();
    let n = rows.len();
    let mut i: usize = 0;
    while i < n
        invariant
            n == original.len(),
            rows@ == original,
            i <= n,
            out@.len() == i,
            forall|j: int|
                0 <= j < i ==> message_decoding(
                    #[trigger] original[j],
                    Ok::<Message, AppError>(out@[j]),
                ),
            forall|j: int| 0 <= j < i ==> message_row_decodes(#[trigger] original[j]),
        decreases n - i,
    {
        match message_from_row(&rows[i]) {
            Ok(m) => out.push(m),
            Err(e) => {
                assert(message_decoding(rows@[i as int], Err::<Message, AppError>(e)));
                return Err(e);
            },
        }
        i = i + 1;
    }
    Ok(out)
}

/// The new title of a conversation after its first message: taken from the
/// message while the conversation still has the default title, otherwise
/// none (the title stays).
pub fn retitle(current_title: &str, content: &str) -> (res: Option<String>)
    ensures
        current_title@ == DEFAULT_TITLE@ ==> (res matches Some(t) && t@ == title_from_text(
            content@,
        )),
        current_title@ != DEFAULT_TITLE@ ==> res is None,
{
    if !same_text(current_title, DEFAULT_TITLE) {
        return None;
    }
    Some(title_from_message(content))
}

} // verus!
