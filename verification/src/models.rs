use vstd::prelude::*;

use crate::error::AppError;
use crate::text::{trim, trimmed, DEFAULT_TITLE};

verus! {

/// Who wrote a message.
#[derive(Debug, Clone, Copy, PartialEq, Eq, Structural)]
pub enum MessageRole {
    System,
    User,
    Assistant,
}

/// The stored name of a role.
pub open spec fn role_name(role: MessageRole) -> Seq<char> {
    match role {
        MessageRole::System => "system"@,
        MessageRole::User => "user"@,
        MessageRole::Assistant => "assistant"@,
    }
}

/// The role that a stored name denotes, if any.
pub open spec fn role_named(name: Seq<char>) -> Option<MessageRole> {
    if name == "system"@ {
        Some(MessageRole::System)
    } else if name == "user"@ {
        Some(MessageRole::User)
    } else if name == "assistant"@ {
        Some(MessageRole::Assistant)
    } else {
        None
    }
}

impl MessageRole {
    /// The stored name of the role.
    pub fn as_str(self) -> (res: &'static str)
        ensures
            res@ == role_name(self),
    {
        match self {
            MessageRole::System => "system",
            MessageRole::User => "user",
            MessageRole::Assistant => "assistant",
        }
    }

    /// The role that a stored name denotes; any other name is refused.
    pub fn from_db(value: &str) -> (res: Result<MessageRole, AppError>)
        ensures
            role_named(value@) matches Some(r) ==> res == Ok::<MessageRole, AppError>(r),
            role_named(value@) is None ==> (res matches Err(AppError::Validation { message })
                && message@ == "message role is invalid"@),
    {
        if crate::text::same_text(value, "system") {
            Ok(MessageRole::System)
        } else if crate::text::same_text(value, "user") {
            Ok(MessageRole::User)
        } else if crate::text::same_text(value, "assistant") {
            Ok(MessageRole::Assistant)
        } else {
            Err(AppError::validation("message role is invalid".to_owned()))
        }
    }
}

/// An instant: whole seconds since the Unix epoch (UTC) and the
/// nanoseconds past that second.
#[derive(Debug, Clone, Copy, PartialEq, Eq, Structural)]
pub struct Timestamp {
    pub secs: i64,
    pub nanos: u32,
}

/// A conversation.
#[derive(Debug, Clone, PartialEq, Eq)]
pub struct Conversation {
    pub id: u128,
    pub title: String,
    pub created_at: Timestamp,
    pub updated_at: Timestamp,
}

/// A message of a conversation.
#[derive(Debug, Clone, PartialEq, Eq)]
pub struct Message {
    pub id: u128,
    pub conversation_id: u128,
    pub role: MessageRole,
    pub content: String,
    pub created_at: Timestamp,
}

/// The answer to a health check.
#[derive(Debug, Clone, PartialEq, Eq)]
pub struct HealthResponse {
    pub ok: bool,
    pub service: String,
    pub version: String,
}

/// The name under which the service reports its health.
pub const SERVICE_NAME: &'static str = "gpt-copy-v5-backend";

impl HealthResponse {
    /// A healthy service of the given version.
    pub fn healthy(version: &str) -> (res: HealthResponse)
        ensures
            res.ok,
            res.service@ == SERVICE_NAME@,
            res.version@ == version@,
    {
        HealthResponse { ok: true, service: SERVICE_NAME.to_owned(), version: version.to_owned() }
    }
}

/// The longest title a conversation may be given, in characters.
pub const MAX_TITLE_CHARS: usize = 120;

/// The longest message a user may send, in characters.
pub const MAX_CONTENT_CHARS: usize = 16000;

/// A request to open a conversation.
#[derive(Debug, Clone, PartialEq, Eq, Default)]
pub struct CreateConversationRequest {
    pub title: Option<String>,
}

/// What the title of a new conversation is: the trimmed title, the default
/// title when none or a blank one was given, or a refusal (`None`) when the
/// trimmed title is longer than the limit.
pub open spec fn title_rule(title: Option<String>) -> Option<Seq<char>> {
    match title {
        Some(t) => if trim(t@).len() == 0 {
            Some(DEFAULT_TITLE@)
        } else if trim(t@).len() <= MAX_TITLE_CHARS {
            Some(trim(t@))
        } else {
            None
        },
        None => Some(DEFAULT_TITLE@),
    }
}

/// The title rule: no title or a blank one gives "New chat"; otherwise the
/// trimmed title, exactly, when it has at most 120 characters, and a
/// refusal when it has more.
pub proof fn lemma_title_rule_means(title: Option<String>)
    ensures
        MAX_TITLE_CHARS == 120,
        title is None ==> title_rule(title) == Some("New chat"@),
        title matches Some(t) ==> {
            &&& trim(t@).len() == 0 ==> title_rule(title) == Some("New chat"@)
            &&& 0 < trim(t@).len() <= 120 ==> title_rule(title) == Some(trim(t@))
            &&& trim(t@).len() > 120 ==> title_rule(title) is None
        },
{
}

/// The content limit is sixteen thousand characters, and the title limit
/// one hundred and twenty.
pub proof fn lemma_limits()
    ensures
        MAX_CONTENT_CHARS == 16000,
        MAX_TITLE_CHARS == 120,
{
}

impl CreateConversationRequest {
    /// The title that the new conversation gets, or the validation error
    /// for one that is too long.
    pub fn validated_title(&self) -> (res: Result<String, AppError>)
        ensures
            title_rule(self.title) matches Some(t) ==> (res matches Ok(r) && r@ == t),
            title_rule(self.title) is None ==> (res matches Err(AppError::Validation { message })
                && message@ == "title must be 120 characters or fewer"@),
            match self.title {
                Some(t) => (0 < trim(t@).len() <= 120 ==> (res matches Ok(r) && r@ == trim(t@)))
                    && (trim(t@).len() == 0 ==> (res matches Ok(r) && r@ == "New chat"@)) && (trim(
                    t@,
                ).len() > 120 ==> res is Err),
                None => res matches Ok(r) && r@ == "New chat"@,
            },
    {
        proof {
            lemma_title_rule_means(self.title);
        }
        match &self.title {
            Some(t) => {
                let title = trimmed(t.as_str());
                let n = title.as_str().unicode_len();
                if n == 0 {
                    Ok(DEFAULT_TITLE.to_owned())
                } else if n <= MAX_TITLE_CHARS {
                    Ok(title)
                } else {
                    Err(AppError::validation("title must be 120 characters or fewer".to_owned()))
                }
            },
            None => Ok(DEFAULT_TITLE.to_owned()),
        }
    }
}

/// A request to send a message.
#[derive(Debug, Clone, PartialEq, Eq)]
pub struct SendMessageRequest {
    pub content: String,
}

impl SendMessageRequest {
    /// The trimmed content, unless it is empty or longer than the limit.
    pub fn validated_content(&self) -> (res: Result<String, AppError>)
        ensures
            trim(self.content@).len() == 0 ==> (res matches Err(AppError::Validation { message })
                && message@ == "content is required"@),
            trim(self.content@).len() > MAX_CONTENT_CHARS ==> (res matches Err(
                AppError::Validation { message },
            ) && message@ == "content must be 16000 characters or fewer"@),
            0 < trim(self.content@).len() <= MAX_CONTENT_CHARS ==> (res matches Ok(c) && c@ == trim(
                self.content@,
            )),
    {
        let content = trimmed(self.content.as_str());
        let n = content.as_str().unicode_len();
        if n == 0 {
            return Err(AppError::validation("content is required".to_owned()));
        }
        if n > MAX_CONTENT_CHARS {
            return Err(AppError::validation("content must be 16000 characters or fewer".to_owned()));
        }
        Ok(content)
    }
}


/// A role's stored name reads back as the same role: `MessageRole::from_db`
/// accepts what `MessageRole::as_str` gives and returns the role it came from.
pub proof fn lemma_role_name_round_trip(role: MessageRole)
    ensures
        role_named(role_name(role)) == Some(role),
{
    reveal_strlit("system");
    reveal_strlit("user");
    reveal_strlit("assistant");
    assert("user"@ != "system"@) by {
        assert("user"@.len() != "system"@.len());
    }
    assert("assistant"@ != "system"@) by {
        assert("assistant"@[0] != "system"@[0]);
    }
    assert("assistant"@ != "user"@) by {
        assert("assistant"@[0] != "user"@[0]);
    }
}

} // verus!
