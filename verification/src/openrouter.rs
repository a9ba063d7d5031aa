use vstd::prelude::*;

use crate::interop::{reason_phrase, status_reason};
use crate::text::{decimal, decimal_text, is_blank, is_space, lemma_trim_empty_iff_all_space, trim};

verus! {

/// Where the OpenRouter API lives.
pub const OPENROUTER_BASE_URL: &'static str = "https://openrouter.ai/api/v1";

/// One message of a chat completion request: a role name and its text.
#[derive(Debug, Clone, PartialEq, Eq)]
pub struct OpenRouterMessage {
    pub role: String,
    pub content: String,
}

/// The ways a call to the model provider fails.
#[derive(Debug, Clone, PartialEq, Eq)]
pub enum OpenRouterError {
    /// No API key is configured.
    MissingApiKey,
    /// The request or the reading of the response failed; the text is the
    /// transport's own description of the failure.
    Transport(String),
    /// The provider answered with a status outside 200..=299.
    BadStatus { status: u16, body: String },
    /// The provider's answer could not be used.
    InvalidResponse(String),
}

/// The status line text of `code`: the number and its reason phrase.
pub open spec fn status_line(code: u16) -> Seq<char> {
    decimal(code as nat) + seq![' '] + match reason_phrase(code) {
        Some(r) => r,
        None => "<unknown status code>"@,
    }
}

impl OpenRouterError {
    /// The HTTP status that the API answers with when this error ends a
    /// request.
    pub open spec fn spec_status_code(self) -> u16 {
        match self {
            OpenRouterError::MissingApiKey => 500,
            _ => 502,
        }
    }

    /// The HTTP status that the API answers with when this error ends a
    /// request: 500 for a missing key, 502 for a failure of the provider.
    pub fn status_code(&self) -> (res: u16)
        ensures
            res == self.spec_status_code(),
            *self is MissingApiKey ==> res == 500,
            !(*self is MissingApiKey) ==> res == 502,
    {
        match self {
            OpenRouterError::MissingApiKey => 500,
            OpenRouterError::Transport(_) | OpenRouterError::BadStatus { .. }
            | OpenRouterError::InvalidResponse(_) => 502,
        }
    }

    /// The human-readable description of the error.
    pub open spec fn spec_message(self) -> Seq<char> {
        match self {
            OpenRouterError::MissingApiKey => "OPENROUTER_API_KEY is not configured"@,
            OpenRouterError::Transport(detail) => "OpenRouter transport failed: "@ + detail@,
            OpenRouterError::BadStatus { status, body } => "OpenRouter returned "@ + status_line(
                status,
            ) + ": "@ + body@,
            OpenRouterError::InvalidResponse(detail) => "OpenRouter response was invalid: "@
                + detail@,
        }
    }

    /// The human-readable description of the error.
    pub fn message(&self) -> (res: String)
        ensures
            res@ == self.spec_message(),
    {
        match self {
            OpenRouterError::MissingApiKey => "OPENROUTER_API_KEY is not configured".to_owned(),
            OpenRouterError::Transport(detail) => {
                let mut res = "OpenRouter transport failed: ".to_owned();
                res.append(detail.as_str());
                res
            },
            OpenRouterError::BadStatus { status, body } => {
                let mut res = "OpenRouter returned ".to_owned();
                res.append(status_line_text(*status).as_str());
                res.append(": ");
                res.append(body.as_str());
                res
            },
            OpenRouterError::InvalidResponse(detail) => {
                let mut res = "OpenRouter response was invalid: ".to_owned();
                res.append(detail.as_str());
                res
            },
        }
    }
}

/// The status line text of `code` whose reason phrase is `reason`, if
/// it has one.
pub fn status_line_with(code: u16, reason: Option<&str>) -> (res: String)
    ensures
        res@ == decimal(code as nat) + seq![' '] + match reason {
            Some(r) => r@,
            None => "<unknown status code>"@,
        },
{
    let mut res = decimal_text(code);
    proof {
        reveal_strlit(" ");
    }
    res.append(" ");
    match reason {
        Some(r) => res.append(r),
        None => res.append("<unknown status code>"),
    }
    res
}

/// The status line text of `code`: the number and its reason phrase.
pub fn status_line_text(code: u16) -> (res: String)
    ensures
        res@ == status_line(code),
{
    status_line_with(code, status_reason(code))
}

/// Whether `code` is a success status (200..=299).
pub fn is_success_status(code: u16) -> (res: bool)
    ensures
        res == (200 <= code && code <= 299),
{
    200 <= code && code <= 299
}

/// The configured API key, or the error for its absence.
pub fn api_key(key: &Option<String>) -> (res: Result<&str, OpenRouterError>)
    ensures
        match key {
            Some(k) => res matches Ok(r) && r@ == k@,
            None => res == Err::<&str, OpenRouterError>(OpenRouterError::MissingApiKey),
        },
{
    match key {
        Some(k) => Ok(k.as_str()),
        None => Err(OpenRouterError::MissingApiKey),
    }
}

/// The address of the chat completions endpoint under `base_url`.
pub fn completions_url(base_url: &str) -> (res: String)
    ensures
        res@ == base_url@ + "/chat/completions"@,
{
    let mut res = base_url.to_owned();
    res.append("/chat/completions");
    res
}

/// Whether the first of the choice texts `contents` exists and is not blank.
pub open spec fn reply_present(contents: Seq<String>) -> bool {
    contents.len() > 0 && trim(contents[0]@).len() > 0
}

/// The first of the delta texts `deltas`, when it exists and is not empty.
pub open spec fn first_delta(deltas: Seq<Option<String>>) -> Option<String> {
    if deltas.len() > 0 {
        match deltas[0] {
            Some(t) => if t@.len() > 0 { Some(t) } else { None },
            None => None,
        }
    } else {
        None
    }
}

/// A reply is present exactly when there is a first choice and its text
/// holds a character that is not white space.
pub proof fn lemma_reply_present_means(contents: Seq<String>)
    ensures
        reply_present(contents) <==> (contents.len() >= 1 && exists|k: int|
            0 <= k < contents[0]@.len() && !is_space(#[trigger] contents[0]@[k])),
{
    if contents.len() >= 1 {
        lemma_trim_empty_iff_all_space(contents[0]@);
    }
}

/// Only an empty delta text is dropped: the first choice's text is handed
/// on whenever it has at least one character (white space included), and
/// nothing is handed on otherwise.
pub proof fn lemma_first_delta_drops_only_empty(deltas: Seq<Option<String>>)
    ensures
        deltas.len() > 0 && deltas[0] is Some && deltas[0].unwrap()@.len() > 0 ==> first_delta(deltas)
            == deltas[0],
        !(deltas.len() > 0 && deltas[0] is Some && deltas[0].unwrap()@.len() > 0) ==> first_delta(
            deltas,
        ) is None,
{
}

/// The assistant's answer in a completion response whose choices carry the
/// texts `contents`, in order: the first choice's text, unless there is no
/// choice or that text is blank.
pub fn assistant_reply(contents: Vec<String>) -> (res: Result<String, OpenRouterError>)
    ensures
        reply_present(contents@) ==> res == Ok::<String, OpenRouterError>(contents@[0]),
        !reply_present(contents@) ==> (res matches Err(OpenRouterError::InvalidResponse(detail))
            && detail@ == "missing assistant content"@),
        contents@.len() >= 1 && (exists|k: int|
            0 <= k < contents@[0]@.len() && !is_space(#[trigger] contents@[0]@[k])) ==> res == Ok::<
            String,
            OpenRouterError,
        >(contents@[0]),
        contents@.len() == 0 || (forall|k: int|
            0 <= k < contents@[0]@.len() ==> is_space(#[trigger] contents@[0]@[k])) ==> res is Err,
{
    proof {
        lemma_reply_present_means(contents@);
    }
    let mut contents = contents;
    if contents.len() > 0 && !is_blank(contents[0].as_str()) {
        let first = contents.swap_remove(0);
        Ok(first)
    } else {
        Err(OpenRouterError::InvalidResponse("missing assistant content".to_owned()))
    }
}

/// The text that one streamed event adds to the answer, where `deltas` are
/// the delta texts of its choices, in order: the first choice's text when
/// it has one and it is not empty.
pub fn delta_text(deltas: Vec<Option<String>>) -> (res: Option<String>)
    ensures
        res == first_delta(deltas@),
        deltas@.len() > 0 && deltas@[0] is Some && deltas@[0].unwrap()@.len() > 0 ==> res
            == deltas@[0],
        !(deltas@.len() > 0 && deltas@[0] is Some && deltas@[0].unwrap()@.len() > 0) ==> res is None,
{
    let mut deltas = deltas;
    if deltas.len() == 0 {
        return None;
    }
    let first = deltas.swap_remove(0);
    match first {
        Some(t) => {
            if t.as_str().unicode_len() > 0 {
                Some(t)
            } else {
                None
            }
        },
        None => None,
    }
}

} // verus!
