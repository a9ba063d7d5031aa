use vstd::prelude::*;

use crate::config::ConfigError;
use crate::openrouter::OpenRouterError;

verus! {

/// The errors that the API answers with. Each has an HTTP status, a
/// stable machine-readable code and a human-readable message.
#[derive(Debug, Clone, PartialEq, Eq)]
pub enum AppError {
    /// The request was malformed or broke a rule of the API.
    Validation { message: String },
    /// The named resource does not exist.
    NotFound { resource: String },
    /// The database failed; `detail` is its own description.
    Database { detail: String },
    /// The model provider failed.
    Upstream { source: OpenRouterError },
    /// The server's configuration is unusable.
    Config { source: ConfigError },
}

impl AppError {
    /// A validation error with the given message.
    pub fn validation(message: String) -> (res: AppError)
        ensures
            res == (AppError::Validation { message }),
    {
        AppError::Validation { message }
    }

    /// A not-found error about the given resource.
    pub fn not_found(resource: String) -> (res: AppError)
        ensures
            res == (AppError::NotFound { resource }),
    {
        AppError::NotFound { resource }
    }

    /// The HTTP status code of the error.
    pub open spec fn spec_status(self) -> u16 {
        match self {
            AppError::Validation { .. } => 400,
            AppError::NotFound { .. } => 404,
            AppError::Database { .. } => 500,
            AppError::Upstream { source } => source.spec_status_code(),
            AppError::Config { .. } => 500,
        }
    }

    /// The HTTP status code of the error.
    pub fn status(&self) -> (res: u16)
        ensures
            res == self.spec_status(),
            *self is Validation ==> res == 400,
            *self is NotFound ==> res == 404,
            *self is Database ==> res == 500,
            *self is Config ==> res == 500,
            *self matches AppError::Upstream { source } ==> (source is MissingApiKey ==> res == 500)
                && (!(source is MissingApiKey) ==> res == 502),
    {
        match self {
            AppError::Validation { .. } => 400,
            AppError::NotFound { .. } => 404,
            AppError::Database { .. } => 500,
            AppError::Upstream { source } => source.status_code(),
            AppError::Config { .. } => 500,
        }
    }

    /// The machine-readable code of the error.
    pub open spec fn spec_code(self) -> Seq<char> {
        match self {
            AppError::Validation { .. } => "validation_error"@,
            AppError::NotFound { .. } => "not_found"@,
            AppError::Database { .. } => "database_error"@,
            AppError::Upstream { .. } => "upstream_error"@,
            AppError::Config { .. } => "config_error"@,
        }
    }

    /// The machine-readable code of the error.
    pub fn code(&self) -> (res: &'static str)
        ensures
            res@ == self.spec_code(),
    {
        match self {
            AppError::Validation { .. } => "validation_error",
            AppError::NotFound { .. } => "not_found",
            AppError::Database { .. } => "database_error",
            AppError::Upstream { .. } => "upstream_error",
            AppError::Config { .. } => "config_error",
        }
    }

    /// The human-readable message of the error.
    pub open spec fn spec_message(self) -> Seq<char> {
        match self {
            AppError::Validation { message } => message@,
            AppError::NotFound { resource } => resource@ + " not found"@,
            AppError::Database { detail } => "database error: "@ + detail@,
            AppError::Upstream { source } => source.spec_message(),
            AppError::Config { source } => source.spec_message(),
        }
    }

    /// The human-readable message of the error.
    pub fn message(&self) -> (res: String)
        ensures
            res@ == self.spec_message(),
    {
        match self {
            AppError::Validation { message } => message.clone(),
            AppError::NotFound { resource } => {
                let mut res = resource.clone();
                res.append(" not found");
                res
            },
            AppError::Database { detail } => {
                let mut res = "database error: ".to_owned();
                res.append(detail.as_str());
                res
            },
            AppError::Upstream { source } => source.message(),
            AppError::Config { source } => source.message(),
        }
    }
}


/// `res` is the validation error with the message `msg`.
pub open spec fn is_validation_error<T>(res: Result<T, AppError>, msg: Seq<char>) -> bool {
    res matches Err(AppError::Validation { message }) && message@ == msg
}

} // verus!
