//! The records that the parts of the application share.

use crate::text;
use vstd::prelude::*;

verus! {

/// Why an operation was refused or failed.
pub enum AppError {
    /// The request or the configuration is wrong; the message says how.
    InvalidConfig(String),
    /// What the operation was based on has changed since.
    StaleOperation,
    /// Something went wrong that the user did not cause.
    Internal(String),
}

/// An error as a mathematical value.
pub enum ErrorView {
    InvalidConfig(Seq<char>),
    StaleOperation,
    Internal(Seq<char>),
}

impl View for AppError {
    type V = ErrorView;

    open spec fn view(&self) -> ErrorView {
        match self {
            AppError::InvalidConfig(message) => ErrorView::InvalidConfig(message@),
            AppError::StaleOperation => ErrorView::StaleOperation,
            AppError::Internal(message) => ErrorView::Internal(message@),
        }
    }
}

impl ErrorView {
    /// The error in words.
    pub open spec fn message(self) -> Seq<char> {
        match self {
            ErrorView::InvalidConfig(message) => message,
            ErrorView::StaleOperation => "数据已发生变化，请刷新后重试。"@,
            ErrorView::Internal(message) => message,
        }
    }
}

impl AppError {
    /// The error in words.
    pub fn message(&self) -> (message: String)
        ensures
            message@ == self@.message(),
    {
        match self {
            AppError::InvalidConfig(message) => message.clone(),
            AppError::StaleOperation => "数据已发生变化，请刷新后重试。".to_owned(),
            AppError::Internal(message) => message.clone(),
        }
    }

    /// An error about the request or the configuration.
    pub fn invalid(message: &str) -> (error: AppError)
        ensures
            error@ == ErrorView::InvalidConfig(message@),
    {
        AppError::InvalidConfig(message.to_owned())
    }

    /// Another error that says the same.
    pub fn duplicate(&self) -> (copy: AppError)
        ensures
            copy@ == self@,
    {
        match self {
            AppError::InvalidConfig(message) => AppError::InvalidConfig(message.clone()),
            AppError::StaleOperation => AppError::StaleOperation,
            AppError::Internal(message) => AppError::Internal(message.clone()),
        }
    }

    /// An error that the user did not cause.
    pub fn internal(message: &str) -> (error: AppError)
        ensures
            error@ == ErrorView::Internal(message@),
    {
        AppError::Internal(message.to_owned())
    }

    pub fn is_stale(&self) -> (stale: bool)
        ensures
            stale == (self@ is StaleOperation),
    {
        matches!(self, AppError::StaleOperation)
    }
}

/// Which of the two APIs a provider speaks.
#[derive(Clone, Copy, Debug, PartialEq, Eq, Structural)]
pub enum ProviderApiType {
    Responses,
    Chat,
}

/// A third-party service.
pub struct ProviderProfile {
    pub id: String,
    pub name: String,
    pub base_url: String,
    pub headers: Vec<(String, String)>,
    pub timeout_secs: u64,
    pub enabled: bool,
    pub active: bool,
    pub model: String,
    pub available_models: Vec<String>,
    pub selected_models: Option<Vec<String>>,
    pub custom_models: Vec<String>,
    pub api_type: ProviderApiType,
    pub api_key: Option<String>,
    pub has_api_key: bool,
    pub created_at: i64,
    pub updated_at: i64,
}

/// The tokens of an official login.
pub struct CodexAuthTokens {
    pub id_token: String,
    pub access_token: String,
    pub refresh_token: String,
    pub account_id: String,
}

/// The credential of an official login.
pub struct CodexAuthCredential {
    pub auth_mode: String,
    pub openai_api_key: Option<String>,
    pub tokens: CodexAuthTokens,
    pub last_refresh: String,
}

/// A credential as a mathematical value.
pub struct CredentialView {
    pub auth_mode: Seq<char>,
    pub openai_api_key: Option<Seq<char>>,
    pub id_token: Seq<char>,
    pub access_token: Seq<char>,
    pub refresh_token: Seq<char>,
    pub account_id: Seq<char>,
    pub last_refresh: Seq<char>,
}

impl View for CodexAuthCredential {
    type V = CredentialView;

    open spec fn view(&self) -> CredentialView {
        CredentialView {
            auth_mode: self.auth_mode@,
            openai_api_key: text::string_of(self.openai_api_key),
            id_token: self.tokens.id_token@,
            access_token: self.tokens.access_token@,
            refresh_token: self.tokens.refresh_token@,
            account_id: self.tokens.account_id@,
            last_refresh: self.last_refresh@,
        }
    }
}

/// Whether a credential is a personal access token: it says so, or its token
/// has that form.
pub open spec fn is_personal_token(credential: CredentialView) -> bool {
    credential.auth_mode == "personal_access_token"@ || text::begins_with(
        credential.access_token,
        "at-"@,
    )
}

/// Whether a credential is a personal access token.
pub fn is_personal_access_token_credential(credential: &CodexAuthCredential) -> (answer: bool)
    ensures
        answer == is_personal_token(credential@),
{
    text::same_text(credential.auth_mode.as_str(), "personal_access_token") || text::starts_with(
        credential.tokens.access_token.as_str(),
        "at-",
    )
}

} // verus!
