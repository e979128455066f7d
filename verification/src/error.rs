//! The error type shared by every operation of the panel.

use vstd::prelude::*;

verus! {

/// A failure, by category, with a human-readable message.
#[derive(Debug, PartialEq, Eq)]
pub enum AppError {
    /// The caller could not be authenticated.
    Auth(String),
    /// The input is missing, malformed or cannot be honoured (an unknown
    /// template, a missing domain, a port conflict).
    Validation(String),
    /// The named resource does not exist.
    NotFound(String),
    /// The caller may not do this.
    Forbidden(String),
    /// The container engine or the host failed in an unexpected way.
    System(String),
}

/// The category of an [`AppError`], without its message.
#[derive(PartialEq, Eq, Structural, Clone, Copy, Debug)]
pub enum ErrorCategory {
    Auth,
    Validation,
    NotFound,
    Forbidden,
    System,
}

/// The mathematical model of an [`AppError`].
pub struct AppErrorView {
    pub category: ErrorCategory,
    pub message: Seq<char>,
}

impl DeepView for AppError {
    type V = AppErrorView;

    open spec fn deep_view(&self) -> AppErrorView {
        match self {
            AppError::Auth(m) => AppErrorView { category: ErrorCategory::Auth, message: m@ },
            AppError::Validation(m) => AppErrorView {
                category: ErrorCategory::Validation,
                message: m@,
            },
            AppError::NotFound(m) => AppErrorView { category: ErrorCategory::NotFound, message: m@ },
            AppError::Forbidden(m) => AppErrorView {
                category: ErrorCategory::Forbidden,
                message: m@,
            },
            AppError::System(m) => AppErrorView { category: ErrorCategory::System, message: m@ },
        }
    }
}

/// The HTTP status under which a category is reported.
pub open spec fn status_of(category: ErrorCategory) -> u16 {
    match category {
        ErrorCategory::Auth => 401,
        ErrorCategory::Validation => 400,
        ErrorCategory::NotFound => 404,
        ErrorCategory::Forbidden => 403,
        ErrorCategory::System => 500,
    }
}

/// The stable machine-readable code of a category.
pub open spec fn code_of(category: ErrorCategory) -> Seq<char> {
    match category {
        ErrorCategory::Auth => "AUTH_ERROR"@,
        ErrorCategory::Validation => "VALIDATION_ERROR"@,
        ErrorCategory::NotFound => "NOT_FOUND"@,
        ErrorCategory::Forbidden => "FORBIDDEN"@,
        ErrorCategory::System => "SYSTEM_ERROR"@,
    }
}

/// The words that introduce a category in a rendered error.
pub open spec fn heading_of(category: ErrorCategory) -> Seq<char> {
    match category {
        ErrorCategory::Auth => "Authentication failed: "@,
        ErrorCategory::Validation => "Validation error: "@,
        ErrorCategory::NotFound => "Resource not found: "@,
        ErrorCategory::Forbidden => "Permission denied: "@,
        ErrorCategory::System => "System error: "@,
    }
}

/// The model of a result: the model of what it holds.
pub open spec fn result_view<T: DeepView, E: DeepView>(result: Result<T, E>) -> Result<T::V, E::V> {
    match result {
        Ok(value) => Ok(value.deep_view()),
        Err(error) => Err(error.deep_view()),
    }
}

impl AppError {
    /// The category of this error.
    pub fn category(&self) -> (out: ErrorCategory)
        ensures
            out == self.deep_view().category,
    {
        match self {
            AppError::Auth(_) => ErrorCategory::Auth,
            AppError::Validation(_) => ErrorCategory::Validation,
            AppError::NotFound(_) => ErrorCategory::NotFound,
            AppError::Forbidden(_) => ErrorCategory::Forbidden,
            AppError::System(_) => ErrorCategory::System,
        }
    }

    /// The message, without the category's heading.
    pub fn message(&self) -> (out: &String)
        ensures
            out@ == self.deep_view().message,
    {
        match self {
            AppError::Auth(m) => m,
            AppError::Validation(m) => m,
            AppError::NotFound(m) => m,
            AppError::Forbidden(m) => m,
            AppError::System(m) => m,
        }
    }

    /// The HTTP status under which this error is reported.
    pub fn status_code(&self) -> (out: u16)
        ensures
            out == status_of(self.deep_view().category),
    {
        match self {
            AppError::Auth(_) => 401,
            AppError::Validation(_) => 400,
            AppError::NotFound(_) => 404,
            AppError::Forbidden(_) => 403,
            AppError::System(_) => 500,
        }
    }

    /// The stable machine-readable code of this error.
    pub fn error_code(&self) -> (out: &'static str)
        ensures
            out@ == code_of(self.deep_view().category),
    {
        match self {
            AppError::Auth(_) => "AUTH_ERROR",
            AppError::Validation(_) => "VALIDATION_ERROR",
            AppError::NotFound(_) => "NOT_FOUND",
            AppError::Forbidden(_) => "FORBIDDEN",
            AppError::System(_) => "SYSTEM_ERROR",
        }
    }

    /// The error as one line of text: the category's heading, then the
    /// message.
    pub fn describe(&self) -> (out: String)
        ensures
            out@ == heading_of(self.deep_view().category) + self.deep_view().message,
    {
        let heading = match self {
            AppError::Auth(_) => "Authentication failed: ",
            AppError::Validation(_) => "Validation error: ",
            AppError::NotFound(_) => "Resource not found: ",
            AppError::Forbidden(_) => "Permission denied: ",
            AppError::System(_) => "System error: ",
        };
        let mut out = heading.to_string();
        out.append(self.message().as_str());
        out
    }
}

impl Clone for AppError {
    fn clone(&self) -> (out: Self)
        ensures
            out == *self,
    {
        match self {
            AppError::Auth(m) => AppError::Auth(m.clone()),
            AppError::Validation(m) => AppError::Validation(m.clone()),
            AppError::NotFound(m) => AppError::NotFound(m.clone()),
            AppError::Forbidden(m) => AppError::Forbidden(m.clone()),
            AppError::System(m) => AppError::System(m.clone()),
        }
    }
}

} // verus!
