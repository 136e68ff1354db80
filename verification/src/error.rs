use vstd::prelude::*;

verus! {

/// Errors of the library. Each carries a message for people.
#[derive(Debug)]
pub enum PiError {
    ApiKeyNotConfigured(String),
    CouldNotParseResponseFromLLM(String),
    FetchError(String),
    InternalError(String),
    GraphError(String),
    FeatureNotAvailable(String),
    UrlParseError(String),
    CouldNotParseNodeLabel(String),
}

/// The kind of an error, without its message.
#[derive(Clone, Copy, Debug, PartialEq, Eq, Structural)]
pub enum PiErrorKind {
    ApiKeyNotConfigured,
    CouldNotParseResponseFromLLM,
    FetchError,
    InternalError,
    GraphError,
    FeatureNotAvailable,
    UrlParseError,
    CouldNotParseNodeLabel,
}

impl PiError {
    pub open spec fn kind(self) -> PiErrorKind {
        match self {
            PiError::ApiKeyNotConfigured(_) => PiErrorKind::ApiKeyNotConfigured,
            PiError::CouldNotParseResponseFromLLM(_) => PiErrorKind::CouldNotParseResponseFromLLM,
            PiError::FetchError(_) => PiErrorKind::FetchError,
            PiError::InternalError(_) => PiErrorKind::InternalError,
            PiError::GraphError(_) => PiErrorKind::GraphError,
            PiError::FeatureNotAvailable(_) => PiErrorKind::FeatureNotAvailable,
            PiError::UrlParseError(_) => PiErrorKind::UrlParseError,
            PiError::CouldNotParseNodeLabel(_) => PiErrorKind::CouldNotParseNodeLabel,
        }
    }

    pub open spec fn message(self) -> Seq<char> {
        match self {
            PiError::ApiKeyNotConfigured(m) => m@,
            PiError::CouldNotParseResponseFromLLM(m) => m@,
            PiError::FetchError(m) => m@,
            PiError::InternalError(m) => m@,
            PiError::GraphError(m) => m@,
            PiError::FeatureNotAvailable(m) => m@,
            PiError::UrlParseError(m) => m@,
            PiError::CouldNotParseNodeLabel(m) => m@,
        }
    }

    /// The message of the error.
    pub fn get_message(&self) -> (r: &str)
        ensures
            r@ == self.message(),
    {
        match self {
            PiError::ApiKeyNotConfigured(m) => m.as_str(),
            PiError::CouldNotParseResponseFromLLM(m) => m.as_str(),
            PiError::FetchError(m) => m.as_str(),
            PiError::InternalError(m) => m.as_str(),
            PiError::GraphError(m) => m.as_str(),
            PiError::FeatureNotAvailable(m) => m.as_str(),
            PiError::UrlParseError(m) => m.as_str(),
            PiError::CouldNotParseNodeLabel(m) => m.as_str(),
        }
    }
}

/// The result of a fallible operation of the library.
pub type PiResult<T> = Result<T, PiError>;

/// The kinds of a result: the value, or the kind of the error.
pub open spec fn result_kind<T>(r: Result<T, PiError>) -> Result<T, PiErrorKind> {
    match r {
        Ok(v) => Ok(v),
        Err(e) => Err(e.kind()),
    }
}

} // verus!
