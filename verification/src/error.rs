//! The service's errors and the HTTP answer each one gets.
use vstd::prelude::*;
use crate::types::ErrorResponse;

verus! {

/// Why an explain request failed. Each variant carries the message the
/// client is shown.
#[derive(Debug)]
pub enum AppError {
    InvalidRequest(String),
    OllamaUnreachable(String),
    OllamaBadGateway(String),
    OllamaParseError(String),
}

/// The HTTP status code an error is answered with.
pub open spec fn status_of(e: AppError) -> u16 {
    match e {
        AppError::InvalidRequest(_) => 422,
        AppError::OllamaUnreachable(_) => 503,
        AppError::OllamaBadGateway(_) => 502,
        AppError::OllamaParseError(_) => 500,
    }
}

/// The message an error carries.
pub open spec fn message_of(e: AppError) -> Seq<char> {
    match e {
        AppError::InvalidRequest(m) => m@,
        AppError::OllamaUnreachable(m) => m@,
        AppError::OllamaBadGateway(m) => m@,
        AppError::OllamaParseError(m) => m@,
    }
}

impl AppError {
    /// The HTTP status code the error is answered with: 422 for an invalid
    /// request, 503 when the model server cannot be reached, 502 when it
    /// answers with an error, 500 when its answer cannot be read.
    pub fn status_code(&self) -> (c: u16)
        ensures
            c == status_of(*self),
    {
        match self {
            AppError::InvalidRequest(_) => 422,
            AppError::OllamaUnreachable(_) => 503,
            AppError::OllamaBadGateway(_) => 502,
            AppError::OllamaParseError(_) => 500,
        }
    }

    /// The error's message (the text of its `Display` form).
    pub fn message(&self) -> (m: String)
        ensures
            m@ == message_of(*self),
    {
        match self {
            AppError::InvalidRequest(m) => m.clone(),
            AppError::OllamaUnreachable(m) => m.clone(),
            AppError::OllamaBadGateway(m) => m.clone(),
            AppError::OllamaParseError(m) => m.clone(),
        }
    }

    /// The status code and body of the error's HTTP answer.
    pub fn into_response_parts(self) -> (r: (u16, ErrorResponse))
        ensures
            r.0 == status_of(self),
            r.1.error@ == message_of(self),
    {
        let status = self.status_code();
        let error = match self {
            AppError::InvalidRequest(m) => m,
            AppError::OllamaUnreachable(m) => m,
            AppError::OllamaBadGateway(m) => m,
            AppError::OllamaParseError(m) => m,
        };
        (status, ErrorResponse { error })
    }

    /// The error for a model server that cannot be reached at `url`, with
    /// the transport's own description `detail`.
    pub fn unreachable(url: &str, detail: &str) -> (e: AppError)
        ensures
            e is OllamaUnreachable,
            message_of(e) == "Cannot reach Ollama at "@ + url@
                + ". Make sure Ollama is running with `ollama serve`. Error: "@ + detail@,
    {
        let mut m = String::from_str("Cannot reach Ollama at ");
        m.append(url);
        m.append(". Make sure Ollama is running with `ollama serve`. Error: ");
        m.append(detail);
        AppError::OllamaUnreachable(m)
    }

    /// The error for a model server that answered with the non-success
    /// status `status` (its code and reason) and the body `body`.
    pub fn bad_gateway(status: &str, body: &str) -> (e: AppError)
        ensures
            e is OllamaBadGateway,
            message_of(e) == "Ollama returned HTTP "@ + status@ + ": "@ + body@,
    {
        let mut m = String::from_str("Ollama returned HTTP ");
        m.append(status);
        m.append(": ");
        m.append(body);
        AppError::OllamaBadGateway(m)
    }

    /// The error for a model answer that could not be decoded, with the
    /// decoder's description `detail`.
    pub fn parse_failure(detail: &str) -> (e: AppError)
        ensures
            e is OllamaParseError,
            message_of(e) == "Failed to parse Ollama response: "@ + detail@,
    {
        let mut m = String::from_str("Failed to parse Ollama response: ");
        m.append(detail);
        AppError::OllamaParseError(m)
    }
}

} // verus!
