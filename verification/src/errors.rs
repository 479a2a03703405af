use vstd::prelude::*;

verus! {

/// Why a run, or one download of it, failed.
#[derive(Clone, Debug, PartialEq, Eq)]
pub enum AppError {
    /// No accession is left once blanks are set aside.
    EmptyAccessionList,
    /// The remote side answered with an error status.
    StatusCodeError(String),
    /// The body is not what was asked for.
    InvalidResponseError(String),
    /// The request or the body stream broke off.
    RequestError(String),
    /// The output file could not be created, written or flushed.
    IoError(String),
}

/// An `AppError` with its messages as character sequences.
pub enum Failure {
    EmptyAccessionList,
    StatusCode(Seq<char>),
    InvalidResponse(Seq<char>),
    Request(Seq<char>),
    Io(Seq<char>),
}

impl View for AppError {
    type V = Failure;

    open spec fn view(&self) -> Failure {
        match self {
            AppError::EmptyAccessionList => Failure::EmptyAccessionList,
            AppError::StatusCodeError(m) => Failure::StatusCode(m@),
            AppError::InvalidResponseError(m) => Failure::InvalidResponse(m@),
            AppError::RequestError(m) => Failure::Request(m@),
            AppError::IoError(m) => Failure::Io(m@),
        }
    }
}

impl Failure {
    /// The text that describes the failure.
    pub open spec fn message(self) -> Seq<char> {
        match self {
            Failure::EmptyAccessionList => "empty accession list"@,
            Failure::StatusCode(m) => m,
            Failure::InvalidResponse(m) => m,
            Failure::Request(m) => m,
            Failure::Io(m) => m,
        }
    }
}

impl AppError {
    /// The text that describes the failure.
    pub fn message(&self) -> (text: String)
        ensures
            text@ == self@.message(),
    {
        match self {
            AppError::EmptyAccessionList => String::from_str("empty accession list"),
            AppError::StatusCodeError(m) => m.clone(),
            AppError::InvalidResponseError(m) => m.clone(),
            AppError::RequestError(m) => m.clone(),
            AppError::IoError(m) => m.clone(),
        }
    }
}

} // verus!
