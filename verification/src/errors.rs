//! The error type shared by the library and the programs around it.

use vstd::prelude::*;

verus! {

/// What can go wrong while a scene is assembled.
#[derive(Debug, Clone)]
pub enum AppError {
    /// Reading a file failed.
    ErrorIo(String),
    /// An image could not be turned into a texture.
    ErrorLoadTexture(String),
    /// Any other failure, described by its message.
    ErrorString(String),
}

impl AppError {
    /// The message that the error carries.
    pub open spec fn message(self) -> Seq<char> {
        match self {
            AppError::ErrorIo(m) => m@,
            AppError::ErrorLoadTexture(m) => m@,
            AppError::ErrorString(m) => m@,
        }
    }
}

impl From<String> for AppError {
    /// Wraps a bare message.
    fn from(value: String) -> (e: AppError) {
        AppError::ErrorString(value)
    }
}

impl vstd::std_specs::convert::FromSpecImpl<String> for AppError {
    open spec fn obeys_from_spec() -> bool {
        true
    }

    open spec fn from_spec(value: String) -> AppError {
        AppError::ErrorString(value)
    }
}

} // verus!
