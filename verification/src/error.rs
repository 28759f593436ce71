//! Errors of environment variable and configuration handling.
use vstd::prelude::*;
use dotenvy::Error as DotenvyError;

verus! {

#[verifier::external_type_specification]
#[verifier::external_body]
pub struct ExDotenvyError(DotenvyError);

/// Why an environment variable could not be read.
#[derive(Debug, Clone, PartialEq, Eq)]
pub enum EnvVarError {
    /// The variable is not set.
    NotPresent,
    /// The variable's value is not valid Unicode; the text is that value as
    /// it is shown in a debug listing.
    NotUnicode(String),
}

/// Error type for environment variable and configuration handling.
#[derive(Debug)]
pub enum Error {
    EnvValError(EnvVarError),
    DotEnvyError(DotenvyError),
    ValConversionError(String),
    MissingEnvName,
    InvalidEnvName,
}

pub type Result<T> = core::result::Result<T, Error>;

/// The text that `dotenvy::Error`'s `Display` shows.
#[verifier::external_body]
fn dotenvy_error_text(e: &DotenvyError) -> String {
    format!("{}", e)
}

impl From<DotenvyError> for Error {
    fn from(err: DotenvyError) -> (r: Self)
        ensures
            r == Error::DotEnvyError(err),
    {
        Error::DotEnvyError(err)
    }
}

impl vstd::std_specs::convert::FromSpecImpl<DotenvyError> for Error {
    open spec fn obeys_from_spec() -> bool {
        true
    }

    open spec fn from_spec(v: DotenvyError) -> Error {
        Error::DotEnvyError(v)
    }
}

impl EnvVarError {
    /// The description of the error.
    pub fn to_string(&self) -> (r: String)
        ensures
            self is NotPresent ==> r@ == "environment variable not found"@,
            self matches EnvVarError::NotUnicode(s) ==> r@
                == "environment variable was not valid unicode: "@ + s@,
    {
        match self {
            EnvVarError::NotPresent => String::from_str("environment variable not found"),
            EnvVarError::NotUnicode(s) => {
                let mut r = String::from_str("environment variable was not valid unicode: ");
                r.append(s.as_str());
                r
            },
        }
    }
}

impl Error {
    /// The description of the error.
    pub fn to_string(&self) -> (r: String)
        ensures
            self matches Error::ValConversionError(s) ==> r@ == s@,
            self is MissingEnvName ==> r@ == "Missing environment name"@,
            self is InvalidEnvName ==> r@ == "Invalid environment name"@,
            self matches Error::EnvValError(e) ==> (e is NotPresent ==> r@
                == "environment variable not found"@),
            self matches Error::EnvValError(EnvVarError::NotUnicode(s)) ==> r@
                == "environment variable was not valid unicode: "@ + s@,
    {
        match self {
            Error::EnvValError(e) => e.to_string(),
            Error::DotEnvyError(e) => dotenvy_error_text(e),
            Error::ValConversionError(s) => s.clone(),
            Error::MissingEnvName => String::from_str("Missing environment name"),
            Error::InvalidEnvName => String::from_str("Invalid environment name"),
        }
    }
}

} // verus!
