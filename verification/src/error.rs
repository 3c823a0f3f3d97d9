//! The failures that generating or storing a token can end in.
use vstd::prelude::*;

verus! {

/// Why an operation failed. Every failure is final: nothing is retried.
#[derive(Clone, Copy, Debug, PartialEq, Eq, Structural)]
pub enum ErrorKind {
    /// A secret is not base32 text.
    InvalidEncoding,
    /// A record says that its secret is stored inline, and holds none.
    MissingInlineSecret,
    /// The keychain has no secret for a record that is stored there.
    SecretUnavailable,
    /// A secret could not be read as an exported RSA token.
    ImportFailed,
    /// No record of the requested name exists.
    UnknownName,
    /// A code was asked for with a length outside `1..=8`.
    DigitsOutOfRange,
    /// Neither a command nor a token name was given.
    MissingCommand,
}

impl ErrorKind {
    /// The sentence that describes this kind of failure.
    pub open spec fn text(self) -> Seq<char> {
        match self {
            ErrorKind::InvalidEncoding => "Failed to decode secret from base32"@,
            ErrorKind::MissingInlineSecret => "Config secret but no secret"@,
            ErrorKind::SecretUnavailable => "Unable to read secret from the keychain"@,
            ErrorKind::ImportFailed => "Unable to import secret as an RSA stoken secret"@,
            ErrorKind::UnknownName => "Unable to find a config of that name"@,
            ErrorKind::DigitsOutOfRange => "Code length must be between 1 and 8 digits"@,
            ErrorKind::MissingCommand => "No command or TOTP token name provided"@,
        }
    }
}

/// A failure, tagged with its kind.
#[derive(Clone, Copy, Debug, PartialEq, Eq, Structural)]
pub struct TotpError {
    pub kind: ErrorKind,
}

impl TotpError {
    /// The failure of the given kind.
    pub open spec fn of_kind(kind: ErrorKind) -> TotpError {
        TotpError { kind }
    }

    /// The failure of the given kind.
    pub fn of(kind: ErrorKind) -> (error: TotpError)
        ensures
            error == TotpError::of_kind(kind),
    {
        TotpError { kind }
    }

    /// The kind of this failure.
    pub fn kind(&self) -> (kind: ErrorKind)
        ensures
            kind == self.kind,
    {
        self.kind
    }

    /// The sentence that describes this failure.
    pub fn message(&self) -> (message: &'static str)
        ensures
            message@ == self.kind.text(),
    {
        match self.kind {
            ErrorKind::InvalidEncoding => "Failed to decode secret from base32",
            ErrorKind::MissingInlineSecret => "Config secret but no secret",
            ErrorKind::SecretUnavailable => "Unable to read secret from the keychain",
            ErrorKind::ImportFailed => "Unable to import secret as an RSA stoken secret",
            ErrorKind::UnknownName => "Unable to find a config of that name",
            ErrorKind::DigitsOutOfRange => "Code length must be between 1 and 8 digits",
            ErrorKind::MissingCommand => "No command or TOTP token name provided",
        }
    }
}

/// The failure of a lookup in the configuration: no record has the name.
#[derive(Debug, PartialEq, Eq)]
pub struct TotpConfigError {
    pub name: String,
}

impl Clone for TotpConfigError {
    /// A copy of the failure: it holds the same name.
    fn clone(&self) -> (copy: Self)
        ensures
            copy == *self,
    {
        TotpConfigError { name: self.name.clone() }
    }
}

impl TotpConfigError {
    /// The sentence that describes this failure; it quotes the name.
    pub open spec fn text(self) -> Seq<char> {
        "Unable to find config named '"@ + self.name@ + "'"@
    }

    /// The sentence that describes this failure.
    pub fn message(&self) -> (message: String)
        ensures
            message@ == self.text(),
    {
        let mut message = String::from_str("Unable to find config named '");
        message.append(self.name.as_str());
        message.append("'");
        message
    }
}

/// What the operations of this library return.
pub type TotpResult<T> = Result<T, TotpError>;

/// A result that carries a text, as contracts speak of it: the characters of the text, or the
/// kind of the failure.
pub open spec fn text_outcome(result: TotpResult<String>) -> Result<Seq<char>, ErrorKind> {
    match result {
        Ok(text) => Ok(text@),
        Err(error) => Err(error.kind),
    }
}

} // verus!
