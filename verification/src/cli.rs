//! The commands of the command line, and which of them a set of arguments asks for.
use crate::error::{ErrorKind, TotpError, TotpResult};
use vstd::prelude::*;

verus! {

/// What the command line asks for.
#[derive(Debug, PartialEq, Eq)]
pub enum Command {
    /// Add a time-based password, or replace one.
    AddSecret { name: String, secret: String },
    /// Add an RSA token from a token file and its pin.
    ImportStoken { name: String, path: String, pin: String },
    /// List the names of the tokens.
    ListSecrets { prefix: Option<String> },
    /// Delete a token.
    DeleteSecret { name: String },
    /// Move the secrets that are stored inline to the keychain.
    UseKeychain,
    /// Make the code of a token.
    GenerateToken { name: String },
}

/// The arguments of the command line.
#[derive(Debug, PartialEq, Eq)]
pub struct Options {
    /// The command, where one is named.
    pub cmd: Option<Command>,
    /// The name of the token to make a code of, where no command is named.
    pub name: Option<String>,
    /// How much to report.
    pub verbosity: u8,
    /// Whether a newline ends the output.
    pub end_with_newline: bool,
    /// Whether the code also goes to the clipboard.
    pub copy_to_clipboard: bool,
}

/// A copy of a text that may be missing.
fn copy_text(text: &Option<String>) -> (copy: Option<String>)
    ensures
        copy == *text,
{
    match text {
        Some(text) => Some(text.clone()),
        None => None,
    }
}

impl Clone for Command {
    /// A copy of the command: the same command with the same arguments.
    fn clone(&self) -> (copy: Self)
        ensures
            copy == *self,
    {
        match self {
            Command::AddSecret { name, secret } => Command::AddSecret {
                name: name.clone(),
                secret: secret.clone(),
            },
            Command::ImportStoken { name, path, pin } => Command::ImportStoken {
                name: name.clone(),
                path: path.clone(),
                pin: pin.clone(),
            },
            Command::ListSecrets { prefix } => Command::ListSecrets { prefix: copy_text(prefix) },
            Command::DeleteSecret { name } => Command::DeleteSecret { name: name.clone() },
            Command::UseKeychain => Command::UseKeychain,
            Command::GenerateToken { name } => Command::GenerateToken { name: name.clone() },
        }
    }
}

impl Clone for Options {
    /// A copy of the arguments.
    fn clone(&self) -> (copy: Self)
        ensures
            copy == *self,
    {
        Options {
            cmd: match &self.cmd {
                Some(command) => Some(command.clone()),
                None => None,
            },
            name: copy_text(&self.name),
            verbosity: self.verbosity,
            end_with_newline: self.end_with_newline,
            copy_to_clipboard: self.copy_to_clipboard,
        }
    }
}

impl Options {
    /// The command that the arguments ask for: the one they name, else the making of the code
    /// of the token they name, else none.
    pub open spec fn chosen(self) -> Result<Command, ErrorKind> {
        match self.cmd {
            Some(command) => Ok(command),
            None => match self.name {
                Some(name) => Ok(Command::GenerateToken { name }),
                None => Err(ErrorKind::MissingCommand),
            },
        }
    }

    /// The command that the arguments ask for. A bare token name asks for its code. Arguments
    /// that name neither a command nor a token fail with `MissingCommand`.
    pub fn command(&self) -> (result: TotpResult<Command>)
        ensures
            match result {
                Ok(command) => self.chosen() == Ok::<Command, ErrorKind>(command),
                Err(error) => self.chosen() == Err::<Command, ErrorKind>(error.kind),
            },
    {
        match &self.cmd {
            Some(command) => Ok(command.clone()),
            None => match &self.name {
                Some(name) => Ok(Command::GenerateToken { name: name.clone() }),
                None => Err(TotpError::of(ErrorKind::MissingCommand)),
            },
        }
    }

    /// Whether the code also goes to the clipboard.
    pub fn copy_to_clipboard(&self) -> (copy: bool)
        ensures
            copy == self.copy_to_clipboard,
    {
        self.copy_to_clipboard
    }
}

} // verus!
