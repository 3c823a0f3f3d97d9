//! The records that say where the secret of a token is and how its code is made, and the
//! configuration that holds one record for each name.
use crate::error::TotpConfigError;
use crate::table::{names_after_insert, names_after_remove, NameTable};
use crate::totp::TokenAlgorithm;
use vstd::prelude::*;

verus! {

/// Where the secret of a token is stored.
#[derive(Clone, Copy, Debug, PartialEq, Eq, Structural)]
pub enum SecretLocation {
    /// In the record itself.
    Config,
    /// In the keychain, under the name of the token.
    KeyChain,
}

/// A record as contracts speak of it.
pub struct Record {
    pub storage: Option<SecretLocation>,
    pub secret: Option<Seq<char>>,
    pub algorithm: Option<TokenAlgorithm>,
}

impl Record {
    /// Where the secret is: in the record, unless the record names the keychain.
    pub open spec fn location(self) -> SecretLocation {
        match self.storage {
            Some(SecretLocation::KeyChain) => SecretLocation::KeyChain,
            _ => SecretLocation::Config,
        }
    }

    /// How the code is made: a time-based password over SHA-1, unless the record says otherwise.
    pub open spec fn algorithm_or_default(self) -> TokenAlgorithm {
        match self.algorithm {
            Some(algorithm) => algorithm,
            None => TokenAlgorithm::TotpSha1,
        }
    }

    /// The record of a secret that is stored inline.
    pub open spec fn inline(secret: Seq<char>, algorithm: TokenAlgorithm) -> Record {
        Record {
            storage: Some(SecretLocation::Config),
            secret: Some(secret),
            algorithm: Some(algorithm),
        }
    }

    /// The record of a secret that is stored in the keychain.
    pub open spec fn in_keychain(algorithm: TokenAlgorithm) -> Record {
        Record { storage: Some(SecretLocation::KeyChain), secret: None, algorithm: Some(algorithm) }
    }

    /// The rule of the records: one that is stored inline holds its secret, and one that is
    /// stored in the keychain holds none.
    pub open spec fn well_formed(self) -> bool {
        match self.location() {
            SecretLocation::Config => self.secret is Some,
            SecretLocation::KeyChain => self.secret is None,
        }
    }
}

/// The record of one token.
#[derive(Debug, PartialEq, Eq)]
pub struct TotpOptions {
    storage: Option<SecretLocation>,
    secret: Option<String>,
    algorithm: Option<TokenAlgorithm>,
}

impl View for TotpOptions {
    type V = Record;

    closed spec fn view(&self) -> Record {
        Record {
            storage: self.storage,
            secret: match self.secret {
                Some(secret) => Some(secret@),
                None => None,
            },
            algorithm: self.algorithm,
        }
    }
}

impl Clone for TotpOptions {
    /// A copy of the record: the same parts.
    fn clone(&self) -> (copy: Self)
        ensures
            copy == *self,
    {
        TotpOptions {
            storage: self.storage,
            secret: match &self.secret {
                Some(secret) => Some(secret.clone()),
                None => None,
            },
            algorithm: self.algorithm,
        }
    }
}

impl TotpOptions {
    /// A record with the given parts, as a stored configuration may hold it.
    pub fn new(
        storage: Option<SecretLocation>,
        secret: Option<String>,
        algorithm: Option<TokenAlgorithm>,
    ) -> (options: Self)
        ensures
            options@.storage == storage,
            options@.secret == match secret {
                Some(secret) => Some(secret@),
                None => None,
            },
            options@.algorithm == algorithm,
    {
        TotpOptions { storage, secret, algorithm }
    }

    /// Where the record says its secret is stored, if it says so.
    pub fn storage(&self) -> (storage: Option<&SecretLocation>)
        ensures
            match storage {
                Some(location) => self@.storage == Some(*location),
                None => self@.storage is None,
            },
    {
        self.storage.as_ref()
    }

    /// The secret that the record holds, if it holds one.
    pub fn secret(&self) -> (secret: Option<&String>)
        ensures
            match secret {
                Some(text) => self@.secret == Some(text@),
                None => self@.secret is None,
            },
    {
        self.secret.as_ref()
    }

    /// How the code of the record is made.
    pub fn algorithm(&self) -> (algorithm: TokenAlgorithm)
        ensures
            algorithm == self@.algorithm_or_default(),
    {
        match self.algorithm {
            Some(algorithm) => algorithm,
            None => TokenAlgorithm::TotpSha1,
        }
    }

    /// The record of a secret that is stored inline.
    pub fn new_config_stored_secret(secret: String, algorithm: TokenAlgorithm) -> (options: Self)
        ensures
            options@ == Record::inline(secret@, algorithm),
    {
        TotpOptions {
            storage: Some(SecretLocation::Config),
            secret: Some(secret),
            algorithm: Some(algorithm),
        }
    }

    /// The record of a secret that is stored in the keychain.
    pub fn new_keychain_stored_secret(algorithm: TokenAlgorithm) -> (options: Self)
        ensures
            options@ == Record::in_keychain(algorithm),
    {
        TotpOptions {
            storage: Some(SecretLocation::KeyChain),
            secret: None,
            algorithm: Some(algorithm),
        }
    }
}

/// The records of all tokens, one for each name.
#[derive(Debug)]
pub struct Config {
    pub totp: NameTable<TotpOptions>,
}

impl View for Config {
    type V = Map<Seq<char>, Record>;

    open spec fn view(&self) -> Map<Seq<char>, Record> {
        self.totp.model().map_values(|options: TotpOptions| options@)
    }
}

impl Clone for Config {
    /// A copy of the configuration: the same records under the same names, in the same order.
    fn clone(&self) -> (copy: Self)
        ensures
            copy@ == self@,
            copy.names() == self.names(),
    {
        let copy = Config { totp: self.totp.clone() };
        proof {
            use_type_invariant(&self.totp);
            use_type_invariant(&copy.totp);
            copy.totp.lemma_names();
        }
        copy
    }
}

impl Default for Config {
    /// The configuration without records.
    fn default() -> (config: Self)
        ensures
            config@ == Map::<Seq<char>, Record>::empty(),
            config.names() == Seq::<Seq<char>>::empty(),
    {
        let config = Config { totp: NameTable::new() };
        config
    }
}

impl Config {
    /// The names of the records, in the order in which they were first added.
    pub open spec fn names(self) -> Seq<Seq<char>> {
        self.totp.names()
    }

    /// The record of `name`. It fails exactly where no record has the name, and the failure
    /// holds the name.
    pub fn lookup(&self, name: &str) -> (found: Result<&TotpOptions, TotpConfigError>)
        ensures
            match found {
                Ok(options) => self@.contains_key(name@) && self@[name@] == options@,
                Err(error) => !self@.contains_key(name@) && error.name@ == name@,
            },
    {
        match self.totp.get(name) {
            Some(options) => Ok(options),
            None => Err(TotpConfigError { name: name.to_owned() }),
        }
    }

    /// Gives `name` the record `options`, in place of the one it had, if it had one.
    pub fn insert(&mut self, name: &str, options: TotpOptions)
        ensures
            final(self)@ == old(self)@.insert(name@, options@),
            final(self).names() == names_after_insert(old(self).names(), name@),
    {
        self.totp.insert(name, options);
    }

    /// Takes the record of `name` out, if there is one.
    pub fn remove(&mut self, name: &str)
        ensures
            final(self)@ == old(self)@.remove(name@),
            final(self).names() == names_after_remove(old(self).names(), name@),
    {
        self.totp.remove(name);
    }
}

} // verus!
