//! Where the secret of a token comes from and goes to: the record itself, or the keychain.
use crate::config::{Record, SecretLocation, TotpOptions};
use crate::error::{text_outcome, ErrorKind, TotpError, TotpResult};
use crate::table::{names_after_insert, NameTable};
use crate::totp::TokenAlgorithm;
use vstd::prelude::*;

verus! {

/// The service under which the secrets of this library stand in the keychain of the system.
pub const KEYCHAIN_SERVICE: &'static str = "urn:otpcli";

/// The secrets of one service of the keychain, each under the name of its token. The caller
/// fills it from the keychain of the system before a secret is looked for, and writes to the
/// keychain of the system what an operation has put in.
#[derive(Debug)]
pub struct Keychain {
    passwords: NameTable<String>,
}

impl View for Keychain {
    type V = Map<Seq<char>, Seq<char>>;

    closed spec fn view(&self) -> Map<Seq<char>, Seq<char>> {
        self.passwords.model().map_values(|secret: String| secret@)
    }
}

impl Clone for Keychain {
    /// A copy of the keychain: the same secrets under the same accounts, in the same order.
    fn clone(&self) -> (copy: Self)
        ensures
            copy@ == self@,
            copy.accounts() == self.accounts(),
    {
        let copy = Keychain { passwords: self.passwords.clone() };
        proof {
            use_type_invariant(&self.passwords);
            use_type_invariant(&copy.passwords);
            copy.passwords.lemma_names();
        }
        copy
    }
}

impl Keychain {
    /// The accounts that hold a secret, in the order in which they first got one.
    pub closed spec fn accounts(self) -> Seq<Seq<char>> {
        self.passwords.names()
    }

    /// A keychain without secrets.
    pub fn new() -> (keychain: Self)
        ensures
            keychain@ == Map::<Seq<char>, Seq<char>>::empty(),
            keychain.accounts() == Seq::<Seq<char>>::empty(),
    {
        let keychain = Keychain { passwords: NameTable::new() };
        keychain
    }

    /// The secret of `account`, if the keychain has one.
    pub fn get_password(&self, account: &str) -> (secret: Option<&String>)
        ensures
            match secret {
                Some(secret) => self@.contains_key(account@) && self@[account@] == secret@,
                None => !self@.contains_key(account@),
            },
    {
        self.passwords.get(account)
    }

    /// Puts `secret` under `account`, in place of what stood there.
    pub fn set_password(&mut self, account: &str, secret: &str)
        ensures
            final(self)@ == old(self)@.insert(account@, secret@),
            final(self).accounts() == names_after_insert(old(self).accounts(), account@),
    {
        let text: String = secret.to_owned();
        self.passwords.insert(account, text);
    }

    /// The number of accounts that hold a secret.
    pub fn len(&self) -> (len: usize)
        ensures
            len == self.accounts().len(),
    {
        self.passwords.len()
    }

    /// The account at place `at`, with its secret.
    pub fn entry_at(&self, at: usize) -> (entry: (&String, &String))
        requires
            at < self.accounts().len(),
        ensures
            entry.0@ == self.accounts()[at as int],
            self@.contains_key(entry.0@),
            self@[entry.0@] == entry.1@,
    {
        proof {
            use_type_invariant(&self.passwords);
            self.passwords.lemma_names();
        }
        let account: &String = self.passwords.name_at(at);
        let secret: &String = self.passwords.value_at(at);
        (account, secret)
    }
}

/// The account of the keychain under which the secret of the token `name` is looked for:
/// the name, where the record says that the secret is in the keychain, and none where the
/// secret is in the record. It tells the caller what to read into the keychain beforehand.
pub fn keychain_account<'a>(name: &'a str, options: &TotpOptions) -> (account: Option<&'a str>)
    ensures
        match account {
            Some(account) => options@.location() == SecretLocation::KeyChain && account@ == name@,
            None => options@.location() == SecretLocation::Config,
        },
{
    match options.storage() {
        Some(SecretLocation::KeyChain) => Some(name),
        _ => None,
    }
}

/// What looking for the secret of a record gives. A record that is stored inline gives the
/// secret that it holds, and fails where it holds none. A record that is stored in the keychain
/// gives what the keychain has under the name, and fails where it has nothing.
pub open spec fn secret_of(
    name: Seq<char>,
    record: Record,
    keychain: Map<Seq<char>, Seq<char>>,
) -> Result<Seq<char>, ErrorKind> {
    match record.location() {
        SecretLocation::Config => match record.secret {
            Some(secret) => Ok(secret),
            None => Err(ErrorKind::MissingInlineSecret),
        },
        SecretLocation::KeyChain => if keychain.contains_key(name) {
            Ok(keychain[name])
        } else {
            Err(ErrorKind::SecretUnavailable)
        },
    }
}

/// The secret of the token `name`, from where its record says it is.
pub fn get_secret(name: &str, totp_config: &TotpOptions, keychain: &Keychain) -> (result:
    TotpResult<String>)
    ensures
        text_outcome(result) == secret_of(name@, totp_config@, keychain@),
        totp_config@.location() == SecretLocation::Config && totp_config@.secret is None
            ==> result == Err::<String, TotpError>(
            TotpError::of_kind(ErrorKind::MissingInlineSecret),
        ),
{
    let in_keychain: bool = match totp_config.storage() {
        Some(SecretLocation::KeyChain) => true,
        _ => false,
    };
    if in_keychain {
        match keychain.get_password(name) {
            Some(secret) => Ok(secret.clone()),
            None => Err(TotpError::of(ErrorKind::SecretUnavailable)),
        }
    } else {
        match totp_config.secret() {
            Some(secret) => Ok(secret.clone()),
            None => Err(TotpError::of(ErrorKind::MissingInlineSecret)),
        }
    }
}

/// The record that storing a secret gives.
pub open spec fn stored_record(
    secret: Seq<char>,
    algorithm: TokenAlgorithm,
    location: SecretLocation,
) -> Record {
    match location {
        SecretLocation::Config => Record::inline(secret, algorithm),
        SecretLocation::KeyChain => Record::in_keychain(algorithm),
    }
}

/// The keychain after a secret was stored.
pub open spec fn keychain_after_store(
    name: Seq<char>,
    secret: Seq<char>,
    location: SecretLocation,
    keychain: Map<Seq<char>, Seq<char>>,
) -> Map<Seq<char>, Seq<char>> {
    match location {
        SecretLocation::Config => keychain,
        SecretLocation::KeyChain => keychain.insert(name, secret),
    }
}

/// Stores the secret of the token `name` at `location`, and gives the record that says so.
/// A secret that goes to the keychain goes under the name, and the record then holds none.
fn store(
    name: &str,
    secret: &str,
    algorithm: TokenAlgorithm,
    location: SecretLocation,
    keychain: &mut Keychain,
) -> (options: TotpOptions)
    ensures
        options@ == stored_record(secret@, algorithm, location),
        final(keychain)@ == keychain_after_store(name@, secret@, location, old(keychain)@),
{
    match location {
        SecretLocation::Config => TotpOptions::new_config_stored_secret(
            secret.to_owned(),
            algorithm,
        ),
        SecretLocation::KeyChain => {
            keychain.set_password(name, secret);
            TotpOptions::new_keychain_stored_secret(algorithm)
        },
    }
}

/// Stores the secret of the token `name` at `location`, and gives the record that says so.
/// The record obeys the rule of the records, and the secret can be had back through it.
pub fn store_secret(
    name: &str,
    secret: &str,
    algorithm: TokenAlgorithm,
    location: SecretLocation,
    keychain: &mut Keychain,
) -> (options: TotpOptions)
    ensures
        options@ == stored_record(secret@, algorithm, location),
        options@.well_formed(),
        final(keychain)@ == keychain_after_store(name@, secret@, location, old(keychain)@),
        secret_of(name@, options@, final(keychain)@) == Ok::<Seq<char>, ErrorKind>(secret@),
{
    store(name, secret, algorithm, location, keychain)
}

/// A secret that was stored is found again: whatever the keychain held, looking for the secret
/// through the record that storing gave, in the keychain as storing left it, gives the secret.
pub proof fn lemma_stored_secret_is_found(
    name: Seq<char>,
    secret: Seq<char>,
    algorithm: TokenAlgorithm,
    location: SecretLocation,
    keychain: Map<Seq<char>, Seq<char>>,
)
    ensures
        secret_of(
            name,
            stored_record(secret, algorithm, location),
            keychain_after_store(name, secret, location, keychain),
        ) == Ok::<Seq<char>, ErrorKind>(secret),
        stored_record(secret, algorithm, location).well_formed(),
        stored_record(secret, algorithm, location).algorithm_or_default() == algorithm,
{
}

/// Moving a secret keeps it: where a record gives a secret, storing that secret at any
/// location, the other one or the same, gives a record through which the same secret is found.
pub proof fn lemma_migration_round_trip(
    name: Seq<char>,
    record: Record,
    target: SecretLocation,
    keychain: Map<Seq<char>, Seq<char>>,
)
    requires
        secret_of(name, record, keychain) is Ok,
    ensures
        ({
            let secret = secret_of(name, record, keychain)->Ok_0;
            let moved = stored_record(secret, record.algorithm_or_default(), target);
            let after = keychain_after_store(name, secret, target, keychain);
            &&& secret_of(name, moved, after) == secret_of(name, record, keychain)
            &&& moved.location() == target
            &&& moved.well_formed()
            &&& moved.algorithm_or_default() == record.algorithm_or_default()
        }),
{
}

} // verus!
