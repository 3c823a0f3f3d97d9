//! One-time password generation from a named collection of secrets.
//!
//! A configuration holds one record for each token name. A record says how the code of the
//! token is made and where its secret is stored: in the record itself, or in the keychain.
//! Nothing here reads a clock, a file or the keychain of the system: the caller hands in the
//! time and the secrets of the keychain, and writes out what comes back.
use vstd::prelude::*;

pub mod cli;
pub mod codec;
pub mod config;
pub mod error;
pub mod keyed_hash;
pub mod number;
pub mod secrets;
pub mod table;
pub mod text;
pub mod totp;

pub use crate::error::{ErrorKind, TotpConfigError, TotpError, TotpResult};
pub use crate::totp::TokenAlgorithm;

use crate::codec::{decode, is_base32};
use crate::config::{Config, Record, SecretLocation, TotpOptions};
use crate::secrets::{
    get_secret, keychain_after_store, secret_of, store_secret, stored_record, Keychain,
};
use crate::table::{names_after_insert, names_after_remove};
use crate::text::normalized;
use crate::totp::{standard_totp, standard_totp_outcome};

verus! {

/// What the dispatcher gives for a token.
#[derive(Debug, PartialEq, Eq)]
pub enum Token {
    /// A finished code.
    Code(String),
    /// An exported RSA token. Its code is made outside this library, from the token and the
    /// time; `stoken_code` takes what came of it.
    Exported(String),
}

/// What the dispatcher gives, as contracts speak of it.
pub enum TokenModel {
    Code(Seq<char>),
    Exported(Seq<char>),
}

impl View for Token {
    type V = TokenModel;

    open spec fn view(&self) -> TokenModel {
        match self {
            Token::Code(code) => TokenModel::Code(code@),
            Token::Exported(exported) => TokenModel::Exported(exported@),
        }
    }
}

impl Clone for Token {
    /// A copy of the token: the same text of the same kind.
    fn clone(&self) -> (copy: Self)
        ensures
            copy == *self,
    {
        match self {
            Token::Code(code) => Token::Code(code.clone()),
            Token::Exported(exported) => Token::Exported(exported.clone()),
        }
    }
}

/// The result of the dispatcher, as contracts speak of it.
pub open spec fn token_view(result: TotpResult<Token>) -> Result<TokenModel, ErrorKind> {
    match result {
        Ok(token) => Ok(token@),
        Err(error) => Err(error.kind),
    }
}

/// What asking for the token of a record gives. A record of a time-based password gives the
/// code of its secret. A record of an RSA token gives its secret, the exported token, as it is.
pub open spec fn record_outcome(
    name: Seq<char>,
    record: Record,
    keychain: Map<Seq<char>, Seq<char>>,
    now: u64,
) -> Result<TokenModel, ErrorKind> {
    match record.algorithm_or_default() {
        TokenAlgorithm::TotpSha1 => match standard_totp_outcome(name, record, keychain, now) {
            Ok(code) => Ok(TokenModel::Code(code)),
            Err(kind) => Err(kind),
        },
        TokenAlgorithm::SToken => match secret_of(name, record, keychain) {
            Ok(exported) => Ok(TokenModel::Exported(exported)),
            Err(kind) => Err(kind),
        },
    }
}

/// What asking for the token `name` gives: what its record gives, where it has one.
pub open spec fn token_outcome(
    name: Seq<char>,
    config: Map<Seq<char>, Record>,
    keychain: Map<Seq<char>, Seq<char>>,
    now: u64,
) -> Result<TokenModel, ErrorKind> {
    if config.contains_key(name) {
        record_outcome(name, config[name], keychain, now)
    } else {
        Err(ErrorKind::UnknownName)
    }
}

/// The exported RSA token of the record of `name`: its secret, from where the record says.
pub fn stoken(name: &str, options: &TotpOptions, keychain: &Keychain) -> (result: TotpResult<
    Token,
>)
    ensures
        token_view(result) == match secret_of(name@, options@, keychain@) {
            Ok(exported) => Ok::<TokenModel, ErrorKind>(TokenModel::Exported(exported)),
            Err(kind) => Err(kind),
        },
{
    match get_secret(name, options, keychain) {
        Ok(exported) => Ok(Token::Exported(exported)),
        Err(error) => Err(error),
    }
}

/// The code of an exported RSA token, from what the RSA collaborator made of it: the code
/// where it made one, and a failure where it could not read the token.
pub fn stoken_code(generated: Option<String>) -> (result: TotpResult<String>)
    ensures
        match generated {
            Some(code) => result == Ok::<String, TotpError>(code),
            None => result == Err::<String, TotpError>(TotpError::of_kind(ErrorKind::ImportFailed)),
        },
{
    match generated {
        Some(code) => Ok(code),
        None => Err(TotpError::of(ErrorKind::ImportFailed)),
    }
}

/// The token `name` at the moment `now`, in seconds since the Unix epoch. The record of the
/// name decides how it is made: the code of a time-based password is made here; an exported
/// RSA token is handed back for its code to be made outside. A name without a record fails with
/// `UnknownName`.
pub fn token(name: &str, config: Config, keychain: &Keychain, now: u64) -> (result: TotpResult<
    Token,
>)
    ensures
        token_view(result) == token_outcome(name@, config@, keychain@, now),
        !config@.contains_key(name@) ==> result == Err::<Token, TotpError>(
            TotpError::of_kind(ErrorKind::UnknownName),
        ),
{
    let options: &TotpOptions = match config.lookup(name) {
        Ok(options) => options,
        Err(_) => {
            return Err(TotpError::of(ErrorKind::UnknownName));
        },
    };
    match options.algorithm() {
        TokenAlgorithm::TotpSha1 => match standard_totp(name, options, keychain, now) {
            Ok(code) => Ok(Token::Code(code)),
            Err(error) => Err(error),
        },
        TokenAlgorithm::SToken => stoken(name, options, keychain),
    }
}

/// Adds a record for `name` with the given secret, stored at `location`, in place of the
/// record that the name had, if it had one.
pub fn add_secret(
    config: &Config,
    name: &str,
    secret: String,
    algorithm: TokenAlgorithm,
    location: SecretLocation,
    keychain: &mut Keychain,
) -> (updated: Config)
    ensures
        updated@ == config@.insert(name@, stored_record(secret@, algorithm, location)),
        updated.names() == names_after_insert(config.names(), name@),
        final(keychain)@ == keychain_after_store(name@, secret@, location, old(keychain)@),
{
    let options: TotpOptions = store_secret(name, secret.as_str(), algorithm, location, keychain);
    let mut updated: Config = config.clone();
    updated.insert(name, options);
    updated
}

/// Adds a record of a time-based password for `name`. The secret must be base32, spaces and
/// letter case aside; one that is not is refused, and nothing is stored.
pub fn add_totp_secret(
    config: Config,
    name: &str,
    secret: String,
    location: SecretLocation,
    keychain: &mut Keychain,
) -> (result: TotpResult<Config>)
    ensures
        match result {
            Ok(updated) => {
                &&& is_base32(normalized(secret@))
                &&& updated@ == config@.insert(
                    name@,
                    stored_record(secret@, TokenAlgorithm::TotpSha1, location),
                )
                &&& updated.names() == names_after_insert(config.names(), name@)
                &&& final(keychain)@ == keychain_after_store(
                    name@,
                    secret@,
                    location,
                    old(keychain)@,
                )
            },
            Err(error) => {
                &&& !is_base32(normalized(secret@))
                &&& error.kind == ErrorKind::InvalidEncoding
                &&& final(keychain)@ == old(keychain)@
            },
        },
{
    match decode(secret.as_str()) {
        Ok(_) => Ok(
            add_secret(&config, name, secret, TokenAlgorithm::TotpSha1, location, keychain),
        ),
        Err(error) => Err(error),
    }
}

/// Adds a record of an RSA token for `name`, with the exported token as its secret.
pub fn add_stoken(
    config: &Config,
    name: &str,
    exported_token: String,
    location: SecretLocation,
    keychain: &mut Keychain,
) -> (updated: Config)
    ensures
        updated@ == config@.insert(
            name@,
            stored_record(exported_token@, TokenAlgorithm::SToken, location),
        ),
        updated.names() == names_after_insert(config.names(), name@),
        final(keychain)@ == keychain_after_store(
            name@,
            exported_token@,
            location,
            old(keychain)@,
        ),
{
    add_secret(config, name, exported_token, TokenAlgorithm::SToken, location, keychain)
}

/// The names of all records, in the order in which they were first added. The prefix does not
/// count.
pub fn list_secrets(config: Config, _prefix: Option<String>) -> (result: TotpResult<Vec<String>>)
    ensures
        result matches Ok(names) && names@.len() == config.names().len() && forall|at: int|
            0 <= at < names@.len() ==> (#[trigger] names@[at])@ == config.names()[at],
{
    Ok(config.totp.name_list())
}

/// Takes the record of `name` out, if there is one.
pub fn delete_secret(config: Config, name: String) -> (updated: Config)
    ensures
        updated@ == config@.remove(name@),
        updated.names() == names_after_remove(config.names(), name@),
{
    let mut updated: Config = config;
    updated.remove(name.as_str());
    updated
}

/// Whether the secret of every record of a configuration is found.
pub open spec fn all_secrets_found(
    config: Map<Seq<char>, Record>,
    keychain: Map<Seq<char>, Seq<char>>,
) -> bool {
    forall|name: Seq<char>|
        config.contains_key(name) ==> (#[trigger] secret_of(name, config[name], keychain)) is Ok
}

/// The records after their secrets were moved to the keychain: each says so, holds no
/// secret, and makes its code as before.
pub open spec fn migrated_config(config: Map<Seq<char>, Record>) -> Map<Seq<char>, Record> {
    config.map_values(|record: Record| Record::in_keychain(record.algorithm_or_default()))
}

/// The keychain after the secrets of the first `count` of `names` were moved to it: it holds
/// the secret of each of them under its name, and what it held under other names.
spec fn migrated_keychain_upto(
    config: Map<Seq<char>, Record>,
    names: Seq<Seq<char>>,
    count: int,
    keychain: Map<Seq<char>, Seq<char>>,
) -> Map<Seq<char>, Seq<char>> {
    Map::new(
        |account: Seq<char>| keychain.contains_key(account) || names.take(count).contains(account),
        |account: Seq<char>|
            if names.take(count).contains(account) {
                secret_of(account, config[account], keychain)->Ok_0
            } else {
                keychain[account]
            },
    )
}

/// The keychain after the secrets of all records were moved to it: it holds the secret of
/// each record under its name, and what it held under other names.
pub open spec fn migrated_keychain(
    config: Map<Seq<char>, Record>,
    keychain: Map<Seq<char>, Seq<char>>,
) -> Map<Seq<char>, Seq<char>> {
    Map::new(
        |account: Seq<char>| keychain.contains_key(account) || config.contains_key(account),
        |account: Seq<char>|
            if config.contains_key(account) {
                secret_of(account, config[account], keychain)->Ok_0
            } else {
                keychain[account]
            },
    )
}

/// The failure of the first of `names`, from place `from` on, whose secret is not found.
pub open spec fn first_failure_from(
    config: Map<Seq<char>, Record>,
    names: Seq<Seq<char>>,
    keychain: Map<Seq<char>, Seq<char>>,
    from: int,
) -> Option<ErrorKind>
    decreases names.len() - from,
{
    if from < 0 || from >= names.len() {
        None
    } else {
        match secret_of(names[from], config[names[from]], keychain) {
            Ok(_) => first_failure_from(config, names, keychain, from + 1),
            Err(kind) => Some(kind),
        }
    }
}

/// The failure of the first of `names` whose secret is not found.
pub open spec fn first_failure(
    config: Map<Seq<char>, Record>,
    names: Seq<Seq<char>>,
    keychain: Map<Seq<char>, Seq<char>>,
) -> Option<ErrorKind> {
    first_failure_from(config, names, keychain, 0)
}

/// Where no record fails from place `from` on, the secret of each of them is found, and the
/// other way round.
pub proof fn lemma_first_failure(
    config: Map<Seq<char>, Record>,
    names: Seq<Seq<char>>,
    keychain: Map<Seq<char>, Seq<char>>,
    from: int,
)
    requires
        0 <= from,
    ensures
        first_failure_from(config, names, keychain, from) is None <==> forall|at: int|
            from <= at < names.len() ==> (#[trigger] secret_of(
                names[at],
                config[names[at]],
                keychain,
            )) is Ok,
    decreases names.len() - from,
{
    if from < names.len() {
        lemma_first_failure(config, names, keychain, from + 1);
    }
}

/// The secrets of all records, each at the place of its name, or the failure of the first
/// record whose secret is not found.
fn collect_secrets(config: &Config, keychain: &Keychain) -> (result: TotpResult<Vec<String>>)
    ensures
        match result {
            Ok(secrets) => {
                &&& secrets@.len() == config.names().len()
                &&& forall|at: int|
                    0 <= at < secrets@.len() ==> secret_of(
                        config.names()[at],
                        config@[config.names()[at]],
                        keychain@,
                    ) == Ok::<Seq<char>, ErrorKind>((#[trigger] secrets@[at])@)
            },
            Err(error) => first_failure(config@, config.names(), keychain@) == Some(error.kind),
        },
        first_failure(config@, config.names(), keychain@) is None <==> result is Ok,
{
    proof {
        use_type_invariant(&config.totp);
    }
    let count: usize = config.totp.len();
    let mut secrets: Vec<String> = Vec::new();
    let mut index: usize = 0;
    while index < count
        invariant
            index <= count == config.names().len(),
            config.totp.distinct(),
            secrets@.len() == index,
            forall|at: int|
                0 <= at < index ==> secret_of(
                    config.names()[at],
                    config@[config.names()[at]],
                    keychain@,
                ) == Ok::<Seq<char>, ErrorKind>((#[trigger] secrets@[at])@),
            first_failure_from(config@, config.names(), keychain@, 0) == first_failure_from(
                config@,
                config.names(),
                keychain@,
                index as int,
            ),
        decreases count - index,
    {
        proof {
            config.totp.lemma_names();
        }
        let name: &String = config.totp.name_at(index);
        let options: &TotpOptions = config.totp.value_at(index);
        match get_secret(name.as_str(), options, keychain) {
            Ok(secret) => {
                secrets.push(secret);
            },
            Err(error) => {
                return Err(error);
            },
        }
        index = index + 1;
    }
    Ok(secrets)
}

/// Moves the secrets of all records to the keychain, all or none. Where the secret of every
/// record is found, each goes to the keychain under its name, and each record then says that
/// its secret is there; the names keep their order, and every secret is found as before.
/// Where a secret is not found, the failure is that of the first such record, and the
/// keychain is as it was.
pub fn migrate_secrets_to_keychain(config: Config, keychain: &mut Keychain) -> (result:
    TotpResult<Config>)
    ensures
        match result {
            Ok(moved) => {
                &&& all_secrets_found(config@, old(keychain)@)
                &&& moved@ == migrated_config(config@)
                &&& moved.names() == config.names()
                &&& final(keychain)@ == migrated_keychain(config@, old(keychain)@)
                &&& forall|name: Seq<char>|
                    config@.contains_key(name) ==> secret_of(name, moved@[name], final(keychain)@)
                        == #[trigger] secret_of(name, config@[name], old(keychain)@)
            },
            Err(error) => {
                &&& first_failure(config@, config.names(), old(keychain)@) == Some(error.kind)
                &&& final(keychain)@ == old(keychain)@
            },
        },
        result is Ok <==> all_secrets_found(config@, old(keychain)@),
{
    proof {
        use_type_invariant(&config.totp);
        lemma_first_failure(config@, config.names(), keychain@, 0);
    }
    let secrets: Vec<String> = match collect_secrets(&config, keychain) {
        Ok(secrets) => secrets,
        Err(error) => {
            return Err(error);
        },
    };
    let ghost before = keychain@;
    let ghost names = config.names();
    let count: usize = config.totp.len();
    let mut moved: Config = Config::default();
    let mut index: usize = 0;
    while index < count
        invariant
            index <= count == names.len() == secrets@.len(),
            names == config.names(),
            config.totp.distinct(),
            forall|at: int|
                0 <= at < count ==> secret_of(names[at], config@[names[at]], before) == Ok::<
                    Seq<char>,
                    ErrorKind,
                >((#[trigger] secrets@[at])@),
            moved.names() == names.take(index as int),
            moved@.dom() == names.take(index as int).to_set(),
            forall|at: int|
                0 <= at < index ==> moved@[#[trigger] names[at]] == Record::in_keychain(
                    config@[names[at]].algorithm_or_default(),
                ),
            keychain@ == migrated_keychain_upto(config@, names, index as int, before),
        decreases count - index,
    {
        proof {
            config.totp.lemma_names();
        }
        let name: &String = config.totp.name_at(index);
        let options: &TotpOptions = config.totp.value_at(index);
        keychain.set_password(name.as_str(), secrets[index].as_str());
        moved.insert(name.as_str(), TotpOptions::new_keychain_stored_secret(options.algorithm()));
        proof {
            let next = index as int + 1;
            assert(names.take(next) == names.take(index as int).push(name@));
            assert(keychain@ =~= migrated_keychain_upto(config@, names, next, before)) by {
                assert forall|account: Seq<char>|
                    names.take(next).contains(account) <==> names.take(index as int).contains(
                        account,
                    ) || account == name@ by {
                    if account == name@ {
                        assert(names.take(next)[index as int] == account);
                    }
                }
            }
        }
        index = index + 1;
    }
    proof {
        assert(names.take(count as int) == names);
    }
    Ok(moved)
}

} // verus!
