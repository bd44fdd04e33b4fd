use crate::error::ErrorCode;
use vstd::prelude::*;
use vstd::string::*;
use vstd::utf8::encode_utf8;

verus! {

/// The longest user name the vault takes, in bytes.
pub const CRED_MAX_USERNAME_LENGTH: u32 = 513;

/// The longest generic target name the vault takes, in bytes.
pub const CRED_MAX_GENERIC_TARGET_NAME_LENGTH: u32 = 32767;

/// The longest alias or comment the vault takes, in bytes.
pub const CRED_MAX_STRING_LENGTH: u32 = 256;

/// The largest secret the vault takes, in bytes.
pub const CRED_MAX_CREDENTIAL_BLOB_SIZE: u32 = 2560;

/// A vault entry's identity. The vault finds an entry by its target name
/// alone; the other three fields are metadata stored beside the secret.
#[derive(Debug, Clone, PartialEq, Eq)]
pub struct WinCredential {
    pub username: String,
    pub target_name: String,
    pub target_alias: String,
    pub comment: String,
}

/// The four fields of an identity, as text.
pub struct CredentialModel {
    pub username: Seq<char>,
    pub target_name: Seq<char>,
    pub target_alias: Seq<char>,
    pub comment: Seq<char>,
}

impl View for WinCredential {
    type V = CredentialModel;

    open spec fn view(&self) -> CredentialModel {
        CredentialModel {
            username: self.username@,
            target_name: self.target_name@,
            target_alias: self.target_alias@,
            comment: self.comment@,
        }
    }
}

/// Why an identity, or an input to build one, is refused.
pub enum Rejection {
    TooLong(Seq<char>, u32),
    Invalid(Seq<char>, Seq<char>),
}

/// The length of a text in bytes, as the vault counts it and as `str::len`
/// reports it.
pub open spec fn byte_len(s: Seq<char>) -> usize {
    encode_utf8(s).len() as usize
}

/// The first size or emptiness rule that an identity and a secret break, if any.
pub open spec fn validation_error(c: CredentialModel, password: Seq<char>) -> Option<Rejection> {
    if byte_len(c.username) > CRED_MAX_USERNAME_LENGTH as usize {
        Some(Rejection::TooLong("username"@, CRED_MAX_USERNAME_LENGTH))
    } else if c.target_name.len() == 0 {
        Some(Rejection::Invalid("target"@, "cannot be empty"@))
    } else if byte_len(c.target_name) > CRED_MAX_GENERIC_TARGET_NAME_LENGTH as usize {
        Some(Rejection::TooLong("target name"@, CRED_MAX_GENERIC_TARGET_NAME_LENGTH))
    } else if byte_len(c.target_alias) > CRED_MAX_STRING_LENGTH as usize {
        Some(Rejection::TooLong("target alias"@, CRED_MAX_STRING_LENGTH))
    } else if byte_len(c.comment) > CRED_MAX_STRING_LENGTH as usize {
        Some(Rejection::TooLong("comment"@, CRED_MAX_STRING_LENGTH))
    } else if byte_len(password) > CRED_MAX_CREDENTIAL_BLOB_SIZE as usize {
        Some(Rejection::TooLong("password"@, CRED_MAX_CREDENTIAL_BLOB_SIZE))
    } else {
        None
    }
}

/// An identity and a secret pass every rule.
pub open spec fn valid_attributes(c: CredentialModel, password: Seq<char>) -> bool {
    validation_error(c, password) is None
}

/// The error value reports the rejection.
pub open spec fn reports(e: ErrorCode, rej: Rejection) -> bool {
    match rej {
        Rejection::TooLong(field, limit) => e matches ErrorCode::TooLong(f, n) && f@ == field
            && n == limit,
        Rejection::Invalid(field, why) => e matches ErrorCode::Invalid(f, w) && f@ == field && w@
            == why,
    }
}

/// The provenance comment written for a (service, user) pair.
pub open spec fn metadata_of(service: Seq<char>, user: Seq<char>) -> Seq<char> {
    "keyring-rs v0.1.0 for service '"@ + service + "', user '"@ + user + "'"@
}

/// The identity built from an optional target, a service and a user, or
/// the reason none is.
pub open spec fn built(target: Option<Seq<char>>, service: Seq<char>, user: Seq<char>) -> Result<
    CredentialModel,
    Rejection,
> {
    let candidate = |name: Seq<char>|
        CredentialModel {
            username: user,
            target_name: name,
            target_alias: Seq::empty(),
            comment: metadata_of(service, user),
        };
    match target {
        Some(t) => match validation_error(candidate(t), Seq::empty()) {
            Some(rej) => Err(rej),
            None => Ok(candidate(t)),
        },
        None => if service.len() == 0 {
            Err(Rejection::Invalid("service"@, "cannot be empty"@))
        } else if user.len() == 0 {
            Err(Rejection::Invalid("user"@, "cannot be empty"@))
        } else {
            let name = user + "."@ + service;
            match validation_error(candidate(name), Seq::empty()) {
                Some(rej) => Err(rej),
                None => Ok(candidate(name)),
            }
        },
    }
}

/// The outcome of a build is the one given.
pub open spec fn build_outcome(r: Result<WinCredential, ErrorCode>, expected: Result<CredentialModel, Rejection>) -> bool {
    match expected {
        Ok(c) => r matches Ok(w) && w@ == c,
        Err(rej) => r matches Err(e) && reports(e, rej),
    }
}

/// The refusal of a field.
fn too_long(field: &str, limit: u32) -> (r: ErrorCode)
    ensures
        r matches ErrorCode::TooLong(f, n) && f@ == field@ && n == limit,
{
    ErrorCode::TooLong(String::from_str(field), limit)
}

/// The refusal of an unusable field.
fn invalid(field: &str) -> (r: ErrorCode)
    ensures
        r matches ErrorCode::Invalid(f, w) && f@ == field@ && w@ == "cannot be empty"@,
{
    ErrorCode::Invalid(String::from_str(field), String::from_str("cannot be empty"))
}

impl WinCredential {
    /// Checks the identity and a secret against the vault's limits; the
    /// first rule broken is reported.
    pub fn validate_attributes(&self, password: &str) -> (r: Result<(), ErrorCode>)
        ensures
            match validation_error(self@, password@) {
                None => r is Ok,
                Some(rej) => r matches Err(e) && reports(e, rej),
            },
    {
        if self.username.as_str().len() > CRED_MAX_USERNAME_LENGTH as usize {
            return Err(too_long("username", CRED_MAX_USERNAME_LENGTH));
        }
        if self.target_name.as_str().is_empty() {
            return Err(invalid("target"));
        }
        if self.target_name.as_str().len() > CRED_MAX_GENERIC_TARGET_NAME_LENGTH as usize {
            return Err(too_long("target name", CRED_MAX_GENERIC_TARGET_NAME_LENGTH));
        }
        if self.target_alias.as_str().len() > CRED_MAX_STRING_LENGTH as usize {
            return Err(too_long("target alias", CRED_MAX_STRING_LENGTH));
        }
        if self.comment.as_str().len() > CRED_MAX_STRING_LENGTH as usize {
            return Err(too_long("comment", CRED_MAX_STRING_LENGTH));
        }
        if password.len() > CRED_MAX_CREDENTIAL_BLOB_SIZE as usize {
            return Err(too_long("password", CRED_MAX_CREDENTIAL_BLOB_SIZE));
        }
        Ok(())
    }

    /// Builds the identity for a (target, service, user) triple. A given
    /// target is the target name as it is; without one the target name is
    /// the user, a dot and the service. The comment records the client and
    /// the pair; the alias is empty.
    pub fn new_with_target(target: Option<&str>, service: &str, user: &str) -> (r: Result<
        WinCredential,
        ErrorCode,
    >)
        ensures
            build_outcome(
                r,
                built(
                    match target {
                        Some(t) => Some(t@),
                        None => None,
                    },
                    service@,
                    user@,
                ),
            ),
    {
        let mut metadata = String::from_str("keyring-rs v0.1.0 for service '");
        metadata.append(service);
        metadata.append("', user '");
        metadata.append(user);
        metadata.append("'");
        assert(metadata@ =~= metadata_of(service@, user@));
        let target_name = match target {
            Some(t) => String::from_str(t),
            None => {
                if service.is_empty() {
                    return Err(invalid("service"));
                }
                if user.is_empty() {
                    return Err(invalid("user"));
                }
                let mut name = String::from_str(user);
                name.append(".");
                name.append(service);
                name
            },
        };
        let credential = WinCredential {
            username: String::from_str(user),
            target_name,
            target_alias: String::new(),
            comment: metadata,
        };
        proof {
            reveal_strlit("");
            assert(""@ =~= Seq::<char>::empty());
            assert(credential@.target_alias =~= Seq::<char>::empty());
            assert(credential@.comment =~= metadata_of(service@, user@));
        }
        match credential.validate_attributes("") {
            Ok(()) => Ok(credential),
            Err(e) => Err(e),
        }
    }
}

/// Builds identities for this vault.
pub struct WinCredentialBuilder {}

/// The builder for this vault.
pub fn default_credential_builder() -> (r: WinCredentialBuilder) {
    WinCredentialBuilder {}
}

impl WinCredentialBuilder {
    /// Builds the identity for a (target, service, user) triple, as
    /// `WinCredential::new_with_target` does.
    pub fn build(&self, target: Option<&str>, service: &str, user: &str) -> (r: Result<
        WinCredential,
        ErrorCode,
    >)
        ensures
            build_outcome(
                r,
                built(
                    match target {
                        Some(t) => Some(t@),
                        None => None,
                    },
                    service@,
                    user@,
                ),
            ),
    {
        WinCredential::new_with_target(target, service, user)
    }
}

} // verus!
