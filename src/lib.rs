//! A client library for the operating system's native credential vault:
//! the identity model of a vault entry, the size rules the vault imposes on
//! it, the wide-character encoding of secrets, the translation of platform
//! status codes, and a model of the vault's per-entry state machine.
mod codec;
mod credential;
mod error;
mod vault;

pub use codec::{
    decode_inverts_encode, decodes_to, encode_password, encoding_round_trips, ends_at_nul, extract_password,
    from_wstr, le_bytes_of, lossy_text_of, password_outcome, to_wstr, to_wstr_no_null, units_of_le, utf16_of,
};
pub use credential::{
    built, default_credential_builder, metadata_of, valid_attributes, validation_error,
    CredentialModel, Rejection, WinCredential, WinCredentialBuilder,
    CRED_MAX_CREDENTIAL_BLOB_SIZE, CRED_MAX_GENERIC_TARGET_NAME_LENGTH, CRED_MAX_STRING_LENGTH,
    CRED_MAX_USERNAME_LENGTH,
};
pub use error::{
    decode_error, Error, ErrorCode, ERROR_BAD_USERNAME, ERROR_INVALID_FLAGS,
    ERROR_INVALID_PARAMETER, ERROR_NOT_FOUND, ERROR_NO_SUCH_LOGON_SESSION,
};
pub use vault::{
    absent_target_is_no_entry, delete_then_read, last_write_wins, lookup_outcome,
    recovered_from, stored_record, vault_key, write_then_read, write_then_read_identity,
    CredentialVault, RecordModel, VaultRecord,
};
