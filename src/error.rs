use vstd::prelude::*;
use vstd::string::*;

verus! {

/// The vault's status code for a target that it does not hold.
pub const ERROR_NOT_FOUND: u32 = 1168;

/// The vault's status code for a session that has no access to the vault.
pub const ERROR_NO_SUCH_LOGON_SESSION: u32 = 1312;

/// The vault's status code for a user name it refuses.
pub const ERROR_BAD_USERNAME: u32 = 2202;

/// The vault's status code for flags it does not know.
pub const ERROR_INVALID_FLAGS: u32 = 1004;

/// The vault's status code for a malformed parameter.
pub const ERROR_INVALID_PARAMETER: u32 = 87;

/// A platform status code, kept for diagnostics.
#[derive(Debug, Clone, Copy, PartialEq, Eq, Structural)]
pub struct Error(pub u32);

/// The portable error taxonomy of the library.
#[derive(Debug, Clone)]
pub enum ErrorCode {
    /// Any vault failure other than the two below, with its status code.
    PlatformFailure(Error),
    /// The vault cannot be reached from the current session.
    NoStorageAccess(Error),
    /// The target is not in the vault.
    NoEntry,
    /// A stored blob that is not text under the wide-character encoding,
    /// with the bytes exactly as stored.
    BadEncoding(Vec<u8>),
    /// A field longer than the vault allows: its name and its limit.
    TooLong(String, u32),
    /// A field that the vault cannot use: its name and the reason.
    Invalid(String, String),
}

/// The decimal digit `d` as a character.
pub open spec fn digit_char(d: nat) -> char {
    seq!['0', '1', '2', '3', '4', '5', '6', '7', '8', '9'][d as int]
}

/// The decimal numeral of `n`, without sign or leading zeros.
pub open spec fn decimal_of(n: nat) -> Seq<char>
    decreases n,
{
    if n < 10 {
        seq![digit_char(n)]
    } else {
        decimal_of(n / 10).push(digit_char(n % 10))
    }
}

/// Relies on `u32`'s `Display` (through `to_string`): the decimal numeral.
#[verifier::external_body]
fn decimal_string(n: u32) -> (r: String)
    ensures
        r@ == decimal_of(n as nat),
{
    n.to_string()
}

/// The fixed descriptive text of a named status code, if it has one.
pub open spec fn code_name(code: u32) -> Option<Seq<char>> {
    if code == ERROR_NO_SUCH_LOGON_SESSION {
        Some("Windows ERROR_NO_SUCH_LOGON_SESSION"@)
    } else if code == ERROR_NOT_FOUND {
        Some("Windows ERROR_NOT_FOUND"@)
    } else if code == ERROR_BAD_USERNAME {
        Some("Windows ERROR_BAD_USERNAME"@)
    } else if code == ERROR_INVALID_FLAGS {
        Some("Windows ERROR_INVALID_FLAGS"@)
    } else if code == ERROR_INVALID_PARAMETER {
        Some("Windows ERROR_INVALID_PARAMETER"@)
    } else {
        None
    }
}

/// The human-readable rendering of a status code.
pub open spec fn describe_code(code: u32) -> Seq<char> {
    match code_name(code) {
        Some(name) => name,
        None => "Windows error code "@ + decimal_of(code as nat),
    }
}

impl Error {
    /// The human-readable rendering of this status code.
    pub fn describe(&self) -> (r: String)
        ensures
            r@ == describe_code(self.0),
    {
        let code = self.0;
        if code == ERROR_NO_SUCH_LOGON_SESSION {
            "Windows ERROR_NO_SUCH_LOGON_SESSION".to_string()
        } else if code == ERROR_NOT_FOUND {
            "Windows ERROR_NOT_FOUND".to_string()
        } else if code == ERROR_BAD_USERNAME {
            "Windows ERROR_BAD_USERNAME".to_string()
        } else if code == ERROR_INVALID_FLAGS {
            "Windows ERROR_INVALID_FLAGS".to_string()
        } else if code == ERROR_INVALID_PARAMETER {
            "Windows ERROR_INVALID_PARAMETER".to_string()
        } else {
            let mut text = String::from_str("Windows error code ");
            let digits = decimal_string(code);
            text.append(digits.as_str());
            text
        }
    }
}

/// Wraps a status code for diagnostics.
pub fn wrap(code: u32) -> (r: Error)
    ensures
        r.0 == code,
{
    Error(code)
}

/// What a status code observed right after a failed vault call means.
pub open spec fn translated(code: u32) -> ErrorCode {
    if code == ERROR_NOT_FOUND {
        ErrorCode::NoEntry
    } else if code == ERROR_NO_SUCH_LOGON_SESSION {
        ErrorCode::NoStorageAccess(Error(code))
    } else {
        ErrorCode::PlatformFailure(Error(code))
    }
}

/// Translates the status code of a failed vault call into the portable
/// error taxonomy.
pub fn decode_error(code: u32) -> (r: ErrorCode)
    ensures
        r == translated(code),
{
    if code == ERROR_NOT_FOUND {
        ErrorCode::NoEntry
    } else if code == ERROR_NO_SUCH_LOGON_SESSION {
        ErrorCode::NoStorageAccess(wrap(ERROR_NO_SUCH_LOGON_SESSION))
    } else {
        ErrorCode::PlatformFailure(wrap(code))
    }
}

} // verus!
