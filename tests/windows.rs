use byteorder::{ByteOrder, LittleEndian};
use std::collections::hash_map::RandomState;
use std::hash::{BuildHasher, Hasher};
use win_keyring::{
    CredentialVault, ErrorCode, WinCredential, CRED_MAX_CREDENTIAL_BLOB_SIZE,
    CRED_MAX_GENERIC_TARGET_NAME_LENGTH, CRED_MAX_STRING_LENGTH, CRED_MAX_USERNAME_LENGTH,
};

fn random_u64() -> u64 {
    let mut h = RandomState::new().build_hasher();
    h.write_u64(0x9e37_79b9_7f4a_7c15);
    h.finish()
}

fn generate_random_string_of_len(len: usize) -> String {
    let alphabet: Vec<char> = "abcdefghijklmnopqrstuvwxyzABCDEFGHIJKLMNOPQRSTUVWXYZ0123456789"
        .chars()
        .collect();
    let mut state = random_u64();
    let mut out = String::new();
    for _ in 0..len {
        state = state
            .wrapping_mul(6364136223846793005)
            .wrapping_add(1442695040888963407);
        out.push(alphabet[((state >> 33) as usize) % alphabet.len()]);
    }
    out
}

fn generate_random_string() -> String {
    generate_random_string_of_len(30)
}

fn entry_new(service: &str, user: &str) -> WinCredential {
    match WinCredential::new_with_target(None, service, user) {
        Ok(credential) => credential,
        Err(err) => {
            panic!("Couldn't create entry (service: {service}, user: {user}): {err:?}")
        }
    }
}

#[test]
fn test_bad_password() {
    // the first malformed sequence can't be UTF-16 because it has an odd number of bytes.
    // the second malformed sequence has a first surrogate marker (0xd800) without a matching
    // companion.
    let odd_bytes = b"1".to_vec();
    let malformed_utf16 = [0xD834, 0xDD1E, 0x006d, 0x0075, 0xD800, 0x0069, 0x0063];
    let mut malformed_bytes: Vec<u8> = vec![0; malformed_utf16.len() * 2];
    LittleEndian::write_u16_into(&malformed_utf16, &mut malformed_bytes);
    for bytes in [&odd_bytes, &malformed_bytes] {
        match win_keyring::extract_password(bytes) {
            Err(ErrorCode::BadEncoding(str)) => assert_eq!(&str, bytes),
            Err(other) => panic!(
                "Bad password ({:?}) decode gave wrong error: {:?}",
                bytes, other
            ),
            Ok(s) => panic!("Bad password ({:?}) decode gave results: {:?}", bytes, &s),
        }
    }
}

fn validate_attribute_too_long(result: Result<(), ErrorCode>, attr: &str, len: u32) {
    match result {
        Err(ErrorCode::TooLong(arg, val)) => {
            assert_eq!(&arg, attr, "Error names wrong attribute");
            assert_eq!(val, len, "Error names wrong limit");
        }
        Err(other) => panic!("Error is not '{} too long': {:?}", attr, other),
        Ok(_) => panic!("No error when {} too long", attr),
    }
}

#[test]
fn test_bad_inputs() {
    let cred = WinCredential {
        username: "username".to_string(),
        target_name: "target_name".to_string(),
        target_alias: "target_alias".to_string(),
        comment: "comment".to_string(),
    };
    for (attr, len) in [
        ("username", CRED_MAX_USERNAME_LENGTH),
        ("target name", CRED_MAX_GENERIC_TARGET_NAME_LENGTH),
        ("target alias", CRED_MAX_STRING_LENGTH),
        ("comment", CRED_MAX_STRING_LENGTH),
        ("password", CRED_MAX_CREDENTIAL_BLOB_SIZE),
    ] {
        let long_string = generate_random_string_of_len(1 + len as usize);
        let mut bad_cred = cred.clone();
        let mut password = "password";
        match attr {
            "username" => bad_cred.username = long_string.clone(),
            "target name" => bad_cred.target_name = long_string.clone(),
            "target alias" => bad_cred.target_alias = long_string.clone(),
            "comment" => bad_cred.comment = long_string.clone(),
            "password" => password = &long_string,
            other => panic!("unexpected attribute: {}", other),
        }
        let mut vault = CredentialVault::new();
        validate_attribute_too_long(bad_cred.set_password(&mut vault, password), attr, len);
        assert!(matches!(
            cred.get_password(&vault),
            Err(ErrorCode::NoEntry)
        ));
    }
}

#[test]
fn test_invalid_parameter() {
    let credential = WinCredential::new_with_target(None, "", "");
    assert!(
        credential.is_err(),
        "Secret service doesn't allow empty attributes"
    );
    assert!(
        matches!(credential, Err(ErrorCode::Invalid(_, _))),
        "Created credential with empty service"
    );
    let credential = WinCredential::new_with_target(None, "service", "");
    assert!(
        matches!(credential, Err(ErrorCode::Invalid(_, _))),
        "Created entry with empty user"
    );
    let credential = WinCredential::new_with_target(Some(""), "service", "user");
    assert!(
        matches!(credential, Err(ErrorCode::Invalid(_, _))),
        "Created entry with empty target"
    );
}

#[test]
fn test_missing_entry() {
    let name = generate_random_string();
    let entry = entry_new(&name, &name);
    let vault = CredentialVault::new();
    assert!(
        matches!(entry.get_password(&vault), Err(ErrorCode::NoEntry)),
        "Missing entry has password"
    )
}

#[test]
fn test_empty_password() {
    let name = generate_random_string();
    let entry = entry_new(&name, &name);
    let mut vault = CredentialVault::new();
    let in_pass = "";
    entry
        .set_password(&mut vault, in_pass)
        .expect("Can't set empty password");
    let out_pass = entry.get_password(&vault).expect("Can't get empty password");
    assert_eq!(
        in_pass, out_pass,
        "Retrieved and set empty passwords don't match"
    );
    entry.delete_password(&mut vault).expect("Can't delete password");
    assert!(
        matches!(entry.get_password(&vault), Err(ErrorCode::NoEntry)),
        "Able to read a deleted password"
    )
}

#[test]
fn test_round_trip_ascii_password() {
    let name = generate_random_string();
    let entry = entry_new(&name, &name);
    let mut vault = CredentialVault::new();
    let password = "test ascii password";
    entry
        .set_password(&mut vault, password)
        .expect("Can't set ascii password");
    let stored_password = entry.get_password(&vault).expect("Can't get ascii password");
    assert_eq!(
        stored_password, password,
        "Retrieved and set ascii passwords don't match"
    );
    entry
        .delete_password(&mut vault)
        .expect("Can't delete ascii password");
    assert!(
        matches!(entry.get_password(&vault), Err(ErrorCode::NoEntry)),
        "Able to read a deleted ascii password"
    )
}

#[test]
fn test_round_trip_non_ascii_password() {
    let name = generate_random_string();
    let entry = entry_new(&name, &name);
    let mut vault = CredentialVault::new();
    let password = "このきれいな花は桜です";
    entry
        .set_password(&mut vault, password)
        .expect("Can't set non-ascii password");
    let stored_password = entry
        .get_password(&vault)
        .expect("Can't get non-ascii password");
    assert_eq!(
        stored_password, password,
        "Retrieved and set non-ascii passwords don't match"
    );
    entry
        .delete_password(&mut vault)
        .expect("Can't delete non-ascii password");
    assert!(
        matches!(entry.get_password(&vault), Err(ErrorCode::NoEntry)),
        "Able to read a deleted non-ascii password"
    )
}

#[test]
fn test_update() {
    let name = generate_random_string();
    let entry = entry_new(&name, &name);
    let mut vault = CredentialVault::new();
    let password = "test ascii password";
    entry
        .set_password(&mut vault, password)
        .expect("Can't set initial ascii password");
    let stored_password = entry.get_password(&vault).expect("Can't get ascii password");
    assert_eq!(
        stored_password, password,
        "Retrieved and set initial ascii passwords don't match"
    );
    let password = "このきれいな花は桜です";
    entry
        .set_password(&mut vault, password)
        .expect("Can't update ascii with non-ascii password");
    let stored_password = entry
        .get_password(&vault)
        .expect("Can't get non-ascii password");
    assert_eq!(
        stored_password, password,
        "Retrieved and updated non-ascii passwords don't match"
    );
    entry
        .delete_password(&mut vault)
        .expect("Can't delete updated password");
    assert!(
        matches!(entry.get_password(&vault), Err(ErrorCode::NoEntry)),
        "Able to read a deleted updated password"
    )
}

#[test]
fn test_get_credential() {
    let name = generate_random_string();
    let credential = entry_new(&name, &name);
    let mut vault = CredentialVault::new();
    let password = "test get password";
    credential
        .set_password(&mut vault, password)
        .expect("Can't set test get password");
    let actual = credential
        .get_credential(&vault)
        .expect("Can't read credential");
    assert_eq!(
        actual.target_name, credential.target_name,
        "Target names don't match"
    );
    assert_eq!(
        actual.target_alias, credential.target_alias,
        "Target aliases don't match"
    );
    assert_eq!(
        actual.username, credential.username,
        "Usernames don't match"
    );
    assert_eq!(actual.comment, credential.comment, "Comments don't match");
}
