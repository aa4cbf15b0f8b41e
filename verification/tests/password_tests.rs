use filecrypt::error::CryptError;
use filecrypt::password::confirm;

#[test]
fn matching_entries_are_accepted() {
    assert_eq!(confirm("s3cret".to_string(), "s3cret".to_string()), Ok("s3cret".to_string()));
    assert_eq!(confirm(String::new(), String::new()), Ok(String::new()));
}

#[test]
fn differing_entries_are_a_mismatch() {
    assert_eq!(
        confirm("s3cret".to_string(), "s3cre7".to_string()),
        Err(CryptError::PasswordMismatch)
    );
    assert_eq!(confirm("s3cret".to_string(), "S3cret".to_string()), Err(CryptError::PasswordMismatch));
    assert_eq!(confirm("s3cret".to_string(), String::new()), Err(CryptError::PasswordMismatch));
}
