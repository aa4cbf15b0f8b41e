//! What is decided about passwords once they have been typed in.

use crate::error::CryptError;
use vstd::prelude::*;

verus! {

/// Accepts a new password only if its confirmation is the same text.
///
/// Fails with `PasswordMismatch` exactly when the two entries differ.
pub fn confirm(password: String, confirmation: String) -> (r: Result<String, CryptError>)
    ensures
        password@ == confirmation@ ==> r is Ok && r->Ok_0@ == password@,
        password@ != confirmation@ ==> r == Err::<String, CryptError>(
            CryptError::PasswordMismatch,
        ),
{
    if password == confirmation {
        Ok(password)
    } else {
        Err(CryptError::PasswordMismatch)
    }
}

} // verus!
