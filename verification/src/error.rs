//! The errors of the library.
use vstd::prelude::*;

verus! {

/// What can go wrong.
#[derive(Debug)]
pub enum AppError {
    /// A ciphertext that its key does not open.
    Aead,
    /// A signature that does not verify.
    BadSignature,
    UnknownAuthor,
    UnknownEpoch,
    /// An update of another list than expected.
    WrongList,
    /// The login or registration protocol failed, as on a wrong password.
    Opaque,
    /// The key derivation failed.
    Kdf,
    /// The device's key vault failed; the message holds no secret.
    DeviceVault(String),
}

/// A result of the library.
pub type AppResult<T> = Result<T, AppError>;

impl AppError {
    /// The message of an error.
    pub open spec fn text(self) -> Seq<char> {
        match self {
            AppError::Aead => "error generating key"@,
            AppError::BadSignature => "signature error"@,
            AppError::UnknownAuthor => "invalid input"@,
            AppError::UnknownEpoch => "invalid input"@,
            AppError::WrongList => "invalid list"@,
            AppError::Opaque => "opaque protocol error"@,
            AppError::Kdf => "key derivation error"@,
            AppError::DeviceVault(m) => "device key vault error: "@ + m@,
        }
    }

    /// The message of an error.
    pub fn message(&self) -> (r: String)
        ensures
            r@ == self.text(),
    {
        match self {
            AppError::Aead => "error generating key".to_owned(),
            AppError::BadSignature => "signature error".to_owned(),
            AppError::UnknownAuthor => "invalid input".to_owned(),
            AppError::UnknownEpoch => "invalid input".to_owned(),
            AppError::WrongList => "invalid list".to_owned(),
            AppError::Opaque => "opaque protocol error".to_owned(),
            AppError::Kdf => "key derivation error".to_owned(),
            AppError::DeviceVault(m) => crate::text::joined("device key vault error: ", m.as_str()),
        }
    }
}

} // verus!
