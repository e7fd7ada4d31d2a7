//! The error taxonomy of the authentication core, and the mapping from
//! error kind to response status category.

use vstd::prelude::*;

verus! {

/// Why an authentication or authorization request was rejected.
///
/// Every kind is terminal for the request that produced it: the core never
/// retries on its own.
#[derive(Clone, Copy, Debug, PartialEq, Eq, Structural)]
pub enum Error {
    /// The payload signature does not verify against the relevant public key.
    Signature,
    /// The presented challenge is expired, unknown, or already consumed;
    /// deliberately not distinguished, to avoid leaking which.
    Challenge,
    /// No identity with the requested name exists.
    NoUser,
    /// An identity with the requested name already exists.
    Exists,
    /// The caller's stored privilege does not meet the required level.
    Privilege,
    /// The public key material is malformed and cannot be used.
    KeyDecode,
    /// A collaborator (the persistence layer or the random source) failed.
    Storage,
}

/// The response status category a rejected request is answered with.
#[derive(Clone, Copy, Debug, PartialEq, Eq, Structural)]
pub enum ResponseCategory {
    /// Authentication failures: the request could not be tied to an identity.
    Unauthorized,
    /// Authorization failures: the identity lacks the required privilege.
    Forbidden,
    /// Existence conflicts: the requested name is already taken.
    Conflict,
    /// Collaborator faults: nothing the client can correct.
    Internal,
}

impl Error {
    /// The status category each error kind maps to.
    pub open spec fn spec_response_category(self) -> ResponseCategory {
        match self {
            Error::Signature => ResponseCategory::Unauthorized,
            Error::Challenge => ResponseCategory::Unauthorized,
            Error::NoUser => ResponseCategory::Unauthorized,
            Error::KeyDecode => ResponseCategory::Unauthorized,
            Error::Privilege => ResponseCategory::Forbidden,
            Error::Exists => ResponseCategory::Conflict,
            Error::Storage => ResponseCategory::Internal,
        }
    }

    /// The single, exhaustive mapping from error kind to response status
    /// category: authentication failures are unauthorized, privilege
    /// failures forbidden, existence conflicts a conflict, collaborator
    /// faults internal.
    pub fn response_category(self) -> (r: ResponseCategory)
        ensures
            r == self.spec_response_category(),
    {
        match self {
            Error::Signature => ResponseCategory::Unauthorized,
            Error::Challenge => ResponseCategory::Unauthorized,
            Error::NoUser => ResponseCategory::Unauthorized,
            Error::KeyDecode => ResponseCategory::Unauthorized,
            Error::Privilege => ResponseCategory::Forbidden,
            Error::Exists => ResponseCategory::Conflict,
            Error::Storage => ResponseCategory::Internal,
        }
    }
}

impl Error {
    /// A line describing the rejection, for logs and responses.
    pub fn message(self) -> (r: String)
        ensures
            self == Error::Signature ==> r@ == "[Authentication Error] Payload signature is invalid"@,
            self == Error::Challenge ==> r@ == "[Authentication Error] Challenge expired or invalid"@,
            self == Error::NoUser ==> r@ == "[Authentication Error] No such user"@,
            self == Error::Exists ==> r@ == "[Request Error] The name already exists"@,
            self == Error::Privilege ==> r@ == "[Authorization Error] You do not have the required privileges"@,
            self == Error::KeyDecode ==> r@ == "[Key Error] The public key cannot be used"@,
            self == Error::Storage ==> r@ == "[Storage Error] A collaborator failed"@,
    {
        match self {
            Error::Signature => "[Authentication Error] Payload signature is invalid".to_owned(),
            Error::Challenge => "[Authentication Error] Challenge expired or invalid".to_owned(),
            Error::NoUser => "[Authentication Error] No such user".to_owned(),
            Error::Exists => "[Request Error] The name already exists".to_owned(),
            Error::Privilege => "[Authorization Error] You do not have the required privileges".to_owned(),
            Error::KeyDecode => "[Key Error] The public key cannot be used".to_owned(),
            Error::Storage => "[Storage Error] A collaborator failed".to_owned(),
        }
    }
}

/// A signature failure and a challenge failure answer with the same status
/// category, so an unauthenticated caller cannot tell them apart.
pub proof fn lemma_rejections_indistinguishable()
    ensures
        Error::Signature.spec_response_category() == Error::Challenge.spec_response_category(),
{
}

} // verus!
