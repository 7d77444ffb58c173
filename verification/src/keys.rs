//! The key pair that signs the artifacts.

use vstd::prelude::*;
use vstd::string::*;

verus! {

/// The paths of the private key and of the certificate with the public
/// key. Every signing of a run uses the same pair.
#[derive(Clone, Debug)]
pub struct KeyPair {
    pub private_key: String,
    pub public_key: String,
}

impl KeyPair {
    /// The pair of the two key files.
    pub fn new(public_key: &str, private_key: &str) -> (pair: KeyPair)
        ensures
            pair.public_key@ == public_key@,
            pair.private_key@ == private_key@,
    {
        KeyPair { public_key: public_key.to_owned(), private_key: private_key.to_owned() }
    }
}

} // verus!
