//! The vault API client credentials, as the library consumes them: a plain
//! id/secret pair. Reading and writing the credentials file, and prompting
//! for missing values, happen outside.

use vstd::prelude::*;

verus! {

pub struct BitwardenClientCredentials {
    pub id: String,
    pub secret: String,
}

impl BitwardenClientCredentials {
    pub fn new(id: String, secret: String) -> (r: BitwardenClientCredentials)
        ensures
            r.id == id,
            r.secret == secret,
    {
        BitwardenClientCredentials { id, secret }
    }
}

} // verus!
