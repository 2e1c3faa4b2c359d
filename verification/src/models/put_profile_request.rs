use vstd::prelude::*;

verus! {

/// The user's updated profile information.
#[derive(Clone, Default, Debug, PartialEq)]
pub struct PutProfileRequest {
    pub name: String,
    pub email: String,
}

impl PutProfileRequest {
    /// The request to set the user's name and email.
    pub fn new(name: String, email: String) -> (r: PutProfileRequest)
        ensures
            r.name == name,
            r.email == email,
    {
        PutProfileRequest { name, email }
    }
}

} // verus!
