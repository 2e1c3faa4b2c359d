use vstd::prelude::*;

verus! {

/// Basic app information.
#[derive(Clone, Default, Debug, PartialEq)]
pub struct PostAppRequest {
    pub name: String,
    pub redirect_uri: String,
}

impl PostAppRequest {
    /// The request to register an app under `name`.
    pub fn new(name: String, redirect_uri: String) -> (r: PostAppRequest)
        ensures
            r.name == name,
            r.redirect_uri == redirect_uri,
    {
        PostAppRequest { name, redirect_uri }
    }
}

} // verus!
