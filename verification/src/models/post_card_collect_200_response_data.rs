use vstd::prelude::*;

verus! {

/// URL for collecting card information.
#[derive(Clone, Default, Debug, PartialEq)]
pub struct PostCardCollect200ResponseData {
    /// Temporary URL that allows a user to enter credit card details over https at terminal.shop.
    pub url: String,
}

impl PostCardCollect200ResponseData {
    /// The response data that carries `url`.
    pub fn new(url: String) -> (r: PostCardCollect200ResponseData)
        ensures
            r.url == url,
    {
        PostCardCollect200ResponseData { url }
    }
}

} // verus!
