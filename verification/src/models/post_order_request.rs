use std::collections::HashMap;
use vstd::prelude::*;

verus! {

/// Order information.
#[derive(Clone, Default, Debug, PartialEq)]
pub struct PostOrderRequest {
    /// Product variants to include in the order, along with their quantities.
    pub variants: HashMap<String, i32>,
    /// Card ID.
    pub card_id: String,
    /// Shipping address ID.
    pub address_id: String,
}

impl PostOrderRequest {
    /// The request to order `variants`, paid with a card and shipped to an
    /// address.
    pub fn new(variants: HashMap<String, i32>, card_id: String, address_id: String) -> (r:
        PostOrderRequest)
        ensures
            r.variants == variants,
            r.card_id == card_id,
            r.address_id == address_id,
    {
        PostOrderRequest { variants, card_id, address_id }
    }
}

} // verus!
