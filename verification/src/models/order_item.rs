use vstd::prelude::*;

verus! {

/// An item of an order.
#[derive(Clone, Default, Debug, PartialEq)]
pub struct OrderItem {
    /// Unique object identifier. The format and length of IDs may change over time.
    pub id: String,
    /// Description of the item in the order.
    pub description: Option<String>,
    /// Amount of the item in the order, in cents (USD).
    pub amount: i32,
    /// Quantity of the item in the order.
    pub quantity: i32,
    /// ID of the product variant of the item in the order.
    pub product_variant_id: Option<String>,
}

impl OrderItem {
    /// An item with the required fields; it has no description and no
    /// product variant.
    pub fn new(id: String, amount: i32, quantity: i32) -> (r: OrderItem)
        ensures
            r.id == id,
            r.description is None,
            r.amount == amount,
            r.quantity == quantity,
            r.product_variant_id is None,
    {
        OrderItem { id, description: None, amount, quantity, product_variant_id: None }
    }
}

} // verus!
