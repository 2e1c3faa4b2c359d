use vstd::prelude::*;

verus! {

/// The subtotal and shipping amounts of the order.
#[derive(Clone, Default, Debug, PartialEq)]
pub struct OrderAmount {
    /// Shipping amount of the order, in cents (USD).
    pub shipping: i32,
    /// Subtotal amount of the order, in cents (USD).
    pub subtotal: i32,
}

impl OrderAmount {
    /// The amounts of an order, from its shipping and subtotal amounts.
    pub fn new(shipping: i32, subtotal: i32) -> (r: OrderAmount)
        ensures
            r.shipping == shipping,
            r.subtotal == subtotal,
    {
        OrderAmount { shipping, subtotal }
    }
}

} // verus!
