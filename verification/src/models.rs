//! The data that the API's requests and responses carry.

pub mod order_amount;
pub mod order_item;
pub mod post_app_request;
pub mod post_card_collect_200_response_data;
pub mod post_order_request;
pub mod put_profile_request;
pub mod region;

pub use self::order_amount::OrderAmount;
pub use self::order_item::OrderItem;
pub use self::post_app_request::PostAppRequest;
pub use self::post_card_collect_200_response_data::PostCardCollect200ResponseData;
pub use self::post_order_request::PostOrderRequest;
pub use self::put_profile_request::PutProfileRequest;
pub use self::region::Region;
