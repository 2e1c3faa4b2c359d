use std::collections::HashMap;
use terminal_api::client::{Client, Config};
use terminal_api::models::{
    OrderAmount, OrderItem, PostAppRequest, PostCardCollect200ResponseData, PostOrderRequest,
    PutProfileRequest, Region,
};

#[test]
fn constructors_keep_what_they_are_given() {
    assert_eq!(OrderAmount::new(800, 2200), OrderAmount { shipping: 800, subtotal: 2200 });
    assert_eq!(
        OrderItem::new("itm_1".to_string(), 2200, 2),
        OrderItem {
            id: "itm_1".to_string(),
            description: None,
            amount: 2200,
            quantity: 2,
            product_variant_id: None,
        }
    );
    assert_eq!(
        PostAppRequest::new("app".to_string(), "https://example.com/callback".to_string()),
        PostAppRequest {
            name: "app".to_string(),
            redirect_uri: "https://example.com/callback".to_string(),
        }
    );
    assert_eq!(
        PostCardCollect200ResponseData::new("https://terminal.shop/card".to_string()).url,
        "https://terminal.shop/card"
    );
    assert_eq!(
        PutProfileRequest::new("John".to_string(), "john@example.com".to_string()),
        PutProfileRequest { name: "John".to_string(), email: "john@example.com".to_string() }
    );
    let mut variants = HashMap::new();
    variants.insert("var_1".to_string(), 1);
    let order = PostOrderRequest::new(variants.clone(), "crd_1".to_string(), "shp_1".to_string());
    assert_eq!(order.variants, variants);
    assert_eq!(order.card_id, "crd_1");
    assert_eq!(order.address_id, "shp_1");
}

#[test]
fn defaults_are_empty() {
    assert_eq!(OrderAmount::default(), OrderAmount::new(0, 0));
    assert_eq!(OrderItem::default(), OrderItem::new(String::new(), 0, 0));
    assert_eq!(Region::default(), Region::Eu);
}

#[test]
fn regions_have_wire_names() {
    assert_eq!(Region::Eu.name(), "eu");
    assert_eq!(Region::Na.name(), "na");
    assert!(Region::Eu < Region::Na);
}

#[test]
fn client_holds_its_configuration() {
    let config = Config {
        base_path: "https://api.example.com".to_string(),
        user_agent: Some("agent".to_string()),
        bearer_access_token: None,
    };
    let client = Client::new(config);
    assert_eq!(client.get_config().base_path, "https://api.example.com");
    assert_eq!(client.get_config().user_agent.as_deref(), Some("agent"));
    assert_eq!(client.get_config().bearer_access_token, None);
}
