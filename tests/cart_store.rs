use vendor_marketplace::cart::{CartError, CartItem, CartRequest, CartService};

fn item(product_id: &str, quantity: u32) -> CartItem {
    CartItem { product_id: product_id.to_string(), quantity }
}

#[test]
fn test_add_item_to_cart() {
    let mut carts = CartService::new();
    assert!(carts.add_item("user123".to_string(), item("2", 2)).is_ok());
    let cart = carts.get_cart("user123".to_string()).unwrap();
    assert_eq!(cart.len(), 1);
    assert_eq!(cart[0].product_id, "2");
    assert_eq!(cart[0].quantity, 2);
}

#[test]
fn test_get_cart_after_adding_item() {
    let mut carts = CartService::new();
    carts.add_item("user123".to_string(), item("3", 1)).unwrap();
    let cart = carts.get_cart("user123".to_string()).unwrap();
    assert_eq!(cart.len(), 1);
    assert_eq!(cart[0].product_id, "3");
    assert_eq!(cart[0].quantity, 1);
}

#[test]
fn test_update_item_quantity() {
    let mut carts = CartService::new();
    carts.add_item("user123".to_string(), item("2", 2)).unwrap();
    assert!(carts.update_item("user123".to_string(), item("2", 5)).is_ok());
    let cart = carts.get_cart("user123".to_string()).unwrap();
    assert_eq!(cart[0].quantity, 5);
}

#[test]
fn test_remove_item_from_cart() {
    let mut carts = CartService::new();
    carts.add_item("user123".to_string(), item("2", 2)).unwrap();
    assert!(carts.remove_item("user123".to_string(), "2".to_string()).is_ok());
    let cart = carts.get_cart("user123".to_string()).unwrap();
    assert!(cart.is_empty());
}

#[test]
fn snapshot_twice_is_equal() {
    let mut carts = CartService::new();
    carts.add_item("u".to_string(), item("a", 2)).unwrap();
    carts.add_item("u".to_string(), item("b", 1)).unwrap();
    let first = carts.get_cart("u".to_string()).unwrap();
    let second = carts.get_cart("u".to_string()).unwrap();
    assert_eq!(first.len(), second.len());
    for (x, y) in first.iter().zip(second.iter()) {
        assert_eq!(x.product_id, y.product_id);
        assert_eq!(x.quantity, y.quantity);
    }
}

#[test]
fn snapshot_is_not_changed_by_later_adds() {
    let mut carts = CartService::new();
    carts.add_item("u".to_string(), item("a", 2)).unwrap();
    let snap = carts.get_cart("u".to_string()).unwrap();
    carts.add_item("u".to_string(), item("a", 4)).unwrap();
    assert_eq!(snap[0].quantity, 2);
    assert_eq!(carts.get_cart("u".to_string()).unwrap()[0].quantity, 6);
}

#[test]
fn adds_of_one_product_merge() {
    let mut carts = CartService::new();
    carts.add_item("u".to_string(), item("p", 2)).unwrap();
    carts.add_item("u".to_string(), item("p", 3)).unwrap();
    let cart = carts.get_cart("u".to_string()).unwrap();
    assert_eq!(cart.len(), 1);
    assert_eq!(cart[0].product_id, "p");
    assert_eq!(cart[0].quantity, 5);
}

#[test]
fn new_products_come_last() {
    let mut carts = CartService::new();
    carts.add_item("u".to_string(), item("x", 1)).unwrap();
    carts.add_item("u".to_string(), item("y", 7)).unwrap();
    carts.add_item("u".to_string(), item("x", 1)).unwrap();
    let cart = carts.get_cart("u".to_string()).unwrap();
    assert_eq!(cart.len(), 2);
    assert_eq!(cart[0].product_id, "x");
    assert_eq!(cart[0].quantity, 2);
    assert_eq!(cart[1].product_id, "y");
    assert_eq!(cart[1].quantity, 7);
}

#[test]
fn update_of_missing_line_is_lenient() {
    let mut carts = CartService::new();
    assert!(carts.update_item("u".to_string(), item("missing", 5)).is_ok());
    assert!(carts.get_cart("u".to_string()).unwrap().is_empty());
    carts.add_item("u".to_string(), item("a", 1)).unwrap();
    assert!(carts.update_item("u".to_string(), item("missing", 5)).is_ok());
    let cart = carts.get_cart("u".to_string()).unwrap();
    assert_eq!(cart.len(), 1);
    assert_eq!(cart[0].product_id, "a");
}

#[test]
fn update_to_zero_removes_line() {
    let mut carts = CartService::new();
    carts.add_item("u".to_string(), item("a", 3)).unwrap();
    carts.add_item("u".to_string(), item("b", 1)).unwrap();
    carts.update_item("u".to_string(), item("a", 0)).unwrap();
    let cart = carts.get_cart("u".to_string()).unwrap();
    assert_eq!(cart.len(), 1);
    assert_eq!(cart[0].product_id, "b");
}

#[test]
fn remove_of_absent_line_is_noop() {
    let mut carts = CartService::new();
    assert!(carts.remove_item("u".to_string(), "a".to_string()).is_ok());
    carts.add_item("u".to_string(), item("a", 1)).unwrap();
    assert!(carts.remove_item("u".to_string(), "zzz".to_string()).is_ok());
    assert_eq!(carts.get_cart("u".to_string()).unwrap().len(), 1);
}

#[test]
fn carts_of_users_are_separate() {
    let mut carts = CartService::new();
    carts.add_item("alice".to_string(), item("a", 1)).unwrap();
    carts.add_item("bob".to_string(), item("a", 9)).unwrap();
    assert_eq!(carts.get_cart("alice".to_string()).unwrap()[0].quantity, 1);
    assert_eq!(carts.get_cart("bob".to_string()).unwrap()[0].quantity, 9);
    assert!(carts.get_cart("carol".to_string()).unwrap().is_empty());
}

#[test]
fn add_with_zero_quantity_is_rejected() {
    let mut carts = CartService::new();
    let r = carts.add_item("u".to_string(), item("a", 0));
    assert!(matches!(r, Err(CartError::InvalidQuantity)));
    assert!(carts.get_cart("u".to_string()).unwrap().is_empty());
}

#[test]
fn add_past_largest_quantity_overflows() {
    let mut carts = CartService::new();
    carts.add_item("u".to_string(), item("a", u32::MAX)).unwrap();
    let r = carts.add_item("u".to_string(), item("a", 1));
    assert!(matches!(r, Err(CartError::QuantityOverflow)));
    assert_eq!(carts.get_cart("u".to_string()).unwrap()[0].quantity, u32::MAX);
}

#[test]
fn add_request_defaults_to_one() {
    let it = CartRequest { product_id: "a".to_string(), quantity: None }.into_item();
    assert_eq!(it.product_id, "a");
    assert_eq!(it.quantity, 1);
    let it = CartRequest { product_id: "b".to_string(), quantity: Some(4) }.into_item();
    assert_eq!(it.quantity, 4);
}
