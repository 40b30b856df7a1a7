use std::collections::HashSet;
use vendor_marketplace::order::{CheckoutError, CheckoutService, OrderStatus};

#[test]
fn created_order_is_pending() {
    let mut orders = CheckoutService::new();
    let o = orders.create_order("u".to_string(), vec!["2".to_string()], 30000).unwrap();
    assert_eq!(o.status, OrderStatus::PendingPayment);
    assert_eq!(o.user_id, "u");
    assert_eq!(o.items, vec!["2".to_string()]);
    assert_eq!(o.total_amount, 30000);
    let found = orders.get_order_by_id(&o.order_id).unwrap();
    assert_eq!(found.order_id, o.order_id);
    assert_eq!(found.status, OrderStatus::PendingPayment);
}

#[test]
fn order_ids_are_distinct() {
    let mut orders = CheckoutService::new();
    let mut ids = HashSet::new();
    for _ in 0..100 {
        let o = orders.create_order("u".to_string(), vec![], 0).unwrap();
        assert!(!o.order_id.is_empty());
        ids.insert(o.order_id);
    }
    assert_eq!(ids.len(), 100);
}

#[test]
fn create_with_taken_id_is_refused() {
    let mut orders = CheckoutService::new();
    orders.create_order_with_id("id-1".to_string(), "u".to_string(), vec![], 5).unwrap();
    let r = orders.create_order_with_id("id-1".to_string(), "v".to_string(), vec![], 7);
    assert_eq!(r.unwrap_err(), CheckoutError::DuplicateOrderId);
    assert_eq!(orders.get_order_by_id("id-1").unwrap().user_id, "u");
    assert_eq!(orders.get_user_orders("v").unwrap().len(), 0);
}

#[test]
fn orders_of_user_in_store_order() {
    let mut orders = CheckoutService::new();
    orders.create_order_with_id("1".to_string(), "a".to_string(), vec![], 1).unwrap();
    orders.create_order_with_id("2".to_string(), "b".to_string(), vec![], 2).unwrap();
    orders.create_order_with_id("3".to_string(), "a".to_string(), vec![], 3).unwrap();
    let mine = orders.get_user_orders("a").unwrap();
    assert_eq!(mine.len(), 2);
    assert_eq!(mine[0].order_id, "1");
    assert_eq!(mine[1].order_id, "3");
    assert!(orders.get_user_orders("nobody").unwrap().is_empty());
}

#[test]
fn cancel_pending_order_fails_it() {
    let mut orders = CheckoutService::new();
    orders.create_order_with_id("1".to_string(), "a".to_string(), vec![], 1).unwrap();
    assert!(orders.cancel_order("1").is_ok());
    assert_eq!(orders.get_order_by_id("1").unwrap().status, OrderStatus::Failed);
}

#[test]
fn cancel_paid_order_is_refused() {
    let mut orders = CheckoutService::new();
    orders.create_order_with_id("1".to_string(), "a".to_string(), vec![], 1).unwrap();
    orders.update_order_status("1".to_string(), OrderStatus::Paid).unwrap();
    assert_eq!(orders.cancel_order("1").unwrap_err(), CheckoutError::CannotCancelOrder);
    assert_eq!(orders.get_order_by_id("1").unwrap().status, OrderStatus::Paid);
}

#[test]
fn cancel_unknown_order_is_not_found() {
    let mut orders = CheckoutService::new();
    assert_eq!(orders.cancel_order("nope").unwrap_err(), CheckoutError::OrderNotFound);
}

#[test]
fn get_unknown_order_is_not_found() {
    let orders = CheckoutService::new();
    assert_eq!(orders.get_order_by_id("no-such-id").unwrap_err(), CheckoutError::OrderNotFound);
}

#[test]
fn update_status_of_unknown_order_is_silent() {
    let mut orders = CheckoutService::new();
    orders.create_order_with_id("1".to_string(), "a".to_string(), vec![], 1).unwrap();
    assert!(orders.update_order_status("2".to_string(), OrderStatus::Paid).is_ok());
    assert_eq!(orders.get_order_by_id("1").unwrap().status, OrderStatus::PendingPayment);
}
