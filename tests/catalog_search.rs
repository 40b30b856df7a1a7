use vendor_marketplace::product::{mock_products, ProductQuery};
use vendor_marketplace::search::{matches_query, search_products};

fn query() -> ProductQuery {
    ProductQuery {
        query: None,
        category: None,
        min_price: None,
        max_price: None,
        region: None,
        certified: None,
        page: None,
        limit: None,
    }
}

#[test]
fn test_search_products_empty_query() {
    let r = search_products(&mock_products(), &query());
    assert_eq!(r.total, 2);
    assert_eq!(r.page, 1);
    assert_eq!(r.limit, 10);
    assert_eq!(r.products.len(), 2);
}

#[test]
fn test_search_products_with_query_stool() {
    let mut q = query();
    q.query = Some("stool".to_string());
    let r = search_products(&mock_products(), &q);
    assert_eq!(r.total, 1);
    assert_eq!(r.products[0].name, "Bamileke Stool");
}

#[test]
fn test_search_products_with_category_clothing() {
    let mut q = query();
    q.category = Some("Clothing".to_string());
    let r = search_products(&mock_products(), &q);
    assert_eq!(r.total, 1);
    assert_eq!(r.products[0].category, "Clothing");
}

#[test]
fn test_search_products_certified_true() {
    let mut q = query();
    q.certified = Some(true);
    let r = search_products(&mock_products(), &q);
    assert_eq!(r.total, 1);
    assert_eq!(r.products[0].certified, true);
}

#[test]
fn search_ignores_case() {
    let mut q = query();
    q.query = Some("T-SHIRT".to_string());
    q.region = Some("centre".to_string());
    let r = search_products(&mock_products(), &q);
    assert_eq!(r.total, 1);
    assert_eq!(r.products[0].name, "Cameroon T-shirt");
}

#[test]
fn search_by_price_range() {
    let mut q = query();
    q.min_price = Some(6000);
    let r = search_products(&mock_products(), &q);
    assert_eq!(r.total, 1);
    assert_eq!(r.products[0].price, 15000);
    q.min_price = Some(5000);
    q.max_price = Some(5000);
    let r = search_products(&mock_products(), &q);
    assert_eq!(r.total, 1);
    assert_eq!(r.products[0].price, 5000);
}

#[test]
fn search_pages() {
    let mut q = query();
    q.limit = Some(1);
    q.page = Some(2);
    let r = search_products(&mock_products(), &q);
    assert_eq!(r.total, 2);
    assert_eq!(r.products.len(), 1);
    assert_eq!(r.products[0].name, "Cameroon T-shirt");
    q.page = Some(3);
    assert!(search_products(&mock_products(), &q).products.is_empty());
    q.page = Some(0);
    assert!(search_products(&mock_products(), &q).products.is_empty());
    q.page = Some(usize::MAX);
    q.limit = Some(usize::MAX);
    assert!(search_products(&mock_products(), &q).products.is_empty());
}

#[test]
fn matching_needs_every_filter() {
    let products = mock_products();
    let mut q = query();
    q.query = Some("stool".to_string());
    q.certified = Some(false);
    assert!(!matches_query(&products[0], &q));
    q.certified = Some(true);
    assert!(matches_query(&products[0], &q));
    assert!(!matches_query(&products[1], &q));
}
