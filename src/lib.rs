//! A small marketplace core: per-user carts, an order store with a payment lifecycle,
//! the checkout that turns a cart into an order, and a catalog search.

pub mod cart;
pub mod checkout;
pub mod order;
pub mod payment;
pub mod product;
pub mod search;
