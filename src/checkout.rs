use vstd::prelude::*;
use crate::cart::{cart_of, lines_view, CartItem, CartService, LineView};
use crate::order::{
    has_order, order_at, strings_view, with_status, CheckoutError, CheckoutService, Order,
    OrderStatus, OrderView,
};
use crate::product::{lookup, ProductService};

verus! {

/// A checkout request; the payment method names the payment rail.
#[derive(Debug, Clone)]
pub struct CheckoutRequest {
    pub payment_method: String,
}

/// The outcome of a payment, as reported by the payment rail.
#[derive(Debug, Clone)]
pub struct PaymentCallback {
    pub order_id: String,
    pub payment_status: String,
}

/// Price of one unit of product `p` in catalog `cat`; zero when the catalog lacks it.
pub open spec fn unit_price(cat: Seq<crate::product::Product>, p: Seq<char>) -> int {
    match lookup(cat, p) {
        Some(x) => x.price as int,
        None => 0,
    }
}

/// Every line of `c` names a product of `cat`.
pub open spec fn all_priced(cat: Seq<crate::product::Product>, c: Seq<LineView>) -> bool {
    forall|k: int| 0 <= k < c.len() ==> (#[trigger] lookup(cat, c[k].0)) is Some
}

/// Sum over the lines of `c` of quantity times unit price.
pub open spec fn cart_total(cat: Seq<crate::product::Product>, c: Seq<LineView>) -> int
    decreases c.len(),
{
    if c.len() == 0 {
        0
    } else {
        cart_total(cat, c.drop_last()) + c.last().1 * unit_price(cat, c.last().0)
    }
}

/// The product ids of the lines of `c`, in order.
pub open spec fn line_products(c: Seq<LineView>) -> Seq<Seq<char>> {
    c.map_values(|l: LineView| l.0)
}

/// The status that a payment outcome gives: `Paid` on "success", `Failed` on anything else.
pub open spec fn status_for(outcome: Seq<char>) -> OrderStatus {
    if outcome == "success"@ {
        OrderStatus::Paid
    } else {
        OrderStatus::Failed
    }
}

/// A payment outcome of "success" marks an order paid; any other outcome marks it failed.
pub proof fn outcome_sets_status(s: Seq<OrderView>, i: int, outcome: Seq<char>)
    requires
        0 <= i < s.len(),
    ensures
        with_status(s, i, status_for(outcome))[i].status == (if outcome
            == "success"@ {
            OrderStatus::Paid
        } else {
            OrderStatus::Failed
        }),
        with_status(s, i, status_for(outcome)).len() == s.len(),
{
}

/// The total of `items` at the prices of `products`.
pub fn price_items(products: &ProductService, items: &Vec<CartItem>) -> (r: Result<
    u64,
    CheckoutError,
>)
    ensures
        !all_priced(products@, lines_view(items@)) ==> r == Err::<u64, CheckoutError>(
            CheckoutError::ProductNotFound,
        ),
        all_priced(products@, lines_view(items@)) && cart_total(products@, lines_view(items@))
            > u64::MAX ==> r == Err::<u64, CheckoutError>(CheckoutError::AmountOverflow),
        all_priced(products@, lines_view(items@)) && cart_total(products@, lines_view(items@))
            <= u64::MAX ==> r == Ok::<u64, CheckoutError>(
            cart_total(products@, lines_view(items@)) as u64,
        ),
{
    let ghost cat = products@;
    let ghost c = lines_view(items@);
    let mut total: u64 = 0;
    let mut over = false;
    let mut i: usize = 0;
    while i < items.len()
        invariant
            i <= items@.len(),
            cat == products@,
            c == lines_view(items@),
            all_priced(cat, c.subrange(0, i as int)),
            over <==> cart_total(cat, c.subrange(0, i as int)) > u64::MAX,
            !over ==> total == cart_total(cat, c.subrange(0, i as int)),
        decreases items@.len() - i,
    {
        let ghost before = c.subrange(0, i as int);
        let ghost after = c.subrange(0, i as int + 1);
        proof {
            assert(after.drop_last() =~= before);
            assert(after.last() == c[i as int]);
        }
        match products.get_product_by_id(items[i].product_id.as_str()) {
            Err(_) => {
                assert(!all_priced(cat, c)) by {
                    assert(lookup(cat, c[i as int].0) is None);
                }
                return Err(CheckoutError::ProductNotFound);
            },
            Ok(prod) => {
                let ghost line = c[i as int].1 * unit_price(cat, c[i as int].0);
                proof {
                    assert(unit_price(cat, c[i as int].0) == prod.price);
                    assert(line == (items@[i as int].quantity as int) * (prod.price as int));
                    assert(line >= 0) by (nonlinear_arith)
                        requires
                            line == (items@[i as int].quantity as int) * (prod.price as int),
                    ;
                    assert(cart_total(cat, after) == cart_total(cat, before) + line);
                    assert forall|k: int| 0 <= k < after.len() implies (#[trigger] lookup(
                        cat,
                        after[k].0,
                    )) is Some by {
                        if k < i {
                            assert(after[k] == before[k]);
                        }
                    }
                }
                if !over {
                    match (items[i].quantity as u64).checked_mul(prod.price) {
                        Some(l) => match total.checked_add(l) {
                            Some(t) => {
                                total = t;
                            },
                            None => {
                                over = true;
                            },
                        },
                        None => {
                            over = true;
                        },
                    }
                }
            },
        }
        i = i + 1;
    }
    assert(c.subrange(0, items@.len() as int) =~= c);
    if over {
        Err(CheckoutError::AmountOverflow)
    } else {
        Ok(total)
    }
}

/// The product ids of `items`, in order.
fn product_ids(items: &Vec<CartItem>) -> (r: Vec<String>)
    ensures
        strings_view(r@) == line_products(lines_view(items@)),
{
    let mut out: Vec<String> = Vec::new();
    let mut i: usize = 0;
    while i < items.len()
        invariant
            i <= items@.len(),
            out@.len() == i,
            forall|k: int| 0 <= k < i ==> #[trigger] out@[k]@ == items@[k].product_id@,
        decreases items@.len() - i,
    {
        out.push(items[i].product_id.clone());
        i = i + 1;
    }
    assert(strings_view(out@) =~= line_products(lines_view(items@)));
    out
}

/// Turns a snapshot of the cart of `user_id` into a pending order: every line is priced,
/// and the order lists the products of the lines with their total.
pub fn checkout_items(
    user_id: String,
    items: &Vec<CartItem>,
    products: &ProductService,
    orders: &mut CheckoutService,
) -> (r: Result<Order, CheckoutError>)
    requires
        old(orders).wf(),
    ensures
        final(orders).wf(),
        r is Err ==> final(orders)@ == old(orders)@,
        items@.len() == 0 ==> r == Err::<Order, CheckoutError>(CheckoutError::EmptyCart),
        items@.len() > 0 && !all_priced(products@, lines_view(items@)) ==> r == Err::<
            Order,
            CheckoutError,
        >(CheckoutError::ProductNotFound),
        items@.len() > 0 && all_priced(products@, lines_view(items@)) && cart_total(
            products@,
            lines_view(items@),
        ) > u64::MAX ==> r == Err::<Order, CheckoutError>(CheckoutError::AmountOverflow),
        items@.len() > 0 && all_priced(products@, lines_view(items@)) && cart_total(
            products@,
            lines_view(items@),
        ) <= u64::MAX ==> r is Ok,
        r matches Ok(o) ==> !has_order(old(orders)@, o.order_id@) && o@ == (OrderView {
            order_id: o.order_id@,
            user_id: user_id@,
            items: line_products(lines_view(items@)),
            total_amount: cart_total(products@, lines_view(items@)) as u64,
            status: OrderStatus::PendingPayment,
        }) && final(orders)@ == old(orders)@.push(o@),
{
    if items.len() == 0 {
        return Err(CheckoutError::EmptyCart);
    }
    let total = match price_items(products, items) {
        Ok(t) => t,
        Err(e) => {
            return Err(e);
        },
    };
    let ids = product_ids(items);
    orders.create_order(user_id, ids, total)
}

/// Checks out the cart of `user_id`. The cart is left as it is.
pub fn checkout(
    user_id: String,
    carts: &CartService,
    products: &ProductService,
    orders: &mut CheckoutService,
) -> (r: Result<Order, CheckoutError>)
    requires
        carts.wf(),
        old(orders).wf(),
    ensures
        final(orders).wf(),
        r is Err ==> final(orders)@ == old(orders)@,
        cart_of(carts@, user_id@).len() == 0 ==> r == Err::<Order, CheckoutError>(
            CheckoutError::EmptyCart,
        ),
        cart_of(carts@, user_id@).len() > 0 && !all_priced(products@, cart_of(carts@, user_id@))
            ==> r == Err::<Order, CheckoutError>(CheckoutError::ProductNotFound),
        cart_of(carts@, user_id@).len() > 0 && all_priced(products@, cart_of(carts@, user_id@))
            && cart_total(products@, cart_of(carts@, user_id@)) > u64::MAX ==> r == Err::<
            Order,
            CheckoutError,
        >(CheckoutError::AmountOverflow),
        cart_of(carts@, user_id@).len() > 0 && all_priced(products@, cart_of(carts@, user_id@))
            && cart_total(products@, cart_of(carts@, user_id@)) <= u64::MAX ==> r is Ok,
        r matches Ok(o) ==> !has_order(old(orders)@, o.order_id@) && o@ == (OrderView {
            order_id: o.order_id@,
            user_id: user_id@,
            items: line_products(cart_of(carts@, user_id@)),
            total_amount: cart_total(products@, cart_of(carts@, user_id@)) as u64,
            status: OrderStatus::PendingPayment,
        }) && final(orders)@ == old(orders)@.push(o@),
{
    let snapshot = match carts.get_cart(user_id.clone()) {
        Ok(v) => v,
        Err(_) => {
            return Err(CheckoutError::LockError);
        },
    };
    checkout_items(user_id, &snapshot, products, orders)
}

/// The order status that a payment outcome gives.
pub fn payment_status_of(outcome: &str) -> (r: OrderStatus)
    ensures
        r == status_for(outcome@),
{
    let s = outcome.to_owned();
    let success = "success".to_owned();
    if s == success {
        OrderStatus::Paid
    } else {
        OrderStatus::Failed
    }
}

/// Applies a payment outcome to the order `order_id`; an unknown order is left unreported.
pub fn apply_payment_result(orders: &mut CheckoutService, order_id: String, outcome: &str) -> (r:
    Result<(), CheckoutError>)
    requires
        old(orders).wf(),
    ensures
        final(orders).wf(),
        r is Ok,
        !has_order(old(orders)@, order_id@) ==> final(orders)@ == old(orders)@,
        forall|i: int|
            #[trigger] order_at(old(orders)@, i, order_id@) ==> final(orders)@ == with_status(
                old(orders)@,
                i,
                status_for(outcome@),
            ),
{
    let status = payment_status_of(outcome);
    orders.update_order_status(order_id, status)
}

} // verus!
