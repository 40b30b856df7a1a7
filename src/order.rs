use vstd::prelude::*;

verus! {

/// Lifecycle state of an order.
#[derive(Debug, Clone, Copy, PartialEq, Eq, Structural)]
pub enum OrderStatus {
    PendingPayment,
    Paid,
    Failed,
}

/// An order created at checkout. Amounts are in the smallest currency unit.
#[derive(Debug, Clone)]
pub struct Order {
    pub order_id: String,
    pub user_id: String,
    pub items: Vec<String>,
    pub total_amount: u64,
    pub status: OrderStatus,
}

/// Mathematical value of an order.
pub struct OrderView {
    pub order_id: Seq<char>,
    pub user_id: Seq<char>,
    pub items: Seq<Seq<char>>,
    pub total_amount: u64,
    pub status: OrderStatus,
}

pub open spec fn strings_view(v: Seq<String>) -> Seq<Seq<char>> {
    v.map_values(|s: String| s@)
}

impl View for Order {
    type V = OrderView;

    open spec fn view(&self) -> OrderView {
        OrderView {
            order_id: self.order_id@,
            user_id: self.user_id@,
            items: strings_view(self.items@),
            total_amount: self.total_amount,
            status: self.status,
        }
    }
}

/// Errors of the order store.
#[derive(Debug, Clone, PartialEq, Eq, Structural)]
pub enum CheckoutError {
    LockError,
    OrderNotFound,
    CannotCancelOrder,
    /// Checkout of a cart without lines.
    EmptyCart,
    /// A cart line names a product that the catalog lacks.
    ProductNotFound,
    /// The order total would not fit in a `u64`.
    AmountOverflow,
    /// A freshly drawn order id is already held by another order.
    DuplicateOrderId,
}

/// Copies a list of strings.
fn copy_strings(v: &Vec<String>) -> (r: Vec<String>)
    ensures
        strings_view(r@) == strings_view(v@),
{
    let mut r: Vec<String> = Vec::new();
    let mut i: usize = 0;
    while i < v.len()
        invariant
            i <= v@.len(),
            r@.len() == i,
            forall|k: int| 0 <= k < i ==> #[trigger] r@[k]@ == v@[k]@,
        decreases v@.len() - i,
    {
        r.push(v[i].clone());
        i = i + 1;
    }
    assert(strings_view(r@) =~= strings_view(v@));
    r
}

impl Order {
    /// A copy of this order.
    pub fn copy(&self) -> (r: Order)
        ensures
            r@ == self@,
    {
        Order {
            order_id: self.order_id.clone(),
            user_id: self.user_id.clone(),
            items: copy_strings(&self.items),
            total_amount: self.total_amount,
            status: self.status,
        }
    }
}

/// The order with id `id` holds position `i` of `s`.
pub open spec fn order_at(s: Seq<OrderView>, i: int, id: Seq<char>) -> bool {
    0 <= i < s.len() && s[i].order_id == id
}

pub open spec fn has_order(s: Seq<OrderView>, id: Seq<char>) -> bool {
    exists|i: int| order_at(s, i, id)
}

/// No two orders share an id.
pub open spec fn ids_distinct(s: Seq<OrderView>) -> bool {
    forall|i: int, j: int|
        0 <= i < s.len() && 0 <= j < s.len() && i != j ==> #[trigger] s[i].order_id
            != #[trigger] s[j].order_id
}

/// `s` with the order at position `i` given status `st`.
pub open spec fn with_status(s: Seq<OrderView>, i: int, st: OrderStatus) -> Seq<OrderView> {
    s.update(i, OrderView { status: st, ..s[i] })
}

/// The orders of `s` placed by user `u`, in store order.
pub open spec fn orders_of_user(s: Seq<OrderView>, u: Seq<char>) -> Seq<OrderView> {
    s.filter(|o: OrderView| o.user_id == u)
}

/// Orders appended one at a time, each under an id that no earlier order holds, keep the
/// ids of the store pairwise distinct.
pub proof fn appended_ids_distinct(start: Seq<OrderView>, added: Seq<OrderView>)
    requires
        ids_distinct(start),
        forall|k: int|
            0 <= k < added.len() ==> !has_order(
                start + added.subrange(0, k),
                #[trigger] added[k].order_id,
            ),
    ensures
        ids_distinct(start + added),
{
    let s = start + added;
    assert forall|i: int, j: int|
        0 <= i < s.len() && 0 <= j < s.len() && i != j implies #[trigger] s[i].order_id
        != #[trigger] s[j].order_id by {
        let (a, b) = if i < j {
            (i, j)
        } else {
            (j, i)
        };
        if b < start.len() {
            assert(start[a].order_id != start[b].order_id);
        } else {
            let k = b - start.len();
            let prefix = start + added.subrange(0, k);
            assert(!has_order(prefix, added[k].order_id));
            assert(prefix[a] == s[a]);
            assert(s[b] == added[k]);
            if s[a].order_id == s[b].order_id {
                assert(order_at(prefix, a, added[k].order_id));
            }
        }
    }
}

/// The length of the longest order id of `s`.
spec fn max_id_len(s: Seq<OrderView>) -> nat
    decreases s.len(),
{
    if s.len() == 0 {
        0
    } else {
        let m = max_id_len(s.drop_last());
        if s.last().order_id.len() > m {
            s.last().order_id.len()
        } else {
            m
        }
    }
}

proof fn lemma_max_id_len(s: Seq<OrderView>)
    ensures
        forall|i: int| 0 <= i < s.len() ==> #[trigger] s[i].order_id.len() <= max_id_len(s),
    decreases s.len(),
{
    if s.len() > 0 {
        lemma_max_id_len(s.drop_last());
        assert forall|i: int| 0 <= i < s.len() implies #[trigger] s[i].order_id.len()
            <= max_id_len(s) by {
            if i < s.len() - 1 {
                assert(s[i] == s.drop_last()[i]);
            }
        }
    }
}

/// The store of all orders, in the order they were created.
pub struct CheckoutService {
    pub orders: Vec<Order>,
}

impl View for CheckoutService {
    type V = Seq<OrderView>;

    open spec fn view(&self) -> Seq<OrderView> {
        self.orders@.map_values(|o: Order| o@)
    }
}

/// Relies on uuid::Uuid::new_v4 and its hyphenated text form: a random order id.
#[verifier::external_body]
fn fresh_uuid() -> (r: String) {
    uuid::Uuid::new_v4().to_string()
}

impl CheckoutService {
    /// Well-formed: order ids are unique.
    pub open spec fn wf(&self) -> bool {
        ids_distinct(self@)
    }

    pub fn new() -> (r: CheckoutService)
        ensures
            r.wf(),
            r@ == Seq::<OrderView>::empty(),
    {
        let r = CheckoutService { orders: Vec::new() };
        assert(r@ =~= Seq::<OrderView>::empty());
        r
    }

    /// Position of the order with id `id`, if any.
    fn find(&self, id: &String) -> (r: Option<usize>)
        ensures
            r matches Some(i) ==> order_at(self@, i as int, id@),
            r is None ==> !has_order(self@, id@),
    {
        let mut i: usize = 0;
        while i < self.orders.len()
            invariant
                i <= self.orders@.len(),
                forall|k: int| 0 <= k < i ==> self@[k].order_id != id@,
            decreases self.orders@.len() - i,
        {
            if self.orders[i].order_id == *id {
                return Some(i);
            }
            i = i + 1;
        }
        None
    }

    /// All orders of `user_id`, in the order they were created.
    pub fn get_user_orders(&self, user_id: &str) -> (r: Result<Vec<Order>, CheckoutError>)
        ensures
            r matches Ok(v) && v@.map_values(|o: Order| o@) == orders_of_user(self@, user_id@),
    {
        let u = user_id.to_owned();
        let mut out: Vec<Order> = Vec::new();
        let mut i: usize = 0;
        while i < self.orders.len()
            invariant
                i <= self.orders@.len(),
                u@ == user_id@,
                out@.map_values(|o: Order| o@) == orders_of_user(self@.subrange(0, i as int), u@),
            decreases self.orders@.len() - i,
        {
            proof {
                let s = self@.subrange(0, i as int + 1);
                assert(s.drop_last() =~= self@.subrange(0, i as int));
                assert(s.last() == self@[i as int]);
                reveal(Seq::filter);
            }
            if self.orders[i].user_id == u {
                let o = self.orders[i].copy();
                out.push(o);
                assert(out@.map_values(|o: Order| o@) =~= orders_of_user(
                    self@.subrange(0, i as int),
                    u@,
                ).push(o@));
            }
            i = i + 1;
        }
        assert(self@.subrange(0, self.orders@.len() as int) =~= self@);
        Ok(out)
    }

    /// The order with id `order_id`.
    pub fn get_order_by_id(&self, order_id: &str) -> (r: Result<Order, CheckoutError>)
        requires
            self.wf(),
        ensures
            r is Ok <==> has_order(self@, order_id@),
            r matches Ok(o) ==> exists|i: int| order_at(self@, i, order_id@) && o@ == self@[i],
            r is Err ==> r == Err::<Order, CheckoutError>(CheckoutError::OrderNotFound),
    {
        let id = order_id.to_owned();
        match self.find(&id) {
            Some(i) => Ok(self.orders[i].copy()),
            None => Err(CheckoutError::OrderNotFound),
        }
    }

    /// Cancels a pending order: it becomes `Failed`.
    pub fn cancel_order(&mut self, order_id: &str) -> (r: Result<(), CheckoutError>)
        requires
            old(self).wf(),
        ensures
            final(self).wf(),
            !has_order(old(self)@, order_id@) ==> r == Err::<(), CheckoutError>(
                CheckoutError::OrderNotFound,
            ) && final(self)@ == old(self)@,
            forall|i: int|
                #[trigger] order_at(old(self)@, i, order_id@) ==> if old(self)@[i].status
                    == OrderStatus::PendingPayment {
                    r is Ok && final(self)@ == with_status(old(self)@, i, OrderStatus::Failed)
                } else {
                    r == Err::<(), CheckoutError>(CheckoutError::CannotCancelOrder)
                        && final(self)@ == old(self)@
                },
    {
        let id = order_id.to_owned();
        match self.find(&id) {
            Some(i) => {
                if self.orders[i].status == OrderStatus::PendingPayment {
                    self.set_status(i, OrderStatus::Failed);
                    Ok(())
                } else {
                    Err(CheckoutError::CannotCancelOrder)
                }
            },
            None => Err(CheckoutError::OrderNotFound),
        }
    }

    fn set_status(&mut self, i: usize, st: OrderStatus)
        requires
            old(self).wf(),
            i < old(self)@.len(),
        ensures
            final(self).wf(),
            final(self)@ == with_status(old(self)@, i as int, st),
    {
        let ghost s0 = self@;
        self.orders[i].status = st;
        assert(self@ =~= with_status(s0, i as int, st));
    }

    /// Adds a pending order under the given id, unless another order holds it.
    pub fn create_order_with_id(
        &mut self,
        order_id: String,
        user_id: String,
        items: Vec<String>,
        total_amount: u64,
    ) -> (r: Result<Order, CheckoutError>)
        requires
            old(self).wf(),
        ensures
            final(self).wf(),
            has_order(old(self)@, order_id@) ==> r == Err::<Order, CheckoutError>(
                CheckoutError::DuplicateOrderId,
            ) && final(self)@ == old(self)@,
            !has_order(old(self)@, order_id@) ==> (r matches Ok(o) && o@ == (OrderView {
                order_id: order_id@,
                user_id: user_id@,
                items: strings_view(items@),
                total_amount,
                status: OrderStatus::PendingPayment,
            }) && final(self)@ == old(self)@.push(o@)),
    {
        if let Some(_) = self.find(&order_id) {
            return Err(CheckoutError::DuplicateOrderId);
        }
        let order = Order {
            order_id,
            user_id,
            items,
            total_amount,
            status: OrderStatus::PendingPayment,
        };
        let ghost s0 = self@;
        let copy = order.copy();
        self.orders.push(order);
        assert(self@ =~= s0.push(copy@));
        assert forall|k: int| 0 <= k < s0.len() implies s0[k].order_id != copy@.order_id by {
            if s0[k].order_id == copy@.order_id {
                assert(order_at(s0, k, copy@.order_id));
            }
        }
        Ok(copy)
    }

    /// `id`, or, when an order already holds it, `id` extended by dashes until none does.
    fn unused_id(&self, drawn: String) -> (r: String)
        ensures
            !has_order(self@, r@),
            !has_order(self@, drawn@) ==> r@ == drawn@,
    {
        let ghost id0 = drawn@;
        let ghost bound = max_id_len(self@);
        proof {
            lemma_max_id_len(self@);
        }
        let mut id = drawn.clone();
        loop
            invariant
                forall|i: int| 0 <= i < self@.len() ==> #[trigger] self@[i].order_id.len() <= bound,
                id0 == drawn@,
                id@ == id0 || has_order(self@, id0),
            decreases bound + 1 - id@.len(),
        {
            match self.find(&id) {
                None => {
                    return id;
                },
                Some(i) => {
                    proof {
                        reveal_strlit("-");
                        assert(order_at(self@, i as int, id@));
                        assert(self@[i as int].order_id.len() <= bound);
                    }
                    id.append("-");
                },
            }
        }
    }

    /// Creates a pending order under a freshly drawn random id; should an order already hold
    /// that id, the id is extended until none does.
    pub fn create_order(&mut self, user_id: String, items: Vec<String>, total_amount: u64) -> (r:
        Result<Order, CheckoutError>)
        requires
            old(self).wf(),
        ensures
            final(self).wf(),
            r matches Ok(o) && !has_order(old(self)@, o.order_id@) && o@ == (OrderView {
                order_id: o.order_id@,
                user_id: user_id@,
                items: strings_view(items@),
                total_amount,
                status: OrderStatus::PendingPayment,
            }) && final(self)@ == old(self)@.push(o@),
    {
        let drawn = fresh_uuid();
        let id = self.unused_id(drawn);
        self.create_order_with_id(id, user_id, items, total_amount)
    }

    /// Sets the status of the order with id `order_id`; an unknown id changes nothing.
    pub fn update_order_status(&mut self, order_id: String, new_status: OrderStatus) -> (r: Result<
        (),
        CheckoutError,
    >)
        requires
            old(self).wf(),
        ensures
            final(self).wf(),
            r is Ok,
            !has_order(old(self)@, order_id@) ==> final(self)@ == old(self)@,
            forall|i: int|
                #[trigger] order_at(old(self)@, i, order_id@) ==> final(self)@ == with_status(
                    old(self)@,
                    i,
                    new_status,
                ),
    {
        match self.find(&order_id) {
            Some(i) => self.set_status(i, new_status),
            None => {},
        }
        Ok(())
    }
}

} // verus!
