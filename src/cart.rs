use vstd::prelude::*;

verus! {

/// One line of a cart: a product and how many of it.
#[derive(Debug, Clone)]
pub struct CartItem {
    pub product_id: String,
    pub quantity: u32,
}

/// A request on one cart line; an absent quantity means one on add.
#[derive(Debug, Clone)]
pub struct CartRequest {
    pub product_id: String,
    pub quantity: Option<u32>,
}

impl CartRequest {
    /// The line that an add request asks for; the quantity defaults to one.
    pub fn into_item(self) -> (r: CartItem)
        ensures
            r.product_id == self.product_id,
            r.quantity == (match self.quantity {
                Some(q) => q,
                None => 1,
            }),
    {
        let quantity = match self.quantity {
            Some(q) => q,
            None => 1,
        };
        CartItem { product_id: self.product_id, quantity }
    }
}

/// Errors of the cart store.
#[derive(Debug, Clone)]
pub enum CartError {
    LockError,
    CartNotFound,
    GenericError(String),
    /// A line cannot be added with quantity zero.
    InvalidQuantity,
    /// The merged quantity of a line would not fit in a `u32`.
    QuantityOverflow,
}

/// A cart line as a product id and a quantity.
pub type LineView = (Seq<char>, u32);

pub open spec fn line_view(i: CartItem) -> LineView {
    (i.product_id@, i.quantity)
}

pub open spec fn lines_view(v: Seq<CartItem>) -> Seq<LineView> {
    v.map_values(|i: CartItem| line_view(i))
}

pub open spec fn has_product(c: Seq<LineView>, p: Seq<char>) -> bool {
    exists|k: int| 0 <= k < c.len() && c[k].0 == p
}

/// At most one line per product, and no line of quantity zero.
pub open spec fn cart_wf(c: Seq<LineView>) -> bool {
    &&& forall|j: int, k: int|
        0 <= j < c.len() && 0 <= k < c.len() && j != k ==> #[trigger] c[j].0 != #[trigger] c[k].0
    &&& forall|k: int| 0 <= k < c.len() ==> #[trigger] c[k].1 >= 1
}

/// Adding `q` of `p`: an existing line grows by `q`, else a new line comes last.
pub open spec fn add_line(c: Seq<LineView>, p: Seq<char>, q: u32) -> Seq<LineView> {
    if has_product(c, p) {
        c.map_values(|l: LineView| if l.0 == p { (p, (l.1 + q) as u32) } else { l })
    } else {
        c.push((p, q))
    }
}

/// Adding `q` of `p` would take its line past `u32::MAX`.
pub open spec fn add_overflows(c: Seq<LineView>, p: Seq<char>, q: u32) -> bool {
    exists|k: int| 0 <= k < c.len() && c[k].0 == p && c[k].1 + q > u32::MAX
}

/// The cart without the line of `p`.
pub open spec fn remove_line(c: Seq<LineView>, p: Seq<char>) -> Seq<LineView> {
    c.filter(|l: LineView| l.0 != p)
}

/// Setting the line of `p` to `q`: zero removes it; a missing line stays missing.
pub open spec fn set_line(c: Seq<LineView>, p: Seq<char>, q: u32) -> Seq<LineView> {
    if q == 0 {
        remove_line(c, p)
    } else {
        c.map_values(|l: LineView| if l.0 == p { (p, q) } else { l })
    }
}

/// The cart of `u` in the store's view; a user without one has an empty cart.
pub open spec fn cart_of(m: Map<Seq<char>, Seq<LineView>>, u: Seq<char>) -> Seq<LineView> {
    if m.contains_key(u) {
        m[u]
    } else {
        Seq::empty()
    }
}

/// Two reads of a cart with no change between them give equal lines.
pub proof fn snapshot_is_stable(
    m: Map<Seq<char>, Seq<LineView>>,
    u: Seq<char>,
    first: Seq<CartItem>,
    second: Seq<CartItem>,
)
    requires
        lines_view(first) == cart_of(m, u),
        lines_view(second) == cart_of(m, u),
    ensures
        lines_view(first) == lines_view(second),
{
}

/// Adding `a` and then `b` of a product that the cart lacks leaves one line for it, of
/// quantity `a + b`, after the other lines.
pub proof fn adds_merge(c: Seq<LineView>, p: Seq<char>, a: u32, b: u32)
    requires
        cart_wf(c),
        !has_product(c, p),
        a >= 1,
        b >= 1,
        a + b <= u32::MAX,
    ensures
        !add_overflows(c, p, a),
        !add_overflows(add_line(c, p, a), p, b),
        add_line(add_line(c, p, a), p, b) == c.push((p, (a + b) as u32)),
{
    let c1 = add_line(c, p, a);
    assert(c1 == c.push((p, a)));
    assert forall|k: int| 0 <= k < c.len() implies c[k].0 != p by {
        if c[k].0 == p {
            assert(has_product(c, p));
        }
    }
    assert(has_product(c1, p)) by {
        assert(c1[c.len() as int].0 == p);
    }
    assert forall|k: int| 0 <= k < c1.len() && c1[k].0 == p implies c1[k].1 + b <= u32::MAX by {
        assert(k == c.len());
    }
    assert(add_line(c1, p, b) =~= c.push((p, (a + b) as u32)));
}

/// Setting the quantity of a product that the cart lacks leaves the cart as it is.
pub proof fn set_missing_line_keeps_cart(c: Seq<LineView>, p: Seq<char>, q: u32)
    requires
        !has_product(c, p),
    ensures
        set_line(c, p, q) == c,
{
    assert forall|k: int| 0 <= k < c.len() implies c[k].0 != p by {
        if c[k].0 == p {
            assert(has_product(c, p));
        }
    }
    if q == 0 {
        lemma_filter_keeps_all(c, p);
    } else {
        assert(set_line(c, p, q) =~= c);
    }
}

proof fn lemma_filter_keeps_all(c: Seq<LineView>, p: Seq<char>)
    requires
        forall|k: int| 0 <= k < c.len() ==> c[k].0 != p,
    ensures
        remove_line(c, p) == c,
    decreases c.len(),
{
    reveal(Seq::filter);
    if c.len() > 0 {
        lemma_filter_keeps_all(c.drop_last(), p);
        assert(c.drop_last().push(c.last()) =~= c);
    } else {
        assert(remove_line(c, p) =~= c);
    }
}

struct UserCart {
    user_id: String,
    items: Vec<CartItem>,
}

/// The carts of all users, one per user.
pub struct CartService {
    carts: Vec<UserCart>,
}

spec fn user_at(s: Seq<UserCart>, i: int, u: Seq<char>) -> bool {
    0 <= i < s.len() && s[i].user_id@ == u
}

spec fn carts_map(s: Seq<UserCart>) -> Map<Seq<char>, Seq<LineView>> {
    Map::new(
        |u: Seq<char>| exists|i: int| user_at(s, i, u),
        |u: Seq<char>| lines_view(s[choose|i: int| user_at(s, i, u)].items@),
    )
}

spec fn users_distinct(s: Seq<UserCart>) -> bool {
    forall|i: int, j: int|
        0 <= i < s.len() && 0 <= j < s.len() && i != j ==> #[trigger] s[i].user_id@
            != #[trigger] s[j].user_id@
}

spec fn carts_wf(s: Seq<UserCart>) -> bool {
    &&& users_distinct(s)
    &&& forall|i: int| 0 <= i < s.len() ==> cart_wf(lines_view(#[trigger] s[i].items@))
}

proof fn lemma_map_at(s: Seq<UserCart>, i: int)
    requires
        users_distinct(s),
        0 <= i < s.len(),
    ensures
        carts_map(s).contains_key(s[i].user_id@),
        carts_map(s)[s[i].user_id@] == lines_view(s[i].items@),
{
    let u = s[i].user_id@;
    assert(user_at(s, i, u));
    let j = choose|j: int| user_at(s, j, u);
    assert(i == j);
}

proof fn lemma_map_absent(s: Seq<UserCart>, u: Seq<char>)
    requires
        forall|i: int| 0 <= i < s.len() ==> s[i].user_id@ != u,
    ensures
        !carts_map(s).contains_key(u),
{
}

/// Replacing the cart at `i` by one of the same user changes only that user's entry.
proof fn lemma_map_update(s: Seq<UserCart>, i: int, x: UserCart)
    requires
        carts_wf(s),
        0 <= i < s.len(),
        x.user_id@ == s[i].user_id@,
        cart_wf(lines_view(x.items@)),
    ensures
        carts_wf(s.update(i, x)),
        carts_map(s.update(i, x)) == carts_map(s).insert(x.user_id@, lines_view(x.items@)),
{
    let t = s.update(i, x);
    assert(users_distinct(t)) by {
        assert forall|a: int, b: int|
            0 <= a < t.len() && 0 <= b < t.len() && a != b implies #[trigger] t[a].user_id@
            != #[trigger] t[b].user_id@ by {
            assert(s[a].user_id@ != s[b].user_id@);
        }
    }
    let m = carts_map(s).insert(x.user_id@, lines_view(x.items@));
    assert forall|u: Seq<char>| #[trigger] carts_map(t).contains_key(u) <==> m.contains_key(u) by {
        if carts_map(t).contains_key(u) {
            let k = choose|k: int| user_at(t, k, u);
            if k != i {
                assert(user_at(s, k, u));
            }
        }
        if carts_map(s).contains_key(u) {
            let k = choose|k: int| user_at(s, k, u);
            assert(user_at(t, k, u));
        }
        if u == x.user_id@ {
            assert(user_at(t, i, u));
        }
    }
    assert forall|u: Seq<char>| #[trigger] carts_map(t).contains_key(u) implies carts_map(t)[u]
        == m[u] by {
        let k = choose|k: int| user_at(t, k, u);
        lemma_map_at(t, k);
        if k != i {
            lemma_map_at(s, k);
        }
    }
    assert(carts_map(t) =~= m);
}

/// Appending a cart of a new user adds that user's entry.
proof fn lemma_map_push(s: Seq<UserCart>, x: UserCart)
    requires
        carts_wf(s),
        !carts_map(s).contains_key(x.user_id@),
        cart_wf(lines_view(x.items@)),
    ensures
        carts_wf(s.push(x)),
        carts_map(s.push(x)) == carts_map(s).insert(x.user_id@, lines_view(x.items@)),
{
    let t = s.push(x);
    assert forall|k: int| 0 <= k < s.len() implies s[k].user_id@ != x.user_id@ by {
        if s[k].user_id@ == x.user_id@ {
            assert(user_at(s, k, x.user_id@));
        }
    }
    assert(users_distinct(t)) by {
        assert forall|a: int, b: int|
            0 <= a < t.len() && 0 <= b < t.len() && a != b implies #[trigger] t[a].user_id@
            != #[trigger] t[b].user_id@ by {
            if a < s.len() && b < s.len() {
                assert(s[a].user_id@ != s[b].user_id@);
            }
        }
    }
    assert(forall|k: int| 0 <= k < s.len() ==> t[k] == s[k]);
    let m = carts_map(s).insert(x.user_id@, lines_view(x.items@));
    assert forall|u: Seq<char>| #[trigger] carts_map(t).contains_key(u) <==> m.contains_key(u) by {
        if carts_map(t).contains_key(u) {
            let k = choose|k: int| user_at(t, k, u);
            if k < s.len() {
                assert(user_at(s, k, u));
            }
        }
        if carts_map(s).contains_key(u) {
            let k = choose|k: int| user_at(s, k, u);
            assert(user_at(t, k, u));
        }
        if u == x.user_id@ {
            assert(user_at(t, s.len() as int, u));
        }
    }
    assert forall|u: Seq<char>| #[trigger] carts_map(t).contains_key(u) implies carts_map(t)[u]
        == m[u] by {
        let k = choose|k: int| user_at(t, k, u);
        lemma_map_at(t, k);
        if k < s.len() {
            lemma_map_at(s, k);
        }
    }
    assert(carts_map(t) =~= m);
}

/// Position of the line of `p`, if any.
fn find_line(items: &Vec<CartItem>, p: &String) -> (r: Option<usize>)
    ensures
        r matches Some(k) ==> k < items@.len() && items@[k as int].product_id@ == p@,
        r is None ==> !has_product(lines_view(items@), p@),
{
    let mut k: usize = 0;
    while k < items.len()
        invariant
            k <= items@.len(),
            forall|j: int| 0 <= j < k ==> items@[j].product_id@ != p@,
        decreases items@.len() - k,
    {
        if items[k].product_id == *p {
            return Some(k);
        }
        k = k + 1;
    }
    None
}

fn copy_item(i: &CartItem) -> (r: CartItem)
    ensures
        line_view(r) == line_view(*i),
{
    CartItem { product_id: i.product_id.clone(), quantity: i.quantity }
}

/// The lines of `items` whose product is not `p`, in order.
fn without_product(items: &Vec<CartItem>, p: &String) -> (r: Vec<CartItem>)
    requires
        cart_wf(lines_view(items@)),
    ensures
        lines_view(r@) == remove_line(lines_view(items@), p@),
        cart_wf(lines_view(r@)),
{
    let ghost c = lines_view(items@);
    let mut out: Vec<CartItem> = Vec::new();
    let mut i: usize = 0;
    while i < items.len()
        invariant
            i <= items@.len(),
            c == lines_view(items@),
            cart_wf(c),
            lines_view(out@) == remove_line(c.subrange(0, i as int), p@),
            cart_wf(lines_view(out@)),
            forall|j: int|
                0 <= j < out@.len() ==> exists|k: int|
                    0 <= k < i && #[trigger] line_view(out@[j]) == c[k],
        decreases items@.len() - i,
    {
        proof {
            let s = c.subrange(0, i as int + 1);
            assert(s.drop_last() =~= c.subrange(0, i as int));
            assert(s.last() == c[i as int]);
            reveal(Seq::filter);
        }
        if items[i].product_id != *p {
            let ghost o0 = out@;
            let x = copy_item(&items[i]);
            out.push(x);
            proof {
                assert(lines_view(out@) =~= lines_view(o0).push(c[i as int]));
                assert forall|j: int| 0 <= j < out@.len() implies exists|k: int|
                    0 <= k < i + 1 && #[trigger] line_view(out@[j]) == c[k] by {
                    if j < o0.len() {
                        assert(out@[j] == o0[j]);
                    } else {
                        assert(line_view(out@[j]) == c[i as int]);
                    }
                }
                let v = lines_view(out@);
                assert forall|a: int, b: int|
                    0 <= a < v.len() && 0 <= b < v.len() && a != b implies #[trigger] v[a].0
                    != #[trigger] v[b].0 by {
                    if a < o0.len() && b < o0.len() {
                        assert(lines_view(o0)[a].0 != lines_view(o0)[b].0);
                    } else if a < o0.len() {
                        assert(out@[a] == o0[a]);
                        let k = choose|k: int| 0 <= k < i && #[trigger] line_view(o0[a]) == c[k];
                        assert(c[k].0 != c[i as int].0);
                    } else if b < o0.len() {
                        assert(out@[b] == o0[b]);
                        let k = choose|k: int| 0 <= k < i && #[trigger] line_view(o0[b]) == c[k];
                        assert(c[k].0 != c[i as int].0);
                    }
                }
                assert forall|k: int| 0 <= k < v.len() implies #[trigger] v[k].1 >= 1 by {
                    if k < o0.len() {
                        assert(lines_view(o0)[k].1 >= 1);
                    }
                }
            }
        }
        i = i + 1;
    }
    assert(c.subrange(0, items@.len() as int) =~= c);
    out
}

/// Adds `item` to a cart's lines, merging with an existing line of its product.
fn add_to_lines(items: &mut Vec<CartItem>, item: CartItem) -> (r: Result<(), CartError>)
    requires
        cart_wf(lines_view(old(items)@)),
        item.quantity >= 1,
    ensures
        add_overflows(lines_view(old(items)@), item.product_id@, item.quantity) ==> (r matches Err(
            CartError::QuantityOverflow,
        ) && final(items)@ == old(items)@),
        !add_overflows(lines_view(old(items)@), item.product_id@, item.quantity) ==> (r is Ok
            && lines_view(final(items)@) == add_line(
            lines_view(old(items)@),
            item.product_id@,
            item.quantity,
        )),
        cart_wf(lines_view(final(items)@)),
{
    let ghost c = lines_view(items@);
    let ghost p = item.product_id@;
    let ghost q = item.quantity;
    match find_line(items, &item.product_id) {
        Some(k) => {
            let cur = items[k].quantity;
            if cur > u32::MAX - item.quantity {
                assert(add_overflows(c, p, q)) by {
                    assert(c[k as int].0 == p);
                }
                return Err(CartError::QuantityOverflow);
            }
            assert(!add_overflows(c, p, q)) by {
                assert forall|j: int| 0 <= j < c.len() && c[j].0 == p implies c[j].1 + q
                    <= u32::MAX by {
                    assert(j == k as int);
                }
            }
            assert(has_product(c, p)) by {
                assert(c[k as int].0 == p);
            }
            items.set(k, CartItem { product_id: item.product_id, quantity: cur + item.quantity });
            let ghost v = lines_view(items@);
            assert(v =~= add_line(c, p, q)) by {
                assert forall|j: int| 0 <= j < c.len() && j != k implies c[j].0 != p by {
                    assert(c[j].0 != c[k as int].0);
                }
            }
            assert forall|a: int, b: int|
                0 <= a < v.len() && 0 <= b < v.len() && a != b implies #[trigger] v[a].0
                != #[trigger] v[b].0 by {
                assert(c[a].0 != c[b].0);
            }
            assert forall|j: int| 0 <= j < v.len() implies #[trigger] v[j].1 >= 1 by {
                assert(c[j].1 >= 1);
            }
            Ok(())
        },
        None => {
            items.push(item);
            let ghost v = lines_view(items@);
            assert(v =~= c.push((p, q)));
            assert(!add_overflows(c, p, q));
            assert forall|a: int, b: int|
                0 <= a < v.len() && 0 <= b < v.len() && a != b implies #[trigger] v[a].0
                != #[trigger] v[b].0 by {
                if a < c.len() && b < c.len() {
                    assert(c[a].0 != c[b].0);
                } else if a < c.len() {
                    assert(c[a].0 != p);
                } else if b < c.len() {
                    assert(c[b].0 != p);
                }
            }
            assert forall|j: int| 0 <= j < v.len() implies #[trigger] v[j].1 >= 1 by {
                if j < c.len() {
                    assert(c[j].1 >= 1);
                }
            }
            Ok(())
        },
    }
}

/// Sets the line of `p` to `q`; zero removes it.
fn set_in_lines(items: &mut Vec<CartItem>, p: &String, q: u32)
    requires
        cart_wf(lines_view(old(items)@)),
    ensures
        lines_view(final(items)@) == set_line(lines_view(old(items)@), p@, q),
        cart_wf(lines_view(final(items)@)),
{
    let ghost c = lines_view(items@);
    if q == 0 {
        let kept = without_product(items, p);
        *items = kept;
        return ;
    }
    match find_line(items, p) {
        Some(k) => {
            items.set(k, CartItem { product_id: p.clone(), quantity: q });
            let ghost v = lines_view(items@);
            assert(v =~= set_line(c, p@, q)) by {
                assert forall|j: int| 0 <= j < c.len() && j != k implies c[j].0 != p@ by {
                    assert(c[j].0 != c[k as int].0);
                }
            }
            assert forall|a: int, b: int|
                0 <= a < v.len() && 0 <= b < v.len() && a != b implies #[trigger] v[a].0
                != #[trigger] v[b].0 by {
                assert(c[a].0 != c[b].0);
            }
            assert forall|j: int| 0 <= j < v.len() implies #[trigger] v[j].1 >= 1 by {
                assert(c[j].1 >= 1);
            }
        },
        None => {
            assert(lines_view(items@) =~= set_line(c, p@, q)) by {
                assert forall|j: int| 0 <= j < c.len() implies c[j].0 != p@ by {
                    if c[j].0 == p@ {
                        assert(has_product(c, p@));
                    }
                }
            }
        },
    }
}

fn copy_lines(items: &Vec<CartItem>) -> (r: Vec<CartItem>)
    ensures
        lines_view(r@) == lines_view(items@),
{
    let mut out: Vec<CartItem> = Vec::new();
    let mut i: usize = 0;
    while i < items.len()
        invariant
            i <= items@.len(),
            out@.len() == i,
            forall|k: int| 0 <= k < i ==> #[trigger] line_view(out@[k]) == line_view(items@[k]),
        decreases items@.len() - i,
    {
        out.push(copy_item(&items[i]));
        i = i + 1;
    }
    assert(lines_view(out@) =~= lines_view(items@));
    out
}

impl View for CartService {
    type V = Map<Seq<char>, Seq<LineView>>;

    /// Each user that has a cart, mapped to its lines in the order they were added.
    closed spec fn view(&self) -> Map<Seq<char>, Seq<LineView>> {
        carts_map(self.carts@)
    }
}

impl CartService {
    /// Well-formed: one cart per user, and each cart is well formed.
    pub closed spec fn wf(&self) -> bool {
        carts_wf(self.carts@)
    }

    /// Each cart of a well-formed store is well formed.
    pub proof fn lemma_cart_wf(&self, u: Seq<char>)
        requires
            self.wf(),
        ensures
            cart_wf(cart_of(self@, u)),
    {
        if self@.contains_key(u) {
            let i = choose|i: int| user_at(self.carts@, i, u);
            lemma_map_at(self.carts@, i);
        }
    }

    pub fn new() -> (r: CartService)
        ensures
            r.wf(),
            r@ == Map::<Seq<char>, Seq<LineView>>::empty(),
    {
        let r = CartService { carts: Vec::new() };
        assert(r@ =~= Map::<Seq<char>, Seq<LineView>>::empty());
        r
    }

    /// Position of the cart of `u`, if any.
    fn find_user(&self, u: &String) -> (r: Option<usize>)
        requires
            self.wf(),
        ensures
            r matches Some(i) ==> user_at(self.carts@, i as int, u@) && self@.contains_key(u@)
                && self@[u@] == lines_view(self.carts@[i as int].items@),
            r is None ==> !self@.contains_key(u@),
    {
        let mut i: usize = 0;
        while i < self.carts.len()
            invariant
                i <= self.carts@.len(),
                self.wf(),
                forall|k: int| 0 <= k < i ==> self.carts@[k].user_id@ != u@,
            decreases self.carts@.len() - i,
        {
            if self.carts[i].user_id == *u {
                proof {
                    lemma_map_at(self.carts@, i as int);
                }
                return Some(i);
            }
            i = i + 1;
        }
        proof {
            lemma_map_absent(self.carts@, u@);
        }
        None
    }

    /// Adds `item` to the cart of `user_id`; a line of the same product grows by its quantity.
    /// A quantity of zero is refused, so that no line ever holds zero.
    pub fn add_item(&mut self, user_id: String, item: CartItem) -> (r: Result<(), CartError>)
        requires
            old(self).wf(),
        ensures
            final(self).wf(),
            item.quantity == 0 ==> (r matches Err(CartError::InvalidQuantity) && final(self)@
                == old(self)@),
            item.quantity > 0 && add_overflows(
                cart_of(old(self)@, user_id@),
                item.product_id@,
                item.quantity,
            ) ==> (r matches Err(CartError::QuantityOverflow) && final(self)@ == old(self)@),
            item.quantity > 0 && !add_overflows(
                cart_of(old(self)@, user_id@),
                item.product_id@,
                item.quantity,
            ) ==> (r is Ok && final(self)@ == old(self)@.insert(
                user_id@,
                add_line(cart_of(old(self)@, user_id@), item.product_id@, item.quantity),
            )),
    {
        if item.quantity == 0 {
            return Err(CartError::InvalidQuantity);
        }
        let ghost s0 = self.carts@;
        match self.find_user(&user_id) {
            Some(i) => {
                proof {
                    assert(cart_wf(lines_view(s0[i as int].items@)));
                }
                let r = add_to_lines(&mut self.carts[i].items, item);
                proof {
                    assert(self.carts@ =~= s0.update(i as int, self.carts@[i as int]));
                    lemma_map_update(s0, i as int, self.carts@[i as int]);
                    if r is Err {
                        assert(lines_view(self.carts@[i as int].items@) == lines_view(s0[i as int].items@));
                        assert(carts_map(s0).insert(user_id@, carts_map(s0)[user_id@]) =~= carts_map(s0));
                    }
                }
                r
            },
            None => {
                let ghost p = item.product_id@;
                let ghost q = item.quantity;
                let mut items: Vec<CartItem> = Vec::new();
                proof {
                    assert(!add_overflows(Seq::<LineView>::empty(), p, q));
                }
                items.push(item);
                let uc = UserCart { user_id, items };
                proof {
                    assert(lines_view(uc.items@) =~= seq![(p, q)]);
                    assert(add_line(Seq::<LineView>::empty(), p, q) =~= seq![(p, q)]);
                    lemma_map_push(s0, uc);
                }
                self.carts.push(uc);
                Ok(())
            },
        }
    }

    /// Sets the quantity of a line of the cart of `user_id`; zero removes the line, and a
    /// missing line or cart is left as it is.
    pub fn update_item(&mut self, user_id: String, item: CartItem) -> (r: Result<(), CartError>)
        requires
            old(self).wf(),
        ensures
            final(self).wf(),
            r is Ok,
            !old(self)@.contains_key(user_id@) ==> final(self)@ == old(self)@,
            old(self)@.contains_key(user_id@) ==> final(self)@ == old(self)@.insert(
                user_id@,
                set_line(old(self)@[user_id@], item.product_id@, item.quantity),
            ),
    {
        let ghost s0 = self.carts@;
        match self.find_user(&user_id) {
            Some(i) => {
                proof {
                    assert(cart_wf(lines_view(s0[i as int].items@)));
                }
                set_in_lines(&mut self.carts[i].items, &item.product_id, item.quantity);
                proof {
                    assert(self.carts@ =~= s0.update(i as int, self.carts@[i as int]));
                    lemma_map_update(s0, i as int, self.carts@[i as int]);
                }
            },
            None => {},
        }
        Ok(())
    }

    /// Removes the line of `product_id` from the cart of `user_id`, if there is one.
    pub fn remove_item(&mut self, user_id: String, product_id: String) -> (r: Result<(), CartError>)
        requires
            old(self).wf(),
        ensures
            final(self).wf(),
            r is Ok,
            !old(self)@.contains_key(user_id@) ==> final(self)@ == old(self)@,
            old(self)@.contains_key(user_id@) ==> final(self)@ == old(self)@.insert(
                user_id@,
                remove_line(old(self)@[user_id@], product_id@),
            ),
    {
        let ghost s0 = self.carts@;
        match self.find_user(&user_id) {
            Some(i) => {
                proof {
                    assert(cart_wf(lines_view(s0[i as int].items@)));
                }
                let kept = without_product(&self.carts[i].items, &product_id);
                self.carts[i].items = kept;
                proof {
                    assert(self.carts@ =~= s0.update(i as int, self.carts@[i as int]));
                    lemma_map_update(s0, i as int, self.carts@[i as int]);
                }
            },
            None => {},
        }
        Ok(())
    }

    /// A copy of the lines of the cart of `user_id`; empty when the user has no cart.
    pub fn get_cart(&self, user_id: String) -> (r: Result<Vec<CartItem>, CartError>)
        requires
            self.wf(),
        ensures
            r matches Ok(v) && lines_view(v@) == cart_of(self@, user_id@),
    {
        match self.find_user(&user_id) {
            Some(i) => Ok(copy_lines(&self.carts[i].items)),
            None => {
                let v: Vec<CartItem> = Vec::new();
                assert(lines_view(v@) =~= Seq::<LineView>::empty());
                Ok(v)
            },
        }
    }
}

} // verus!
