use vstd::prelude::*;
use crate::product::{copy_product, PaginatedResponse, Product, ProductQuery};

verus! {

/// What `str::to_lowercase` gives for `s`.
pub uninterp spec fn lower_of(s: Seq<char>) -> Seq<char>;

/// Relies on str::to_lowercase: the lowercase form of a text depends on its characters alone.
#[verifier::external_body]
fn lowercase(s: &str) -> (r: String)
    ensures
        r@ == lower_of(s@),
{
    s.to_lowercase()
}

/// `needle` occurs in `hay` as a run of consecutive characters.
pub open spec fn contains_seq(hay: Seq<char>, needle: Seq<char>) -> bool {
    exists|i: int|
        0 <= i && i + needle.len() <= hay.len() && #[trigger] hay.subrange(i, i + needle.len()) == needle
}

/// Relies on str::contains with a `&str` pattern: whether `needle` occurs in `hay`.
#[verifier::external_body]
fn contains_text(hay: &str, needle: &str) -> (r: bool)
    ensures
        r == contains_seq(hay@, needle@),
{
    hay.contains(needle)
}

/// Product `p` passes every filter that `q` sets; text filters ignore case.
pub open spec fn product_matches(p: Product, q: ProductQuery) -> bool {
    &&& (q.query matches Some(t) ==> contains_seq(lower_of(p.name@), lower_of(t@)))
    &&& (q.category matches Some(c) ==> lower_of(p.category@) == lower_of(c@))
    &&& (q.min_price matches Some(m) ==> p.price >= m)
    &&& (q.max_price matches Some(m) ==> p.price <= m)
    &&& (q.region matches Some(r) ==> lower_of(p.region@) == lower_of(r@))
    &&& (q.certified matches Some(c) ==> p.certified == c)
}

/// The products of `s` that pass the filters of `q`, in catalog order.
pub open spec fn matching(s: Seq<Product>, q: ProductQuery) -> Seq<Product> {
    s.filter(|p: Product| product_matches(p, q))
}

/// Page `page` (counted from one) of `f`, `limit` items per page.
pub open spec fn page_of(f: Seq<Product>, page: int, limit: int) -> Seq<Product> {
    let start = (page - 1) * limit;
    if page < 1 || start >= f.len() {
        Seq::empty()
    } else if start + limit >= f.len() {
        f.subrange(start, f.len() as int)
    } else {
        f.subrange(start, start + limit)
    }
}

pub open spec fn page_or_default(q: ProductQuery) -> usize {
    match q.page {
        Some(p) => p,
        None => 1,
    }
}

pub open spec fn limit_or_default(q: ProductQuery) -> usize {
    match q.limit {
        Some(l) => l,
        None => 10,
    }
}

fn same_text(a: &str, b: &str) -> (r: bool)
    ensures
        r == (lower_of(a@) == lower_of(b@)),
{
    lowercase(a) == lowercase(b)
}

/// Whether `p` passes every filter of `q`.
pub fn matches_query(p: &Product, q: &ProductQuery) -> (r: bool)
    ensures
        r == product_matches(*p, *q),
{
    if let Some(t) = &q.query {
        let name = lowercase(p.name.as_str());
        let needle = lowercase(t.as_str());
        if !contains_text(name.as_str(), needle.as_str()) {
            return false;
        }
    }
    if let Some(c) = &q.category {
        if !same_text(p.category.as_str(), c.as_str()) {
            return false;
        }
    }
    if let Some(m) = q.min_price {
        if p.price < m {
            return false;
        }
    }
    if let Some(m) = q.max_price {
        if p.price > m {
            return false;
        }
    }
    if let Some(r) = &q.region {
        if !same_text(p.region.as_str(), r.as_str()) {
            return false;
        }
    }
    if let Some(c) = q.certified {
        if p.certified != c {
            return false;
        }
    }
    true
}

/// Searches `products` with the filters of `params` and returns the asked page of the
/// matches; the page defaults to one and the page size to ten.
pub fn search_products(products: &Vec<Product>, params: &ProductQuery) -> (r: PaginatedResponse<
    Product,
>)
    ensures
        r.page == page_or_default(*params),
        r.limit == limit_or_default(*params),
        r.total == matching(products@, *params).len(),
        r.products@ == page_of(
            matching(products@, *params),
            r.page as int,
            r.limit as int,
        ),
{
    let ghost q = *params;
    let mut filtered: Vec<Product> = Vec::new();
    let mut i: usize = 0;
    while i < products.len()
        invariant
            i <= products@.len(),
            q == *params,
            filtered@ == matching(products@.subrange(0, i as int), q),
        decreases products@.len() - i,
    {
        proof {
            let s = products@.subrange(0, i as int + 1);
            assert(s.drop_last() =~= products@.subrange(0, i as int));
            assert(s.last() == products@[i as int]);
            reveal(Seq::filter);
        }
        if matches_query(&products[i], params) {
            filtered.push(copy_product(&products[i]));
        }
        i = i + 1;
    }
    assert(products@.subrange(0, products@.len() as int) =~= products@);
    let page = match params.page {
        Some(p) => p,
        None => 1,
    };
    let limit = match params.limit {
        Some(l) => l,
        None => 10,
    };
    let ghost f = filtered@;
    let mut out: Vec<Product> = Vec::new();
    if page >= 1 {
        if let Some(start) = (page - 1).checked_mul(limit) {
            if start < filtered.len() {
                let end = if limit >= filtered.len() - start {
                    filtered.len()
                } else {
                    start + limit
                };
                let mut k: usize = start;
                while k < end
                    invariant
                        start <= k <= end <= f.len(),
                        f == filtered@,
                        out@ == f.subrange(start as int, k as int),
                    decreases end - k,
                {
                    out.push(copy_product(&filtered[k]));
                    proof {
                        assert(out@ =~= f.subrange(start as int, k as int + 1));
                    }
                    k = k + 1;
                }
            }
        } else {
            proof {
                assert((page - 1) * limit >= f.len()) by (nonlinear_arith)
                    requires
                        (page - 1) * limit > usize::MAX,
                        f.len() <= usize::MAX,
                ;
            }
        }
    }
    assert(out@ =~= page_of(f, page as int, limit as int));
    PaginatedResponse { page, limit, total: filtered.len(), products: out }
}

} // verus!
