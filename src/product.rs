use vstd::prelude::*;

verus! {

/// A product of the catalog. Prices are in the smallest currency unit.
#[derive(Debug, Clone)]
pub struct Product {
    pub id: String,
    pub name: String,
    pub price: u64,
    pub category: String,
    pub region: String,
    pub certified: bool,
}

/// Errors of the product lookup.
#[derive(Debug, Clone, Copy, PartialEq, Eq, Structural)]
pub enum ProductError {
    LockError,
    ProductNotFound,
}

/// Filters and paging of a catalog search; every filter is optional.
#[derive(Debug, Clone)]
pub struct ProductQuery {
    pub query: Option<String>,
    pub category: Option<String>,
    pub min_price: Option<u64>,
    pub max_price: Option<u64>,
    pub region: Option<String>,
    pub certified: Option<bool>,
    pub page: Option<usize>,
    pub limit: Option<usize>,
}

/// One page of results, with the number of all matches.
#[derive(Debug, Clone)]
pub struct PaginatedResponse<T> {
    pub page: usize,
    pub limit: usize,
    pub total: usize,
    pub products: Vec<T>,
}

/// Position `i` holds the first product of `s` with id `id`.
pub open spec fn first_at(s: Seq<Product>, i: int, id: Seq<char>) -> bool {
    &&& 0 <= i < s.len()
    &&& s[i].id@ == id
    &&& forall|j: int| 0 <= j < i ==> s[j].id@ != id
}

/// The first product of `s` with id `id`, if any.
pub open spec fn lookup(s: Seq<Product>, id: Seq<char>) -> Option<Product> {
    if exists|i: int| first_at(s, i, id) {
        Some(s[choose|i: int| first_at(s, i, id)])
    } else {
        None
    }
}

proof fn lemma_lookup_at(s: Seq<Product>, i: int, id: Seq<char>)
    requires
        first_at(s, i, id),
    ensures
        lookup(s, id) == Some(s[i]),
{
    let j = choose|j: int| first_at(s, j, id);
    if j < i {
        assert(s[j].id@ != id);
    } else if i < j {
        assert(s[i].id@ != id);
    }
}

proof fn lemma_lookup_none(s: Seq<Product>, id: Seq<char>)
    requires
        forall|j: int| 0 <= j < s.len() ==> s[j].id@ != id,
    ensures
        lookup(s, id) is None,
{
}

/// A copy of a product.
pub(crate) fn copy_product(p: &Product) -> (r: Product)
    ensures
        r == *p,
{
    Product {
        id: p.id.clone(),
        name: p.name.clone(),
        price: p.price,
        category: p.category.clone(),
        region: p.region.clone(),
        certified: p.certified,
    }
}

/// `s` lists the two products that the catalog starts with.
pub open spec fn is_starting_catalog(s: Seq<Product>) -> bool {
    &&& s.len() == 2
    &&& s[0].id@ == "2"@ && s[0].name@ == "Bamileke Stool"@ && s[0].price == 15000
        && s[0].category@ == "Furniture"@ && s[0].region@ == "Ouest"@ && s[0].certified
    &&& s[1].id@ == "3"@ && s[1].name@ == "Cameroon T-shirt"@ && s[1].price == 5000
        && s[1].category@ == "Clothing"@ && s[1].region@ == "Centre"@ && !s[1].certified
}

/// The products that the catalog starts with.
pub fn mock_products() -> (r: Vec<Product>)
    ensures
        is_starting_catalog(r@),
{
    let mut v: Vec<Product> = Vec::new();
    v.push(
        Product {
            id: "2".to_owned(),
            name: "Bamileke Stool".to_owned(),
            price: 15000,
            category: "Furniture".to_owned(),
            region: "Ouest".to_owned(),
            certified: true,
        },
    );
    v.push(
        Product {
            id: "3".to_owned(),
            name: "Cameroon T-shirt".to_owned(),
            price: 5000,
            category: "Clothing".to_owned(),
            region: "Centre".to_owned(),
            certified: false,
        },
    );
    v
}

/// The product catalog, read only.
pub struct ProductService {
    products: Vec<Product>,
}

impl View for ProductService {
    type V = Seq<Product>;

    closed spec fn view(&self) -> Seq<Product> {
        self.products@
    }
}

impl ProductService {
    /// A catalog of the products of `mock_products`.
    pub fn new() -> (r: ProductService)
        ensures
            is_starting_catalog(r@),
    {
        ProductService { products: mock_products() }
    }

    /// The product with id `product_id`.
    pub fn get_product_by_id(&self, product_id: &str) -> (r: Result<Product, ProductError>)
        ensures
            lookup(self@, product_id@) matches Some(p) ==> r == Ok::<Product, ProductError>(p),
            lookup(self@, product_id@) is None ==> r == Err::<Product, ProductError>(
                ProductError::ProductNotFound,
            ),
    {
        let id = product_id.to_owned();
        let mut i: usize = 0;
        while i < self.products.len()
            invariant
                i <= self@.len(),
                id@ == product_id@,
                forall|j: int| 0 <= j < i ==> self@[j].id@ != id@,
            decreases self@.len() - i,
        {
            if self.products[i].id == id {
                proof {
                    lemma_lookup_at(self@, i as int, id@);
                }
                return Ok(copy_product(&self.products[i]));
            }
            i = i + 1;
        }
        proof {
            lemma_lookup_none(self@, id@);
        }
        Err(ProductError::ProductNotFound)
    }
}

} // verus!
