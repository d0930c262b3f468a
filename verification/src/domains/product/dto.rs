//! Product request and response bodies and their validation rules.
use vstd::prelude::*;
use crate::common::text::{char_count, trim, trimmed};
use crate::common::validation::{length_within, FieldCollector, ValidationError, ValidationErrors};
use crate::domains::product::entity::{ProductEntity, Timestamp};

verus! {

/// The product name rule: 1 to 100 characters once leading and trailing white
/// space is removed (names are stored trimmed).
pub open spec fn product_name_rule(s: Seq<char>) -> bool {
    1 <= trimmed(s).len() && trimmed(s).len() <= 100
}

/// Checks the product name rule.
pub fn validate_name(name: &str) -> (r: Result<(), ValidationError>)
    ensures
        r is Ok <==> product_name_rule(name@),
        r matches Err(e) ==> e.code_view() == "name_length"@,
{
    let t = trim(name);
    let len = char_count(t.as_str());
    if !(1 <= len && len <= 100) {
        return Err(ValidationError::new("name_length"));
    }
    Ok(())
}

/// A product id taken from the path.
#[derive(Debug)]
pub struct ProductPathId {
    pub id: i64,
}

impl ProductPathId {
    /// Checks that the id is at least 1.
    pub fn validate(&self) -> (r: Result<(), ValidationErrors>)
        ensures
            r is Ok <==> self.id >= 1,
            r matches Err(e) ==> e.names() == seq!["id"@],
    {
        let mut c = FieldCollector::new();
        c.check(self.id >= 1, "id");
        c.finish()
    }
}

/// Query of the product list: page from 1, page size 1 to 100, an optional
/// keyword of at most 20 characters.
#[derive(Debug)]
pub struct ProductListQuery {
    pub page: i64,
    pub size: i64,
    pub keyword: Option<String>,
}

/// The fields of a list query that break their rules, in declaration order.
pub open spec fn list_query_failures(q: ProductListQuery) -> Seq<Seq<char>> {
    let a = Seq::<Seq<char>>::empty();
    let a = if q.page >= 1 { a } else { a.push("page"@) };
    let a = if 1 <= q.size && q.size <= 100 { a } else { a.push("size"@) };
    match q.keyword {
        Some(k) => if k@.len() <= 20 { a } else { a.push("keyword"@) },
        None => a,
    }
}

impl ProductListQuery {
    /// Checks every field; fails with the names of the fields that break
    /// their rules.
    pub fn validate(&self) -> (r: Result<(), ValidationErrors>)
        ensures
            r is Ok <==> list_query_failures(*self).len() == 0,
            r matches Err(e) ==> e.names() == list_query_failures(*self),
    {
        let mut c = FieldCollector::new();
        c.check(self.page >= 1, "page");
        c.check(1 <= self.size && self.size <= 100, "size");
        let keyword_ok = match &self.keyword {
            Some(k) => char_count(k.as_str()) <= 20,
            None => true,
        };
        c.check(keyword_ok, "keyword");
        c.finish()
    }
}

/// The rules shared by creation and full replacement, in declaration order.
pub open spec fn product_failures(name: Seq<char>, description: Seq<char>, price: i64) -> Seq<Seq<char>> {
    let a = Seq::<Seq<char>>::empty();
    let a = if product_name_rule(name) { a } else { a.push("name"@) };
    let a = if length_within(description, 0, 1000) { a } else { a.push("description"@) };
    if price >= 0 { a } else { a.push("price"@) }
}

fn check_product(name: &str, description: &str, price: i64) -> (r: Result<(), ValidationErrors>)
    ensures
        r is Ok <==> product_failures(name@, description@, price).len() == 0,
        r matches Err(e) ==> e.names() == product_failures(name@, description@, price),
{
    let mut c = FieldCollector::new();
    c.check(validate_name(name).is_ok(), "name");
    c.check(char_count(description) <= 1000, "description");
    c.check(price >= 0, "price");
    c.finish()
}

/// Product creation request.
#[derive(Debug)]
pub struct CreateProductDto {
    pub name: String,
    pub description: String,
    pub price: i64,
}

impl CreateProductDto {
    /// Checks every field; fails with the names of the fields that break
    /// their rules.
    pub fn validate(&self) -> (r: Result<(), ValidationErrors>)
        ensures
            r is Ok <==> product_failures(self.name@, self.description@, self.price).len() == 0,
            r matches Err(e) ==> e.names() == product_failures(self.name@, self.description@, self.price),
    {
        check_product(self.name.as_str(), self.description.as_str(), self.price)
    }
}

/// Full replacement request.
#[derive(Debug)]
pub struct ReplaceProductDto {
    pub name: String,
    pub description: String,
    pub price: i64,
}

impl ReplaceProductDto {
    /// Checks every field; fails with the names of the fields that break
    /// their rules.
    pub fn validate(&self) -> (r: Result<(), ValidationErrors>)
        ensures
            r is Ok <==> product_failures(self.name@, self.description@, self.price).len() == 0,
            r matches Err(e) ==> e.names() == product_failures(self.name@, self.description@, self.price),
    {
        check_product(self.name.as_str(), self.description.as_str(), self.price)
    }
}

/// Partial update request: only the fields present are changed.
#[derive(Debug)]
pub struct UpdateProductDto {
    pub name: Option<String>,
    pub description: Option<String>,
    pub price: Option<i64>,
}

/// The present fields of a partial update that break their rules, in
/// declaration order.
pub open spec fn update_failures(dto: UpdateProductDto) -> Seq<Seq<char>> {
    let a = Seq::<Seq<char>>::empty();
    let a = match dto.name {
        Some(n) => if product_name_rule(n@) { a } else { a.push("name"@) },
        None => a,
    };
    let a = match dto.description {
        Some(d) => if length_within(d@, 0, 1000) { a } else { a.push("description"@) },
        None => a,
    };
    match dto.price {
        Some(p) => if p >= 0 { a } else { a.push("price"@) },
        None => a,
    }
}

impl UpdateProductDto {
    /// Checks the fields that are present; fails with the names of those that
    /// break their rules.
    pub fn validate(&self) -> (r: Result<(), ValidationErrors>)
        ensures
            r is Ok <==> update_failures(*self).len() == 0,
            r matches Err(e) ==> e.names() == update_failures(*self),
    {
        let mut c = FieldCollector::new();
        let name_ok = match &self.name {
            Some(n) => validate_name(n.as_str()).is_ok(),
            None => true,
        };
        c.check(name_ok, "name");
        let description_ok = match &self.description {
            Some(d) => char_count(d.as_str()) <= 1000,
            None => true,
        };
        c.check(description_ok, "description");
        let price_ok = match self.price {
            Some(p) => p >= 0,
            None => true,
        };
        c.check(price_ok, "price");
        c.finish()
    }
}

/// Product response body.
#[derive(Debug)]
pub struct ProductResponseDto {
    pub id: i64,
    pub name: String,
    pub description: String,
    pub price: i64,
    pub created_at: Timestamp,
    pub updated_at: Timestamp,
}

impl From<ProductEntity> for ProductResponseDto {
    fn from(entity: ProductEntity) -> (r: Self) {
        ProductResponseDto {
            id: entity.id,
            name: entity.name,
            description: entity.description,
            price: entity.price,
            created_at: entity.created_at,
            updated_at: entity.updated_at,
        }
    }
}

impl vstd::std_specs::convert::FromSpecImpl<ProductEntity> for ProductResponseDto {
    open spec fn obeys_from_spec() -> bool {
        true
    }

    open spec fn from_spec(entity: ProductEntity) -> Self {
        ProductResponseDto {
            id: entity.id,
            name: entity.name,
            description: entity.description,
            price: entity.price,
            created_at: entity.created_at,
            updated_at: entity.updated_at,
        }
    }
}

} // verus!
