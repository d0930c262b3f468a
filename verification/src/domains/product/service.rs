//! The decisions of the product service around its database calls.
use vstd::prelude::*;
use crate::common::error::{bad_request_message, AppError};
use crate::domains::product::dto::{ProductResponseDto, UpdateProductDto};
use crate::domains::product::entity::ProductEntity;
use crate::domains::product::repository::{update_params_of, UpdateProductParams};

verus! {

/// One page of the product list: the products on it, how many they are, and
/// how many products match in all.
#[derive(Debug)]
pub struct PaginatedResponseDto {
    pub data: Vec<ProductResponseDto>,
    pub count: usize,
    pub total: i64,
}

/// The response body of a stored product.
pub open spec fn response_of(e: ProductEntity) -> ProductResponseDto {
    ProductResponseDto {
        id: e.id,
        name: e.name,
        description: e.description,
        price: e.price,
        created_at: e.created_at,
        updated_at: e.updated_at,
    }
}

/// After counting: where nothing matches, the (empty) page, and the list is
/// not read; otherwise `None`, and the page is read.
pub fn page_without_rows(total: i64) -> (r: Option<PaginatedResponseDto>)
    ensures
        r is Some <==> total == 0,
        r matches Some(p) ==> p.data@.len() == 0 && p.count == 0 && p.total == 0,
{
    if total == 0 {
        Some(PaginatedResponseDto { data: Vec::new(), count: 0, total: 0 })
    } else {
        None
    }
}

/// The page made of the rows read, in their order.
pub fn page_of(total: i64, rows: Vec<ProductEntity>) -> (r: PaginatedResponseDto)
    ensures
        r.total == total,
        r.count == rows@.len(),
        r.data@ == rows@.map_values(|e: ProductEntity| response_of(e)),
{
    let mut rows = rows;
    let ghost all = rows@;
    let mut data: Vec<ProductResponseDto> = Vec::new();
    while rows.len() > 0
        invariant
            data@ + rows@.map_values(|e: ProductEntity| response_of(e)) == all.map_values(
                |e: ProductEntity| response_of(e),
            ),
            data@.len() + rows@.len() == all.len(),
        decreases rows@.len(),
    {
        let ghost before = rows@;
        let e = rows.remove(0);
        let dto = ProductResponseDto::from(e);
        let ghost d0 = data@;
        data.push(dto);
        proof {
            assert(before =~= seq![e] + rows@);
            assert(before.map_values(|e: ProductEntity| response_of(e)) =~= seq![response_of(e)]
                + rows@.map_values(|e: ProductEntity| response_of(e)));
            assert(data@ + rows@.map_values(|e: ProductEntity| response_of(e)) =~= d0 + before.map_values(
                |e: ProductEntity| response_of(e),
            ));
        }
    }
    assert(rows@.map_values(|e: ProductEntity| response_of(e)) =~= Seq::<ProductResponseDto>::empty());
    assert(data@ =~= all.map_values(|e: ProductEntity| response_of(e)));
    let count = data.len();
    PaginatedResponseDto { data, count, total }
}

/// Whether a partial update names no field at all.
pub open spec fn names_no_field(dto: UpdateProductDto) -> bool {
    dto.name is None && dto.description is None && dto.price is None
}

/// The parameters of a partial update of product `id`; a request that names
/// no field is refused.
pub fn update_params(id: i64, payload: &UpdateProductDto) -> (r: Result<UpdateProductParams, AppError>)
    ensures
        names_no_field(*payload) <==> r is Err,
        r is Err ==> bad_request_message(r) == Some("변경할 필드가 없습니다"@),
        r matches Ok(p) ==> update_params_of(p, id, *payload),
{
    if payload.name.is_none() && payload.description.is_none() && payload.price.is_none() {
        return Err(AppError::BadRequest(String::from_str("변경할 필드가 없습니다")));
    }
    Ok(UpdateProductParams::from_dto(id, payload))
}

} // verus!
