use rust_axum_layered_rest_api::common::error::AppError;
use rust_axum_layered_rest_api::common::response::list_meta;
use rust_axum_layered_rest_api::domains::product::dto::{
    validate_name, CreateProductDto, ProductListQuery, ProductPathId, ProductResponseDto,
    ReplaceProductDto, UpdateProductDto,
};
use rust_axum_layered_rest_api::domains::product::entity::{ProductEntity, Timestamp};
use rust_axum_layered_rest_api::domains::product::repository::{
    count_query, delete_outcome, find_all_query, found_product, replace_outcome, update_outcome,
    update_query, CreateProductParams, ReplaceProductParams, SqlArg, UpdateProductParams,
};
use rust_axum_layered_rest_api::domains::product::service::{
    page_of, page_without_rows, update_params,
};

fn names(r: Result<(), rust_axum_layered_rest_api::common::validation::ValidationErrors>) -> usize {
    match r {
        Ok(()) => 0,
        Err(e) => e.field_errors().len(),
    }
}

fn entity(id: i64, name: &str) -> ProductEntity {
    ProductEntity {
        id,
        name: name.to_string(),
        description: "d".to_string(),
        price: 10,
        created_at: Timestamp { secs: 1, nanos: 0 },
        updated_at: Timestamp { secs: 2, nanos: 5 },
    }
}

#[test]
fn product_name_rule_counts_trimmed_characters() {
    assert!(validate_name("Keyboard").is_ok());
    assert!(validate_name("   ").is_err());
    assert!(validate_name("").is_err());
    assert!(validate_name(&"가".repeat(100)).is_ok());
    assert!(validate_name(&format!("  {}  ", "a".repeat(100))).is_ok());
    assert_eq!(validate_name(&"a".repeat(101)).unwrap_err().code(), "name_length");
}

#[test]
fn path_id_must_be_positive() {
    assert!(ProductPathId { id: 1 }.validate().is_ok());
    let e = ProductPathId { id: 0 }.validate().unwrap_err();
    assert!(e.field_errors().contains_key("id"));
    assert!(ProductPathId { id: -7 }.validate().is_err());
}

#[test]
fn list_query_rules() {
    let q = |page: i64, size: i64, keyword: Option<&str>| ProductListQuery {
        page,
        size,
        keyword: keyword.map(|k| k.to_string()),
    };
    assert!(q(1, 1, None).validate().is_ok());
    assert!(q(3, 100, Some(&"키".repeat(20))).validate().is_ok());
    for (query, field) in [
        (q(0, 2, None), "page"),
        (q(1, 0, None), "size"),
        (q(1, 101, None), "size"),
        (q(1, 2, Some("123456789012345678901")), "keyword"),
    ] {
        let e = query.validate().unwrap_err();
        assert!(e.field_errors().contains_key(field));
        assert_eq!(e.field_errors().len(), 1);
    }
    assert_eq!(names(q(0, 0, Some(&"x".repeat(21))).validate()), 3);
}

#[test]
fn create_and_replace_rules() {
    let ok = CreateProductDto { name: " Mouse ".into(), description: "".into(), price: 0 };
    assert!(ok.validate().is_ok());
    let bad = CreateProductDto { name: " ".into(), description: "x".repeat(1001), price: -1 };
    let e = bad.validate().unwrap_err();
    assert!(e.field_errors().contains_key("name"));
    assert!(e.field_errors().contains_key("description"));
    assert!(e.field_errors().contains_key("price"));
    let r = ReplaceProductDto { name: "M".into(), description: "x".repeat(1000), price: 5 };
    assert!(r.validate().is_ok());
    let r = ReplaceProductDto { name: "M".into(), description: "".into(), price: -5 };
    assert_eq!(names(r.validate()), 1);
}

#[test]
fn partial_update_checks_present_fields_only() {
    let none = UpdateProductDto { name: None, description: None, price: None };
    assert!(none.validate().is_ok());
    let bad = UpdateProductDto { name: Some("  ".into()), description: None, price: Some(-1) };
    let e = bad.validate().unwrap_err();
    assert!(e.field_errors().contains_key("name"));
    assert!(e.field_errors().contains_key("price"));
    assert!(!e.field_errors().contains_key("description"));
}

#[test]
fn params_trim_texts() {
    let dto = CreateProductDto { name: "  Keyboard \t".into(), description: " fast ".into(), price: 3 };
    let p = CreateProductParams::from_dto(&dto);
    assert_eq!(p.name, "Keyboard");
    assert_eq!(p.description, "fast");
    assert_eq!(p.price, 3);
    let dto = ReplaceProductDto { name: " A ".into(), description: "B ".into(), price: 4 };
    let p = ReplaceProductParams::from_dto(9, &dto);
    assert_eq!((p.id, p.name.as_str(), p.description.as_str(), p.price), (9, "A", "B", 4));
    let dto = UpdateProductDto { name: None, description: Some("  C".into()), price: Some(8) };
    let p = UpdateProductParams::from_dto(2, &dto);
    assert_eq!(p.id, 2);
    assert!(p.name.is_none());
    assert_eq!(p.description.as_deref(), Some("C"));
    assert_eq!(p.price, Some(8));
}

fn text(a: &SqlArg) -> &str {
    match a {
        SqlArg::Text(s) => s,
        SqlArg::Int(_) => panic!("expected text"),
    }
}

fn int_arg(a: &SqlArg) -> i64 {
    match a {
        SqlArg::Int(i) => *i,
        SqlArg::Text(_) => panic!("expected an integer"),
    }
}

#[test]
fn list_queries_filter_by_keyword_and_page() {
    let q = ProductListQuery { page: 2, size: 2, keyword: Some("Keyboard".into()) };
    let c = count_query(&q);
    assert_eq!(c.sql, "SELECT count(*) FROM products WHERE name LIKE $1");
    assert_eq!(c.args.len(), 1);
    assert_eq!(text(&c.args[0]), "%Keyboard%");
    let l = find_all_query(&q);
    assert_eq!(
        l.sql,
        "SELECT id, name, description, price, created_at, updated_at FROM products WHERE name LIKE $1 ORDER BY id DESC LIMIT $2 OFFSET $3"
    );
    assert_eq!(text(&l.args[0]), "%Keyboard%");
    assert_eq!(int_arg(&l.args[1]), 2);
    assert_eq!(int_arg(&l.args[2]), 2);

    let q = ProductListQuery { page: 1, size: 20, keyword: None };
    let c = count_query(&q);
    assert_eq!(c.sql, "SELECT count(*) FROM products");
    assert!(c.args.is_empty());
    let l = find_all_query(&q);
    assert_eq!(
        l.sql,
        "SELECT id, name, description, price, created_at, updated_at FROM products ORDER BY id DESC LIMIT $1 OFFSET $2"
    );
    assert_eq!(int_arg(&l.args[0]), 20);
    assert_eq!(int_arg(&l.args[1]), 0);
}

#[test]
fn update_query_sets_present_fields() {
    let p = UpdateProductParams { id: 7, name: Some("N".into()), description: None, price: Some(5) };
    let q = update_query(&p).unwrap();
    assert_eq!(q.sql, "UPDATE products SET name = $1, price = $2 WHERE id = $3");
    assert_eq!(text(&q.args[0]), "N");
    assert_eq!(int_arg(&q.args[1]), 5);
    assert_eq!(int_arg(&q.args[2]), 7);
    let p = UpdateProductParams { id: 1, name: None, description: Some("D".into()), price: None };
    assert_eq!(update_query(&p).unwrap().sql, "UPDATE products SET description = $1 WHERE id = $2");
    let p = UpdateProductParams {
        id: 1,
        name: Some("a".into()),
        description: Some("b".into()),
        price: Some(0),
    };
    assert_eq!(
        update_query(&p).unwrap().sql,
        "UPDATE products SET name = $1, description = $2, price = $3 WHERE id = $4"
    );
    let p = UpdateProductParams { id: 1, name: None, description: None, price: None };
    match update_query(&p) {
        Err(AppError::BadRequest(m)) => assert_eq!(m, "변경할 필드가 없습니다."),
        _ => panic!("expected a bad request"),
    }
}

#[test]
fn missing_rows_are_not_found() {
    match found_product(7, None) {
        Err(AppError::NotFound(m)) => assert_eq!(m, "ID 7번 제품을 찾을 수 없습니다."),
        _ => panic!("expected not found"),
    }
    assert_eq!(found_product(7, Some(entity(7, "x"))).unwrap().id, 7);
    assert!(replace_outcome(1).is_ok());
    match replace_outcome(0) {
        Err(AppError::NotFound(m)) => assert_eq!(m, "대상을 찾을 수 없습니다."),
        _ => panic!("expected not found"),
    }
    assert!(update_outcome(3).is_ok());
    assert!(matches!(update_outcome(0), Err(AppError::NotFound(_))));
    assert!(delete_outcome(1).is_ok());
    match delete_outcome(0) {
        Err(AppError::NotFound(m)) => assert_eq!(m, "삭제 대상을 찾을 수 없습니다."),
        _ => panic!("expected not found"),
    }
}

#[test]
fn pages_and_meta() {
    let empty = page_without_rows(0).unwrap();
    assert_eq!((empty.data.len(), empty.count, empty.total), (0, 0, 0));
    assert!(page_without_rows(5).is_none());
    let page = page_of(5, vec![entity(5, "a"), entity(4, "b")]);
    assert_eq!(page.count, 2);
    assert_eq!(page.total, 5);
    assert_eq!(page.data[0].id, 5);
    assert_eq!(page.data[1].name, "b");
    assert_eq!(page.data[1].updated_at, Timestamp { secs: 2, nanos: 5 });
    let meta = list_meta(2, 5, 1, 2);
    assert_eq!((meta.count, meta.total, meta.page, meta.size, meta.total_pages), (2, 5, 1, 2, 3));
    assert_eq!(list_meta(0, 0, 1, 10).total_pages, 0);
    assert_eq!(list_meta(1, 1, 1, 20).total_pages, 1);
    assert_eq!(list_meta(2, 4, 2, 2).total_pages, 2);
    assert_eq!(list_meta(0, i64::MAX, 1, 100).total_pages, 92233720368547759);
}

#[test]
fn partial_update_needs_a_field() {
    let none = UpdateProductDto { name: None, description: None, price: None };
    match update_params(1, &none) {
        Err(AppError::BadRequest(m)) => assert_eq!(m, "변경할 필드가 없습니다"),
        _ => panic!("expected a bad request"),
    }
    let one = UpdateProductDto { name: None, description: None, price: Some(0) };
    let p = update_params(4, &one).unwrap();
    assert_eq!((p.id, p.price), (4, Some(0)));
}

#[test]
fn response_copies_the_entity() {
    let dto = ProductResponseDto::from(entity(3, "n"));
    assert_eq!(dto.id, 3);
    assert_eq!(dto.name, "n");
    assert_eq!(dto.price, 10);
    assert_eq!(dto.created_at, Timestamp { secs: 1, nanos: 0 });
}
