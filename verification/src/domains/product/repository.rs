//! What the product repository sends to the database: the parameters of each
//! write, the SQL text and arguments of the dynamic queries, and how a result
//! is judged.
use vstd::prelude::*;
use crate::common::error::{bad_request_message, not_found_message, AppError};
use crate::common::text::{decimal, push_decimal, push_signed_decimal, signed_decimal, trim, trimmed};
use crate::domains::product::dto::{CreateProductDto, ProductListQuery, ReplaceProductDto, UpdateProductDto};
use crate::domains::product::entity::ProductEntity;

verus! {

/// Parameters of a product insert: the name and description trimmed.
#[derive(Debug)]
pub struct CreateProductParams {
    pub name: String,
    pub description: String,
    pub price: i64,
}

impl CreateProductParams {
    /// The insert parameters of a creation request.
    pub fn from_dto(dto: &CreateProductDto) -> (r: Self)
        ensures
            r.name@ == trimmed(dto.name@),
            r.description@ == trimmed(dto.description@),
            r.price == dto.price,
    {
        CreateProductParams {
            name: trim(dto.name.as_str()),
            description: trim(dto.description.as_str()),
            price: dto.price,
        }
    }
}

/// Parameters of a full replacement: the name and description trimmed.
#[derive(Debug)]
pub struct ReplaceProductParams {
    pub id: i64,
    pub name: String,
    pub description: String,
    pub price: i64,
}

impl ReplaceProductParams {
    /// The update parameters of a replacement request for product `id`.
    pub fn from_dto(id: i64, dto: &ReplaceProductDto) -> (r: Self)
        ensures
            r.id == id,
            r.name@ == trimmed(dto.name@),
            r.description@ == trimmed(dto.description@),
            r.price == dto.price,
    {
        ReplaceProductParams {
            id,
            name: trim(dto.name.as_str()),
            description: trim(dto.description.as_str()),
            price: dto.price,
        }
    }
}

/// Parameters of a partial update: the present texts trimmed.
#[derive(Debug)]
pub struct UpdateProductParams {
    pub id: i64,
    pub name: Option<String>,
    pub description: Option<String>,
    pub price: Option<i64>,
}

/// `p` is the partial update of product `id` that `dto` asks for: the same
/// fields present, texts trimmed.
pub open spec fn update_params_of(p: UpdateProductParams, id: i64, dto: UpdateProductDto) -> bool {
    &&& p.id == id
    &&& match dto.name {
        Some(n) => p.name matches Some(m) && m@ == trimmed(n@),
        None => p.name is None,
    }
    &&& match dto.description {
        Some(d) => p.description matches Some(m) && m@ == trimmed(d@),
        None => p.description is None,
    }
    &&& p.price == dto.price
}

fn trim_option(s: &Option<String>) -> (r: Option<String>)
    ensures
        match s {
            Some(t) => r matches Some(u) && u@ == trimmed(t@),
            None => r is None,
        },
{
    match s {
        Some(t) => Some(trim(t.as_str())),
        None => None,
    }
}

impl UpdateProductParams {
    /// The update parameters of a partial update request for product `id`.
    pub fn from_dto(id: i64, dto: &UpdateProductDto) -> (r: Self)
        ensures
            update_params_of(r, id, *dto),
    {
        UpdateProductParams {
            id,
            name: trim_option(&dto.name),
            description: trim_option(&dto.description),
            price: dto.price,
        }
    }
}

/// An argument bound to a query placeholder.
#[derive(Debug)]
pub enum SqlArg {
    Int(i64),
    Text(String),
}

/// What an argument stands for.
pub enum ArgValue {
    Int(i64),
    Text(Seq<char>),
}

impl View for SqlArg {
    type V = ArgValue;

    open spec fn view(&self) -> ArgValue {
        match self {
            SqlArg::Int(i) => ArgValue::Int(*i),
            SqlArg::Text(s) => ArgValue::Text(s@),
        }
    }
}

/// A query: its SQL text with placeholders `$1`, `$2`, ... and the
/// arguments bound to them, in order.
#[derive(Debug)]
pub struct SqlQuery {
    pub sql: String,
    pub args: Vec<SqlArg>,
}

impl SqlQuery {
    /// The values of the arguments.
    pub open spec fn arg_values(&self) -> Seq<ArgValue> {
        self.args@.map_values(|a: SqlArg| a@)
    }
}

/// A `LIKE` pattern that matches names containing `keyword`.
pub open spec fn like_pattern(keyword: Seq<char>) -> Seq<char> {
    "%"@ + keyword + "%"@
}

/// The placeholder `$n`.
pub open spec fn placeholder(n: nat) -> Seq<char> {
    "$"@ + decimal(n)
}

/// The filter shared by the count and the list: a name search where a
/// keyword is given, bound to the first placeholder.
pub open spec fn filter_sql(keyword: Option<String>) -> Seq<char> {
    match keyword {
        Some(_) => " WHERE name LIKE "@ + placeholder(1),
        None => Seq::empty(),
    }
}

/// The argument of the filter.
pub open spec fn filter_args(keyword: Option<String>) -> Seq<ArgValue> {
    match keyword {
        Some(k) => seq![ArgValue::Text(like_pattern(k@))],
        None => Seq::empty(),
    }
}

/// The SQL of the product count.
pub open spec fn count_sql(keyword: Option<String>) -> Seq<char> {
    "SELECT count(*) FROM products"@ + filter_sql(keyword)
}

/// The SQL of a page of the product list: newest id first.
pub open spec fn list_sql(keyword: Option<String>) -> Seq<char> {
    let n = filter_args(keyword).len();
    "SELECT id, name, description, price, created_at, updated_at FROM products"@ + filter_sql(keyword)
        + " ORDER BY id DESC LIMIT "@ + placeholder(n + 1) + " OFFSET "@ + placeholder(n + 2)
}

/// Appends `$n`.
fn push_placeholder(sql: &mut String, n: u64)
    ensures
        final(sql)@ == old(sql)@ + placeholder(n as nat),
{
    proof {
        reveal_strlit("$");
    }
    sql.append("$");
    push_decimal(sql, n);
    assert(final(sql)@ =~= old(sql)@ + placeholder(n as nat));
}

/// Appends the keyword filter and its argument.
fn apply_product_filters(sql: &mut String, args: &mut Vec<SqlArg>, query: &ProductListQuery)
    ensures
        final(sql)@ == old(sql)@ + filter_sql(query.keyword),
        final(args)@.map_values(|a: SqlArg| a@) == old(args)@.map_values(|a: SqlArg| a@) + filter_args(
            query.keyword,
        ),
{
    match &query.keyword {
        Some(k) => {
            sql.append(" WHERE name LIKE ");
            push_placeholder(sql, 1);
            let mut pattern = String::from_str("%");
            pattern.append(k.as_str());
            pattern.append("%");
            args.push(SqlArg::Text(pattern));
            proof {
                reveal_strlit("%");
                reveal_strlit(" WHERE name LIKE ");
                assert(final(sql)@ =~= old(sql)@ + filter_sql(query.keyword));
                assert(final(args)@.map_values(|a: SqlArg| a@) =~= old(args)@.map_values(|a: SqlArg| a@)
                    + filter_args(query.keyword));
            }
        },
        None => {
            assert(sql@ =~= old(sql)@ + filter_sql(query.keyword));
            assert(args@.map_values(|a: SqlArg| a@) =~= old(args)@.map_values(|a: SqlArg| a@) + filter_args(
                query.keyword,
            ));
        },
    }
}

/// The query counting the products that match the list query.
pub fn count_query(query: &ProductListQuery) -> (r: SqlQuery)
    ensures
        r.sql@ == count_sql(query.keyword),
        r.arg_values() == filter_args(query.keyword),
{
    let mut sql = String::from_str("SELECT count(*) FROM products");
    let mut args: Vec<SqlArg> = Vec::new();
    let ghost sql0 = sql@;
    proof {
        reveal_strlit("SELECT count(*) FROM products");
        assert(args@.map_values(|a: SqlArg| a@) =~= Seq::<ArgValue>::empty());
    }
    apply_product_filters(&mut sql, &mut args, query);
    proof {
        assert(args@.map_values(|a: SqlArg| a@) =~= filter_args(query.keyword));
    }
    SqlQuery { sql, args }
}

/// Where the page asked for lies within `i64`: its offset `(page - 1) * size`.
pub open spec fn offset_fits(page: i64, size: i64) -> bool {
    i64::MIN <= (page - 1) * size <= i64::MAX
}

/// The query of one page of the product list: newest id first, `size` rows
/// after skipping `(page - 1) * size`.
pub fn find_all_query(query: &ProductListQuery) -> (r: SqlQuery)
    requires
        i64::MIN <= query.page - 1,
        offset_fits(query.page, query.size),
    ensures
        r.sql@ == list_sql(query.keyword),
        r.arg_values() == filter_args(query.keyword) + seq![
            ArgValue::Int(query.size),
            ArgValue::Int(((query.page - 1) * query.size) as i64),
        ],
{
    let mut sql = String::from_str("SELECT id, name, description, price, created_at, updated_at FROM products");
    let mut args: Vec<SqlArg> = Vec::new();
    proof {
        assert(args@.map_values(|a: SqlArg| a@) =~= Seq::<ArgValue>::empty());
    }
    apply_product_filters(&mut sql, &mut args, query);
    let n: u64 = args.len() as u64;
    proof {
        assert(args@.map_values(|a: SqlArg| a@) =~= filter_args(query.keyword));
        assert(n == filter_args(query.keyword).len());
    }
    sql.append(" ORDER BY id DESC LIMIT ");
    push_placeholder(&mut sql, n + 1);
    sql.append(" OFFSET ");
    push_placeholder(&mut sql, n + 2);
    let ghost before = args@.map_values(|a: SqlArg| a@);
    args.push(SqlArg::Int(query.size));
    let offset = (query.page - 1) * query.size;
    args.push(SqlArg::Int(offset));
    proof {
        reveal_strlit("SELECT id, name, description, price, created_at, updated_at FROM products");
        reveal_strlit(" ORDER BY id DESC LIMIT ");
        reveal_strlit(" OFFSET ");
        assert(sql@ =~= list_sql(query.keyword));
        assert(args@.map_values(|a: SqlArg| a@) =~= before + seq![
            ArgValue::Int(query.size),
            ArgValue::Int(((query.page - 1) * query.size) as i64),
        ]);
    }
    SqlQuery { sql, args }
}

/// The columns a partial update sets, in declaration order, each with the
/// value it is set to.
pub open spec fn update_columns(p: UpdateProductParams) -> Seq<(Seq<char>, ArgValue)> {
    let a = Seq::<(Seq<char>, ArgValue)>::empty();
    let a = match p.name {
        Some(n) => a.push(("name"@, ArgValue::Text(n@))),
        None => a,
    };
    let a = match p.description {
        Some(d) => a.push(("description"@, ArgValue::Text(d@))),
        None => a,
    };
    match p.price {
        Some(x) => a.push(("price"@, ArgValue::Int(x))),
        None => a,
    }
}

/// `col1 = $1, col2 = $2, ...`.
pub open spec fn set_list(cols: Seq<(Seq<char>, ArgValue)>) -> Seq<char>
    decreases cols.len(),
{
    if cols.len() == 0 {
        Seq::empty()
    } else {
        let head = set_list(cols.drop_last());
        let item = cols.last().0 + " = "@ + placeholder(cols.len());
        if cols.len() == 1 {
            item
        } else {
            head + ", "@ + item
        }
    }
}

/// The SQL of a partial update.
pub open spec fn update_sql(p: UpdateProductParams) -> Seq<char> {
    let cols = update_columns(p);
    "UPDATE products SET "@ + set_list(cols) + " WHERE id = "@ + placeholder(cols.len() + 1)
}

/// The arguments of a partial update: the new values, then the id.
pub open spec fn update_args(p: UpdateProductParams) -> Seq<ArgValue> {
    update_columns(p).map_values(|c: (Seq<char>, ArgValue)| c.1).push(ArgValue::Int(p.id))
}

/// Appends the next `column = $k` of a partial update.
fn push_set(sql: &mut String, args: &mut Vec<SqlArg>, column: &str, value: SqlArg, Ghost(cols): Ghost<
    Seq<(Seq<char>, ArgValue)>,
>)
    requires
        old(args)@.len() == cols.len(),
        old(args)@.len() < 3,
        old(sql)@ == "UPDATE products SET "@ + set_list(cols),
        old(args)@.map_values(|a: SqlArg| a@) == cols.map_values(|c: (Seq<char>, ArgValue)| c.1),
    ensures
        ({
            let cols2 = cols.push((column@, value@));
            &&& final(sql)@ == "UPDATE products SET "@ + set_list(cols2)
            &&& final(args)@.map_values(|a: SqlArg| a@) == cols2.map_values(|c: (Seq<char>, ArgValue)| c.1)
            &&& final(args)@.len() == cols2.len()
        }),
{
    let ghost cols2 = cols.push((column@, value@));
    let ghost val = value;
    if args.len() > 0 {
        sql.append(", ");
    }
    sql.append(column);
    sql.append(" = ");
    let k: u64 = args.len() as u64 + 1;
    push_placeholder(sql, k);
    args.push(value);
    proof {
        reveal_strlit(", ");
        reveal_strlit(" = ");
        reveal_strlit("UPDATE products SET ");
        assert(cols2.drop_last() =~= cols);
        assert(final(sql)@ =~= "UPDATE products SET "@ + set_list(cols2));
        assert(args@ == old(args)@.push(val));
        let m1 = args@.map_values(|a: SqlArg| a@);
        let m0 = old(args)@.map_values(|a: SqlArg| a@);
        let c1 = cols2.map_values(|c: (Seq<char>, ArgValue)| c.1);
        let c0 = cols.map_values(|c: (Seq<char>, ArgValue)| c.1);
        assert forall|k: int| 0 <= k < m1.len() implies m1[k] == c1[k] by {
            if k < m0.len() {
                assert(m1[k] == m0[k]);
                assert(c1[k] == c0[k]);
            }
        }
        assert(m1 =~= c1);
    }
}

/// How many of the fields of a partial update are given.
pub open spec fn given_fields(p: UpdateProductParams) -> nat {
    (if p.name is Some { 1nat } else { 0nat }) + (if p.description is Some { 1nat } else { 0nat }) + (
    if p.price is Some { 1nat } else { 0nat })
}

/// A partial update sets exactly the fields that are given, in the order
/// name, description, price, each bound to its own placeholder with its value,
/// and selects the row by id with the placeholder after them.
pub proof fn lemma_update_sets_given_fields(p: UpdateProductParams)
    ensures
        update_columns(p).len() == given_fields(p),
        update_args(p).len() == given_fields(p) + 1,
        update_args(p)[given_fields(p) as int] == ArgValue::Int(p.id),
        p.name matches Some(x) ==> update_args(p)[0] == ArgValue::Text(x@),
        p.description matches Some(x) ==> update_args(p)[if p.name is Some { 1int } else { 0int }]
            == ArgValue::Text(x@),
        p.price matches Some(x) ==> update_args(p)[given_fields(p) - 1] == ArgValue::Int(x),
        (p.name is Some && p.description is None && p.price is None) ==> update_sql(p)
            == "UPDATE products SET name = $1 WHERE id = $2"@,
        (p.name is None && p.description is Some && p.price is None) ==> update_sql(p)
            == "UPDATE products SET description = $1 WHERE id = $2"@,
        (p.name is None && p.description is None && p.price is Some) ==> update_sql(p)
            == "UPDATE products SET price = $1 WHERE id = $2"@,
        (p.name is Some && p.description is Some && p.price is None) ==> update_sql(p)
            == "UPDATE products SET name = $1, description = $2 WHERE id = $3"@,
        (p.name is Some && p.description is None && p.price is Some) ==> update_sql(p)
            == "UPDATE products SET name = $1, price = $2 WHERE id = $3"@,
        (p.name is None && p.description is Some && p.price is Some) ==> update_sql(p)
            == "UPDATE products SET description = $1, price = $2 WHERE id = $3"@,
        (p.name is Some && p.description is Some && p.price is Some) ==> update_sql(p)
            == "UPDATE products SET name = $1, description = $2, price = $3 WHERE id = $4"@,
{
    reveal_strlit("UPDATE products SET name = $1 WHERE id = $2");
    reveal_strlit("UPDATE products SET description = $1 WHERE id = $2");
    reveal_strlit("UPDATE products SET price = $1 WHERE id = $2");
    reveal_strlit("UPDATE products SET name = $1, description = $2 WHERE id = $3");
    reveal_strlit("UPDATE products SET name = $1, price = $2 WHERE id = $3");
    reveal_strlit("UPDATE products SET description = $1, price = $2 WHERE id = $3");
    reveal_strlit("UPDATE products SET name = $1, description = $2, price = $3 WHERE id = $4");
    reveal_strlit("UPDATE products SET ");
    reveal_strlit(" WHERE id = ");
    reveal_strlit(", ");
    reveal_strlit(" = ");
    reveal_strlit("$");
    reveal_strlit("name");
    reveal_strlit("description");
    reveal_strlit("price");
    assert(decimal(1) =~= seq!['1']);
    assert(decimal(2) =~= seq!['2']);
    assert(decimal(3) =~= seq!['3']);
    assert(decimal(4) =~= seq!['4']);
    let cols = update_columns(p);
    let n = cols.len();
    assert(n == given_fields(p));
    let vals = cols.map_values(|c: (Seq<char>, ArgValue)| c.1);
    assert(update_args(p) == vals.push(ArgValue::Int(p.id)));
    if n >= 1 {
        assert(cols.drop_last().len() == n - 1);
    }
    let s1 = set_list(cols);
    if n == 1 {
        assert(s1 =~= cols[0].0 + " = "@ + placeholder(1));
    } else if n == 2 {
        assert(cols.drop_last().drop_last().len() == 0);
        assert(set_list(cols.drop_last()) =~= cols[0].0 + " = "@ + placeholder(1));
        assert(s1 =~= cols[0].0 + " = "@ + placeholder(1) + ", "@ + cols[1].0 + " = "@ + placeholder(2));
    } else if n == 3 {
        let c2 = cols.drop_last();
        assert(c2.drop_last().drop_last().len() == 0);
        assert(set_list(c2.drop_last()) =~= cols[0].0 + " = "@ + placeholder(1));
        assert(set_list(c2) =~= cols[0].0 + " = "@ + placeholder(1) + ", "@ + cols[1].0 + " = "@ + placeholder(2));
        assert(s1 =~= cols[0].0 + " = "@ + placeholder(1) + ", "@ + cols[1].0 + " = "@ + placeholder(2) + ", "@
            + cols[2].0 + " = "@ + placeholder(3));
    }
    if p.name is Some && p.description is None && p.price is None {
        assert(update_sql(p) =~= "UPDATE products SET name = $1 WHERE id = $2"@);
    }
    if p.name is None && p.description is Some && p.price is None {
        assert(update_sql(p) =~= "UPDATE products SET description = $1 WHERE id = $2"@);
    }
    if p.name is None && p.description is None && p.price is Some {
        assert(update_sql(p) =~= "UPDATE products SET price = $1 WHERE id = $2"@);
    }
    if p.name is Some && p.description is Some && p.price is None {
        assert(update_sql(p) =~= "UPDATE products SET name = $1, description = $2 WHERE id = $3"@);
    }
    if p.name is Some && p.description is None && p.price is Some {
        assert(update_sql(p) =~= "UPDATE products SET name = $1, price = $2 WHERE id = $3"@);
    }
    if p.name is None && p.description is Some && p.price is Some {
        assert(update_sql(p) =~= "UPDATE products SET description = $1, price = $2 WHERE id = $3"@);
    }
    if p.name is Some && p.description is Some && p.price is Some {
        assert(update_sql(p) =~= "UPDATE products SET name = $1, description = $2, price = $3 WHERE id = $4"@);
    }
}

/// The query of a partial update, setting only the fields present; refused
/// when none is.
pub fn update_query(params: &UpdateProductParams) -> (r: Result<SqlQuery, AppError>)
    ensures
        update_columns(*params).len() == 0 ==> bad_request_message(r) == Some("변경할 필드가 없습니다."@),
        update_columns(*params).len() > 0 ==> (r matches Ok(q) && q.sql@ == update_sql(*params)
            && q.arg_values() == update_args(*params)),
        r is Ok <==> given_fields(*params) > 0,
{
    proof {
        lemma_update_sets_given_fields(*params);
    }
    let mut sql = String::from_str("UPDATE products SET ");
    let mut args: Vec<SqlArg> = Vec::new();
    let ghost mut cols = Seq::<(Seq<char>, ArgValue)>::empty();
    proof {
        reveal_strlit("UPDATE products SET ");
        assert(sql@ =~= "UPDATE products SET "@ + set_list(cols));
        assert(args@.map_values(|a: SqlArg| a@) =~= cols.map_values(|c: (Seq<char>, ArgValue)| c.1));
    }
    match &params.name {
        Some(n) => {
            let v = SqlArg::Text(n.clone());
            push_set(&mut sql, &mut args, "name", v, Ghost(cols));
            proof {
                reveal_strlit("name");
                cols = cols.push(("name"@, ArgValue::Text(n@)));
            }
        },
        None => {},
    }
    match &params.description {
        Some(d) => {
            let v = SqlArg::Text(d.clone());
            push_set(&mut sql, &mut args, "description", v, Ghost(cols));
            proof {
                reveal_strlit("description");
                cols = cols.push(("description"@, ArgValue::Text(d@)));
            }
        },
        None => {},
    }
    match params.price {
        Some(x) => {
            push_set(&mut sql, &mut args, "price", SqlArg::Int(x), Ghost(cols));
            proof {
                reveal_strlit("price");
                cols = cols.push(("price"@, ArgValue::Int(x)));
            }
        },
        None => {},
    }
    assert(cols =~= update_columns(*params));
    if args.len() == 0 {
        return Err(AppError::BadRequest(String::from_str("변경할 필드가 없습니다.")));
    }
    let n: u64 = args.len() as u64;
    sql.append(" WHERE id = ");
    push_placeholder(&mut sql, n + 1);
    let ghost before = args@.map_values(|a: SqlArg| a@);
    args.push(SqlArg::Int(params.id));
    proof {
        reveal_strlit(" WHERE id = ");
        assert(sql@ =~= update_sql(*params));
        assert(args@.map_values(|a: SqlArg| a@) =~= update_args(*params));
    }
    Ok(SqlQuery { sql, args })
}

/// The product read by id, or `NotFound` naming the id.
pub fn found_product(id: i64, row: Option<ProductEntity>) -> (r: Result<ProductEntity, AppError>)
    ensures
        match row {
            Some(p) => r == Ok::<ProductEntity, AppError>(p),
            None => not_found_message(r) == Some("ID "@ + signed_decimal(id as int) + "번 제품을 찾을 수 없습니다."@),
        },
{
    match row {
        Some(p) => Ok(p),
        None => {
            let mut m = String::from_str("ID ");
            push_signed_decimal(&mut m, id);
            m.append("번 제품을 찾을 수 없습니다.");
            proof {
                reveal_strlit("ID ");
            }
            assert(m@ =~= "ID "@ + signed_decimal(id as int) + "번 제품을 찾을 수 없습니다."@);
            Err(AppError::NotFound(m))
        },
    }
}

/// A full replacement that touched no row found no product.
pub fn replace_outcome(rows_affected: u64) -> (r: Result<(), AppError>)
    ensures
        rows_affected > 0 <==> r is Ok,
        rows_affected == 0 ==> not_found_message(r) == Some("대상을 찾을 수 없습니다."@),
{
    if rows_affected == 0 {
        return Err(AppError::NotFound(String::from_str("대상을 찾을 수 없습니다.")));
    }
    Ok(())
}

/// A partial update that touched no row found no product.
pub fn update_outcome(rows_affected: u64) -> (r: Result<(), AppError>)
    ensures
        rows_affected > 0 <==> r is Ok,
        rows_affected == 0 ==> not_found_message(r) == Some("대상을 찾을 수 없습니다."@),
{
    replace_outcome(rows_affected)
}

/// A delete that touched no row found no product.
pub fn delete_outcome(rows_affected: u64) -> (r: Result<(), AppError>)
    ensures
        rows_affected > 0 <==> r is Ok,
        rows_affected == 0 ==> not_found_message(r) == Some("삭제 대상을 찾을 수 없습니다."@),
{
    if rows_affected == 0 {
        return Err(AppError::NotFound(String::from_str("삭제 대상을 찾을 수 없습니다.")));
    }
    Ok(())
}

} // verus!
