//! Access tokens: HS256 JSON Web Tokens whose payload is the account id, the
//! issue and expiry times and the account's roles.
use vstd::prelude::*;
use crate::common::auth::role::AccountRole;
use crate::common::error::{internal_message, AppError};
use crate::common::text::{
    decimal, digits_in_range, is_digit, lemma_decimal_digits,
    lemma_parse_format_i64, parse_i64, parsed_i64, push_decimal, push_signed_decimal, signed_decimal,
    literal_at, str_eq,
};

verus! {

/// The payload of an access token.
#[derive(Debug, Clone)]
pub struct Claims {
    /// Account id.
    pub sub: i64,
    /// Expiry, in seconds since the Unix epoch.
    pub exp: usize,
    /// Issue time, in seconds since the Unix epoch.
    pub iat: usize,
    /// The account's roles.
    pub roles: Vec<AccountRole>,
}

/// A role as it appears in a token: its name in capitals.
pub open spec fn role_json_name(role: AccountRole) -> Seq<char> {
    match role {
        AccountRole::Admin => "ADMIN"@,
        AccountRole::Customer => "CUSTOMER"@,
        AccountRole::Employee => "EMPLOYEE"@,
    }
}

/// A role as a JSON string.
pub open spec fn quoted_role(role: AccountRole) -> Seq<char> {
    seq!['"'] + role_json_name(role) + seq!['"']
}

/// The roles as the elements of a JSON array, separated by commas.
#[verifier::opaque]
pub open spec fn roles_json(roles: Seq<AccountRole>) -> Seq<char>
    decreases roles.len(),
{
    if roles.len() == 0 {
        Seq::empty()
    } else if roles.len() == 1 {
        quoted_role(roles[0])
    } else {
        roles_json(roles.drop_last()) + seq![','] + quoted_role(roles.last())
    }
}

/// The JSON text of a payload: its fields in declaration order, without
/// spaces (what `serde_json` writes for the derived serialisation).
pub open spec fn claims_json(sub: i64, exp: nat, iat: nat, roles: Seq<AccountRole>) -> Seq<char> {
    "{\"sub\":"@ + signed_decimal(sub as int) + ",\"exp\":"@ + decimal(exp) + ",\"iat\":"@ + decimal(
        iat,
    ) + ",\"roles\":["@ + roles_json(roles) + "]}"@
}

proof fn lemma_roles_json_empty(rs: Seq<AccountRole>)
    requires
        rs.len() == 0,
    ensures
        roles_json(rs) == Seq::<char>::empty(),
{
    reveal(roles_json);
}

impl Claims {
    /// The JSON text of these claims.
    pub open spec fn json(&self) -> Seq<char> {
        claims_json(self.sub, self.exp as nat, self.iat as nat, self.roles@)
    }
}

fn role_json(role: AccountRole) -> (r: &'static str)
    ensures
        r@ == quoted_role(role),
{
    proof {
        reveal_strlit("\"ADMIN\"");
        reveal_strlit("\"CUSTOMER\"");
        reveal_strlit("\"EMPLOYEE\"");
        reveal_strlit("ADMIN");
        reveal_strlit("CUSTOMER");
        reveal_strlit("EMPLOYEE");
    }
    let r = match role {
        AccountRole::Admin => "\"ADMIN\"",
        AccountRole::Customer => "\"CUSTOMER\"",
        AccountRole::Employee => "\"EMPLOYEE\"",
    };
    assert(r@ =~= quoted_role(role));
    r
}

/// Serialises claims to their JSON text.
pub fn claims_to_json(claims: &Claims) -> (r: String)
    ensures
        r@ == claims.json(),
{
    let mut s = String::from_str("{\"sub\":");
    push_signed_decimal(&mut s, claims.sub);
    s.append(",\"exp\":");
    push_decimal(&mut s, claims.exp as u64);
    s.append(",\"iat\":");
    push_decimal(&mut s, claims.iat as u64);
    s.append(",\"roles\":[");
    let ghost head = s@;
    proof {
        lemma_roles_json_empty(claims.roles@.subrange(0, 0));
        assert(s@ =~= head + roles_json(claims.roles@.subrange(0, 0)));
    }
    let mut i: usize = 0;
    while i < claims.roles.len()
        invariant
            i <= claims.roles@.len(),
            s@ == head + roles_json(claims.roles@.subrange(0, i as int)),
        decreases claims.roles@.len() - i,
    {
        let ghost before = s@;
        if i > 0 {
            s.append(",");
            proof { reveal_strlit(","); }
        }
        s.append(role_json(claims.roles[i]));
        proof {
            reveal(roles_json);
            let p = claims.roles@.subrange(0, i + 1);
            assert(p.drop_last() =~= claims.roles@.subrange(0, i as int));
            assert(p.last() == claims.roles@[i as int]);
            if i == 0 {
                assert(roles_json(claims.roles@.subrange(0, 0)) =~= Seq::<char>::empty());
                assert(s@ =~= head + roles_json(p));
            } else {
                assert(s@ =~= head + roles_json(p));
            }
        }
        i = i + 1;
    }
    s.append("]}");
    assert(claims.roles@.subrange(0, claims.roles@.len() as int) =~= claims.roles@);
    assert(s@ =~= claims.json());
    s
}



/// The first position at or after `pos` that holds `stop`, or the length.
fn scan_until(s: &str, pos: usize, stop: char) -> (r: usize)
    requires
        pos <= s@.len(),
    ensures
        pos <= r <= s@.len(),
        forall|k: int| pos <= k < r ==> s@[k] != stop,
        r < s@.len() ==> s@[r as int] == stop,
{
    let n = s.unicode_len();
    let mut i: usize = pos;
    while i < n && s.get_char(i) != stop
        invariant
            n == s@.len(),
            pos <= i <= n,
            forall|k: int| pos <= k < i ==> s@[k] != stop,
        decreases n - i,
    {
        i = i + 1;
    }
    i
}

proof fn lemma_roles_json_step(rs: Seq<AccountRole>, k: int)
    requires
        0 <= k < rs.len(),
    ensures
        roles_json(rs.take(k + 1)) == roles_json(rs.take(k)) + (if k > 0 { seq![','] } else { Seq::<char>::empty() }) + quoted_role(rs[k]),
{
    reveal(roles_json);
    let t = rs.take(k + 1);
    assert(t.drop_last() =~= rs.take(k));
    assert(t.last() == rs[k]);
    if k == 0 {
        assert(rs.take(0) =~= Seq::<AccountRole>::empty());
        assert(roles_json(t) =~= roles_json(rs.take(k)) + Seq::<char>::empty() + quoted_role(rs[k]));
    }
}

proof fn lemma_roles_json_prefix(rs: Seq<AccountRole>, k: int, j: int)
    requires
        0 <= k <= j <= rs.len(),
    ensures
        roles_json(rs.take(k)).is_prefix_of(roles_json(rs.take(j))),
    decreases j - k,
{
    if k < j {
        lemma_roles_json_prefix(rs, k, j - 1);
        lemma_roles_json_step(rs, j - 1);
        let a = roles_json(rs.take(k));
        let b = roles_json(rs.take(j - 1));
        let c = roles_json(rs.take(j));
        assert(c.subrange(0, a.len() as int) =~= b.subrange(0, a.len() as int));
    }
}

proof fn lemma_signed_decimal_no_comma(n: int)
    ensures
        forall|k: int| 0 <= k < signed_decimal(n).len() ==> #[trigger] signed_decimal(n)[k] != ',',
        signed_decimal(n).len() > 0,
{
    if n < 0 {
        lemma_decimal_digits((-n) as nat);
        let d = decimal((-n) as nat);
        assert forall|k: int| 0 <= k < signed_decimal(n).len() implies #[trigger] signed_decimal(n)[k] != ',' by {
            if k > 0 {
                assert(signed_decimal(n)[k] == d[k - 1]);
                assert(is_digit(d[k - 1]));
            }
        }
    } else {
        lemma_decimal_digits(n as nat);
    }
}

/// The JSON text before the roles: `{"sub":..,"exp":..,"iat":..,"roles":[`.
pub open spec fn claims_head(sub: i64, exp: nat, iat: nat) -> Seq<char> {
    "{\"sub\":"@ + signed_decimal(sub as int) + ",\"exp\":"@ + decimal(exp) + ",\"iat\":"@ + decimal(
        iat,
    ) + ",\"roles\":["@
}

proof fn lemma_claims_json_parts(sub: i64, exp: nat, iat: nat, roles: Seq<AccountRole>)
    ensures
        claims_json(sub, exp, iat, roles) == claims_head(sub, exp, iat) + roles_json(roles) + "]}"@,
{
    assert(claims_json(sub, exp, iat, roles) =~= claims_head(sub, exp, iat) + roles_json(roles) + "]}"@);
}

/// Reads a signed decimal that ends at the next comma.
fn signed_field(s: &str, pos: usize) -> (r: Option<(i64, usize)>)
    requires
        pos <= s@.len(),
    ensures
        r matches Some((v, end)) ==> pos <= end <= s@.len(),
        forall|v: i64|
            #![trigger signed_decimal(v as int)]
            pos + signed_decimal(v as int).len() < s@.len() && s@.subrange(pos as int, pos + signed_decimal(v as int).len()) == signed_decimal(v as int)
                && s@[pos + signed_decimal(v as int).len()] == ','
            ==> r == Some((v, (pos + signed_decimal(v as int).len()) as usize)),
{
    let end = scan_until(s, pos, ',');
    let parsed = parse_i64(s.substring_char(pos, end));
    proof {
        assert forall|v: i64|
            #![trigger signed_decimal(v as int)]
            pos + signed_decimal(v as int).len() < s@.len() && s@.subrange(pos as int, pos + signed_decimal(v as int).len()) == signed_decimal(v as int)
                && s@[pos + signed_decimal(v as int).len()] == ','
            implies parsed == Some(v) && end == pos + signed_decimal(v as int).len() by {
            let d = signed_decimal(v as int);
            lemma_signed_decimal_no_comma(v as int);
            assert forall|k: int| pos <= k < pos + d.len() implies s@[k] != ',' by {
                assert(s@[k] == s@.subrange(pos as int, pos + d.len())[k - pos]);
            }
            assert(end == pos + d.len());
            lemma_parse_format_i64(v);
        }
    }
    match parsed {
        Some(v) => Some((v, end)),
        None => None,
    }
}

/// Reads an unsigned decimal no greater than `usize::MAX` that ends at the
/// next comma.
fn unsigned_field(s: &str, pos: usize) -> (r: Option<(usize, usize)>)
    requires
        pos <= s@.len(),
    ensures
        r matches Some((v, end)) ==> pos <= end <= s@.len(),
        forall|v: nat|
            #![trigger decimal(v)]
            v <= usize::MAX && pos + decimal(v).len() < s@.len() && s@.subrange(pos as int, pos + decimal(v).len()) == decimal(v)
                && s@[pos + decimal(v).len()] == ','
            ==> r == Some((v as usize, (pos + decimal(v).len()) as usize)),
{
    let end = scan_until(s, pos, ',');
    let parsed = digits_in_range(s, pos, end, usize::MAX as u64);
    proof {
        assert forall|v: nat|
            #![trigger decimal(v)]
            v <= usize::MAX && pos + decimal(v).len() < s@.len() && s@.subrange(pos as int, pos + decimal(v).len()) == decimal(v)
                && s@[pos + decimal(v).len()] == ','
            implies parsed == Some(v as u64) && end == pos + decimal(v).len() by {
            let d = decimal(v);
            lemma_decimal_digits(v);
            assert forall|k: int| pos <= k < pos + d.len() implies s@[k] != ',' by {
                assert(s@[k] == s@.subrange(pos as int, pos + d.len())[k - pos]);
                assert(is_digit(d[k - pos]));
            }
            assert(end == pos + d.len());
            assert(s@.subrange(pos as int, end as int) == d);
        }
    }
    match parsed {
        Some(v) => Some((v as usize, end)),
        None => None,
    }
}

proof fn lemma_head_layout(sub: i64, exp: nat, iat: nat)
    ensures
        ({
            let h = claims_head(sub, exp, iat);
            let d = signed_decimal(sub as int);
            let e = decimal(exp);
            let f = decimal(iat);
            let dl = d.len() as int;
            let el = e.len() as int;
            let fl = f.len() as int;
            &&& h.len() == 31 + dl + el + fl
            &&& h.subrange(0, 7) == "{\"sub\":"@
            &&& h.subrange(7, 7 + dl) == d
            &&& h[7 + dl] == ','
            &&& h.subrange(7 + dl, 14 + dl) == ",\"exp\":"@
            &&& h.subrange(14 + dl, 14 + dl + el) == e
            &&& h[14 + dl + el] == ','
            &&& h.subrange(14 + dl + el, 21 + dl + el) == ",\"iat\":"@
            &&& h.subrange(21 + dl + el, 21 + dl + el + fl) == f
            &&& h[21 + dl + el + fl] == ','
            &&& h.subrange(21 + dl + el + fl, 31 + dl + el + fl) == ",\"roles\":["@
        }),
{
    reveal_strlit("{\"sub\":");
    reveal_strlit(",\"exp\":");
    reveal_strlit(",\"iat\":");
    reveal_strlit(",\"roles\":[");
    let h = claims_head(sub, exp, iat);
    let d = signed_decimal(sub as int);
    let e = decimal(exp);
    let f = decimal(iat);
    let dl = d.len() as int;
    let el = e.len() as int;
    let fl = f.len() as int;
    assert(h.subrange(0, 7) =~= "{\"sub\":"@);
    assert(h.subrange(7, 7 + dl) =~= d);
    assert(h.subrange(7 + dl, 14 + dl) =~= ",\"exp\":"@);
    assert(h.subrange(14 + dl, 14 + dl + el) =~= e);
    assert(h.subrange(14 + dl + el, 21 + dl + el) =~= ",\"iat\":"@);
    assert(h.subrange(21 + dl + el, 21 + dl + el + fl) =~= f);
    assert(h.subrange(21 + dl + el + fl, 31 + dl + el + fl) =~= ",\"roles\":["@);
}

/// Whether `s` begins with the head of the claims `sub`, `exp`, `iat`.
pub open spec fn head_matches(s: Seq<char>, sub: i64, exp: nat, iat: nat) -> bool {
    &&& exp <= usize::MAX
    &&& iat <= usize::MAX
    &&& claims_head(sub, exp, iat).len() <= s.len()
    &&& s.subrange(0, claims_head(sub, exp, iat).len() as int) == claims_head(sub, exp, iat)
}

proof fn lemma_matched(s: Seq<char>, sub: i64, exp: nat, iat: nat)
    requires
        claims_head(sub, exp, iat).len() <= s.len(),
        s.subrange(0, claims_head(sub, exp, iat).len() as int) == claims_head(sub, exp, iat),
    ensures
        ({
            let dl = signed_decimal(sub as int).len() as int;
            let el = decimal(exp).len() as int;
            let fl = decimal(iat).len() as int;
            &&& claims_head(sub, exp, iat).len() == 31 + dl + el + fl
            &&& s.subrange(0, 7) == "{\"sub\":"@
            &&& s.subrange(7, 7 + dl) == signed_decimal(sub as int)
            &&& s[7 + dl] == ','
            &&& s.subrange(7 + dl, 14 + dl) == ",\"exp\":"@
            &&& s.subrange(14 + dl, 14 + dl + el) == decimal(exp)
            &&& s[14 + dl + el] == ','
            &&& s.subrange(14 + dl + el, 21 + dl + el) == ",\"iat\":"@
            &&& s.subrange(21 + dl + el, 21 + dl + el + fl) == decimal(iat)
            &&& s[21 + dl + el + fl] == ','
            &&& s.subrange(21 + dl + el + fl, 31 + dl + el + fl) == ",\"roles\":["@
        }),
{
    lemma_head_layout(sub, exp, iat);
    let h = claims_head(sub, exp, iat);
    let dl = signed_decimal(sub as int).len() as int;
    let el = decimal(exp).len() as int;
    let fl = decimal(iat).len() as int;
    let t = s.subrange(0, h.len() as int);
    assert(s.subrange(0, 7) =~= h.subrange(0, 7));
    assert(s.subrange(7, 7 + dl) =~= h.subrange(7, 7 + dl));
    assert(s[7 + dl] == t[7 + dl]);
    assert(s.subrange(7 + dl, 14 + dl) =~= h.subrange(7 + dl, 14 + dl));
    assert(s.subrange(14 + dl, 14 + dl + el) =~= h.subrange(14 + dl, 14 + dl + el));
    assert(s[14 + dl + el] == t[14 + dl + el]);
    assert(s.subrange(14 + dl + el, 21 + dl + el) =~= h.subrange(14 + dl + el, 21 + dl + el));
    assert(s.subrange(21 + dl + el, 21 + dl + el + fl) =~= h.subrange(21 + dl + el, 21 + dl + el + fl));
    assert(s[21 + dl + el + fl] == t[21 + dl + el + fl]);
    assert(s.subrange(21 + dl + el + fl, 31 + dl + el + fl) =~= h.subrange(21 + dl + el + fl, 31 + dl + el + fl));
}

/// Reads `{"sub":` and the account id after it.
fn read_sub(s: &str) -> (r: Option<(i64, usize)>)
    ensures
        r matches Some((v, end)) ==> end <= s@.len(),
        forall|sub: i64, exp: nat, iat: nat|
            #![trigger head_matches(s@, sub, exp, iat)]
            head_matches(s@, sub, exp, iat) ==> r == Some(
                (sub, (7 + signed_decimal(sub as int).len()) as usize),
            ),
{
    proof {
        reveal_strlit("{\"sub\":");
    }
    let n = s.unicode_len();
    if !literal_at(s, 0, "{\"sub\":") {
        proof {
            assert forall|sub: i64, exp: nat, iat: nat|
                #![trigger head_matches(s@, sub, exp, iat)]
                head_matches(s@, sub, exp, iat) implies false by {
                lemma_matched(s@, sub, exp, iat);
            }
        }
        return None;
    }
    let r = signed_field(s, 7);
    proof {
        assert forall|sub: i64, exp: nat, iat: nat|
            #![trigger head_matches(s@, sub, exp, iat)]
            head_matches(s@, sub, exp, iat) implies r == Some((sub, (7 + signed_decimal(sub as int).len()) as usize)) by {
            lemma_matched(s@, sub, exp, iat);
        }
    }
    r
}

/// Reads `,"exp":` at `pos` and the number after it.
fn read_exp(s: &str, pos: usize) -> (r: Option<(usize, usize)>)
    requires
        pos <= s@.len(),
    ensures
        r matches Some((v, end)) ==> end <= s@.len(),
        forall|sub: i64, exp: nat, iat: nat|
            #![trigger head_matches(s@, sub, exp, iat)]
            head_matches(s@, sub, exp, iat) && pos == 7 + signed_decimal(sub as int).len() ==> r == Some(
                (exp as usize, (pos + 7 + decimal(exp).len()) as usize),
            ),
{
    proof {
        reveal_strlit(",\"exp\":");
    }
    let n = s.unicode_len();
    if !literal_at(s, pos, ",\"exp\":") {
        proof {
            assert forall|sub: i64, exp: nat, iat: nat|
                #![trigger head_matches(s@, sub, exp, iat)]
                head_matches(s@, sub, exp, iat) && pos == 7 + signed_decimal(sub as int).len() implies false by {
                lemma_matched(s@, sub, exp, iat);
            }
        }
        return None;
    }
    let r = unsigned_field(s, pos + 7);
    proof {
        assert forall|sub: i64, exp: nat, iat: nat|
            #![trigger head_matches(s@, sub, exp, iat)]
            head_matches(s@, sub, exp, iat) && pos == 7 + signed_decimal(sub as int).len() implies r == Some(
                (exp as usize, (pos + 7 + decimal(exp).len()) as usize)) by {
            lemma_matched(s@, sub, exp, iat);
        }
    }
    r
}

/// Reads `,"iat":` at `pos` and the number after it.
fn read_iat(s: &str, pos: usize) -> (r: Option<(usize, usize)>)
    requires
        pos <= s@.len(),
    ensures
        r matches Some((v, end)) ==> end <= s@.len(),
        forall|sub: i64, exp: nat, iat: nat|
            #![trigger head_matches(s@, sub, exp, iat)]
            head_matches(s@, sub, exp, iat) && pos == 14 + signed_decimal(sub as int).len() + decimal(exp).len() ==> r == Some(
                (iat as usize, (pos + 7 + decimal(iat).len()) as usize),
            ),
{
    proof {
        reveal_strlit(",\"iat\":");
    }
    let n = s.unicode_len();
    if !literal_at(s, pos, ",\"iat\":") {
        proof {
            assert forall|sub: i64, exp: nat, iat: nat|
                #![trigger head_matches(s@, sub, exp, iat)]
                head_matches(s@, sub, exp, iat) && pos == 14 + signed_decimal(sub as int).len() + decimal(exp).len() implies false by {
                lemma_matched(s@, sub, exp, iat);
            }
        }
        return None;
    }
    let r = unsigned_field(s, pos + 7);
    proof {
        assert forall|sub: i64, exp: nat, iat: nat|
            #![trigger head_matches(s@, sub, exp, iat)]
            head_matches(s@, sub, exp, iat) && pos == 14 + signed_decimal(sub as int).len() + decimal(exp).len() implies r == Some(
                (iat as usize, (pos + 7 + decimal(iat).len()) as usize)) by {
            lemma_matched(s@, sub, exp, iat);
        }
    }
    r
}

/// Reads `{"sub":..,"exp":..,"iat":..,"roles":[` and gives the three numbers
/// and the position after the bracket.
fn claims_head_fields(s: &str) -> (r: Option<(i64, usize, usize, usize)>)
    ensures
        r matches Some((a, b, c, end)) ==> end <= s@.len(),
        forall|sub: i64, exp: nat, iat: nat|
            #![trigger head_matches(s@, sub, exp, iat)]
            head_matches(s@, sub, exp, iat) ==> r == Some(
                (sub, exp as usize, iat as usize, claims_head(sub, exp, iat).len() as usize),
            ),
{
    proof {
        reveal_strlit(",\"roles\":[");
    }
    let n = s.unicode_len();
    let r1 = read_sub(s);
    let (sub, p1) = match r1 {
        Some(x) => x,
        None => {
            proof {
                assert forall|wsub: i64, wexp: nat, wiat: nat|
                    #![trigger head_matches(s@, wsub, wexp, wiat)]
                    head_matches(s@, wsub, wexp, wiat) implies false by {
                    assert(r1 is Some);
                }
            }
            return None;
        },
    };
    let r2 = read_exp(s, p1);
    let (exp, p2) = match r2 {
        Some(x) => x,
        None => {
            proof {
                assert forall|wsub: i64, wexp: nat, wiat: nat|
                    #![trigger head_matches(s@, wsub, wexp, wiat)]
                    head_matches(s@, wsub, wexp, wiat) implies false by {
                    assert(r1 == Some((wsub, (7 + signed_decimal(wsub as int).len()) as usize)));
                    assert(r2 is Some);
                }
            }
            return None;
        },
    };
    let r3 = read_iat(s, p2);
    let (iat, p3) = match r3 {
        Some(x) => x,
        None => {
            proof {
                assert forall|wsub: i64, wexp: nat, wiat: nat|
                    #![trigger head_matches(s@, wsub, wexp, wiat)]
                    head_matches(s@, wsub, wexp, wiat) implies false by {
                    assert(r1 == Some((wsub, (7 + signed_decimal(wsub as int).len()) as usize)));
                    assert(r2 == Some((wexp as usize, (p1 + 7 + decimal(wexp).len()) as usize)));
                    lemma_matched(s@, wsub, wexp, wiat);
                    assert(p2 == 14 + signed_decimal(wsub as int).len() + decimal(wexp).len());
                    assert(r3 is Some);
                }
            }
            return None;
        },
    };
    if !literal_at(s, p3, ",\"roles\":[") {
        proof {
            assert forall|wsub: i64, wexp: nat, wiat: nat|
                #![trigger head_matches(s@, wsub, wexp, wiat)]
                head_matches(s@, wsub, wexp, wiat) implies false by {
                assert(r1 == Some((wsub, (7 + signed_decimal(wsub as int).len()) as usize)));
                assert(r2 == Some((wexp as usize, (p1 + 7 + decimal(wexp).len()) as usize)));
                lemma_matched(s@, wsub, wexp, wiat);
                assert(p2 == 14 + signed_decimal(wsub as int).len() + decimal(wexp).len());
                assert(r3 == Some((wiat as usize, (p2 + 7 + decimal(wiat).len()) as usize)));
            }
        }
        return None;
    }
    proof {
        assert forall|wsub: i64, wexp: nat, wiat: nat|
            #![trigger head_matches(s@, wsub, wexp, wiat)]
            head_matches(s@, wsub, wexp, wiat) implies (sub, exp, iat, (p3 + 10) as usize) == (
                wsub, wexp as usize, wiat as usize, claims_head(wsub, wexp, wiat).len() as usize) by {
            assert(r1 == Some((wsub, (7 + signed_decimal(wsub as int).len()) as usize)));
            assert(r2 == Some((wexp as usize, (p1 + 7 + decimal(wexp).len()) as usize)));
            lemma_matched(s@, wsub, wexp, wiat);
            assert(p2 == 14 + signed_decimal(wsub as int).len() + decimal(wexp).len());
            assert(r3 == Some((wiat as usize, (p2 + 7 + decimal(wiat).len()) as usize)));
        }
    }
    Some((sub, exp, iat, p3 + 10))
}


proof fn lemma_roles_json_at(rs: Seq<AccountRole>, k: int)
    requires
        0 <= k < rs.len(),
    ensures
        ({
            let a = roles_json(rs.take(k)).len() as int;
            let sep: int = if k > 0 { 1 } else { 0 };
            let q = quoted_role(rs[k]);
            let rj = roles_json(rs);
            &&& roles_json(rs.take(k + 1)).len() == a + sep + q.len()
            &&& a + sep + q.len() <= rj.len()
            &&& (k > 0 ==> rj[a] == ',')
            &&& (k == 0 ==> rj[a] == '"')
            &&& rj.subrange(a + sep, a + sep + q.len()) == q
        }),
{
    lemma_roles_json_step(rs, k);
    lemma_roles_json_prefix(rs, k + 1, rs.len() as int);
    assert(rs.take(rs.len() as int) =~= rs);
    let a = roles_json(rs.take(k)).len() as int;
    let sep: int = if k > 0 { 1 } else { 0 };
    let q = quoted_role(rs[k]);
    let rj = roles_json(rs);
    let b = roles_json(rs.take(k + 1));
    assert(rj.subrange(0, b.len() as int) == b);
    assert(rj[a] == b[a]);
    assert(rj.subrange(a + sep, a + sep + q.len()) =~= b.subrange(a + sep, a + sep + q.len()));
    assert(b.subrange(a + sep, a + sep + q.len()) =~= q);
}

/// Reads one quoted role at `at`.
fn read_role(s: &str, at: usize) -> (r: Option<(AccountRole, usize)>)
    requires
        at <= s@.len(),
    ensures
        r matches Some((role, end)) ==> end <= s@.len() && end > at,
        forall|role: AccountRole|
            #![trigger quoted_role(role)]
            at + quoted_role(role).len() <= s@.len() && s@.subrange(at as int, at + quoted_role(role).len()) == quoted_role(role)
            ==> r == Some((role, (at + quoted_role(role).len()) as usize)),
{
    proof {
        reveal_strlit("\"ADMIN\"");
        reveal_strlit("\"CUSTOMER\"");
        reveal_strlit("\"EMPLOYEE\"");
        reveal_strlit("ADMIN");
        reveal_strlit("CUSTOMER");
        reveal_strlit("EMPLOYEE");
        assert("\"ADMIN\""@ =~= quoted_role(AccountRole::Admin));
        assert("\"CUSTOMER\""@ =~= quoted_role(AccountRole::Customer));
        assert("\"EMPLOYEE\""@ =~= quoted_role(AccountRole::Employee));
    }
    let n = s.unicode_len();
    let r = if literal_at(s, at, "\"ADMIN\"") {
        Some((AccountRole::Admin, at + 7))
    } else if literal_at(s, at, "\"CUSTOMER\"") {
        Some((AccountRole::Customer, at + 10))
    } else if literal_at(s, at, "\"EMPLOYEE\"") {
        Some((AccountRole::Employee, at + 10))
    } else {
        None
    };
    proof {
        assert forall|role: AccountRole|
            #![trigger quoted_role(role)]
            at + quoted_role(role).len() <= s@.len() && s@.subrange(at as int, at + quoted_role(role).len()) == quoted_role(role)
            implies r == Some((role, (at + quoted_role(role).len()) as usize)) by {
            let q = quoted_role(role);
            assert(s@[at + 1] == s@.subrange(at as int, at + q.len())[1]);
            assert(s@[at + 2] == s@.subrange(at as int, at + q.len())[2]);
            if role != AccountRole::Admin && s@.subrange(at as int, at + 7) == "\"ADMIN\""@ {
                assert(s@[at + 1] == s@.subrange(at as int, at + 7)[1]);
            }
            if role == AccountRole::Employee && at + 10 <= s@.len() && s@.subrange(at as int, at + 10) == "\"CUSTOMER\""@ {
                assert(s@[at + 1] == s@.subrange(at as int, at + 10)[1]);
            }
        }
    }
    r
}

/// Whether the text of `rs` followed by a closing bracket sits at `start`.
pub open spec fn roles_at(s: Seq<char>, start: int, rs: Seq<AccountRole>) -> bool {
    &&& start + roles_json(rs).len() < s.len()
    &&& s.subrange(start, start + roles_json(rs).len()) == roles_json(rs)
    &&& s[start + roles_json(rs).len()] == ']'
}

proof fn lemma_roles_mid(s: Seq<char>, start: int, rs: Seq<AccountRole>, k: int, pos: int)
    requires
        0 <= start,
        roles_at(s, start, rs),
        0 <= k < rs.len(),
        pos == start + roles_json(rs.take(k)).len(),
    ensures
        ({
            let sep: int = if k > 0 { 1 } else { 0 };
            let q = quoted_role(rs[k]);
            &&& pos < s.len()
            &&& (k > 0 ==> s[pos] == ',')
            &&& (k == 0 ==> s[pos] == '"')
            &&& pos + sep + q.len() <= s.len()
            &&& s.subrange(pos + sep, pos + sep + q.len()) == q
            &&& start + roles_json(rs.take(k + 1)).len() == pos + sep + q.len()
        }),
{
    let rj = roles_json(rs);
    lemma_roles_json_at(rs, k);
    let a = roles_json(rs.take(k)).len() as int;
    let sep: int = if k > 0 { 1 } else { 0 };
    let q = quoted_role(rs[k]);
    let w = s.subrange(start, start + rj.len());
    assert(w == rj);
    assert(s[start + a] == w[a]);
    assert forall|i: int| 0 <= i < q.len() implies s[pos + sep + i] == #[trigger] q[i] by {
        assert(s[pos + sep + i] == w[a + sep + i]);
        assert(rj.subrange(a + sep, a + sep + q.len())[i] == rj[a + sep + i]);
    }
    assert(s.subrange(pos + sep, pos + sep + q.len()) =~= q);
}

proof fn lemma_roles_next(s: Seq<char>, start: int, rs: Seq<AccountRole>, k: int, pos: int)
    requires
        0 <= start,
        roles_at(s, start, rs),
        0 <= k <= rs.len(),
        pos == start + roles_json(rs.take(k)).len(),
    ensures
        pos < s.len(),
        k == rs.len() ==> s[pos] == ']',
        k < rs.len() ==> {
            let sep: int = if k > 0 { 1 } else { 0 };
            let q = quoted_role(rs[k]);
            &&& (k > 0 ==> s[pos] == ',')
            &&& (k == 0 ==> s[pos] == '"')
            &&& pos + sep + q.len() <= s.len()
            &&& s.subrange(pos + sep, pos + sep + q.len()) == q
            &&& start + roles_json(rs.take(k + 1)).len() == pos + sep + q.len()
        },
{
    if k == rs.len() {
        assert(rs.take(k) =~= rs);
    } else {
        lemma_roles_mid(s, start, rs, k, pos);
    }
}

/// Reads the elements of the roles array from `start` up to its closing
/// bracket, and gives the bracket's position.
fn read_roles(s: &str, start: usize) -> (r: Option<(Vec<AccountRole>, usize)>)
    requires
        start <= s@.len(),
    ensures
        r matches Some((v, end)) ==> end <= s@.len(),
        forall|rs: Seq<AccountRole>|
            #![trigger roles_at(s@, start as int, rs)]
            roles_at(s@, start as int, rs) ==> (r matches Some((v, end)) && v@ == rs && end == start
                + roles_json(rs).len()),
{
    let n = s.unicode_len();
    let mut pos: usize = start;
    let mut roles: Vec<AccountRole> = Vec::new();
    proof {
        assert forall|rs: Seq<AccountRole>|
            #![trigger roles_at(s@, start as int, rs)]
            roles_at(s@, start as int, rs) implies roles@ == rs.take(0) && pos == start + roles_json(rs.take(0)).len() by {
            lemma_roles_json_empty(rs.take(0));
            assert(roles@ =~= rs.take(0));
        }
    }
    loop
        invariant
            n == s@.len(),
            start <= pos <= n,
            forall|rs: Seq<AccountRole>|
                #![trigger roles_at(s@, start as int, rs)]
                roles_at(s@, start as int, rs) ==> {
                    &&& roles@.len() <= rs.len()
                    &&& roles@ == rs.take(roles@.len() as int)
                    &&& pos == start + roles_json(rs.take(roles@.len() as int)).len()
                },
        ensures
            start <= pos <= n,
            forall|rs: Seq<AccountRole>|
                #![trigger roles_at(s@, start as int, rs)]
                roles_at(s@, start as int, rs) ==> roles@ == rs && pos == start + roles_json(rs).len(),
        decreases n - pos,
    {
        proof {
            reveal_strlit("]");
            reveal_strlit(",");
        }
        let ghost k = roles@.len() as int;
        if literal_at(s, pos, "]") {
            proof {
                assert forall|rs: Seq<AccountRole>|
                    #![trigger roles_at(s@, start as int, rs)]
                    roles_at(s@, start as int, rs) implies roles@ == rs && pos == start + roles_json(rs).len() by {
                    lemma_roles_next(s@, start as int, rs, k, pos as int);
                    if k < rs.len() {
                        assert(s@[pos as int] == s@.subrange(pos as int, pos + 1)[0]);
                    }
                    assert(roles@ =~= rs.take(rs.len() as int));
                    assert(rs.take(rs.len() as int) =~= rs);
                }
            }
            break;
        }
        let mut at = pos;
        if roles.len() > 0 {
            if !literal_at(s, pos, ",") {
                proof {
                    assert forall|rs: Seq<AccountRole>|
                        #![trigger roles_at(s@, start as int, rs)]
                        roles_at(s@, start as int, rs) implies false by {
                        lemma_roles_next(s@, start as int, rs, k, pos as int);
                        assert(s@.subrange(pos as int, pos + 1) =~= seq![s@[pos as int]]);
                        assert(","@ =~= seq![',']);
                        assert("]"@ =~= seq![']']);
                    }
                }
                return None;
            }
            at = pos + 1;
        }
        let ghost at0 = at as int;
        proof {
            assert forall|rs: Seq<AccountRole>|
                #![trigger roles_at(s@, start as int, rs)]
                roles_at(s@, start as int, rs) implies k < rs.len() && at0 + quoted_role(rs[k]).len() <= s@.len()
                    && s@.subrange(at0, at0 + quoted_role(rs[k]).len()) == quoted_role(rs[k])
                    && start + roles_json(rs.take(k + 1)).len() == at0 + quoted_role(rs[k]).len() by {
                lemma_roles_next(s@, start as int, rs, k, pos as int);
                assert("]"@ =~= seq![']']);
                if k == rs.len() {
                    assert(s@.subrange(pos as int, pos + 1) =~= seq![']']);
                }
                assert(at0 == pos + (if k > 0 { 1int } else { 0int }));
            }
        }
        let (role, next) = match read_role(s, at) {
            Some(x) => x,
            None => {
                proof {
                    assert forall|rs: Seq<AccountRole>|
                        #![trigger roles_at(s@, start as int, rs)]
                        roles_at(s@, start as int, rs) implies false by {
                        assert(quoted_role(rs[k]) == quoted_role(rs[k]));
                    }
                }
                return None;
            },
        };
        let ghost before = roles@;
        roles.push(role);
        pos = next;
        proof {
            assert forall|rs: Seq<AccountRole>|
                #![trigger roles_at(s@, start as int, rs)]
                roles_at(s@, start as int, rs) implies {
                    &&& roles@.len() <= rs.len()
                    &&& roles@ == rs.take(roles@.len() as int)
                    &&& pos == start + roles_json(rs.take(roles@.len() as int)).len()
                } by {
                assert(quoted_role(rs[k]) == quoted_role(rs[k]));
                assert(role == rs[k]);
                assert(roles@ =~= rs.take(k + 1));
            }
        }
    }
    Some((roles, pos))
}


/// The claims whose JSON text `s` is, if it is the text of some claims (with
/// times that fit a `usize`).
pub fn claims_from_json(s: &str) -> (r: Option<Claims>)
    ensures
        r matches Some(c) ==> c.json() == s@,
        forall|sub: i64, exp: nat, iat: nat, roles: Seq<AccountRole>|
            #![trigger claims_json(sub, exp, iat, roles)]
            s@ == claims_json(sub, exp, iat, roles) && exp <= usize::MAX && iat <= usize::MAX ==> (
            r matches Some(c) && c.sub == sub && c.exp == exp && c.iat == iat && c.roles@ == roles),
{
    let n = s.unicode_len();
    let head = claims_head_fields(s);
    let (sub, exp, iat, p) = match head {
        Some(x) => x,
        None => {
            proof {
                assert forall|wsub: i64, wexp: nat, wiat: nat, wroles: Seq<AccountRole>|
                    #![trigger claims_json(wsub, wexp, wiat, wroles)]
                    s@ == claims_json(wsub, wexp, wiat, wroles) && wexp <= usize::MAX && wiat <= usize::MAX
                    implies false by {
                    lemma_claims_json_parts(wsub, wexp, wiat, wroles);
                    let h = claims_head(wsub, wexp, wiat);
                    assert(s@.subrange(0, h.len() as int) =~= h);
                    assert(head_matches(s@, wsub, wexp, wiat));
                }
            }
            return None;
        },
    };
    let body = read_roles(s, p);
    let (roles, end) = match body {
        Some(x) => x,
        None => {
            proof {
                assert forall|wsub: i64, wexp: nat, wiat: nat, wroles: Seq<AccountRole>|
                    #![trigger claims_json(wsub, wexp, wiat, wroles)]
                    s@ == claims_json(wsub, wexp, wiat, wroles) && wexp <= usize::MAX && wiat <= usize::MAX
                    implies false by {
                    lemma_claims_json_parts(wsub, wexp, wiat, wroles);
                    let h = claims_head(wsub, wexp, wiat);
                    let rj = roles_json(wroles);
                    assert(s@.subrange(0, h.len() as int) =~= h);
                    assert(head_matches(s@, wsub, wexp, wiat));
                    assert(head == Some((wsub, wexp as usize, wiat as usize, h.len() as usize)));
                    assert(p == h.len());
                    reveal_strlit("]}");
                    assert(s@.subrange(p as int, p + rj.len()) =~= rj);
                    assert(s@[p + rj.len()] == ']');
                    assert(roles_at(s@, p as int, wroles));
                }
            }
            return None;
        },
    };
    let claims = Claims { sub, exp, iat, roles };
    proof {
        assert forall|wsub: i64, wexp: nat, wiat: nat, wroles: Seq<AccountRole>|
            #![trigger claims_json(wsub, wexp, wiat, wroles)]
            s@ == claims_json(wsub, wexp, wiat, wroles) && wexp <= usize::MAX && wiat <= usize::MAX
            implies claims.sub == wsub && claims.exp == wexp && claims.iat == wiat && claims.roles@ == wroles by {
            lemma_claims_json_parts(wsub, wexp, wiat, wroles);
            let h = claims_head(wsub, wexp, wiat);
            let rj = roles_json(wroles);
            assert(s@.subrange(0, h.len() as int) =~= h);
            assert(head_matches(s@, wsub, wexp, wiat));
            assert(head == Some((wsub, wexp as usize, wiat as usize, h.len() as usize)));
            assert(p == h.len());
            reveal_strlit("]}");
            assert(s@.subrange(p as int, p + rj.len()) =~= rj);
            assert(s@[p + rj.len()] == ']');
            assert(roles_at(s@, p as int, wroles));
        }
    }
    let text = claims_to_json(&claims);
    if str_eq(text.as_str(), s) {
        Some(claims)
    } else {
        None
    }
}


proof fn lemma_decimal_injective(a: nat, b: nat)
    requires
        decimal(a) == decimal(b),
    ensures
        a == b,
{
    lemma_decimal_digits(a);
    lemma_decimal_digits(b);
}

proof fn lemma_signed_decimal_injective(a: i64, b: i64)
    requires
        signed_decimal(a as int) == signed_decimal(b as int),
    ensures
        a == b,
{
    lemma_parse_format_i64(a);
    lemma_parse_format_i64(b);
}

proof fn lemma_decimal_no_comma(n: nat)
    ensures
        forall|k: int| 0 <= k < decimal(n).len() ==> #[trigger] decimal(n)[k] != ',',
        decimal(n).len() > 0,
{
    lemma_decimal_digits(n);
    assert forall|k: int| 0 <= k < decimal(n).len() implies #[trigger] decimal(n)[k] != ',' by {
        assert(is_digit(decimal(n)[k]));
    }
}

/// Two comma-free pieces that are each followed by a comma at the same start
/// have the same length.
proof fn lemma_same_field_end(s: Seq<char>, start: int, x: Seq<char>, y: Seq<char>)
    requires
        0 <= start,
        start + x.len() < s.len(),
        start + y.len() < s.len(),
        s.subrange(start, start + x.len()) == x,
        s.subrange(start, start + y.len()) == y,
        s[start + x.len()] == ',',
        s[start + y.len()] == ',',
        forall|k: int| 0 <= k < x.len() ==> #[trigger] x[k] != ',',
        forall|k: int| 0 <= k < y.len() ==> #[trigger] y[k] != ',',
    ensures
        x == y,
{
    if x.len() < y.len() {
        assert(s[start + x.len()] == y[x.len() as int]);
    } else if y.len() < x.len() {
        assert(s[start + y.len()] == x[y.len() as int]);
    }
    assert(x =~= y);
}

proof fn lemma_role_name_last(r: AccountRole)
    ensures
        quoted_role(r).len() >= 7,
        quoted_role(r)[quoted_role(r).len() - 1] == '"',
        quoted_role(r)[quoted_role(r).len() - 2] == (match r {
            AccountRole::Admin => 'N',
            AccountRole::Customer => 'R',
            AccountRole::Employee => 'E',
        }),
        quoted_role(r)[0] == '"',
{
    reveal_strlit("ADMIN");
    reveal_strlit("CUSTOMER");
    reveal_strlit("EMPLOYEE");
}

proof fn lemma_roles_json_len(rs: Seq<AccountRole>)
    ensures
        rs.len() > 0 ==> roles_json(rs).len() >= 7,
        rs.len() == 0 ==> roles_json(rs).len() == 0,
{
    reveal(roles_json);
    if rs.len() > 0 {
        lemma_role_name_last(rs.last());
        if rs.len() == 1 {
            lemma_role_name_last(rs[0]);
        }
    }
}

proof fn lemma_roles_json_injective(a: Seq<AccountRole>, b: Seq<AccountRole>)
    requires
        roles_json(a) == roles_json(b),
    ensures
        a == b,
    decreases a.len(),
{
    reveal(roles_json);
    lemma_roles_json_len(a);
    lemma_roles_json_len(b);
    if a.len() == 0 || b.len() == 0 {
        assert(a.len() == 0 && b.len() == 0);
        assert(a =~= b);
    } else {
        let ra = a.last();
        let rb = b.last();
        let j = roles_json(a);
        lemma_role_name_last(ra);
        lemma_role_name_last(rb);
        let qa = quoted_role(ra);
        let qb = quoted_role(rb);
        // The last role is told by the character before the closing quote.
        if a.len() == 1 {
            assert(j =~= qa);
        } else {
            assert(j =~= roles_json(a.drop_last()) + seq![','] + qa);
        }
        assert(j[j.len() - 2] == qa[qa.len() - 2]);
        if b.len() == 1 {
            assert(j =~= qb);
        } else {
            assert(j =~= roles_json(b.drop_last()) + seq![','] + qb);
        }
        assert(j[j.len() - 2] == qb[qb.len() - 2]);
        assert(ra == rb);
        if a.len() == 1 && b.len() == 1 {
            assert(a =~= b);
        } else if a.len() == 1 {
            lemma_roles_json_len(b.drop_last());
            assert(false);
        } else if b.len() == 1 {
            lemma_roles_json_len(a.drop_last());
            assert(false);
        } else {
            let pa = roles_json(a.drop_last());
            let pb = roles_json(b.drop_last());
            assert(pa.len() == pb.len());
            assert(pa =~= j.subrange(0, pa.len() as int));
            assert(pb =~= j.subrange(0, pb.len() as int));
            lemma_roles_json_injective(a.drop_last(), b.drop_last());
            assert(a =~= b.drop_last().push(rb));
            assert(b =~= b.drop_last().push(rb));
        }
    }
}

/// Two claim heads that both begin `s` carry the same fields.
proof fn lemma_heads_agree(s: Seq<char>, sub: i64, exp: nat, iat: nat, sub2: i64, exp2: nat, iat2: nat)
    requires
        claims_head(sub, exp, iat).len() <= s.len(),
        s.subrange(0, claims_head(sub, exp, iat).len() as int) == claims_head(sub, exp, iat),
        claims_head(sub2, exp2, iat2).len() <= s.len(),
        s.subrange(0, claims_head(sub2, exp2, iat2).len() as int) == claims_head(sub2, exp2, iat2),
    ensures
        sub == sub2,
        exp == exp2,
        iat == iat2,
{
    lemma_matched(s, sub, exp, iat);
    lemma_matched(s, sub2, exp2, iat2);
    let d1 = signed_decimal(sub as int);
    let d2 = signed_decimal(sub2 as int);
    let e1 = decimal(exp);
    let e2 = decimal(exp2);
    let f1 = decimal(iat);
    let f2 = decimal(iat2);
    lemma_signed_decimal_no_comma(sub as int);
    lemma_signed_decimal_no_comma(sub2 as int);
    lemma_decimal_no_comma(exp);
    lemma_decimal_no_comma(exp2);
    lemma_decimal_no_comma(iat);
    lemma_decimal_no_comma(iat2);
    lemma_same_field_end(s, 7, d1, d2);
    lemma_signed_decimal_injective(sub, sub2);
    let a = 14 + (d1.len() as int);
    lemma_same_field_end(s, a, e1, e2);
    lemma_decimal_injective(exp, exp2);
    let b = 21 + (d1.len() as int) + (e1.len() as int);
    lemma_same_field_end(s, b, f1, f2);
    lemma_decimal_injective(iat, iat2);
}

/// Distinct claims have distinct JSON texts.
pub proof fn lemma_claims_json_injective(
    sub: i64, exp: nat, iat: nat, roles: Seq<AccountRole>,
    sub2: i64, exp2: nat, iat2: nat, roles2: Seq<AccountRole>,
)
    requires
        claims_json(sub, exp, iat, roles) == claims_json(sub2, exp2, iat2, roles2),
    ensures
        sub == sub2,
        exp == exp2,
        iat == iat2,
        roles == roles2,
{
    let s = claims_json(sub, exp, iat, roles);
    lemma_claims_json_parts(sub, exp, iat, roles);
    lemma_claims_json_parts(sub2, exp2, iat2, roles2);
    let h1 = claims_head(sub, exp, iat);
    let h2 = claims_head(sub2, exp2, iat2);
    let r1 = roles_json(roles);
    let r2 = roles_json(roles2);
    assert(s.subrange(0, h1.len() as int) =~= h1);
    assert(s.subrange(0, h2.len() as int) =~= h2);
    lemma_heads_agree(s, sub, exp, iat, sub2, exp2, iat2);
    assert(h1 == h2);
    reveal_strlit("]}");
    assert(r1.len() == r2.len());
    assert(r1 =~= s.subrange(h1.len() as int, (h1.len() + r1.len()) as int));
    assert(r2 =~= s.subrange(h1.len() as int, (h1.len() + r2.len()) as int));
    lemma_roles_json_injective(roles, roles2);
}


/// Text that is the payload of some claims whose times fit a `usize`.
pub open spec fn is_claims_text(p: Seq<char>) -> bool {
    exists|sub: i64, exp: nat, iat: nat, roles: Seq<AccountRole>|
        #![trigger claims_json(sub, exp, iat, roles)]
        exp <= usize::MAX && iat <= usize::MAX && p == claims_json(sub, exp, iat, roles)
}

/// The token that `jsonwebtoken::encode` makes, with the default header
/// (HS256, type JWT), for the JSON text `payload` under the HMAC key `secret`
/// (the key is the UTF-8 bytes of `secret`).
pub uninterp spec fn hs256_token(payload: Seq<char>, secret: Seq<char>) -> Seq<char>;

/// The JSON payload text that `jsonwebtoken::decode` with the default
/// validation, expiry left unchecked, recovers from `token` under the key
/// `secret`; `None` where it refuses the token (bad form, algorithm or
/// signature, missing `exp`).
pub uninterp spec fn hs256_payload(token: Seq<char>, secret: Seq<char>) -> Option<Seq<char>>;

/// Signs the JSON text `payload` with `jsonwebtoken::encode` (default header)
/// under `secret`, the payload being handed over as a `serde_json` raw value so
/// that its text is signed as it is. Claimed: the token is
/// `hs256_token(payload, secret)`; for the text of claims, signing succeeds (the
/// text is valid JSON and an HMAC key may have any length) and
/// `jsonwebtoken::decode` gives that text back, since the text holds a numeric
/// `exp` and no `aud`. The error is `jsonwebtoken`'s (or `serde_json`'s) message.
#[verifier::external_body]
fn sign_hs256(payload: &str, secret: &str) -> (r: Result<String, String>)
    ensures
        r matches Ok(t) ==> t@ == hs256_token(payload@, secret@),
        r matches Ok(t) ==> (is_claims_text(payload@) ==> hs256_payload(t@, secret@) == Some(payload@)),
        is_claims_text(payload@) ==> r is Ok,
{
    let raw = serde_json::value::RawValue::from_string(payload.to_string()).map_err(|e| e.to_string())?;
    let key = jsonwebtoken::EncodingKey::from_secret(secret.as_bytes());
    jsonwebtoken::encode(&jsonwebtoken::Header::default(), &raw, &key).map_err(|e| e.to_string())
}

/// Checks `token` with `jsonwebtoken::decode` under `secret` (default
/// validation: HS256, `exp` required, one minute of leeway), with or without
/// the expiry check, and gives back the payload's JSON text. Claimed: without
/// the expiry check the result is `hs256_payload(token, secret)`; with it, a
/// payload that comes back is that one. Whether an expired token is refused
/// depends on the clock and is not stated.
#[verifier::external_body]
fn read_hs256(token: &str, secret: &str, validate_exp: bool) -> (r: Option<String>)
    ensures
        !validate_exp ==> (match r {
            Some(p) => hs256_payload(token@, secret@) == Some(p@),
            None => hs256_payload(token@, secret@) is None,
        }),
        r matches Some(p) ==> hs256_payload(token@, secret@) == Some(p@),
{
    let key = jsonwebtoken::DecodingKey::from_secret(secret.as_bytes());
    let validation = jsonwebtoken::Validation { validate_exp, ..Default::default() };
    let data = jsonwebtoken::decode::<Box<serde_json::value::RawValue>>(token, &key, &validation).ok()?;
    Some(data.claims.get().to_string())
}

/// The spans of whole seconds that `chrono::TimeDelta` can hold: up to
/// `i64::MAX` milliseconds either way.
pub open spec fn seconds_in_range(secs: i64) -> bool {
    -9_223_372_036_854_775 <= secs <= 9_223_372_036_854_775
}

/// `chrono::TimeDelta::try_seconds`, read back with `num_seconds`. Claimed (from
/// chrono's source): it succeeds exactly on `seconds_in_range`, and the span
/// holds the seconds given.
#[verifier::external_body]
fn try_seconds(secs: i64) -> (r: Option<i64>)
    ensures
        r == (if seconds_in_range(secs) { Some(secs) } else { None::<i64> }),
{
    chrono::TimeDelta::try_seconds(secs).map(|d| d.num_seconds())
}

/// `chrono::Utc::now()`, as whole seconds since the Unix epoch and the
/// nanoseconds past them. Nothing is claimed of the clock; the nanoseconds are
/// those of a `std::time::Duration`, under a second.
#[verifier::external_body]
pub(crate) fn clock_now() -> (r: (i64, u32))
    ensures
        r.1 < 1_000_000_000,
{
    let now = chrono::Utc::now();
    (now.timestamp(), now.timestamp_subsec_nanos())
}

/// Unix timestamps inside chrono's range of dates. That range runs from the
/// start of year -262,143 (-8,334,601,228,800) to the end of year 262,142
/// (8,210,266,876,799); these bounds stay a little inside it (about year
/// ±261,800).
pub open spec fn within_dates(t: int) -> bool {
    -8_200_000_000_000 <= t <= 8_200_000_000_000
}

/// The instant `secs` s + `nanos` ns after the epoch, moved by `delta` seconds
/// with chrono's `DateTime::checked_add_signed`, as a Unix timestamp; `None`
/// where chrono refuses the instant or the sum (outside its range of dates).
/// Claimed: away from a leap second the timestamp moves by exactly `delta`;
/// and where both instants lie `within_dates`, chrono accepts them
/// (`from_timestamp` and `NaiveDate::add_days` refuse only dates outside
/// years -262,143 to 262,142).
#[verifier::external_body]
fn shifted_timestamp(secs: i64, nanos: u32, delta: i64) -> (r: Option<i64>)
    requires
        seconds_in_range(delta),
    ensures
        r matches Some(t) ==> (nanos < 1_000_000_000 ==> t == secs + delta),
        nanos < 1_000_000_000 && within_dates(secs as int) && within_dates(secs + delta) ==> r == Some(
            (secs + delta) as i64,
        ),
{
    let now = chrono::DateTime::<chrono::Utc>::from_timestamp(secs, nanos)?;
    let moved = now.checked_add_signed(chrono::TimeDelta::seconds(delta))?;
    Some(moved.timestamp())
}

/// A clock reading `now` from which the expiry `now + lifetime` (or `now`
/// itself) leaves the dates that chrono is promised to accept.
pub open spec fn clock_leaves_dates(now: int, lifetime: int) -> bool {
    !(within_dates(now) && within_dates(now + lifetime))
}

/// Lifetime of an access token when none is configured: 15 minutes.
pub const DEFAULT_ACCESS_TOKEN_EXPIRES: i64 = 900;

/// What is needed to issue and check access tokens: the signing secret and
/// the lifetime of a token.
#[derive(Clone)]
pub struct JwtConfig {
    secret: String,
    access_token_expires_in_seconds: i64,
}

/// A token signed under `secret` whose payload is the claims of `sub` and
/// `roles`, issued at `iat` and expiring `lifetime` seconds later, and which
/// `jsonwebtoken::decode` reads back.
pub open spec fn issued(token: Seq<char>, secret: Seq<char>, sub: i64, iat: int, lifetime: int, roles: Seq<AccountRole>) -> bool {
    let payload = claims_json(sub, ((iat + lifetime) as usize) as nat, (iat as usize) as nat, roles);
    &&& token == hs256_token(payload, secret)
    &&& hs256_payload(token, secret) == Some(payload)
}

/// What checking a token whose recovered payload is `p` answers: `None` is
/// refused; otherwise the claims of that text, or a refusal where the text is
/// not the text of claims.
pub open spec fn checked_payload(p: Option<Seq<char>>, r: Result<Claims, AppError>) -> bool {
    match p {
        None => r matches Err(AppError::Unauthorized),
        Some(text) => match r {
            Ok(c) => c.json() == text,
            Err(e) => e == AppError::Unauthorized && !is_claims_text(text),
        },
    }
}

impl JwtConfig {
    /// The signing secret.
    pub closed spec fn secret(&self) -> Seq<char> {
        self.secret@
    }

    /// The lifetime of a token, in seconds.
    pub closed spec fn expires_in(&self) -> i64 {
        self.access_token_expires_in_seconds
    }

    /// A configuration with the given secret and token lifetime.
    pub fn new(secret: &str, expires_in_seconds: i64) -> (r: Self)
        ensures
            r.secret() == secret@,
            r.expires_in() == expires_in_seconds,
    {
        JwtConfig { secret: secret.to_string(), access_token_expires_in_seconds: expires_in_seconds }
    }

    /// The configuration from the settings `JWT_SECRET` and
    /// `JWT_ACCESS_TOKEN_EXPIRES_IN_SECONDS` (`None` where unset): the secret must
    /// be set and not empty; the lifetime, 900 s where unset, must be an integer
    /// and positive.
    pub fn from_settings(secret: Option<&str>, expires_in: Option<&str>) -> (r: Result<Self, AppError>)
        ensures
            match secret {
                None => internal_message(r) == Some("JWT_SECRET 환경변수가 설정되지 않았습니다."@),
                Some(s) => if s@.len() == 0 {
                    internal_message(r) == Some("JWT_SECRET은 비어 있을 수 없습니다."@)
                } else {
                    match expires_in {
                        None => r matches Ok(c) && c.secret() == s@ && c.expires_in()
                            == DEFAULT_ACCESS_TOKEN_EXPIRES,
                        Some(e) => match parsed_i64(e@) {
                            None => internal_message(r) == Some(
                                "JWT_ACCESS_TOKEN_EXPIRES_IN_SECONDS는 올바른 정수여야 합니다."@,
                            ),
                            Some(n) => if n <= 0 {
                                internal_message(r) == Some(
                                    "JWT Access Token 만료 시간은 0보다 커야 합니다."@,
                                )
                            } else {
                                r matches Ok(c) && c.secret() == s@ && c.expires_in() == n
                            },
                        },
                    }
                },
            },
    {
        let secret = match secret {
            Some(s) => s,
            None => {
                return Err(AppError::Internal(String::from_str("JWT_SECRET 환경변수가 설정되지 않았습니다.")));
            },
        };
        if secret.unicode_len() == 0 {
            return Err(AppError::Internal(String::from_str("JWT_SECRET은 비어 있을 수 없습니다.")));
        }
        let expires = match expires_in {
            None => DEFAULT_ACCESS_TOKEN_EXPIRES,
            Some(e) => match parse_i64(e) {
                Some(n) => n,
                None => {
                    return Err(
                        AppError::Internal(
                            String::from_str("JWT_ACCESS_TOKEN_EXPIRES_IN_SECONDS는 올바른 정수여야 합니다."),
                        ),
                    );
                },
            },
        };
        if expires <= 0 {
            return Err(AppError::Internal(String::from_str("JWT Access Token 만료 시간은 0보다 커야 합니다.")));
        }
        Ok(JwtConfig::new(secret, expires))
    }

    /// Issues an access token for an account at the instant `now_secs` s +
    /// `now_nanos` ns after the epoch: issued then, expiring after the
    /// configured lifetime.
    pub fn issue_access_token(&self, account_id: i64, roles: Vec<AccountRole>, now_secs: i64, now_nanos: u32)
        -> (r: Result<String, AppError>)
        requires
            now_nanos < 1_000_000_000,
        ensures
            !seconds_in_range(self.expires_in()) ==> internal_message(r) == Some(
                "JWT 만료 시간 설정 범위를 초과했습니다."@,
            ),
            r matches Ok(t) ==> issued(t@, self.secret(), account_id, now_secs as int, self.expires_in() as int, roles@),
            r matches Err(e) ==> e is Internal,
            seconds_in_range(self.expires_in()) && r is Err ==>
                internal_message(r) == Some("JWT 만료 시간 계산에 실패했습니다."@),
            seconds_in_range(self.expires_in()) && within_dates(now_secs as int) && within_dates(
                now_secs + self.expires_in(),
            ) ==> r is Ok,
    {
        let iat = #[verifier::truncate] (now_secs as usize);
        let delta = match try_seconds(self.access_token_expires_in_seconds) {
            Some(d) => d,
            None => {
                return Err(AppError::Internal(String::from_str("JWT 만료 시간 설정 범위를 초과했습니다.")));
            },
        };
        let exp = match shifted_timestamp(now_secs, now_nanos, delta) {
            Some(t) => #[verifier::truncate] (t as usize),
            None => {
                return Err(AppError::Internal(String::from_str("JWT 만료 시간 계산에 실패했습니다.")));
            },
        };
        let claims = Claims { sub: account_id, exp, iat, roles };
        let payload = claims_to_json(&claims);
        proof {
            assert(claims.exp as nat <= usize::MAX && claims.iat as nat <= usize::MAX);
            assert(is_claims_text(payload@));
        }
        match sign_hs256(payload.as_str(), self.secret.as_str()) {
            Ok(token) => Ok(token),
            Err(e) => {
                let mut m = String::from_str("JWT 토큰 생성 실패: ");
                m.append(e.as_str());
                Err(AppError::Internal(m))
            },
        }
    }

    /// Issues an access token for an account, now.
    pub fn create_access_token(&self, account_id: i64, roles: Vec<AccountRole>) -> (r: Result<String, AppError>)
        ensures
            !seconds_in_range(self.expires_in()) ==> internal_message(r) == Some(
                "JWT 만료 시간 설정 범위를 초과했습니다."@,
            ),
            r matches Ok(t) ==> exists|now: int|
                #[trigger] issued(t@, self.secret(), account_id, now, self.expires_in() as int, roles@),
            r matches Err(e) ==> e is Internal,
            seconds_in_range(self.expires_in()) && r is Err ==> exists|now: int|
                #[trigger] clock_leaves_dates(now, self.expires_in() as int),
            seconds_in_range(self.expires_in()) && r is Err ==> internal_message(r) == Some(
                "JWT 만료 시간 계산에 실패했습니다."@,
            ),
    {
        let (secs, nanos) = clock_now();
        proof {
            if !(within_dates(secs as int) && within_dates(secs + self.expires_in())) {
                assert(clock_leaves_dates(secs as int, self.expires_in() as int));
            }
        }
        self.issue_access_token(account_id, roles, secs, nanos)
    }

    /// Checks the token's signature, and its expiry where asked, and reads its claims.
    fn decode_access_token(&self, token: &str, validate_exp: bool) -> (r: Result<Claims, AppError>)
        ensures
            !validate_exp ==> checked_payload(hs256_payload(token@, self.secret()), r),
            r matches Ok(c) ==> hs256_payload(token@, self.secret()) == Some(c.json()),
            r matches Err(e) ==> e == AppError::Unauthorized,
    {
        match read_hs256(token, self.secret.as_str(), validate_exp) {
            None => Err(AppError::Unauthorized),
            Some(payload) => match claims_from_json(payload.as_str()) {
                Some(c) => Ok(c),
                None => Err(AppError::Unauthorized),
            },
        }
    }

    /// Checks the token's signature and expiry and reads its claims; any
    /// failure is `Unauthorized`.
    pub fn verify_access_token(&self, token: &str) -> (r: Result<Claims, AppError>)
        ensures
            r matches Ok(c) ==> hs256_payload(token@, self.secret()) == Some(c.json()),
            r matches Err(e) ==> e == AppError::Unauthorized,
            hs256_payload(token@, self.secret()) is None ==> r matches Err(AppError::Unauthorized),
    {
        self.decode_access_token(token, true)
    }

    /// Checks the token's signature only, an expired token being accepted, and
    /// reads its claims; any failure is `Unauthorized`.
    pub fn verify_expired_access_token(&self, token: &str) -> (r: Result<Claims, AppError>)
        ensures
            checked_payload(hs256_payload(token@, self.secret()), r),
    {
        self.decode_access_token(token, false)
    }
}

/// A token issued for some claims reads back, signature checked and expiry
/// ignored, as exactly those claims.
pub proof fn lemma_issued_token_reads_back(
    token: Seq<char>, secret: Seq<char>, sub: i64, iat: int, lifetime: int, roles: Seq<AccountRole>,
    r: Result<Claims, AppError>,
)
    requires
        issued(token, secret, sub, iat, lifetime, roles),
        checked_payload(hs256_payload(token, secret), r),
    ensures
        r matches Ok(c) && c.sub == sub && c.exp == (iat + lifetime) as usize && c.iat == iat as usize
            && c.roles@ == roles,
{
    let e = ((iat + lifetime) as usize) as nat;
    let i = (iat as usize) as nat;
    let text = claims_json(sub, e, i, roles);
    assert(is_claims_text(text));
    match r {
        Ok(c) => {
            lemma_claims_json_injective(c.sub, c.exp as nat, c.iat as nat, c.roles@, sub, e, i, roles);
        },
        Err(_) => {},
    }
}

} // verus!
