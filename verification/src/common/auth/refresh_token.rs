//! Refresh tokens: generation, hashing, and the key-value records that keep
//! one refresh session per account.
//!
//! Two records make a session, both expiring after three days:
//! `refresh:{sha256(token)}` holds the account id, and
//! `account:{id}:refresh` holds the hash of the account's current token.
//! Only hashes are stored, never a token itself.
use vstd::prelude::*;
use vstd::utf8::encode_utf8;
use crate::common::error::AppError;
use crate::common::text::{
    format_i64, hex_encode, hex_encoding, lemma_parse_format_i64, parse_i64, parsed_i64,
    push_signed_decimal, signed_decimal, str_eq,
};

verus! {

/// Random bytes in a refresh token (256 bits).
pub const REFRESH_TOKEN_BYTES: usize = 32;

/// Lifetime of a refresh session, in seconds (three days).
pub const REFRESH_TOKEN_EXPIRES_IN_SECONDS: u64 = 60 * 60 * 24 * 3;

#[verifier::external_type_specification]
#[verifier::external_body]
pub struct ExRandomError(getrandom::Error);

/// `getrandom::fill`: fills `dest` from the operating system's random source.
/// The bytes are chance; only that the length is kept is stated.
#[verifier::external_body]
fn os_random_fill(dest: &mut [u8]) -> (r: Result<(), getrandom::Error>)
    ensures
        final(dest)@.len() == old(dest)@.len(),
{
    getrandom::fill(dest)
}

/// The SHA-256 digest of a byte sequence.
pub uninterp spec fn sha256_digest(data: Seq<u8>) -> Seq<u8>;

/// `sha2::Sha256::digest`. The result is named `sha256_digest` of the input
/// and is 32 bytes long; the hash function itself is left unsaid.
#[verifier::external_body]
fn sha256(data: &[u8]) -> (r: Vec<u8>)
    ensures
        r@ == sha256_digest(data@),
        r@.len() == 32,
{
    <sha2::Sha256 as sha2::Digest>::digest(data).to_vec()
}

/// Hexadecimal SHA-256 of the token's UTF-8 bytes: what the store keys by.
pub open spec fn token_hash(token: Seq<char>) -> Seq<char> {
    hex_encoding(sha256_digest(encode_utf8(token)))
}

/// `refresh:{hash}`.
pub open spec fn refresh_key(hash: Seq<char>) -> Seq<char> {
    "refresh:"@ + hash
}

/// `account:{id}:refresh`.
pub open spec fn account_key(account_id: i64) -> Seq<char> {
    "account:"@ + signed_decimal(account_id as int) + ":refresh"@
}

/// The key of the record that maps a token hash to its account.
pub fn generate_refresh_key(token_hash: &str) -> (r: String)
    ensures
        r@ == refresh_key(token_hash@),
{
    let mut s = String::from_str("refresh:");
    s.append(token_hash);
    s
}

/// The key of the record that holds an account's current token hash.
pub fn generate_account_refresh_key(account_id: i64) -> (r: String)
    ensures
        r@ == account_key(account_id),
{
    let mut s = String::from_str("account:");
    push_signed_decimal(&mut s, account_id);
    s.append(":refresh");
    s
}

/// Text of the form of a refresh token: 32 bytes as 64 lowercase
/// hexadecimal digits.
pub open spec fn is_refresh_token_text(t: Seq<char>) -> bool {
    t.len() == 2 * REFRESH_TOKEN_BYTES && exists|bytes: Seq<u8>|
        bytes.len() == REFRESH_TOKEN_BYTES && t == #[trigger] hex_encoding(bytes)
}

/// A new refresh token: 32 random bytes as 64 lowercase hexadecimal digits.
/// Fails only when the operating system gives no random bytes.
pub fn generate_refresh_token() -> (r: Result<String, AppError>)
    ensures
        r matches Ok(t) ==> is_refresh_token_text(t@),
        r matches Err(e) ==> e matches AppError::Internal(_),
        r is Err ==> crate::common::error::internal_message(r) == Some("Refresh Token 생성에 실패했습니다."@),
{
    let mut bytes = [0u8; 32];
    match os_random_fill(&mut bytes) {
        Ok(()) => {
            let t = hex_encode(&bytes);
            Ok(t)
        },
        Err(_) => Err(AppError::Internal(String::from_str("Refresh Token 생성에 실패했습니다."))),
    }
}

/// The hexadecimal SHA-256 of a token.
pub fn hash_refresh_token(token: &str) -> (r: String)
    ensures
        r@ == token_hash(token@),
        r@.len() == 64,
{
    let digest = sha256(token.as_bytes());
    hex_encode(digest.as_slice())
}

/// A write to the session store, run together with others as one atomic
/// transaction (`MULTI` ... `EXEC`).
#[derive(Debug)]
pub enum RedisCommand {
    /// `DEL key`.
    Del(String),
    /// `SET key value EX ttl`.
    SetEx(String, String, u64),
}

/// A write seen as a key and the value it leaves there (`None`: deleted).
pub type Write = (Seq<char>, Option<Seq<char>>);

/// The store after one write; the store is seen as a map from keys to values,
/// expiry is not modelled.
pub open spec fn apply_write(store: Map<Seq<char>, Seq<char>>, w: Write) -> Map<Seq<char>, Seq<char>> {
    match w.1 {
        Some(v) => store.insert(w.0, v),
        None => store.remove(w.0),
    }
}

/// The store after the writes, in order.
pub open spec fn apply_writes(store: Map<Seq<char>, Seq<char>>, ws: Seq<Write>) -> Map<Seq<char>, Seq<char>>
    decreases ws.len(),
{
    if ws.len() == 0 {
        store
    } else {
        apply_writes(apply_write(store, ws[0]), ws.drop_first())
    }
}

/// The value the store holds under `key`, if any.
pub open spec fn lookup(store: Map<Seq<char>, Seq<char>>, key: Seq<char>) -> Option<Seq<char>> {
    if store.dom().contains(key) { Some(store[key]) } else { None }
}

/// What looking a token up gives, from the value stored under its key:
/// no session, the account id, or a malformed record (`Err`).
pub open spec fn find_result(stored: Option<Seq<char>>) -> Result<Option<i64>, ()> {
    match stored {
        None => Ok(None),
        Some(v) => match parsed_i64(v) {
            Some(id) => Ok(Some(id)),
            None => Err(()),
        },
    }
}

/// The writes of a list of commands.
pub open spec fn writes_of(cmds: Seq<RedisCommand>) -> Seq<Write> {
    cmds.map_values(|c: RedisCommand| command_effect(c))
}

/// The writes that record `token` as the account's session and drop the
/// account's previous session, whose hash the store held under the account
/// key (`old_hash`).
pub open spec fn save_commands(token: Seq<char>, account_id: i64, old_hash: Option<Seq<char>>) -> Seq<Write> {
    let dels = match old_hash {
        Some(h) => seq![(refresh_key(h), None::<Seq<char>>)],
        None => Seq::<Write>::empty(),
    };
    dels + seq![
        (refresh_key(token_hash(token)), Some(signed_decimal(account_id as int))),
        (account_key(account_id), Some(token_hash(token))),
    ]
}

/// The effect of a command seen as a key and the value it leaves (`None` for a
/// deletion).
pub open spec fn command_effect(c: RedisCommand) -> Write {
    match c {
        RedisCommand::Del(k) => (k@, None),
        RedisCommand::SetEx(k, v, _) => (k@, Some(v@)),
    }
}

/// Every write keeps the session for three days.
pub open spec fn session_ttl(cmds: Seq<RedisCommand>) -> bool {
    forall|i: int| 0 <= i < cmds.len() ==> (#[trigger] cmds[i] matches RedisCommand::SetEx(_, _, ttl) ==> ttl == REFRESH_TOKEN_EXPIRES_IN_SECONDS)
}

/// The writes that record `refresh_token` as the account's only session.
/// `old_hash` is what the store held under `account:{id}:refresh` just before.
pub fn save_refresh_token(refresh_token: &str, account_id: i64, old_hash: Option<String>) -> (r: Vec<RedisCommand>)
    ensures
        writes_of(r@) == save_commands(
            refresh_token@,
            account_id,
            match old_hash { Some(h) => Some(h@), None => None },
        ),
        session_ttl(r@),
{
    let account_key = generate_account_refresh_key(account_id);
    let token_hash = hash_refresh_token(refresh_token);
    let new_key = generate_refresh_key(token_hash.as_str());
    let mut cmds: Vec<RedisCommand> = Vec::new();
    match &old_hash {
        Some(h) => {
            cmds.push(RedisCommand::Del(generate_refresh_key(h.as_str())));
        },
        None => {},
    }
    cmds.push(RedisCommand::SetEx(new_key, format_i64(account_id), REFRESH_TOKEN_EXPIRES_IN_SECONDS));
    cmds.push(RedisCommand::SetEx(account_key, token_hash, REFRESH_TOKEN_EXPIRES_IN_SECONDS));
    proof {
        let h = match old_hash { Some(h) => Some(h@), None => None::<Seq<char>> };
        assert(writes_of(cmds@) =~= save_commands(refresh_token@, account_id, h));
    }
    cmds
}


/// The writes that replace the account's session `old_token` by `new_token`.
pub open spec fn rotate_commands(old_token: Seq<char>, new_token: Seq<char>, account_id: i64) -> Seq<Write> {
    seq![
        (refresh_key(token_hash(old_token)), None::<Seq<char>>),
        (refresh_key(token_hash(new_token)), Some(signed_decimal(account_id as int))),
        (account_key(account_id), Some(token_hash(new_token))),
    ]
}

/// Replaces the account's session `old_refresh_token` by `new_refresh_token`,
/// so that the old token cannot be used again. `current_hash` is what the
/// store held under `account:{id}:refresh` just before; unless it is the hash
/// of the old token, the request is refused and nothing is written.
pub fn rotate_refresh_token(
    old_refresh_token: &str,
    new_refresh_token: &str,
    account_id: i64,
    current_hash: Option<String>,
) -> (r: Result<Vec<RedisCommand>, AppError>)
    ensures
        match r {
            Ok(cmds) => current_hash matches Some(h) && h@ == token_hash(old_refresh_token@)
                && writes_of(cmds@) == rotate_commands(old_refresh_token@, new_refresh_token@, account_id)
                && session_ttl(cmds@),
            Err(e) => !(current_hash matches Some(h) && h@ == token_hash(old_refresh_token@))
                && e matches AppError::Unauthorized,
        },
{
    let old_token_hash = hash_refresh_token(old_refresh_token);
    let new_token_hash = hash_refresh_token(new_refresh_token);
    let old_refresh_key = generate_refresh_key(old_token_hash.as_str());
    let new_refresh_key = generate_refresh_key(new_token_hash.as_str());
    let account_refresh_key = generate_account_refresh_key(account_id);
    let matches = match &current_hash {
        Some(h) => str_eq(h.as_str(), old_token_hash.as_str()),
        None => false,
    };
    if !matches {
        return Err(AppError::Unauthorized);
    }
    let mut cmds: Vec<RedisCommand> = Vec::new();
    cmds.push(RedisCommand::Del(old_refresh_key));
    cmds.push(RedisCommand::SetEx(new_refresh_key, format_i64(account_id), REFRESH_TOKEN_EXPIRES_IN_SECONDS));
    cmds.push(RedisCommand::SetEx(account_refresh_key, new_token_hash, REFRESH_TOKEN_EXPIRES_IN_SECONDS));
    assert(writes_of(cmds@) =~= rotate_commands(old_refresh_token@, new_refresh_token@, account_id));
    Ok(cmds)
}

/// The account id that a token's session record holds. `stored` is what the
/// store held under `refresh:{hash}` for the token: no record means no
/// session; a record that is not a decimal `i64` is an internal error.
pub fn find_refresh_token(stored: Option<String>) -> (r: Result<Option<i64>, AppError>)
    ensures
        match find_result(match stored { Some(v) => Some(v@), None => None }) {
            Ok(x) => r == Ok::<Option<i64>, AppError>(x),
            Err(()) => r matches Err(AppError::Internal(_)),
        },
{
    match stored {
        Some(value) => match parse_i64(value.as_str()) {
            Some(account_id) => Ok(Some(account_id)),
            None => Err(AppError::Internal(String::from_str("Redis에 저장된 account_id 형식이 올바르지 않습니다."))),
        },
        None => Ok(None),
    }
}

/// The key under which a token's session record is looked up.
pub fn refresh_lookup_key(refresh_token: &str) -> (r: String)
    ensures
        r@ == refresh_key(token_hash(refresh_token@)),
{
    let token_hash = hash_refresh_token(refresh_token);
    generate_refresh_key(token_hash.as_str())
}

/// The writes that end the session of `token` for the account.
pub open spec fn delete_commands(token: Seq<char>, account_id: i64) -> Seq<Write> {
    seq![(refresh_key(token_hash(token)), None::<Seq<char>>), (account_key(account_id), None::<Seq<char>>)]
}

/// Deletes the session of `refresh_token` and the account's session record.
pub fn delete_refresh_token(refresh_token: &str, account_id: i64) -> (r: Vec<RedisCommand>)
    ensures
        writes_of(r@) == delete_commands(refresh_token@, account_id),
{
    let token_hash = hash_refresh_token(refresh_token);
    let refresh_key = generate_refresh_key(token_hash.as_str());
    let account_refresh_key = generate_account_refresh_key(account_id);
    let mut cmds: Vec<RedisCommand> = Vec::new();
    cmds.push(RedisCommand::Del(refresh_key));
    cmds.push(RedisCommand::Del(account_refresh_key));
    assert(writes_of(cmds@) =~= delete_commands(refresh_token@, account_id));
    cmds
}

proof fn lemma_refresh_key_injective(a: Seq<char>, b: Seq<char>)
    requires
        refresh_key(a) == refresh_key(b),
    ensures
        a == b,
{
    reveal_strlit("refresh:");
    assert(a =~= refresh_key(a).subrange(8, refresh_key(a).len() as int));
    assert(b =~= refresh_key(b).subrange(8, refresh_key(b).len() as int));
}

proof fn lemma_keys_distinct(h: Seq<char>, account_id: i64)
    ensures
        refresh_key(h) != account_key(account_id),
{
    reveal_strlit("refresh:");
    reveal_strlit("account:");
    assert(refresh_key(h)[0] == 'r');
    assert(account_key(account_id)[0] == 'a');
}

proof fn lemma_apply_three(store: Map<Seq<char>, Seq<char>>, a: Write, b: Write, c: Write)
    ensures
        apply_writes(store, seq![a, b, c]) == apply_write(apply_write(apply_write(store, a), b), c),
{
    let ws = seq![a, b, c];
    assert(ws.drop_first() =~= seq![b, c]);
    lemma_apply_two(apply_write(store, a), b, c);
}

proof fn lemma_apply_two(store: Map<Seq<char>, Seq<char>>, a: Write, b: Write)
    ensures
        apply_writes(store, seq![a, b]) == apply_write(apply_write(store, a), b),
{
    let s1 = apply_write(store, a);
    let s2 = apply_write(s1, b);
    assert(seq![a, b].drop_first() =~= seq![b]);
    assert(seq![b].drop_first() =~= Seq::<Write>::empty());
    assert(apply_writes(s2, Seq::<Write>::empty()) == s2);
    assert(apply_writes(s1, seq![b]) == apply_writes(s2, seq![b].drop_first()));
    assert(apply_writes(store, seq![a, b]) == apply_writes(s1, seq![a, b].drop_first()));
}

/// Saving a session and then looking the token up gives the account back; the
/// account's record names the new token, and the account's previous token (if
/// it had another one) no longer finds anything.
pub proof fn lemma_save_then_find(store: Map<Seq<char>, Seq<char>>, token: Seq<char>, account_id: i64)
    ensures
        ({
            let old_hash = lookup(store, account_key(account_id));
            let after = apply_writes(store, save_commands(token, account_id, old_hash));
            &&& find_result(lookup(after, refresh_key(token_hash(token)))) == Ok::<Option<i64>, ()>(Some(account_id))
            &&& lookup(after, account_key(account_id)) == Some(token_hash(token))
            &&& (old_hash matches Some(h) ==> (h != token_hash(token)
                ==> lookup(after, refresh_key(h)) == None::<Seq<char>>))
        }),
{
    let old_hash = lookup(store, account_key(account_id));
    let nk = refresh_key(token_hash(token));
    let ak = account_key(account_id);
    lemma_keys_distinct(token_hash(token), account_id);
    lemma_parse_format_i64(account_id);
    let w1 = (nk, Some(signed_decimal(account_id as int)));
    let w2 = (ak, Some(token_hash(token)));
    match old_hash {
        Some(h) => {
            let w0 = (refresh_key(h), None::<Seq<char>>);
            assert(save_commands(token, account_id, old_hash) =~= seq![w0, w1, w2]);
            lemma_apply_three(store, w0, w1, w2);
            lemma_keys_distinct(h, account_id);
            if h != token_hash(token) {
                if refresh_key(h) == nk {
                    lemma_refresh_key_injective(h, token_hash(token));
                }
            }
        },
        None => {
            assert(save_commands(token, account_id, old_hash) =~= seq![w1, w2]);
            lemma_apply_two(store, w1, w2);
        },
    }
}

/// After a rotation the old token finds nothing, the new token finds the
/// account, and the account's record names the new token (tokens whose hashes
/// differ).
pub proof fn lemma_rotate_then_find(
    store: Map<Seq<char>, Seq<char>>,
    old_token: Seq<char>,
    new_token: Seq<char>,
    account_id: i64,
)
    requires
        token_hash(old_token) != token_hash(new_token),
    ensures
        ({
            let after = apply_writes(store, rotate_commands(old_token, new_token, account_id));
            &&& find_result(lookup(after, refresh_key(token_hash(old_token)))) == Ok::<Option<i64>, ()>(None)
            &&& find_result(lookup(after, refresh_key(token_hash(new_token)))) == Ok::<Option<i64>, ()>(Some(account_id))
            &&& lookup(after, account_key(account_id)) == Some(token_hash(new_token))
        }),
{
    let ok = refresh_key(token_hash(old_token));
    let nk = refresh_key(token_hash(new_token));
    let ak = account_key(account_id);
    let w0 = (ok, None::<Seq<char>>);
    let w1 = (nk, Some(signed_decimal(account_id as int)));
    let w2 = (ak, Some(token_hash(new_token)));
    lemma_apply_three(store, w0, w1, w2);
    lemma_keys_distinct(token_hash(old_token), account_id);
    lemma_keys_distinct(token_hash(new_token), account_id);
    lemma_parse_format_i64(account_id);
    if ok == nk {
        lemma_refresh_key_injective(token_hash(old_token), token_hash(new_token));
    }
}

/// After a logout deletes a session, the token finds nothing and the account
/// has no session record.
pub proof fn lemma_delete_then_find(store: Map<Seq<char>, Seq<char>>, token: Seq<char>, account_id: i64)
    ensures
        ({
            let after = apply_writes(store, delete_commands(token, account_id));
            &&& find_result(lookup(after, refresh_key(token_hash(token)))) == Ok::<Option<i64>, ()>(None)
            &&& lookup(after, account_key(account_id)) == None::<Seq<char>>
        }),
{
    let w0 = (refresh_key(token_hash(token)), None::<Seq<char>>);
    let w1 = (account_key(account_id), None::<Seq<char>>);
    lemma_apply_two(store, w0, w1);
}

} // verus!
