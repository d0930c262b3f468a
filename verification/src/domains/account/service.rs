//! The account flows. Each flow that waits on the database or the session
//! store is a state machine: the caller performs the action that a step
//! returns and hands its outcome back as the next event. Every decision of a
//! flow is made here.
use vstd::prelude::*;
use crate::common::auth::jwt::{
    checked_payload, clock_leaves_dates, clock_now, hs256_payload, is_claims_text, issued,
    lemma_claims_json_injective, seconds_in_range, Claims, JwtConfig,
};
use crate::common::auth::refresh_token::{
    account_key, delete_commands, delete_refresh_token, find_refresh_token, find_result,
    generate_account_refresh_key, generate_refresh_token, is_refresh_token_text, refresh_key,
    refresh_lookup_key, rotate_commands, rotate_refresh_token, save_commands, save_refresh_token,
    token_hash, writes_of, RedisCommand,
};
use crate::common::auth::role::{invalid_role_message, role_named, AccountRole};
use crate::common::error::{
    bad_request_message, database_failure, internal_message, missing_row_message, AppError,
};
use crate::common::security::password::{hash_password, hashes};
use vstd::utf8::encode_utf8;
use crate::common::security::password::{argon2_accepts, phc_parses, verify_password};
use crate::common::text::{all_ascii, ascii_lowercase, lemma_ascii_normal_form_idempotent, push_signed_decimal, signed_decimal, to_lowercase, trim, trimmed, unicode_lowercase};
use crate::domains::account::dto::{AccountResponseDto, CreateAccountDto, LoginAccountDto};
use crate::domains::account::entity::AccountEntity;
use crate::domains::account::repository::{
    all_roles_known, assign_role_outcome, email_taken_message, role_failure_message, roles_from_names,
    stored_role, CreateAccountParams,
};

verus! {

/// The tokens handed to a client: the access token for the body, the
/// refresh token for the cookie.
#[derive(Debug)]
pub struct TokenResult {
    pub access_token: String,
    pub refresh_token: String,
}

/// An e-mail as stored and looked up: trimmed and lowercased.
pub open spec fn normalized_email(email: Seq<char>) -> Seq<char> {
    unicode_lowercase(trimmed(email))
}

/// Trims and lowercases an e-mail.
pub fn normalize_email(email: &str) -> (r: String)
    ensures
        r@ == normalized_email(email@),
        all_ascii(trimmed(email@)) ==> r@ == ascii_lowercase(trimmed(email@)),
{
    let t = trim(email);
    to_lowercase(t.as_str())
}

/// An ASCII e-mail, once normalised, normalises to itself: with the ASCII
/// clause of `normalize_email`, normalising twice gives what normalising once
/// gives, so `LOGIN@EXAMPLE.COM ` and `login@example.com` find the same account.
pub proof fn lemma_email_normal_form(email: Seq<char>)
    requires
        all_ascii(trimmed(email)),
    ensures
        all_ascii(trimmed(ascii_lowercase(trimmed(email)))),
        ascii_lowercase(trimmed(ascii_lowercase(trimmed(email)))) == ascii_lowercase(trimmed(email)),
{
    lemma_ascii_normal_form_idempotent(email);
}

/// An account whose role names all name a role, and which has at least one,
/// is never refused for its roles: issuing its tokens either succeeds, with
/// an access token for exactly those roles, or fails only in making the
/// tokens (lifetime, clock or random bytes), never with a role error.
pub proof fn lemma_known_roles_get_tokens(
    jwt: JwtConfig,
    account_id: i64,
    names: Seq<String>,
    r: Result<(String, String), AppError>,
)
    requires
        tokens_outcome(jwt, account_id, names, r),
        forall|i: int| 0 <= i < names.len() ==> (#[trigger] stored_role(names[i]@)) is Some,
        names.len() > 0,
    ensures
        internal_message(r) != Some(role_failure_message()),
        internal_message(r) != Some(no_role_message(account_id)),
        r matches Ok((a, t)) ==> exists|now: int|
            #[trigger] issued(a@, jwt.secret(), account_id, now, jwt.expires_in() as int, roles_of(names)),
        r matches Ok((a, t)) ==> t@.len() == 64,
        seconds_in_range(jwt.expires_in()) && (forall|now: int| !#[trigger] clock_leaves_dates(now, jwt.expires_in() as int))
            ==> (r is Ok || internal_message(r) == Some("Refresh Token 생성에 실패했습니다."@)),
{
    reveal_strlit("계정 역할 처리 중 오류가 발생했습니다.");
    reveal_strlit("JWT 만료 시간 설정 범위를 초과했습니다.");
    reveal_strlit("JWT 만료 시간 계산에 실패했습니다.");
    reveal_strlit("Refresh Token 생성에 실패했습니다.");
    reveal_strlit("로그인 계정에 연결된 Role이 없습니다. account_id=");
    assert(role_failure_message()[0] == '계');
    assert(no_role_message(account_id)[0] == '로');
    assert("JWT 만료 시간 설정 범위를 초과했습니다."@[0] == 'J');
    assert("JWT 만료 시간 계산에 실패했습니다."@[0] == 'J');
    assert("Refresh Token 생성에 실패했습니다."@[0] == 'R');
}

/// The roles named by role names that all name a role.
pub open spec fn roles_of(names: Seq<String>) -> Seq<AccountRole> {
    names.map_values(|n: String| stored_role(n@).unwrap())
}

/// The message of an account that has no role.
pub open spec fn no_role_message(account_id: i64) -> Seq<char> {
    "로그인 계정에 연결된 Role이 없습니다. account_id="@ + signed_decimal(account_id as int)
}

/// Tokens issued for account `account_id` with the roles named by `names`: an
/// access token signed now, and a fresh refresh token.
pub open spec fn tokens_for(jwt: JwtConfig, account_id: i64, names: Seq<String>, access: Seq<char>, refresh: Seq<char>) -> bool {
    &&& (exists|now: int| #[trigger] issued(access, jwt.secret(), account_id, now, jwt.expires_in() as int, roles_of(names)))
    &&& is_refresh_token_text(refresh)
}

/// How making the tokens can fail: a lifetime that chrono cannot hold, a clock
/// reading from which the expiry leaves chrono's dates, or no random bytes from
/// the system for the refresh token.
pub open spec fn token_making_failure(jwt: JwtConfig, e: AppError) -> bool {
    let m = internal_message(Err::<(), AppError>(e));
    ||| !seconds_in_range(jwt.expires_in()) && m == Some("JWT 만료 시간 설정 범위를 초과했습니다."@)
    ||| seconds_in_range(jwt.expires_in()) && m == Some("JWT 만료 시간 계산에 실패했습니다."@) && exists|now: int|
        #[trigger] clock_leaves_dates(now, jwt.expires_in() as int)
    ||| m == Some("Refresh Token 생성에 실패했습니다."@)
}

/// What issuing tokens from the role names read for an account gives: an
/// internal error for a name that is no role or for no role at all, else the
/// tokens, or an internal error of making them (the lifetime or the clock
/// reading outside chrono's dates, or no random bytes from the system).
pub open spec fn tokens_outcome(jwt: JwtConfig, account_id: i64, names: Seq<String>, r: Result<(String, String), AppError>) -> bool {
    if !all_roles_known(names) {
        internal_message(r) == Some(role_failure_message())
    } else if names.len() == 0 {
        internal_message(r) == Some(no_role_message(account_id))
    } else {
        match r {
            Ok((a, t)) => tokens_for(jwt, account_id, names, a@, t@),
            Err(e) => token_making_failure(jwt, e),
        }
    }
}

/// Issues the tokens of an account from the role names read for it.
fn issue_tokens(jwt: &JwtConfig, account_id: i64, names: &Vec<String>) -> (r: Result<(String, String), AppError>)
    ensures
        tokens_outcome(*jwt, account_id, names@, r),
{
    let roles = match roles_from_names(names) {
        Ok(rs) => rs,
        Err(e) => {
            return Err(e);
        },
    };
    if roles.len() == 0 {
        let mut m = String::from_str("로그인 계정에 연결된 Role이 없습니다. account_id=");
        push_signed_decimal(&mut m, account_id);
        return Err(AppError::Internal(m));
    }
    let ghost rs = roles@;
    assert(rs =~= roles_of(names@));
    let access_token = match jwt.create_access_token(account_id, roles) {
        Ok(t) => t,
        Err(e) => {
            return Err(e);
        },
    };
    let refresh_token = match generate_refresh_token() {
        Ok(t) => t,
        Err(e) => {
            return Err(e);
        },
    };
    Ok((access_token, refresh_token))
}

/// Where a login stands.
pub enum LoginState {
    /// The account of the e-mail is being read; the password is still to be checked.
    AwaitAccount { password: String },
    /// The password was accepted; the account's role names are being read.
    AwaitRoles { account_id: i64 },
    /// Tokens are issued; the account's current session is being read.
    AwaitSession { account_id: i64, access_token: String, refresh_token: String },
    /// The new session is being written.
    AwaitWrite { access_token: String, refresh_token: String },
    /// The login is over.
    Finished,
}

/// The outcome of a login's last action.
pub enum LoginEvent {
    /// The account with the e-mail, if any.
    Account(Result<Option<AccountEntity>, AppError>),
    /// The account's role names.
    RoleNames(Result<Vec<String>, AppError>),
    /// What the session store holds under the account's key.
    Session(Result<Option<String>, AppError>),
    /// Whether the session writes were applied.
    Written(Result<(), AppError>),
}

/// What a login asks for next.
pub enum LoginAction {
    /// Read the account with this (normalised) e-mail.
    FindAccount(String),
    /// Read the role names of this account.
    FindRoles(i64),
    /// Read the session store at this key.
    ReadSession(String),
    /// Apply these session writes at once (`MULTI`/`EXEC`).
    WriteSession(Vec<RedisCommand>),
    /// Answer the request.
    Finish(Result<TokenResult, AppError>),
}

/// The event answers the action that led to the state.
pub open spec fn login_event_fits(s: LoginState, e: LoginEvent) -> bool {
    match s {
        LoginState::AwaitAccount { .. } => e is Account,
        LoginState::AwaitRoles { .. } => e is RoleNames,
        LoginState::AwaitSession { .. } => e is Session,
        LoginState::AwaitWrite { .. } => e is Written,
        LoginState::Finished => false,
    }
}

/// The answer a login finishes with, if it finishes.
pub open spec fn login_answer(a: LoginAction) -> Option<Result<TokenResult, AppError>> {
    match a {
        LoginAction::Finish(r) => Some(r),
        _ => None,
    }
}

/// A login starts by reading the account of the normalised e-mail.
pub fn login_start(payload: &LoginAccountDto) -> (r: (LoginState, LoginAction))
    ensures
        r.0 matches LoginState::AwaitAccount { password } && password@ == payload.password@,
        r.1 matches LoginAction::FindAccount(e) && e@ == normalized_email(payload.email@),
{
    let email = normalize_email(payload.email.as_str());
    let password = payload.password.clone();
    (LoginState::AwaitAccount { password }, LoginAction::FindAccount(email))
}

/// One step of a login.
pub fn login_step(jwt: &JwtConfig, state: LoginState, event: LoginEvent) -> (r: (LoginState, LoginAction))
    requires
        login_event_fits(state, event),
    ensures
        r.0 is Finished <==> r.1 is Finish,
        r.1 is WriteSession <==> r.0 is AwaitWrite,
        r.1 is WriteSession ==> state is AwaitSession,
        match (state, event) {
            (LoginState::AwaitAccount { password }, LoginEvent::Account(found)) => match found {
                Err(e) => login_answer(r.1) == Some(Err::<TokenResult, AppError>(e)),
                Ok(None) => login_answer(r.1) == Some(Err::<TokenResult, AppError>(AppError::InvalidCredentials)),
                Ok(Some(account)) => if !phc_parses(account.password_hash@) {
                    login_answer(r.1) matches Some(x) && internal_message(x) == Some(
                        "비밀번호 해시 형식이 올바르지 않습니다."@,
                    )
                } else if !argon2_accepts(password@, account.password_hash@) {
                    login_answer(r.1) == Some(Err::<TokenResult, AppError>(AppError::InvalidCredentials))
                } else {
                    r.0 == LoginState::AwaitRoles { account_id: account.id } && r.1 == LoginAction::FindRoles(
                        account.id,
                    )
                },
            },
            (LoginState::AwaitRoles { account_id }, LoginEvent::RoleNames(read)) => match read {
                Err(e) => login_answer(r.1) == Some(Err::<TokenResult, AppError>(e)),
                Ok(names) => match r.0 {
                    LoginState::AwaitSession { account_id: id, access_token, refresh_token } => {
                        &&& id == account_id
                        &&& all_roles_known(names@) && names@.len() > 0
                        &&& tokens_for(*jwt, account_id, names@, access_token@, refresh_token@)
                        &&& r.1 matches LoginAction::ReadSession(k) && k@ == account_key(account_id)
                    },
                    LoginState::Finished => login_answer(r.1) matches Some(Err(e)) && tokens_outcome(
                        *jwt,
                        account_id,
                        names@,
                        Err::<(String, String), AppError>(e),
                    ),
                    _ => false,
                },
            },
            (LoginState::AwaitSession { account_id, access_token, refresh_token }, LoginEvent::Session(read)) =>
                match read {
                Err(e) => login_answer(r.1) == Some(Err::<TokenResult, AppError>(e)),
                Ok(old_hash) => {
                    &&& r.0 matches LoginState::AwaitWrite { access_token: a, refresh_token: t } && a@
                        == access_token@ && t@ == refresh_token@
                    &&& r.1 matches LoginAction::WriteSession(cmds) && writes_of(cmds@) == save_commands(
                        refresh_token@,
                        account_id,
                        match old_hash {
                            Some(h) => Some(h@),
                            None => None,
                        },
                    )
                },
            },
            (LoginState::AwaitWrite { access_token, refresh_token }, LoginEvent::Written(done)) => match done {
                Err(e) => login_answer(r.1) == Some(Err::<TokenResult, AppError>(e)),
                Ok(()) => login_answer(r.1) matches Some(Ok(t)) && t.access_token@ == access_token@
                    && t.refresh_token@ == refresh_token@,
            },
            _ => false,
        },
{
    match (state, event) {
        (LoginState::AwaitAccount { password }, LoginEvent::Account(found)) => {
            let account = match found {
                Err(e) => {
                    return (LoginState::Finished, LoginAction::Finish(Err(e)));
                },
                Ok(None) => {
                    return (LoginState::Finished, LoginAction::Finish(Err(AppError::InvalidCredentials)));
                },
                Ok(Some(a)) => a,
            };
            match verify_password(password.as_str(), account.password_hash.as_str()) {
                Err(e) => (LoginState::Finished, LoginAction::Finish(Err(e))),
                Ok(false) => (LoginState::Finished, LoginAction::Finish(Err(AppError::InvalidCredentials))),
                Ok(true) => (
                    LoginState::AwaitRoles { account_id: account.id },
                    LoginAction::FindRoles(account.id),
                ),
            }
        },
        (LoginState::AwaitRoles { account_id }, LoginEvent::RoleNames(read)) => {
            let names = match read {
                Err(e) => {
                    return (LoginState::Finished, LoginAction::Finish(Err(e)));
                },
                Ok(n) => n,
            };
            match issue_tokens(jwt, account_id, &names) {
                Err(e) => (LoginState::Finished, LoginAction::Finish(Err(e))),
                Ok((access_token, refresh_token)) => {
                    let key = generate_account_refresh_key(account_id);
                    (
                        LoginState::AwaitSession { account_id, access_token, refresh_token },
                        LoginAction::ReadSession(key),
                    )
                },
            }
        },
        (LoginState::AwaitSession { account_id, access_token, refresh_token }, LoginEvent::Session(read)) => {
            let old_hash = match read {
                Err(e) => {
                    return (LoginState::Finished, LoginAction::Finish(Err(e)));
                },
                Ok(h) => h,
            };
            let cmds = save_refresh_token(refresh_token.as_str(), account_id, old_hash);
            (LoginState::AwaitWrite { access_token, refresh_token }, LoginAction::WriteSession(cmds))
        },
        (LoginState::AwaitWrite { access_token, refresh_token }, LoginEvent::Written(done)) => match done {
            Err(e) => (LoginState::Finished, LoginAction::Finish(Err(e))),
            Ok(()) => (LoginState::Finished, LoginAction::Finish(Ok(TokenResult { access_token, refresh_token }))),
        },
        _ => (LoginState::Finished, LoginAction::Finish(Err(AppError::Unauthorized))),
    }
}


/// The stored value under a key, as a view.
pub open spec fn stored_view(v: Option<String>) -> Option<Seq<char>> {
    match v {
        Some(s) => Some(s@),
        None => None,
    }
}

/// Where a token refresh stands.
pub enum RefreshState {
    /// The access token is expired and verified; the refresh token's session
    /// record is being read.
    AwaitOwner { account_id: i64, refresh_token: String },
    /// The session belongs to the token's account; its role names are being read.
    AwaitRoles { account_id: i64, refresh_token: String },
    /// New tokens are issued; the account's current session is being read.
    AwaitSession { account_id: i64, old_refresh_token: String, access_token: String, refresh_token: String },
    /// The rotated session is being written.
    AwaitWrite { access_token: String, refresh_token: String },
    /// The refresh is over.
    Finished,
}

/// The outcome of a refresh's last action.
pub enum RefreshEvent {
    /// What the session store holds under the refresh token's key.
    Owner(Result<Option<String>, AppError>),
    /// The account's role names.
    RoleNames(Result<Vec<String>, AppError>),
    /// What the session store holds under the account's key.
    Session(Result<Option<String>, AppError>),
    /// Whether the session writes were applied.
    Written(Result<(), AppError>),
}

/// What a refresh asks for next.
pub enum RefreshAction {
    /// Read the session store at this key (the refresh token's record).
    ReadOwner(String),
    /// Read the role names of this account.
    FindRoles(i64),
    /// Read the session store at this key (the account's record).
    ReadSession(String),
    /// Apply these session writes at once.
    WriteSession(Vec<RedisCommand>),
    /// Answer the request.
    Finish(Result<TokenResult, AppError>),
}

/// The event answers the action that led to the state.
pub open spec fn refresh_event_fits(s: RefreshState, e: RefreshEvent) -> bool {
    match s {
        RefreshState::AwaitOwner { .. } => e is Owner,
        RefreshState::AwaitRoles { .. } => e is RoleNames,
        RefreshState::AwaitSession { .. } => e is Session,
        RefreshState::AwaitWrite { .. } => e is Written,
        RefreshState::Finished => false,
    }
}

/// The answer a refresh finishes with, if it finishes.
pub open spec fn refresh_answer(a: RefreshAction) -> Option<Result<TokenResult, AppError>> {
    match a {
        RefreshAction::Finish(r) => Some(r),
        _ => None,
    }
}

/// What starting a refresh at the instant `now` gives: a finish is always
/// `Unauthorized`; otherwise the next step reads the refresh token's session
/// record, for the account of the access token, and that happens exactly when
/// the access token carries a valid signature and claims, and has expired
/// (`exp < now`).
pub open spec fn refresh_start_outcome(
    jwt: JwtConfig,
    access_token: Seq<char>,
    refresh_token: Seq<char>,
    now: i64,
    r: (RefreshState, RefreshAction),
) -> bool {
    &&& r.0 is Finished || r.0 is AwaitOwner
    &&& r.0 is Finished <==> r.1 is Finish
    &&& r.1 is Finish ==> refresh_answer(r.1) == Some(Err::<TokenResult, AppError>(AppError::Unauthorized))
    &&& forall|c: Claims|
        #![trigger checked_payload(hs256_payload(access_token, jwt.secret()), Ok::<Claims, AppError>(c))]
        checked_payload(hs256_payload(access_token, jwt.secret()), Ok::<Claims, AppError>(c)) ==> (
        (c.exp as int) < (now as usize) as int <==> (r.0 matches RefreshState::AwaitOwner { account_id, .. }
            && account_id == c.sub))
    &&& match r.0 {
        RefreshState::AwaitOwner { account_id, refresh_token: t } => {
            &&& t@ == refresh_token
            &&& exists|c: Claims|
                #![trigger checked_payload(hs256_payload(access_token, jwt.secret()), Ok::<Claims, AppError>(c))]
                checked_payload(hs256_payload(access_token, jwt.secret()), Ok::<Claims, AppError>(c))
                    && c.sub == account_id && (c.exp as int) < (now as usize) as int
            &&& r.1 matches RefreshAction::ReadOwner(k) && k@ == refresh_key(token_hash(refresh_token))
        },
        _ => true,
    }
}

/// A refresh starts at the instant `now` (seconds since the epoch): the access
/// token must carry a valid signature and must have expired (`exp < now`);
/// then the refresh token's session record is read.
pub fn refresh_start_at(jwt: &JwtConfig, access_token: &str, refresh_token: &str, now: i64) -> (r: (
    RefreshState,
    RefreshAction,
))
    ensures
        refresh_start_outcome(*jwt, access_token@, refresh_token@, now, r),
        hs256_payload(access_token@, jwt.secret()) is None ==> refresh_answer(r.1) == Some(
            Err::<TokenResult, AppError>(AppError::Unauthorized),
        ),
{
    let ghost payload = hs256_payload(access_token@, jwt.secret());
    let claims = match jwt.verify_expired_access_token(access_token) {
        Ok(c) => c,
        Err(e) => {
            proof {
                assert forall|c: Claims|
                    #![trigger checked_payload(payload, Ok::<Claims, AppError>(c))]
                    checked_payload(payload, Ok::<Claims, AppError>(c)) implies false by {
                    assert(is_claims_text(c.json()));
                }
            }
            return (RefreshState::Finished, RefreshAction::Finish(Err(e)));
        },
    };
    proof {
        assert forall|c: Claims|
            #![trigger checked_payload(payload, Ok::<Claims, AppError>(c))]
            checked_payload(payload, Ok::<Claims, AppError>(c)) implies c.sub == claims.sub && c.exp
                == claims.exp by {
            lemma_claims_json_injective(
                c.sub, c.exp as nat, c.iat as nat, c.roles@,
                claims.sub, claims.exp as nat, claims.iat as nat, claims.roles@,
            );
        }
    }
    let now_u = #[verifier::truncate] (now as usize);
    if claims.exp >= now_u {
        return (RefreshState::Finished, RefreshAction::Finish(Err(AppError::Unauthorized)));
    }
    let key = refresh_lookup_key(refresh_token);
    let t = refresh_token.to_string();
    (RefreshState::AwaitOwner { account_id: claims.sub, refresh_token: t }, RefreshAction::ReadOwner(key))
}

/// A refresh starts now: as `refresh_start_at` at the clock's reading.
pub fn refresh_start(jwt: &JwtConfig, access_token: &str, refresh_token: &str) -> (r: (RefreshState, RefreshAction))
    ensures
        exists|now: i64| #[trigger] refresh_start_outcome(*jwt, access_token@, refresh_token@, now, r),
        hs256_payload(access_token@, jwt.secret()) is None ==> refresh_answer(r.1) == Some(
            Err::<TokenResult, AppError>(AppError::Unauthorized),
        ),
{
    let (secs, _) = clock_now();
    refresh_start_at(jwt, access_token, refresh_token, secs)
}

/// The shape of every refresh step: it finishes exactly when it answers;
/// session writes are asked for only right after the checks, from the state
/// that read the account's session, and lead to waiting on them; the step
/// after the writes finishes with their outcome.
pub open spec fn refresh_step_shape(state: RefreshState, event: RefreshEvent, r: (RefreshState, RefreshAction)) -> bool {
    &&& r.0 is Finished <==> r.1 is Finish
    &&& r.1 is WriteSession <==> r.0 is AwaitWrite
    &&& r.1 is WriteSession ==> state is AwaitSession
    &&& state is AwaitWrite ==> (event matches RefreshEvent::Written(done) && refresh_answer(r.1) matches Some(x)
        && (x is Ok <==> done is Ok))
}

/// A run of a refresh: the start, then each step fed the event that answers
/// the action before it. `actions[i]` is the action of `states[i]`;
/// `events[i]` answers it and leads to `states[i + 1]`.
pub open spec fn refresh_run(
    jwt: JwtConfig,
    access_token: Seq<char>,
    refresh_token: Seq<char>,
    now: i64,
    states: Seq<RefreshState>,
    events: Seq<RefreshEvent>,
    actions: Seq<RefreshAction>,
) -> bool {
    &&& states.len() == actions.len()
    &&& states.len() == events.len() + 1
    &&& refresh_start_outcome(jwt, access_token, refresh_token, now, (states[0], actions[0]))
    &&& forall|i: int|
        0 <= i < events.len() ==> refresh_event_fits(states[i], #[trigger] events[i]) && refresh_step_shape(
            states[i],
            events[i],
            (states[i + 1], actions[i + 1]),
        )
}

/// A refresh that is refused writes nothing: when a run ends in an error that
/// does not answer the session writes themselves (a bad, unexpired or foreign
/// access token, an unknown refresh token, a mismatched account, missing
/// roles, a failed rotation check, or a failed read), no step of it asked for
/// a session write. The session writes are asked for once, after every
/// check, and are applied at once (`MULTI`/`EXEC`).
pub proof fn lemma_refused_refresh_writes_nothing(
    jwt: JwtConfig,
    access_token: Seq<char>,
    refresh_token: Seq<char>,
    now: i64,
    states: Seq<RefreshState>,
    events: Seq<RefreshEvent>,
    actions: Seq<RefreshAction>,
)
    requires
        refresh_run(jwt, access_token, refresh_token, now, states, events, actions),
        refresh_answer(actions.last()) matches Some(x) && x is Err,
        events.len() > 0 ==> !(events.last() is Written),
    ensures
        forall|i: int| 0 <= i < actions.len() ==> !(#[trigger] actions[i] is WriteSession),
{
    assert forall|i: int| 0 <= i < actions.len() implies !(#[trigger] actions[i] is WriteSession) by {
        if actions[i] is WriteSession {
            assert(i > 0);
            assert(states[i] is AwaitWrite) by {
                assert(refresh_step_shape(states[i - 1], events[i - 1], (states[i], actions[i])));
            }
            if i == events.len() {
                assert(actions[i] == actions.last());
            } else {
                assert(refresh_event_fits(states[i], events[i]));
                assert(refresh_step_shape(states[i], events[i], (states[i + 1], actions[i + 1])));
                assert(states[i + 1] is Finished);
                if i + 1 < events.len() {
                    assert(refresh_event_fits(states[i + 1], events[i + 1]));
                } else {
                    assert(events[i] == events.last());
                }
            }
        }
    }
}

/// One step of a refresh.
pub fn refresh_step(jwt: &JwtConfig, state: RefreshState, event: RefreshEvent) -> (r: (RefreshState, RefreshAction))
    requires
        refresh_event_fits(state, event),
    ensures
        refresh_step_shape(state, event, r),
        match (state, event) {
            (RefreshState::AwaitOwner { account_id, refresh_token }, RefreshEvent::Owner(read)) => match read {
                Err(e) => refresh_answer(r.1) == Some(Err::<TokenResult, AppError>(e)),
                Ok(stored) => match find_result(stored_view(stored)) {
                    Err(()) => refresh_answer(r.1) matches Some(Err(e)) && e is Internal,
                    Ok(None) => refresh_answer(r.1) == Some(Err::<TokenResult, AppError>(AppError::Unauthorized)),
                    Ok(Some(owner)) => if owner != account_id {
                        refresh_answer(r.1) == Some(Err::<TokenResult, AppError>(AppError::Unauthorized))
                    } else {
                        &&& r.0 matches RefreshState::AwaitRoles { account_id: id, refresh_token: t } && id
                            == account_id && t@ == refresh_token@
                        &&& r.1 == RefreshAction::FindRoles(account_id)
                    },
                },
            },
            (RefreshState::AwaitRoles { account_id, refresh_token }, RefreshEvent::RoleNames(read)) => match read {
                Err(e) => refresh_answer(r.1) == Some(Err::<TokenResult, AppError>(e)),
                Ok(names) => match r.0 {
                    RefreshState::AwaitSession { account_id: id, old_refresh_token, access_token, refresh_token: t } => {
                        &&& id == account_id && old_refresh_token@ == refresh_token@
                        &&& all_roles_known(names@) && names@.len() > 0
                        &&& tokens_for(*jwt, account_id, names@, access_token@, t@)
                        &&& r.1 matches RefreshAction::ReadSession(k) && k@ == account_key(account_id)
                    },
                    RefreshState::Finished => refresh_answer(r.1) matches Some(Err(e)) && tokens_outcome(
                        *jwt,
                        account_id,
                        names@,
                        Err::<(String, String), AppError>(e),
                    ),
                    _ => false,
                },
            },
            (
                RefreshState::AwaitSession { account_id, old_refresh_token, access_token, refresh_token },
                RefreshEvent::Session(read),
            ) => match read {
                Err(e) => refresh_answer(r.1) == Some(Err::<TokenResult, AppError>(e)),
                Ok(current) => if current matches Some(h) && h@ == token_hash(old_refresh_token@) {
                    &&& r.0 matches RefreshState::AwaitWrite { access_token: a, refresh_token: t } && a@
                        == access_token@ && t@ == refresh_token@
                    &&& r.1 matches RefreshAction::WriteSession(cmds) && writes_of(cmds@) == rotate_commands(
                        old_refresh_token@,
                        refresh_token@,
                        account_id,
                    )
                } else {
                    refresh_answer(r.1) == Some(Err::<TokenResult, AppError>(AppError::Unauthorized))
                },
            },
            (RefreshState::AwaitWrite { access_token, refresh_token }, RefreshEvent::Written(done)) => match done {
                Err(e) => refresh_answer(r.1) == Some(Err::<TokenResult, AppError>(e)),
                Ok(()) => refresh_answer(r.1) matches Some(Ok(t)) && t.access_token@ == access_token@
                    && t.refresh_token@ == refresh_token@,
            },
            _ => false,
        },
{
    match (state, event) {
        (RefreshState::AwaitOwner { account_id, refresh_token }, RefreshEvent::Owner(read)) => {
            let stored = match read {
                Err(e) => {
                    return (RefreshState::Finished, RefreshAction::Finish(Err(e)));
                },
                Ok(v) => v,
            };
            let ghost sv = stored_view(stored);
            match find_refresh_token(stored) {
                Err(e) => (RefreshState::Finished, RefreshAction::Finish(Err(e))),
                Ok(None) => (RefreshState::Finished, RefreshAction::Finish(Err(AppError::Unauthorized))),
                Ok(Some(owner)) => {
                    if owner != account_id {
                        (RefreshState::Finished, RefreshAction::Finish(Err(AppError::Unauthorized)))
                    } else {
                        (RefreshState::AwaitRoles { account_id, refresh_token }, RefreshAction::FindRoles(account_id))
                    }
                },
            }
        },
        (RefreshState::AwaitRoles { account_id, refresh_token }, RefreshEvent::RoleNames(read)) => {
            let names = match read {
                Err(e) => {
                    return (RefreshState::Finished, RefreshAction::Finish(Err(e)));
                },
                Ok(n) => n,
            };
            match issue_tokens(jwt, account_id, &names) {
                Err(e) => (RefreshState::Finished, RefreshAction::Finish(Err(e))),
                Ok((access_token, new_refresh_token)) => {
                    let key = generate_account_refresh_key(account_id);
                    (
                        RefreshState::AwaitSession {
                            account_id,
                            old_refresh_token: refresh_token,
                            access_token,
                            refresh_token: new_refresh_token,
                        },
                        RefreshAction::ReadSession(key),
                    )
                },
            }
        },
        (
            RefreshState::AwaitSession { account_id, old_refresh_token, access_token, refresh_token },
            RefreshEvent::Session(read),
        ) => {
            let current = match read {
                Err(e) => {
                    return (RefreshState::Finished, RefreshAction::Finish(Err(e)));
                },
                Ok(c) => c,
            };
            match rotate_refresh_token(old_refresh_token.as_str(), refresh_token.as_str(), account_id, current) {
                Err(e) => (RefreshState::Finished, RefreshAction::Finish(Err(e))),
                Ok(cmds) => (RefreshState::AwaitWrite { access_token, refresh_token }, RefreshAction::WriteSession(cmds)),
            }
        },
        (RefreshState::AwaitWrite { access_token, refresh_token }, RefreshEvent::Written(done)) => match done {
            Err(e) => (RefreshState::Finished, RefreshAction::Finish(Err(e))),
            Ok(()) => (
                RefreshState::Finished,
                RefreshAction::Finish(Ok(TokenResult { access_token, refresh_token })),
            ),
        },
        _ => (RefreshState::Finished, RefreshAction::Finish(Err(AppError::Unauthorized))),
    }
}


/// Where a logout stands.
pub enum LogoutState {
    /// The refresh token's session record is being read.
    AwaitOwner { account_id: i64, refresh_token: String },
    /// The session is being deleted.
    AwaitWrite,
    /// The logout is over.
    Finished,
}

/// The outcome of a logout's last action.
pub enum LogoutEvent {
    /// What the session store holds under the refresh token's key.
    Owner(Result<Option<String>, AppError>),
    /// Whether the deletes were applied.
    Written(Result<(), AppError>),
}

/// What a logout asks for next.
pub enum LogoutAction {
    /// Read the session store at this key (the refresh token's record).
    ReadOwner(String),
    /// Apply these session writes at once.
    WriteSession(Vec<RedisCommand>),
    /// Answer the request.
    Finish(Result<(), AppError>),
}

/// The event answers the action that led to the state.
pub open spec fn logout_event_fits(s: LogoutState, e: LogoutEvent) -> bool {
    match s {
        LogoutState::AwaitOwner { .. } => e is Owner,
        LogoutState::AwaitWrite => e is Written,
        LogoutState::Finished => false,
    }
}

/// The answer a logout finishes with, if it finishes.
pub open spec fn logout_answer(a: LogoutAction) -> Option<Result<(), AppError>> {
    match a {
        LogoutAction::Finish(r) => Some(r),
        _ => None,
    }
}

/// A logout of the authenticated account starts by reading the refresh
/// token's session record.
pub fn logout_start(account_id: i64, refresh_token: &str) -> (r: (LogoutState, LogoutAction))
    ensures
        r.0 matches LogoutState::AwaitOwner { account_id: id, refresh_token: t } && id == account_id && t@
            == refresh_token@,
        r.1 matches LogoutAction::ReadOwner(k) && k@ == refresh_key(token_hash(refresh_token@)),
{
    let key = refresh_lookup_key(refresh_token);
    (LogoutState::AwaitOwner { account_id, refresh_token: refresh_token.to_string() }, LogoutAction::ReadOwner(key))
}

/// One step of a logout: only the owner of a live session may end it.
pub fn logout_step(state: LogoutState, event: LogoutEvent) -> (r: (LogoutState, LogoutAction))
    requires
        logout_event_fits(state, event),
    ensures
        r.0 is Finished <==> r.1 is Finish,
        r.1 is WriteSession <==> r.0 is AwaitWrite,
        r.1 is WriteSession ==> state is AwaitOwner,
        match (state, event) {
            (LogoutState::AwaitOwner { account_id, refresh_token }, LogoutEvent::Owner(read)) => match read {
                Err(e) => logout_answer(r.1) == Some(Err::<(), AppError>(e)),
                Ok(stored) => match find_result(stored_view(stored)) {
                    Err(()) => logout_answer(r.1) matches Some(Err(e)) && e is Internal,
                    Ok(None) => logout_answer(r.1) == Some(Err::<(), AppError>(AppError::Unauthorized)),
                    Ok(Some(owner)) => if owner != account_id {
                        logout_answer(r.1) == Some(Err::<(), AppError>(AppError::Unauthorized))
                    } else {
                        &&& r.0 is AwaitWrite
                        &&& r.1 matches LogoutAction::WriteSession(cmds) && writes_of(cmds@)
                            == delete_commands(refresh_token@, account_id)
                    },
                },
            },
            (LogoutState::AwaitWrite, LogoutEvent::Written(done)) => logout_answer(r.1) == Some(done),
            _ => false,
        },
{
    match (state, event) {
        (LogoutState::AwaitOwner { account_id, refresh_token }, LogoutEvent::Owner(read)) => {
            let stored = match read {
                Err(e) => {
                    return (LogoutState::Finished, LogoutAction::Finish(Err(e)));
                },
                Ok(v) => v,
            };
            match find_refresh_token(stored) {
                Err(e) => (LogoutState::Finished, LogoutAction::Finish(Err(e))),
                Ok(None) => (LogoutState::Finished, LogoutAction::Finish(Err(AppError::Unauthorized))),
                Ok(Some(owner)) => {
                    if owner != account_id {
                        (LogoutState::Finished, LogoutAction::Finish(Err(AppError::Unauthorized)))
                    } else {
                        let cmds = delete_refresh_token(refresh_token.as_str(), account_id);
                        (LogoutState::AwaitWrite, LogoutAction::WriteSession(cmds))
                    }
                },
            }
        },
        (LogoutState::AwaitWrite, LogoutEvent::Written(done)) => (LogoutState::Finished, LogoutAction::Finish(done)),
        _ => (LogoutState::Finished, LogoutAction::Finish(Err(AppError::Unauthorized))),
    }
}

/// Where a sign-up stands.
pub enum CreateAccountState {
    /// Whether the normalised e-mail is taken is being read.
    AwaitExists { email: String, password: String, name: String, role: String },
    /// The account row is being inserted (in a transaction).
    AwaitInsert { role: AccountRole },
    /// The role is being linked to the new account.
    AwaitAssign,
    /// The transaction is being committed.
    AwaitCommit,
    /// The sign-up is over.
    Finished,
}

/// The outcome of a sign-up's last action.
pub enum CreateAccountEvent {
    /// Whether an account with the e-mail exists (`None` is read as no).
    Exists(Result<Option<bool>, AppError>),
    /// The id of the inserted account.
    Inserted(Result<i64, AppError>),
    /// How many rows linking the role were inserted.
    Assigned(Result<u64, AppError>),
    /// Whether the transaction was committed.
    Committed(Result<(), AppError>),
}

/// What a sign-up asks for next.
pub enum CreateAccountAction {
    /// Read whether an account with this e-mail exists.
    CheckEmail(String),
    /// Begin a transaction and insert this account.
    Insert(CreateAccountParams),
    /// Link this role to the account, in the same transaction.
    AssignRole(i64, AccountRole),
    /// Commit the transaction.
    Commit,
    /// Answer the request (a transaction still open is rolled back).
    Finish(Result<(), AppError>),
}

/// The event answers the action that led to the state.
pub open spec fn create_event_fits(s: CreateAccountState, e: CreateAccountEvent) -> bool {
    match s {
        CreateAccountState::AwaitExists { .. } => e is Exists,
        CreateAccountState::AwaitInsert { .. } => e is Inserted,
        CreateAccountState::AwaitAssign => e is Assigned,
        CreateAccountState::AwaitCommit => e is Committed,
        CreateAccountState::Finished => false,
    }
}

/// The answer a sign-up finishes with, if it finishes.
pub open spec fn create_answer(a: CreateAccountAction) -> Option<Result<(), AppError>> {
    match a {
        CreateAccountAction::Finish(r) => Some(r),
        _ => None,
    }
}

/// A sign-up starts by checking whether the normalised e-mail is taken.
pub fn create_account_start(payload: &CreateAccountDto) -> (r: (CreateAccountState, CreateAccountAction))
    ensures
        r.0 matches CreateAccountState::AwaitExists { email, password, name, role } && email@ == normalized_email(
            payload.email@,
        ) && password@ == payload.password@ && name@ == payload.name@ && role@ == payload.role@,
        r.1 matches CreateAccountAction::CheckEmail(e) && e@ == normalized_email(payload.email@),
{
    let email = normalize_email(payload.email.as_str());
    let check = normalize_email(payload.email.as_str());
    (
        CreateAccountState::AwaitExists {
            email,
            password: payload.password.clone(),
            name: payload.name.clone(),
            role: payload.role.clone(),
        },
        CreateAccountAction::CheckEmail(check),
    )
}

/// One step of a sign-up.
pub fn create_account_step(state: CreateAccountState, event: CreateAccountEvent) -> (r: (
    CreateAccountState,
    CreateAccountAction,
))
    requires
        create_event_fits(state, event),
    ensures
        r.0 is Finished <==> r.1 is Finish,
        match (state, event) {
            (CreateAccountState::AwaitExists { email, password, name, role }, CreateAccountEvent::Exists(read)) =>
                match read {
                Err(e) => create_answer(r.1) == Some(Err::<(), AppError>(e)),
                Ok(Some(true)) => create_answer(r.1) matches Some(x) && bad_request_message(x) == Some(
                    email_taken_message(),
                ),
                Ok(_) => match role_named(unicode_lowercase(role@)) {
                    None => create_answer(r.1) matches Some(x) && bad_request_message(x) == Some(
                        invalid_role_message(),
                    ),
                    Some(parsed) => (encode_utf8(password@).len() <= 0xFFFF_FFFF ==> r.1 is Insert) && match r.1 {
                        CreateAccountAction::Insert(p) => {
                            &&& p.email@ == email@
                            &&& hashes(password@, p.password_hash@)
                            &&& p.name@ == trimmed(name@)
                            &&& r.0 == CreateAccountState::AwaitInsert { role: parsed }
                        },
                        CreateAccountAction::Finish(x) => internal_message(x) == Some(
                            "비밀번호 해싱에 실패했습니다."@,
                        ),
                        _ => false,
                    },
                },
            },
            (CreateAccountState::AwaitInsert { role }, CreateAccountEvent::Inserted(read)) => match read {
                Err(e) => create_answer(r.1) == Some(Err::<(), AppError>(e)),
                Ok(id) => r.0 is AwaitAssign && r.1 == CreateAccountAction::AssignRole(id, role),
            },
            (CreateAccountState::AwaitAssign, CreateAccountEvent::Assigned(read)) => match read {
                Err(e) => create_answer(r.1) == Some(Err::<(), AppError>(e)),
                Ok(rows) => if rows == 0 {
                    create_answer(r.1) matches Some(x) && internal_message(x) == Some(role_failure_message())
                } else {
                    r.0 is AwaitCommit && r.1 is Commit
                },
            },
            (CreateAccountState::AwaitCommit, CreateAccountEvent::Committed(done)) => create_answer(r.1) == Some(
                done,
            ),
            _ => false,
        },
{
    match (state, event) {
        (CreateAccountState::AwaitExists { email, password, name, role }, CreateAccountEvent::Exists(read)) => {
            let exists = match read {
                Err(e) => {
                    return (CreateAccountState::Finished, CreateAccountAction::Finish(Err(e)));
                },
                Ok(v) => match v {
                    Some(b) => b,
                    None => false,
                },
            };
            if exists {
                return (
                    CreateAccountState::Finished,
                    CreateAccountAction::Finish(Err(AppError::BadRequest(String::from_str("이미 사용 중인 이메일입니다.")))),
                );
            }
            let parsed = match AccountRole::try_from(role.as_str()) {
                Ok(r) => r,
                Err(e) => {
                    return (CreateAccountState::Finished, CreateAccountAction::Finish(Err(e)));
                },
            };
            let password_hash = match hash_password(password.as_str()) {
                Ok(h) => h,
                Err(e) => {
                    return (CreateAccountState::Finished, CreateAccountAction::Finish(Err(e)));
                },
            };
            let trimmed_name = trim(name.as_str());
            let params = CreateAccountParams::new(email, password_hash, trimmed_name);
            (CreateAccountState::AwaitInsert { role: parsed }, CreateAccountAction::Insert(params))
        },
        (CreateAccountState::AwaitInsert { role }, CreateAccountEvent::Inserted(read)) => match read {
            Err(e) => (CreateAccountState::Finished, CreateAccountAction::Finish(Err(e))),
            Ok(id) => (CreateAccountState::AwaitAssign, CreateAccountAction::AssignRole(id, role)),
        },
        (CreateAccountState::AwaitAssign, CreateAccountEvent::Assigned(read)) => match read {
            Err(e) => (CreateAccountState::Finished, CreateAccountAction::Finish(Err(e))),
            Ok(rows) => match assign_role_outcome(rows) {
                Err(e) => (CreateAccountState::Finished, CreateAccountAction::Finish(Err(e))),
                Ok(()) => (CreateAccountState::AwaitCommit, CreateAccountAction::Commit),
            },
        },
        (CreateAccountState::AwaitCommit, CreateAccountEvent::Committed(done)) => (
            CreateAccountState::Finished,
            CreateAccountAction::Finish(done),
        ),
        _ => (CreateAccountState::Finished, CreateAccountAction::Finish(Err(AppError::Unauthorized))),
    }
}

/// The answer to "who am I" from the account read by the token's id: a
/// missing account is `NotFound`.
pub fn get_me(read: Result<Option<AccountEntity>, AppError>) -> (r: Result<AccountResponseDto, AppError>)
    ensures
        match read {
            Err(e) => r == Err::<AccountResponseDto, AppError>(e),
            Ok(None) => r matches Err(AppError::NotFound(m)) && m@ == missing_row_message(),
            Ok(Some(a)) => r matches Ok(d) && d.id == a.id && d.email@ == a.email@ && d.name@ == a.name@,
        },
{
    match read {
        Err(e) => Err(e),
        Ok(None) => Err(database_failure(true, String::new())),
        Ok(Some(a)) => Ok(AccountResponseDto::from(a)),
    }
}

} // verus!
