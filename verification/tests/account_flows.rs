use rust_axum_layered_rest_api::common::auth::jwt::JwtConfig;
use rust_axum_layered_rest_api::common::auth::refresh_token::{hash_refresh_token, RedisCommand};
use rust_axum_layered_rest_api::common::auth::role::AccountRole;
use rust_axum_layered_rest_api::common::error::AppError;
use rust_axum_layered_rest_api::common::security::password::hash_password;
use rust_axum_layered_rest_api::domains::account::dto::{CreateAccountDto, LoginAccountDto};
use rust_axum_layered_rest_api::domains::account::entity::AccountEntity;
use rust_axum_layered_rest_api::domains::account::repository::{
    assign_role_outcome, insert_failure, roles_from_names, CreateAccountParams,
};
use rust_axum_layered_rest_api::domains::account::service::{
    create_account_start, create_account_step, get_me, login_start, login_step, logout_start,
    logout_step, normalize_email, refresh_start, refresh_start_at, refresh_step, CreateAccountAction,
    CreateAccountEvent, CreateAccountState, LoginAction, LoginEvent, LoginState, LogoutAction,
    LogoutEvent, LogoutState, RefreshAction, RefreshEvent, RefreshState,
};

const SECRET: &str = "test-secret-key-for-unit-test-only";

fn jwt() -> JwtConfig {
    JwtConfig::new(SECRET, 3600)
}

fn account(id: i64, password: &str) -> AccountEntity {
    AccountEntity {
        id,
        email: "user@example.com".to_string(),
        password_hash: hash_password(password).unwrap(),
        name: "User".to_string(),
    }
}

fn internal_text<T>(r: Result<T, AppError>) -> String {
    match r {
        Err(AppError::Internal(m)) => m,
        _ => panic!("expected an internal error"),
    }
}

#[test]
fn emails_are_trimmed_and_lowercased() {
    assert_eq!(normalize_email("  User@Example.COM \n"), "user@example.com");
    assert_eq!(normalize_email("a@b.c"), "a@b.c");
}

#[test]
fn role_names_from_the_database() {
    let rs = roles_from_names(&vec!["customer".to_string(), "EMPLOYEE".to_string()]).unwrap();
    assert_eq!(rs, vec![AccountRole::Customer, AccountRole::Employee]);
    assert!(roles_from_names(&vec![]).unwrap().is_empty());
    assert_eq!(
        internal_text(roles_from_names(&vec!["admin".to_string(), "root".to_string()])),
        "계정 역할 처리 중 오류가 발생했습니다."
    );
    assert!(assign_role_outcome(1).is_ok());
    assert_eq!(internal_text(assign_role_outcome(0)), "계정 역할 처리 중 오류가 발생했습니다.");
}

#[test]
fn duplicate_email_constraint_is_a_bad_request() {
    match insert_failure(Some("accounts_email_key"), AppError::Internal("db".into())) {
        AppError::BadRequest(m) => assert_eq!(m, "이미 사용 중인 이메일입니다."),
        _ => panic!("expected a bad request"),
    }
    assert!(matches!(insert_failure(Some("other"), AppError::Internal("db".into())), AppError::Internal(_)));
    assert!(matches!(insert_failure(None, AppError::Unauthorized), AppError::Unauthorized));
}

fn login(password: &str) -> (LoginState, LoginAction) {
    let (state, action) = login_start(&LoginAccountDto {
        email: " USER@example.com".to_string(),
        password: password.to_string(),
    });
    match &action {
        LoginAction::FindAccount(e) => assert_eq!(e, "user@example.com"),
        _ => panic!("expected an account lookup"),
    }
    (state, action)
}

#[test]
fn login_issues_tokens_and_replaces_the_session() {
    let jwt = jwt();
    let (state, _) = login("Abcdefg1!");
    let (state, action) = login_step(&jwt, state, LoginEvent::Account(Ok(Some(account(3, "Abcdefg1!")))));
    assert!(matches!(action, LoginAction::FindRoles(3)));
    let (state, action) =
        login_step(&jwt, state, LoginEvent::RoleNames(Ok(vec!["customer".to_string()])));
    match &action {
        LoginAction::ReadSession(k) => assert_eq!(k, "account:3:refresh"),
        _ => panic!("expected a session read"),
    }
    let (state, action) = login_step(&jwt, state, LoginEvent::Session(Ok(Some("oldhash".to_string()))));
    let cmds = match action {
        LoginAction::WriteSession(c) => c,
        _ => panic!("expected session writes"),
    };
    assert_eq!(cmds.len(), 3);
    assert!(matches!(&cmds[0], RedisCommand::Del(k) if k == "refresh:oldhash"));
    let (state, action) = login_step(&jwt, state, LoginEvent::Written(Ok(())));
    assert!(matches!(state, LoginState::Finished));
    let tokens = match action {
        LoginAction::Finish(Ok(t)) => t,
        _ => panic!("expected tokens"),
    };
    assert_eq!(tokens.refresh_token.len(), 64);
    let claims = jwt.verify_access_token(&tokens.access_token).unwrap();
    assert_eq!(claims.sub, 3);
    assert_eq!(claims.roles, vec![AccountRole::Customer]);
    match &cmds[1] {
        RedisCommand::SetEx(k, v, ttl) => {
            assert_eq!(k, &format!("refresh:{}", hash_refresh_token(&tokens.refresh_token)));
            assert_eq!(v, "3");
            assert_eq!(*ttl, 259200);
        },
        _ => panic!("expected a set"),
    }
}

#[test]
fn login_failures() {
    let jwt = jwt();
    let (state, _) = login("whatever1A");
    let (_, action) = login_step(&jwt, state, LoginEvent::Account(Ok(None)));
    assert!(matches!(action, LoginAction::Finish(Err(AppError::InvalidCredentials))));

    let (state, _) = login("Wrong123!");
    let (_, action) = login_step(&jwt, state, LoginEvent::Account(Ok(Some(account(3, "Abcdefg1!")))));
    assert!(matches!(action, LoginAction::Finish(Err(AppError::InvalidCredentials))));

    let (state, _) = login("Abcdefg1!");
    let (state, _) = login_step(&jwt, state, LoginEvent::Account(Ok(Some(account(8, "Abcdefg1!")))));
    let (_, action) = login_step(&jwt, state, LoginEvent::RoleNames(Ok(vec![])));
    match action {
        LoginAction::Finish(r) => {
            assert_eq!(internal_text(r), "로그인 계정에 연결된 Role이 없습니다. account_id=8")
        },
        _ => panic!("expected an error"),
    }

    let (state, _) = login("Abcdefg1!");
    let (_, action) = login_step(&jwt, state, LoginEvent::Account(Err(AppError::Internal("db".into()))));
    assert!(matches!(action, LoginAction::Finish(Err(AppError::Internal(_)))));
}

fn expired_token(account_id: i64) -> String {
    JwtConfig::new(SECRET, -120).create_access_token(account_id, vec![AccountRole::Customer]).unwrap()
}

#[test]
fn refresh_requires_an_expired_access_token() {
    let jwt = jwt();
    let fresh = jwt.create_access_token(1, vec![AccountRole::Customer]).unwrap();
    let (state, action) = refresh_start(&jwt, &fresh, "rt");
    assert!(matches!(state, RefreshState::Finished));
    assert!(matches!(action, RefreshAction::Finish(Err(AppError::Unauthorized))));
    let (_, action) = refresh_start(&jwt, "not.a.token", "rt");
    assert!(matches!(action, RefreshAction::Finish(Err(AppError::Unauthorized))));
    let issued = jwt.issue_access_token(1, vec![AccountRole::Customer], 1000, 0).unwrap();
    let (_, action) = refresh_start_at(&jwt, &issued, "rt", 4600);
    assert!(matches!(action, RefreshAction::Finish(Err(AppError::Unauthorized))));
    let (_, action) = refresh_start_at(&jwt, &issued, "rt", 4601);
    match action {
        RefreshAction::ReadOwner(k) => assert_eq!(k, format!("refresh:{}", hash_refresh_token("rt"))),
        _ => panic!("expected an owner read"),
    }
}

#[test]
fn refresh_rotates_the_session() {
    let jwt = jwt();
    let (state, _) = refresh_start(&jwt, &expired_token(1), "old-rt");
    let (state, action) = refresh_step(&jwt, state, RefreshEvent::Owner(Ok(Some("1".to_string()))));
    assert!(matches!(action, RefreshAction::FindRoles(1)));
    let (state, action) =
        refresh_step(&jwt, state, RefreshEvent::RoleNames(Ok(vec!["employee".to_string()])));
    assert!(matches!(&action, RefreshAction::ReadSession(k) if k == "account:1:refresh"));
    let current = Some(hash_refresh_token("old-rt"));
    let (state, action) = refresh_step(&jwt, state, RefreshEvent::Session(Ok(current)));
    let cmds = match action {
        RefreshAction::WriteSession(c) => c,
        _ => panic!("expected writes"),
    };
    assert_eq!(cmds.len(), 3);
    assert!(
        matches!(&cmds[0], RedisCommand::Del(k) if *k == format!("refresh:{}", hash_refresh_token("old-rt")))
    );
    let (_, action) = refresh_step(&jwt, state, RefreshEvent::Written(Ok(())));
    let tokens = match action {
        RefreshAction::Finish(Ok(t)) => t,
        _ => panic!("expected tokens"),
    };
    assert_ne!(tokens.refresh_token, "old-rt");
    let claims = jwt.verify_access_token(&tokens.access_token).unwrap();
    assert_eq!(claims.sub, 1);
    assert_eq!(claims.roles, vec![AccountRole::Employee]);
}

#[test]
fn refresh_rejections() {
    let jwt = jwt();
    let (state, _) = refresh_start(&jwt, &expired_token(1), "rt");
    let (_, action) = refresh_step(&jwt, state, RefreshEvent::Owner(Ok(None)));
    assert!(matches!(action, RefreshAction::Finish(Err(AppError::Unauthorized))));
    let (state, _) = refresh_start(&jwt, &expired_token(1), "rt");
    let (_, action) = refresh_step(&jwt, state, RefreshEvent::Owner(Ok(Some("2".to_string()))));
    assert!(matches!(action, RefreshAction::Finish(Err(AppError::Unauthorized))));
    let (state, _) = refresh_start(&jwt, &expired_token(1), "rt");
    let (_, action) = refresh_step(&jwt, state, RefreshEvent::Owner(Ok(Some("x1".to_string()))));
    assert!(matches!(action, RefreshAction::Finish(Err(AppError::Internal(_)))));
    let (state, _) = refresh_start(&jwt, &expired_token(1), "rt");
    let (state, _) = refresh_step(&jwt, state, RefreshEvent::Owner(Ok(Some("1".to_string()))));
    let (state, _) = refresh_step(&jwt, state, RefreshEvent::RoleNames(Ok(vec!["customer".to_string()])));
    let (_, action) = refresh_step(&jwt, state, RefreshEvent::Session(Ok(Some("another".to_string()))));
    assert!(matches!(action, RefreshAction::Finish(Err(AppError::Unauthorized))));
}

#[test]
fn logout_deletes_only_the_owners_session() {
    let (state, action) = logout_start(4, "rt");
    assert!(matches!(&action, LogoutAction::ReadOwner(k) if *k == format!("refresh:{}", hash_refresh_token("rt"))));
    let (state, action) = logout_step(state, LogoutEvent::Owner(Ok(Some("4".to_string()))));
    let cmds = match action {
        LogoutAction::WriteSession(c) => c,
        _ => panic!("expected deletes"),
    };
    assert_eq!(cmds.len(), 2);
    assert!(matches!(&cmds[1], RedisCommand::Del(k) if k == "account:4:refresh"));
    let (state, action) = logout_step(state, LogoutEvent::Written(Ok(())));
    assert!(matches!(state, LogoutState::Finished));
    assert!(matches!(action, LogoutAction::Finish(Ok(()))));

    let (state, _) = logout_start(4, "rt");
    let (_, action) = logout_step(state, LogoutEvent::Owner(Ok(Some("5".to_string()))));
    assert!(matches!(action, LogoutAction::Finish(Err(AppError::Unauthorized))));
    let (state, _) = logout_start(4, "rt");
    let (_, action) = logout_step(state, LogoutEvent::Owner(Ok(None)));
    assert!(matches!(action, LogoutAction::Finish(Err(AppError::Unauthorized))));
}

fn signup(role: &str) -> CreateAccountDto {
    CreateAccountDto {
        email: " New@Example.com ".to_string(),
        password: "Abcdefg1!".to_string(),
        name: "  Kim ".to_string(),
        role: role.to_string(),
    }
}

#[test]
fn sign_up_inserts_and_links_the_role() {
    let (state, action) = create_account_start(&signup("Customer"));
    assert!(matches!(&action, CreateAccountAction::CheckEmail(e) if e == "new@example.com"));
    let (state, action) = create_account_step(state, CreateAccountEvent::Exists(Ok(Some(false))));
    let params: CreateAccountParams = match action {
        CreateAccountAction::Insert(p) => p,
        _ => panic!("expected an insert"),
    };
    assert_eq!(params.email, "new@example.com");
    assert_eq!(params.name, "Kim");
    assert!(params.password_hash.starts_with("$argon2id$"));
    let (state, action) = create_account_step(state, CreateAccountEvent::Inserted(Ok(11)));
    assert!(matches!(action, CreateAccountAction::AssignRole(11, AccountRole::Customer)));
    let (state, action) = create_account_step(state, CreateAccountEvent::Assigned(Ok(1)));
    assert!(matches!(action, CreateAccountAction::Commit));
    let (state, action) = create_account_step(state, CreateAccountEvent::Committed(Ok(())));
    assert!(matches!(state, CreateAccountState::Finished));
    assert!(matches!(action, CreateAccountAction::Finish(Ok(()))));
}

#[test]
fn sign_up_refusals() {
    let (state, _) = create_account_start(&signup("customer"));
    let (_, action) = create_account_step(state, CreateAccountEvent::Exists(Ok(Some(true))));
    match action {
        CreateAccountAction::Finish(Err(AppError::BadRequest(m))) => assert_eq!(m, "이미 사용 중인 이메일입니다."),
        _ => panic!("expected a bad request"),
    }
    let (state, _) = create_account_start(&signup("manager"));
    let (_, action) = create_account_step(state, CreateAccountEvent::Exists(Ok(None)));
    assert!(matches!(action, CreateAccountAction::Finish(Err(AppError::BadRequest(_)))));
    let (state, _) = create_account_start(&signup("employee"));
    let (state, _) = create_account_step(state, CreateAccountEvent::Exists(Ok(Some(false))));
    let (state, _) = create_account_step(state, CreateAccountEvent::Inserted(Ok(2)));
    let (_, action) = create_account_step(state, CreateAccountEvent::Assigned(Ok(0)));
    match action {
        CreateAccountAction::Finish(r) => assert_eq!(internal_text(r), "계정 역할 처리 중 오류가 발생했습니다."),
        _ => panic!("expected an error"),
    }
}

#[test]
fn get_me_answers() {
    let a = AccountEntity {
        id: 1,
        email: "me@example.com".into(),
        password_hash: "h".into(),
        name: "Me".into(),
    };
    let dto = get_me(Ok(Some(a))).unwrap();
    assert_eq!((dto.id, dto.email.as_str(), dto.name.as_str()), (1, "me@example.com", "Me"));
    assert!(matches!(get_me(Ok(None)), Err(AppError::NotFound(_))));
    assert!(matches!(get_me(Err(AppError::Unauthorized)), Err(AppError::Unauthorized)));
}

#[test]
fn normalising_twice_is_normalising_once() {
    for e in ["  LOGIN@EXAMPLE.COM ", "login@example.com", "\tMiXed@Case.Org\n"] {
        let once = normalize_email(e);
        assert_eq!(normalize_email(&once), once);
    }
    assert_eq!(normalize_email("LOGIN@EXAMPLE.COM"), normalize_email("login@example.com"));
}
