use severum::controllers::category_controller::{category_responses, CategoryResponse};
use severum::controllers::challenge_controller::challenge_responses;
use severum::controllers::errors::{ControllerError, ErrorResponse};
use severum::controllers::user_controller::{map_login_error, map_registration_error};
use severum::fetch::{
    judge_repository_sync, plan_repository_sync, sync_branch, ConfigError, FetchError,
    GitCredential, RepoAction, RepoState, RunDisposition, SyncConfig,
};
use severum::models::category::Category;
use severum::models::challenge::Challenge;
use severum::models::claims::Claims;
use severum::models::container::UserContainer;
use severum::models::errors::{LoaderError, LoginError, RegistrationError};
use severum::catalog::StoreError;
use severum::descriptor::ParseError;
use severum::numeric::{i32_to_decimal, parse_i32};
use severum::services::container_service::ContainerService;
use severum::services::user_service::UserService;
use severum::sync::SyncError;
use severum::Role;

#[test]
fn role_ids_round_trip() {
    assert_eq!(Role::from_id(1), Some(Role::User));
    assert_eq!(Role::from_id(2), Some(Role::Vip));
    assert_eq!(Role::from_id(3), Some(Role::Admin));
    assert_eq!(Role::from_id(0), None);
    assert_eq!(Role::from_id(-7), None);
    assert_eq!(Role::User.to_id(), 1);
    assert_eq!(Role::Vip.to_id(), 2);
    assert_eq!(Role::Admin.to_id(), 3);
}

#[test]
fn parse_i32_accepts_plain_and_signed_numbers() {
    assert_eq!(parse_i32(&String::from("0")), Some(0));
    assert_eq!(parse_i32(&String::from("42")), Some(42));
    assert_eq!(parse_i32(&String::from("+7")), Some(7));
    assert_eq!(parse_i32(&String::from("-19")), Some(-19));
    assert_eq!(parse_i32(&String::from("007")), Some(7));
    assert_eq!(parse_i32(&String::from("2147483647")), Some(i32::MAX));
    assert_eq!(parse_i32(&String::from("-2147483648")), Some(i32::MIN));
}

#[test]
fn parse_i32_rejects_junk_and_overflow() {
    assert_eq!(parse_i32(&String::from("")), None);
    assert_eq!(parse_i32(&String::from("-")), None);
    assert_eq!(parse_i32(&String::from("+")), None);
    assert_eq!(parse_i32(&String::from("12a")), None);
    assert_eq!(parse_i32(&String::from(" 12")), None);
    assert_eq!(parse_i32(&String::from("1.5")), None);
    assert_eq!(parse_i32(&String::from("2147483648")), None);
    assert_eq!(parse_i32(&String::from("-2147483649")), None);
    assert_eq!(parse_i32(&String::from("99999999999999999999")), None);
}

#[test]
fn formats_decimals_exactly() {
    assert_eq!(i32_to_decimal(0), "0");
    assert_eq!(i32_to_decimal(7), "7");
    assert_eq!(i32_to_decimal(42), "42");
    assert_eq!(i32_to_decimal(-19), "-19");
    assert_eq!(i32_to_decimal(1000), "1000");
    assert_eq!(i32_to_decimal(i32::MAX), "2147483647");
    assert_eq!(i32_to_decimal(i32::MIN), "-2147483648");
}

#[test]
fn formatted_ids_parse_back() {
    for n in [0, 1, -1, 42, 99999, -100000, i32::MAX, i32::MIN] {
        assert_eq!(parse_i32(&i32_to_decimal(n)), Some(n));
    }
}

#[test]
fn parse_user_id_reads_the_subject() {
    let claims = Claims { sub: String::from("17"), exp: 0 };
    assert_eq!(ContainerService::parse_user_id(&claims).unwrap(), 17);
}

#[test]
fn parse_user_id_rejects_a_bad_subject() {
    let claims = Claims { sub: String::from("seventeen"), exp: 0 };
    match ContainerService::parse_user_id(&claims).unwrap_err() {
        ControllerError::BadRequest(resp) => {
            assert_eq!(resp.error.code, "INVALID_USER_ID");
            assert_eq!(resp.error.message, "Invalid user ID in claims");
            assert_eq!(resp.error.field, None);
        },
        ControllerError::InternalServerError => panic!("expected a bad request"),
    }
}

fn container(id: i32) -> UserContainer {
    UserContainer {
        id,
        user_id: 1,
        challenge_id: 1,
        category_id: 1,
        container_name: format!("box-{}", id),
        created_at: 0,
    }
}

#[test]
fn container_quota_per_role() {
    let none: Vec<UserContainer> = Vec::new();
    let one = vec![container(1)];
    let five = vec![container(1), container(2), container(3), container(4), container(5)];

    assert!(ContainerService::check_container_creation_permission(Role::User, &none).is_ok());
    assert!(ContainerService::check_container_creation_permission(Role::User, &one).is_err());
    assert!(ContainerService::check_container_creation_permission(Role::Vip, &one).is_ok());
    assert!(ContainerService::check_container_creation_permission(Role::Vip, &five).is_err());
    assert!(ContainerService::check_container_creation_permission(Role::Admin, &five).is_err());

    match ContainerService::check_container_creation_permission(Role::User, &one).unwrap_err() {
        ControllerError::BadRequest(resp) => {
            assert_eq!(resp.error.code, "CONTAINER_LIMIT_REACHED");
        },
        ControllerError::InternalServerError => panic!("expected a bad request"),
    }
}

#[test]
fn generate_claims_sets_subject_and_expiry() {
    let claims = UserService::generate_claims(&42, 1_000_000);
    assert_eq!(claims.sub, "42");
    assert_eq!(claims.exp, 1_086_400);
}

#[test]
fn error_responses_carry_their_fields() {
    let resp = ErrorResponse::new(
        String::from("SOME_CODE"),
        String::from("something happened"),
        Some(String::from("field")),
    );
    assert_eq!(resp.error.code, "SOME_CODE");
    assert_eq!(resp.error.message, "something happened");
    assert_eq!(resp.error.field, Some(String::from("field")));
}

#[test]
fn registration_errors_map_to_their_envelopes() {
    let email = map_registration_error(RegistrationError::EmailAlreadyTaken);
    assert_eq!(email.error.code, "EMAIL_ALREADY_TAKEN");
    assert_eq!(email.error.field, Some(String::from("email")));
    let name = map_registration_error(RegistrationError::UsernameAlreadyTaken);
    assert_eq!(name.error.code, "USERNAME_ALREADY_TAKEN");
    assert_eq!(name.error.field, Some(String::from("pseudo")));
    let internal = map_registration_error(RegistrationError::InternalError);
    assert_eq!(internal.error.code, "INTERNAL_SERVER_ERROR");
    assert_eq!(internal.error.field, None);
}

#[test]
fn login_errors_map_to_their_envelopes() {
    let bad = map_login_error(LoginError::InvalidCredentials);
    assert_eq!(bad.error.code, "INVALID_CREDENTIALS");
    assert_eq!(bad.error.message, "Invalid username or password.");
    let internal = map_login_error(LoginError::InternalError);
    assert_eq!(internal.error.code, "INTERNAL_SERVER_ERROR");
}

#[test]
fn loader_error_classifies_sync_failures() {
    assert_eq!(
        LoaderError::of_sync_error(&SyncError::Parse(ParseError::Syntax)),
        LoaderError::JsonError(())
    );
    assert_eq!(
        LoaderError::of_sync_error(&SyncError::Reconcile(StoreError::IdSpaceExhausted)),
        LoaderError::DatabaseError(())
    );
}

#[test]
fn fetch_plan_follows_the_working_copy_state() {
    assert_eq!(plan_repository_sync(RepoState::Missing), RepoAction::CloneFresh);
    assert_eq!(plan_repository_sync(RepoState::ValidRepo), RepoAction::FetchExisting);
    assert_eq!(plan_repository_sync(RepoState::InvalidRepo), RepoAction::RemoveAndClone);
}

#[test]
fn fetch_failures_follow_the_policy() {
    // A failed initial clone is fatal; a failed fetch of an existing copy is
    // not — the run proceeds with the stale content.
    assert_eq!(
        judge_repository_sync(RepoAction::CloneFresh, true, true),
        RunDisposition::Proceed
    );
    assert_eq!(
        judge_repository_sync(RepoAction::CloneFresh, true, false),
        RunDisposition::Abort(FetchError::CloneFailed)
    );
    assert_eq!(
        judge_repository_sync(RepoAction::FetchExisting, true, false),
        RunDisposition::ProceedStale
    );
    assert_eq!(
        judge_repository_sync(RepoAction::RemoveAndClone, false, true),
        RunDisposition::Abort(FetchError::CleanupFailed)
    );
    assert_eq!(
        judge_repository_sync(RepoAction::RemoveAndClone, true, false),
        RunDisposition::Abort(FetchError::CloneFailed)
    );
    assert_eq!(
        judge_repository_sync(RepoAction::RemoveAndClone, true, true),
        RunDisposition::Proceed
    );
}

#[test]
fn credentials_use_the_fixed_username() {
    let cred = GitCredential::for_token(String::from("SECRET-REDACTED"));
    assert_eq!(cred.username, "oauth2");
    assert_eq!(cred.token, "SECRET-REDACTED");
    assert_eq!(sync_branch(), "master");
}

#[test]
fn sync_config_requires_every_value() {
    let ok = SyncConfig::from_values(
        Some(String::from("https://example.invalid/content.git")),
        Some(String::from("/srv/content")),
        Some(String::from("SECRET-REDACTED")),
    )
    .unwrap();
    assert_eq!(ok.repo_url, "https://example.invalid/content.git");
    assert_eq!(ok.base_path, "/srv/content");

    match SyncConfig::from_values(None, Some(String::from("p")), Some(String::from("t"))) {
        Err(e) => assert_eq!(e, ConfigError::MissingRepoUrl),
        Ok(_) => panic!("expected a missing repository URL"),
    }
    match SyncConfig::from_values(Some(String::from("u")), None, Some(String::from("t"))) {
        Err(e) => assert_eq!(e, ConfigError::MissingBasePath),
        Ok(_) => panic!("expected a missing base path"),
    }
    match SyncConfig::from_values(Some(String::from("u")), Some(String::from("p")), None) {
        Err(e) => assert_eq!(e, ConfigError::MissingToken),
        Ok(_) => panic!("expected a missing token"),
    }
}

#[test]
fn descriptor_file_name_filter() {
    assert!(severum::scan::is_descriptor_file_name(&String::from("metadata.json")));
    assert!(!severum::scan::is_descriptor_file_name(&String::from("metadata.yaml")));
    assert!(!severum::scan::is_descriptor_file_name(&String::from("Metadata.json")));
}

#[test]
fn listing_responses_mirror_the_rows() {
    let categories = vec![
        Category { id: 1, name: String::from("Web") },
        Category { id: 2, name: String::from("Pwn") },
    ];
    let responses: Vec<CategoryResponse> = category_responses(&categories);
    assert_eq!(responses.len(), 2);
    assert_eq!(responses[1].id, 2);
    assert_eq!(responses[1].name, "Pwn");

    let challenges = vec![Challenge {
        id: 9,
        category_id: 2,
        name: String::from("XSS"),
        difficulty: String::from("easy"),
        description: String::from("..."),
        hint: None,
        created_at: 123,
    }];
    let responses = challenge_responses(&challenges);
    assert_eq!(responses.len(), 1);
    assert_eq!(responses[0].id, 9);
    assert_eq!(responses[0].category_id, 2);
    assert_eq!(responses[0].hint, None);
}
