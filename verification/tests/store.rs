use severum::catalog::{Catalog, StoreError};
use severum::repositories::category_repository::CategoryRepository;
use severum::repositories::challenge_repository::ChallengeRepository;
use severum::services::category_service::CategoryService;
use severum::services::challenge_service::ChallengeService;

#[test]
fn empty_catalog_has_no_rows() {
    let catalog = Catalog::new();
    assert_eq!(CategoryRepository::get_all_categories(&catalog).len(), 0);
    assert_eq!(ChallengeRepository::get_all_challenges(&catalog).len(), 0);
}

#[test]
fn find_category_by_name_misses_on_empty() {
    let catalog = Catalog::new();
    let name = String::from("Web");
    assert!(CategoryRepository::find_category_by_name(&catalog, &name).is_none());
}

#[test]
fn insert_category_assigns_sequential_ids() {
    let mut catalog = Catalog::new();
    let web = String::from("Web");
    let pwn = String::from("Pwn");
    let id1 = CategoryRepository::insert_category(&mut catalog, &web).unwrap();
    let id2 = CategoryRepository::insert_category(&mut catalog, &pwn).unwrap();
    assert_eq!(id1, 1);
    assert_eq!(id2, 2);
    let found = CategoryRepository::find_category_by_name(&catalog, &pwn).unwrap();
    assert_eq!(found.id, 2);
    assert_eq!(found.name, "Pwn");
}

#[test]
fn insert_duplicate_category_is_a_unique_violation() {
    let mut catalog = Catalog::new();
    let web = String::from("Web");
    CategoryRepository::insert_category(&mut catalog, &web).unwrap();
    let err = CategoryRepository::insert_category(&mut catalog, &web).unwrap_err();
    assert_eq!(err, StoreError::UniqueViolation);
    assert_eq!(CategoryRepository::get_all_categories(&catalog).len(), 1);
}

#[test]
fn find_or_create_category_creates_once() {
    let mut catalog = Catalog::new();
    let web = String::from("Web");
    let first = CategoryService::find_or_create_category(&mut catalog, &web).unwrap();
    let second = CategoryService::find_or_create_category(&mut catalog, &web).unwrap();
    assert_eq!(first.id, second.id);
    assert_eq!(CategoryRepository::get_all_categories(&catalog).len(), 1);
}

#[test]
fn insert_challenge_requires_existing_category() {
    let mut catalog = Catalog::new();
    let name = String::from("Heap 101");
    let difficulty = String::from("easy");
    let description = String::from("grow the heap");
    let err = ChallengeService::find_or_create_challenge(
        &mut catalog,
        &name,
        7,
        &difficulty,
        &description,
        None,
        1000,
    )
    .unwrap_err();
    assert_eq!(err, StoreError::ForeignKeyViolation);
}

#[test]
fn find_or_create_challenge_creates_and_finds() {
    let mut catalog = Catalog::new();
    let web = String::from("Web");
    let category = CategoryService::find_or_create_category(&mut catalog, &web).unwrap();
    let name = String::from("XSS 101");
    let difficulty = String::from("easy");
    let description = String::from("inject a script");
    let hint = String::from("look at the query string");
    let created = ChallengeService::find_or_create_challenge(
        &mut catalog,
        &name,
        category.id,
        &difficulty,
        &description,
        Some(&hint),
        1234,
    )
    .unwrap();
    assert_eq!(created.id, 1);
    assert_eq!(created.category_id, category.id);
    assert_eq!(created.name, "XSS 101");
    assert_eq!(created.difficulty, "easy");
    assert_eq!(created.description, "inject a script");
    assert_eq!(created.hint, Some(String::from("look at the query string")));
    assert_eq!(created.created_at, 1234);

    let found = ChallengeRepository::find_challenge_by_name_and_category_id(
        &catalog,
        &name,
        category.id,
    )
    .unwrap();
    assert_eq!(found.id, created.id);
    let by_id = ChallengeRepository::find_challenge_by_id(&catalog, created.id).unwrap();
    assert_eq!(by_id.name, "XSS 101");
}

#[test]
fn same_challenge_name_allowed_in_two_categories() {
    let mut catalog = Catalog::new();
    let web = String::from("Web");
    let pwn = String::from("Pwn");
    let c1 = CategoryService::find_or_create_category(&mut catalog, &web).unwrap();
    let c2 = CategoryService::find_or_create_category(&mut catalog, &pwn).unwrap();
    let name = String::from("Intro");
    let difficulty = String::from("easy");
    let description = String::from("start here");
    let a = ChallengeService::find_or_create_challenge(
        &mut catalog,
        &name,
        c1.id,
        &difficulty,
        &description,
        None,
        1,
    )
    .unwrap();
    let b = ChallengeService::find_or_create_challenge(
        &mut catalog,
        &name,
        c2.id,
        &difficulty,
        &description,
        None,
        1,
    )
    .unwrap();
    assert_ne!(a.id, b.id);
    assert_eq!(ChallengeRepository::get_all_challenges(&catalog).len(), 2);
}
