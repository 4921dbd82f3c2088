use severum::catalog::{Catalog, StoreError};
use severum::descriptor::ParseError;
use severum::repositories::category_repository::CategoryRepository;
use severum::repositories::challenge_repository::ChallengeRepository;
use severum::sync::{reconcile, Loader, SourceFile, SyncError};

fn descriptor_text(id: &str, title: &str, category: &str, difficulty: &str, hint: Option<&str>) -> String {
    let hint_part = match hint {
        Some(h) => format!(",\"hint\":\"{}\"", h),
        None => String::new(),
    };
    format!(
        "{{\"id\":\"{}\",\"challenge\":{{\"title\":\"{}\",\"category\":\"{}\",\
         \"difficulty\":\"{}\",\"description\":\"...\"{}}}}}",
        id, title, category, difficulty, hint_part
    )
}

fn source(path: &str, text: String) -> SourceFile {
    SourceFile { path: String::from(path), text }
}

#[test]
fn concrete_scenario_synced_twice_yields_one_row_each() {
    // Descriptor x1 synced twice: one category row and one challenge row,
    // with the hint kept, regardless of run count.
    let mut catalog = Catalog::new();
    let files = vec![source(
        "repo/buffer-overflow-101/metadata.json",
        descriptor_text(
            "x1",
            "Buffer Overflow 101",
            "Memory Safety",
            "easy",
            Some("check the stack"),
        ),
    )];
    let first = Loader::run_sync(&mut catalog, &files, 100);
    let second = Loader::run_sync(&mut catalog, &files, 200);
    assert_eq!(first.loaded.len(), 1);
    assert_eq!(second.loaded.len(), 1);
    assert!(first.failures.is_empty());
    assert!(second.failures.is_empty());

    let categories = CategoryRepository::get_all_categories(&catalog);
    assert_eq!(categories.len(), 1);
    assert_eq!(categories[0].name, "Memory Safety");

    let challenges = ChallengeRepository::get_all_challenges(&catalog);
    assert_eq!(challenges.len(), 1);
    assert_eq!(challenges[0].name, "Buffer Overflow 101");
    assert_eq!(challenges[0].hint, Some(String::from("check the stack")));
    assert_eq!(challenges[0].category_id, categories[0].id);
}

#[test]
fn second_run_loads_the_same_challenges_by_id() {
    let mut catalog = Catalog::new();
    let files = vec![
        source(
            "a/metadata.json",
            descriptor_text("a", "Alpha", "Web", "easy", None),
        ),
        source(
            "b/metadata.json",
            descriptor_text("b", "Beta", "Web", "hard", None),
        ),
        source(
            "c/metadata.json",
            descriptor_text("c", "Alpha", "Pwn", "easy", None),
        ),
    ];
    let first = Loader::run_sync(&mut catalog, &files, 10);
    let rows_after_first = ChallengeRepository::get_all_challenges(&catalog).len();
    let second = Loader::run_sync(&mut catalog, &files, 20);
    let rows_after_second = ChallengeRepository::get_all_challenges(&catalog).len();

    // Zero new rows on the second run.
    assert_eq!(rows_after_first, 3);
    assert_eq!(rows_after_second, 3);
    // The same logical challenges, resolving to the same persisted ids.
    assert_eq!(first.loaded.len(), 3);
    assert_eq!(second.loaded.len(), 3);
    for (a, b) in first.loaded.iter().zip(second.loaded.iter()) {
        assert_eq!(a.id, b.id);
        assert_eq!(a.category_id, b.category_id);
        assert_eq!(a.name, b.name);
        assert_eq!(a.created_at, b.created_at);
    }
}

#[test]
fn a_later_descriptor_joins_its_existing_category() {
    let mut catalog = Catalog::new();
    let first = Loader::run_sync(
        &mut catalog,
        &vec![source("a/metadata.json", descriptor_text("a", "Alpha", "Web", "easy", None))],
        1,
    );
    let second = Loader::run_sync(
        &mut catalog,
        &vec![source("b/metadata.json", descriptor_text("b", "Beta", "Web", "hard", None))],
        2,
    );
    assert_eq!(first.loaded.len(), 1);
    assert_eq!(second.loaded.len(), 1);
    // One shared category row; two challenge rows pointing at it.
    assert_eq!(CategoryRepository::get_all_categories(&catalog).len(), 1);
    assert_eq!(second.loaded[0].category_id, first.loaded[0].category_id);
    assert_eq!(ChallengeRepository::get_all_challenges(&catalog).len(), 2);
}

#[test]
fn partial_failure_is_isolated_to_its_file() {
    // Ten descriptor files, one with malformed JSON: nine successes and one
    // parse failure naming that file; the run completes.
    let mut catalog = Catalog::new();
    let mut files = Vec::new();
    for k in 0..10 {
        let path = format!("repo/challenge-{}/metadata.json", k);
        if k == 4 {
            files.push(source(&path, String::from("{ not json")));
        } else {
            let id = format!("id-{}", k);
            let title = format!("Challenge {}", k);
            files.push(source(&path, descriptor_text(&id, &title, "Web", "easy", None)));
        }
    }
    let report = Loader::run_sync(&mut catalog, &files, 5);
    assert_eq!(report.loaded.len(), 9);
    assert_eq!(report.failures.len(), 1);
    assert_eq!(report.failures[0].0, "repo/challenge-4/metadata.json");
    assert_eq!(report.failures[0].1, SyncError::Parse(ParseError::Syntax));
    assert_eq!(ChallengeRepository::get_all_challenges(&catalog).len(), 9);
}

#[test]
fn first_write_wins_on_existing_key() {
    // Reconciling a descriptor for an existing (category, title) with a
    // different difficulty, description and hint leaves the row unchanged.
    let mut catalog = Catalog::new();
    let original = Loader::run_sync(
        &mut catalog,
        &vec![source(
            "one/metadata.json",
            descriptor_text("v1", "Alpha", "Web", "easy", Some("old hint")),
        )],
        1,
    );
    assert_eq!(original.loaded.len(), 1);

    let replay = Loader::run_sync(
        &mut catalog,
        &vec![source(
            "one/metadata.json",
            descriptor_text("v2", "Alpha", "Web", "insane", None),
        )],
        2,
    );
    assert_eq!(replay.loaded.len(), 1);
    assert_eq!(replay.loaded[0].id, original.loaded[0].id);

    let rows = ChallengeRepository::get_all_challenges(&catalog);
    assert_eq!(rows.len(), 1);
    assert_eq!(rows[0].difficulty, "easy");
    assert_eq!(rows[0].hint, Some(String::from("old hint")));
    assert_eq!(rows[0].created_at, 1);
}

#[test]
fn interleaved_runs_converge_to_one_row_per_key() {
    // Two runs over an identical descriptor set, interleaved step by step
    // against the shared store: exactly one category row and one challenge
    // row per key, and both runs resolve each key to the same id.
    let mut catalog = Catalog::new();
    let d1 = severum::descriptor::parse_descriptor(&descriptor_text(
        "x1",
        "Race",
        "Concurrency",
        "hard",
        None,
    ))
    .unwrap();
    let d2 = severum::descriptor::parse_descriptor(&descriptor_text(
        "x1-other-copy",
        "Race",
        "Concurrency",
        "trivial",
        None,
    ))
    .unwrap();

    let from_run_a = reconcile(&mut catalog, &d1, 11).unwrap();
    let from_run_b = reconcile(&mut catalog, &d2, 22).unwrap();
    assert_eq!(from_run_a.id, from_run_b.id);
    assert_eq!(from_run_b.difficulty, "hard");

    assert_eq!(CategoryRepository::get_all_categories(&catalog).len(), 1);
    assert_eq!(ChallengeRepository::get_all_challenges(&catalog).len(), 1);
}

#[test]
fn exhausted_id_space_is_a_reconcile_failure() {
    let mut catalog = Catalog::new();
    catalog.next_category_id = i32::MAX;
    let files = vec![source(
        "a/metadata.json",
        descriptor_text("a", "Alpha", "Web", "easy", None),
    )];
    let report = Loader::run_sync(&mut catalog, &files, 1);
    assert!(report.loaded.is_empty());
    assert_eq!(report.failures.len(), 1);
    assert_eq!(
        report.failures[0].1,
        SyncError::Reconcile(StoreError::IdSpaceExhausted)
    );
    assert!(CategoryRepository::get_all_categories(&catalog).is_empty());
}

#[test]
fn natural_keys_stay_unique_across_runs() {
    let mut catalog = Catalog::new();
    let files = vec![
        source("a/metadata.json", descriptor_text("a", "Alpha", "Web", "easy", None)),
        source("b/metadata.json", descriptor_text("b", "Alpha", "Web", "hard", None)),
    ];
    Loader::run_sync(&mut catalog, &files, 1);
    Loader::run_sync(&mut catalog, &files, 2);

    let categories = CategoryRepository::get_all_categories(&catalog);
    let challenges = ChallengeRepository::get_all_challenges(&catalog);
    for i in 0..categories.len() {
        for j in 0..categories.len() {
            if i != j {
                assert_ne!(categories[i].name, categories[j].name);
            }
        }
    }
    for i in 0..challenges.len() {
        for j in 0..challenges.len() {
            if i != j {
                assert!(
                    challenges[i].category_id != challenges[j].category_id
                        || challenges[i].name != challenges[j].name
                );
            }
        }
    }
    assert_eq!(categories.len(), 1);
    assert_eq!(challenges.len(), 1);
}
