//! The synchronization run: reconciling parsed descriptors into the catalog
//! and aggregating per-item outcomes into a report.
//!
//! The executable pipeline is verified against a functional model:
//! `apply_descriptor_state` / `apply_descriptor_outcome` say what reconciling
//! one descriptor does to the catalog, and `sync_run` folds a whole run over
//! a sequence of items. The laws about repeated and concurrent runs are
//! proved of this model in `laws`.

use vstd::prelude::*;

use crate::catalog::{
    category_named, challenge_insertable, challenge_keyed, chals_view, fresh_challenge,
    has_category, has_challenge, lemma_category_index_from, lemma_with_challenge_wf,
    upsert_category, upsert_challenge, Catalog, CatalogSnap, StoreError,
};
use crate::descriptor::{
    parse_descriptor, parse_model, parse_view, ChallengeDescriptor, DescriptorSnap, ParseError,
};
use crate::models::challenge::{Challenge, ChallengeSnap};
use crate::services::category_service::CategoryService;
use crate::services::challenge_service::ChallengeService;

verus! {

/// Why one item of a run failed.
#[derive(Clone, Copy, Debug, PartialEq, Eq, Structural)]
pub enum SyncError {
    /// The descriptor file was rejected by the parser.
    Parse(ParseError),
    /// The catalog store rejected the reconciliation of the descriptor.
    Reconcile(StoreError),
}

/// One descriptor file after the parse stage: its path and what the parser
/// made of its text.
pub struct SyncItem {
    pub path: String,
    pub parsed: Result<ChallengeDescriptor, ParseError>,
}

/// The mathematical value of a `SyncItem`.
#[verifier::ext_equal]
pub struct SyncItemSnap {
    pub path: Seq<char>,
    pub parsed: Result<DescriptorSnap, ParseError>,
}

impl View for SyncItem {
    type V = SyncItemSnap;

    open spec fn view(&self) -> SyncItemSnap {
        SyncItemSnap { path: self.path@, parsed: parse_view(self.parsed) }
    }
}

pub open spec fn items_view(items: Seq<SyncItem>) -> Seq<SyncItemSnap> {
    items.map_values(|it: SyncItem| it@)
}

/// The aggregated outcome of one run: the challenges that were loaded (found
/// or created), and, for every item that failed, its path and error.
pub struct SyncReport {
    pub loaded: Vec<Challenge>,
    pub failures: Vec<(String, SyncError)>,
}

pub open spec fn failures_view(v: Seq<(String, SyncError)>) -> Seq<(Seq<char>, SyncError)> {
    v.map_values(|p: (String, SyncError)| (p.0@, p.1))
}

/// The mathematical value of a run: the resulting catalog together with the
/// report entries.
#[verifier::ext_equal]
pub struct SyncSnap {
    pub state: CatalogSnap,
    pub loaded: Seq<ChallengeSnap>,
    pub failures: Seq<(Seq<char>, SyncError)>,
}

// ---------------------------------------------------------------------------
// The model of one reconciliation.
// ---------------------------------------------------------------------------

/// The catalog after reconciling one descriptor: find-or-create of the
/// category named `d.category_name`, then find-or-create of the challenge
/// `(category id, d.title)` within it.
pub open spec fn apply_descriptor_state(s: CatalogSnap, d: DescriptorSnap, now: int) -> CatalogSnap {
    let s1 = upsert_category(s, d.category_name);
    if has_category(s1, d.category_name) {
        let c = category_named(s1, d.category_name);
        upsert_challenge(s1, c.id, d.title, d.difficulty, d.description, d.hint, now)
    } else {
        s1
    }
}

/// What reconciling one descriptor returns: the unique challenge row of the
/// descriptor's natural key in the resulting catalog, or the store error
/// when a missing row could not be created.
pub open spec fn apply_descriptor_outcome(s: CatalogSnap, d: DescriptorSnap, now: int) -> Result<
    ChallengeSnap,
    StoreError,
> {
    let s1 = upsert_category(s, d.category_name);
    if has_category(s1, d.category_name) {
        let c = category_named(s1, d.category_name);
        if has_challenge(s1, c.id, d.title) {
            Ok(challenge_keyed(s1, c.id, d.title))
        } else if challenge_insertable(s1) {
            Ok(fresh_challenge(s1, c.id, d.title, d.difficulty, d.description, d.hint, now))
        } else {
            Err(StoreError::IdSpaceExhausted)
        }
    } else {
        Err(StoreError::IdSpaceExhausted)
    }
}

/// The view of a reconcile outcome.
pub open spec fn outcome_view(r: Result<Challenge, StoreError>) -> Result<ChallengeSnap, StoreError> {
    match r {
        Ok(c) => Ok(c@),
        Err(e) => Err(e),
    }
}

// ---------------------------------------------------------------------------
// The model of a whole run.
// ---------------------------------------------------------------------------

/// Extends a run by one item: a parse failure is recorded and leaves the
/// catalog alone; a parsed descriptor is reconciled, its outcome recorded.
pub open spec fn sync_step(acc: SyncSnap, item: SyncItemSnap, now: int) -> SyncSnap {
    match item.parsed {
        Err(e) => SyncSnap { failures: acc.failures.push((item.path, SyncError::Parse(e))), ..acc },
        Ok(d) => match apply_descriptor_outcome(acc.state, d, now) {
            Ok(ch) => SyncSnap {
                state: apply_descriptor_state(acc.state, d, now),
                loaded: acc.loaded.push(ch),
                ..acc
            },
            Err(se) => SyncSnap {
                state: apply_descriptor_state(acc.state, d, now),
                failures: acc.failures.push((item.path, SyncError::Reconcile(se))),
                ..acc
            },
        },
    }
}

pub open spec fn sync_run_from(acc: SyncSnap, items: Seq<SyncItemSnap>, now: int) -> SyncSnap
    decreases items.len(),
{
    if items.len() == 0 {
        acc
    } else {
        sync_step(sync_run_from(acc, items.drop_last(), now), items.last(), now)
    }
}

/// The model of one whole run over `items` against the catalog `s`.
pub open spec fn sync_run(s: CatalogSnap, items: Seq<SyncItemSnap>, now: int) -> SyncSnap {
    sync_run_from(
        SyncSnap { state: s, loaded: Seq::empty(), failures: Seq::empty() },
        items,
        now,
    )
}

// ---------------------------------------------------------------------------
// The executable reconciler.
// ---------------------------------------------------------------------------

/// Reconciles one parsed descriptor into the catalog: finds or creates the
/// owning category, then finds or creates the challenge within it, and
/// returns the persisted row. Existing rows are returned unchanged — the
/// first write wins. `now` is the creation timestamp a newly created row is
/// stamped with.
pub fn reconcile(catalog: &mut Catalog, descriptor: &ChallengeDescriptor, now: i64) -> (r: Result<
    Challenge,
    StoreError,
>)
    requires
        old(catalog).wf(),
    ensures
        final(catalog).wf(),
        final(catalog)@ == apply_descriptor_state(old(catalog)@, descriptor@, now as int),
        outcome_view(r) == apply_descriptor_outcome(old(catalog)@, descriptor@, now as int),
{
    let ghost s0 = catalog@;
    let category = match CategoryService::find_or_create_category(
        catalog,
        &descriptor.category_name,
    ) {
        Ok(category) => category,
        Err(e) => {
            return Err(e);
        },
    };
    let ghost s1 = catalog@;
    let hint_ref = match &descriptor.hint {
        Some(h) => Some(h),
        None => None,
    };
    proof {
        // The returned category is a row of the catalog, so its id is a
        // category id the challenge insert's foreign-key check accepts.
        lemma_category_index_from(s1.categories, descriptor.category_name@, 0);
        let k = crate::catalog::category_index(s1.categories, descriptor.category_name@)->0;
        assert(s1.categories[k].id == category@.id);
        assert(crate::catalog::has_category_id(s1, category.id as int));
    }
    match ChallengeService::find_or_create_challenge(
        catalog,
        &descriptor.title,
        category.id,
        &descriptor.difficulty,
        &descriptor.description,
        hint_ref,
        now,
    ) {
        Ok(challenge) => {
            proof {
                let key_cid = category@.id;
                let title = descriptor.title@;
                if !has_challenge(s1, key_cid, title) {
                    let fresh = fresh_challenge(
                        s1,
                        key_cid,
                        title,
                        descriptor.difficulty@,
                        descriptor.description@,
                        descriptor@.hint,
                        now as int,
                    );
                    lemma_with_challenge_wf(s1, fresh);
                }
            }
            Ok(challenge)
        },
        Err(e) => Err(e),
    }
}

// ---------------------------------------------------------------------------
// The orchestrator.
// ---------------------------------------------------------------------------

/// One descriptor file read from the working copy: its path and its text.
pub struct SourceFile {
    pub path: String,
    pub text: String,
}

/// Whether `(s1, loaded, failures)` is exactly the outcome of one model run
/// over `iv` against `s0`.
pub open spec fn sync_outcome_matches(
    s0: CatalogSnap,
    iv: Seq<SyncItemSnap>,
    now: int,
    s1: CatalogSnap,
    loaded: Seq<ChallengeSnap>,
    failures: Seq<(Seq<char>, SyncError)>,
) -> bool {
    let outcome = sync_run(s0, iv, now);
    s1 == outcome.state && loaded == outcome.loaded && failures == outcome.failures
}

/// Responsible for loading categories and challenges found in the content
/// repository's working copy into the catalog.
pub struct Loader;

/// The item sequence a run over these files works through: each file's path
/// with what parsing its text yields.
pub open spec fn items_of_files(files: Seq<SourceFile>) -> Seq<SyncItemSnap> {
    Seq::new(
        files.len(),
        |k: int| SyncItemSnap { path: files[k].path@, parsed: parse_model(files[k].text@) },
    )
}

impl Loader {
    /// Decodes each descriptor file into a sync item: the file's path with
    /// the parse outcome its text determines.
    pub fn parse_items(files: &Vec<SourceFile>) -> (items: Vec<SyncItem>)
        ensures
            items@.len() == files@.len(),
            forall|k: int| 0 <= k < files@.len() ==> (#[trigger] items@[k])@ == items_of_files(files@)[k],
    {
        let mut items: Vec<SyncItem> = Vec::new();
        let n = files.len();
        let mut i: usize = 0;
        while i < n
            invariant
                n == files.len(),
                i <= n,
                items@.len() == i,
                forall|k: int| 0 <= k < i ==> (#[trigger] items@[k])@ == items_of_files(files@)[k],
            decreases n - i,
        {
            items.push(
                SyncItem {
                    path: files[i].path.clone(),
                    parsed: parse_descriptor(&files[i].text),
                },
            );
            i = i + 1;
        }
        items
    }

    /// Reconciles a sequence of parsed items into the catalog, one item at a
    /// time, in order. A failing item is recorded in the report under its
    /// path and the run continues with the next item; the whole run never
    /// aborts.
    pub fn reconcile_items(catalog: &mut Catalog, items: &Vec<SyncItem>, now: i64) -> (report:
        SyncReport)
        requires
            old(catalog).wf(),
        ensures
            final(catalog).wf(),
            sync_outcome_matches(
                old(catalog)@,
                items_view(items@),
                now as int,
                final(catalog)@,
                chals_view(report.loaded@),
                failures_view(report.failures@),
            ),
    {
        let ghost s0 = catalog@;
        let ghost iv = items_view(items@);
        let mut loaded: Vec<Challenge> = Vec::new();
        let mut failures: Vec<(String, SyncError)> = Vec::new();
        let n = items.len();
        let mut i: usize = 0;
        while i < n
            invariant
                catalog.wf(),
                n == items.len(),
                i <= n,
                iv == items_view(items@),
                ({
                    let acc = sync_run(s0, iv.subrange(0, i as int), now as int);
                    catalog@ == acc.state && chals_view(loaded@) == acc.loaded && failures_view(
                        failures@,
                    ) == acc.failures
                }),
            decreases n - i,
        {
            let ghost acc = sync_run(s0, iv.subrange(0, i as int), now as int);
            proof {
                assert(iv.subrange(0, i as int + 1).drop_last() =~= iv.subrange(0, i as int));
                assert(iv.subrange(0, i as int + 1).last() == iv[i as int]);
                assert(iv[i as int] == items@[i as int]@);
            }
            let item = &items[i];
            match &item.parsed {
                Ok(descriptor) => {
                    match reconcile(catalog, descriptor, now) {
                        Ok(challenge) => {
                            let ghost c = challenge@;
                            loaded.push(challenge);
                            proof {
                                assert(chals_view(loaded@) =~= acc.loaded.push(c));
                            }
                        },
                        Err(e) => {
                            failures.push((item.path.clone(), SyncError::Reconcile(e)));
                            proof {
                                assert(failures_view(failures@) =~= acc.failures.push(
                                    (item.path@, SyncError::Reconcile(e)),
                                ));
                            }
                        },
                    }
                },
                Err(parse_error) => {
                    failures.push((item.path.clone(), SyncError::Parse(*parse_error)));
                    proof {
                        assert(failures_view(failures@) =~= acc.failures.push(
                            (item.path@, SyncError::Parse(*parse_error)),
                        ));
                    }
                },
            }
            i = i + 1;
        }
        proof {
            assert(iv.subrange(0, n as int) =~= iv);
        }
        SyncReport { loaded, failures }
    }

    /// Runs one synchronization pass: decodes the descriptor files handed to
    /// it and reconciles them into the catalog, returning the aggregated
    /// report. The catalog and the report are exactly one model run over the
    /// item sequence the files determine: each file's path with the parse
    /// outcome of its text.
    pub fn run_sync(catalog: &mut Catalog, files: &Vec<SourceFile>, now: i64) -> (report:
        SyncReport)
        requires
            old(catalog).wf(),
        ensures
            final(catalog).wf(),
            sync_outcome_matches(
                old(catalog)@,
                items_of_files(files@),
                now as int,
                final(catalog)@,
                chals_view(report.loaded@),
                failures_view(report.failures@),
            ),
    {
        let items = Self::parse_items(files);
        let report = Self::reconcile_items(catalog, &items, now);
        proof {
            assert(items_view(items@) =~= items_of_files(files@));
        }
        report
    }
}

} // verus!
