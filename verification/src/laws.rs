//! The laws of the synchronization pipeline.
//!
//! These proof functions state, over the functional model of `sync`, what
//! the pipeline guarantees across whole runs: every reachable catalog keeps
//! its natural keys unique; a reconciliation never mutates or removes an
//! existing row; running the same items again changes nothing and reports
//! the same rows; any interleaving of concurrent reconciliations of the same
//! key converges to one row that every participant resolves to; and a run
//! isolates item failures instead of aborting.

use vstd::prelude::*;

use crate::catalog::{
    catalog_wf, category_index, category_insertable, category_named, challenge_index,
    challenge_insertable, challenge_keyed, fresh_challenge, has_category, has_challenge,
    lemma_category_index_from, lemma_category_pinned, lemma_challenge_index_from,
    lemma_challenge_pinned, lemma_with_category_wf, lemma_with_challenge_wf, upsert_category,
    upsert_challenge, with_category, with_challenge, CatalogSnap, StoreError,
};
use crate::descriptor::DescriptorSnap;
use crate::models::category::CategorySnap;
use crate::models::challenge::ChallengeSnap;
use crate::sync::{
    apply_descriptor_outcome, apply_descriptor_state, sync_run, sync_run_from, SyncError,
    SyncItemSnap, SyncSnap,
};

verus! {

/// The catalog `t` is the catalog `s` with more reconciliation work applied:
/// every row of `s` stands unchanged at its place in `t`, the id counters
/// have not gone backwards, and every added row consumed an id.
pub open spec fn extends(s: CatalogSnap, t: CatalogSnap) -> bool {
    &&& s.categories.is_prefix_of(t.categories)
    &&& s.challenges.is_prefix_of(t.challenges)
    &&& s.next_category_id <= t.next_category_id
    &&& s.next_challenge_id <= t.next_challenge_id
    &&& t.categories.len() - s.categories.len() <= t.next_category_id - s.next_category_id
    &&& t.challenges.len() - s.challenges.len() <= t.next_challenge_id - s.next_challenge_id
}

pub proof fn lemma_extends_refl(s: CatalogSnap)
    ensures
        extends(s, s),
{
    assert(s.categories =~= s.categories.subrange(0, s.categories.len() as int));
    assert(s.challenges =~= s.challenges.subrange(0, s.challenges.len() as int));
}

pub proof fn lemma_extends_trans(a: CatalogSnap, b: CatalogSnap, c: CatalogSnap)
    requires
        extends(a, b),
        extends(b, c),
    ensures
        extends(a, c),
{
    assert forall|k: int| 0 <= k < a.categories.len() implies a.categories[k]
        == c.categories.subrange(0, a.categories.len() as int)[k] by {
        assert(a.categories[k] == b.categories.subrange(0, a.categories.len() as int)[k]);
        assert(b.categories[k] == c.categories.subrange(0, b.categories.len() as int)[k]);
    }
    assert(a.categories =~= c.categories.subrange(0, a.categories.len() as int));
    assert forall|k: int| 0 <= k < a.challenges.len() implies a.challenges[k]
        == c.challenges.subrange(0, a.challenges.len() as int)[k] by {
        assert(a.challenges[k] == b.challenges.subrange(0, a.challenges.len() as int)[k]);
        assert(b.challenges[k] == c.challenges.subrange(0, b.challenges.len() as int)[k]);
    }
    assert(a.challenges =~= c.challenges.subrange(0, a.challenges.len() as int));
}

/// Find-or-create of a category keeps the catalog well-formed, only appends,
/// and leaves every challenge row alone.
pub proof fn lemma_upsert_category_props(s: CatalogSnap, name: Seq<char>)
    requires
        catalog_wf(s),
    ensures
        catalog_wf(upsert_category(s, name)),
        extends(s, upsert_category(s, name)),
        upsert_category(s, name).challenges == s.challenges,
        has_category(s, name) || category_insertable(s) ==> has_category(
            upsert_category(s, name),
            name,
        ),
        has_category(s, name) ==> upsert_category(s, name) == s,
        !has_category(s, name) && category_insertable(s) ==> category_named(
            upsert_category(s, name),
            name,
        ) == (CategorySnap { id: s.next_category_id, name }),
{
    if has_category(s, name) {
        lemma_extends_refl(s);
    } else if category_insertable(s) {
        lemma_with_category_wf(s, name);
        let t = with_category(s, name);
        assert(s.categories =~= t.categories.subrange(0, s.categories.len() as int));
        assert(s.challenges =~= t.challenges.subrange(0, s.challenges.len() as int));
    } else {
        lemma_extends_refl(s);
    }
}

/// Find-or-create of a challenge keeps the catalog well-formed, only
/// appends, and leaves every category row alone.
pub proof fn lemma_upsert_challenge_props(
    s: CatalogSnap,
    category_id: int,
    name: Seq<char>,
    difficulty: Seq<char>,
    description: Seq<char>,
    hint: Option<Seq<char>>,
    now: int,
)
    requires
        catalog_wf(s),
    ensures
        catalog_wf(upsert_challenge(s, category_id, name, difficulty, description, hint, now)),
        extends(s, upsert_challenge(s, category_id, name, difficulty, description, hint, now)),
        upsert_challenge(s, category_id, name, difficulty, description, hint, now).categories
            == s.categories,
        has_challenge(s, category_id, name) || challenge_insertable(s) ==> has_challenge(
            upsert_challenge(s, category_id, name, difficulty, description, hint, now),
            category_id,
            name,
        ),
        has_challenge(s, category_id, name) ==> upsert_challenge(
            s,
            category_id,
            name,
            difficulty,
            description,
            hint,
            now,
        ) == s,
        !has_challenge(s, category_id, name) && challenge_insertable(s) ==> challenge_keyed(
            upsert_challenge(s, category_id, name, difficulty, description, hint, now),
            category_id,
            name,
        ) == fresh_challenge(s, category_id, name, difficulty, description, hint, now),
{
    if has_challenge(s, category_id, name) {
        lemma_extends_refl(s);
    } else if challenge_insertable(s) {
        let c = fresh_challenge(s, category_id, name, difficulty, description, hint, now);
        lemma_with_challenge_wf(s, c);
        let t = with_challenge(s, c);
        assert(s.categories =~= t.categories.subrange(0, s.categories.len() as int));
        assert(s.challenges =~= t.challenges.subrange(0, s.challenges.len() as int));
    } else {
        lemma_extends_refl(s);
    }
}

/// Reconciling one descriptor keeps the catalog well-formed and only
/// appends rows: nothing already stored is mutated or removed.
pub proof fn lemma_apply_descriptor(s: CatalogSnap, d: DescriptorSnap, now: int)
    requires
        catalog_wf(s),
    ensures
        catalog_wf(apply_descriptor_state(s, d, now)),
        extends(s, apply_descriptor_state(s, d, now)),
{
    lemma_upsert_category_props(s, d.category_name);
    let s1 = upsert_category(s, d.category_name);
    if has_category(s1, d.category_name) {
        let c = category_named(s1, d.category_name);
        lemma_upsert_challenge_props(s1, c.id, d.title, d.difficulty, d.description, d.hint, now);
        lemma_extends_trans(
            s,
            s1,
            upsert_challenge(s1, c.id, d.title, d.difficulty, d.description, d.hint, now),
        );
    }
}

/// Every catalog a run passes through is well-formed, and a run only
/// appends rows.
pub proof fn lemma_sync_run_from(acc: SyncSnap, items: Seq<SyncItemSnap>, now: int)
    requires
        catalog_wf(acc.state),
    ensures
        catalog_wf(sync_run_from(acc, items, now).state),
        extends(acc.state, sync_run_from(acc, items, now).state),
    decreases items.len(),
{
    if items.len() == 0 {
        lemma_extends_refl(acc.state);
    } else {
        let mid = sync_run_from(acc, items.drop_last(), now);
        lemma_sync_run_from(acc, items.drop_last(), now);
        match items.last().parsed {
            Ok(d) => {
                lemma_apply_descriptor(mid.state, d, now);
                lemma_extends_trans(acc.state, mid.state, apply_descriptor_state(mid.state, d, now));
            },
            Err(_) => {},
        }
    }
}

/// Natural-key uniqueness across whole runs: a run against a well-formed
/// catalog leaves a well-formed catalog — no two categories share a name and
/// no two challenges share `(category_id, name)` — and every row present
/// before the run stands unchanged after it.
pub proof fn lemma_sync_run_wf(s: CatalogSnap, items: Seq<SyncItemSnap>, now: int)
    requires
        catalog_wf(s),
    ensures
        catalog_wf(sync_run(s, items, now).state),
        extends(s, sync_run(s, items, now).state),
{
    lemma_sync_run_from(
        SyncSnap { state: s, loaded: Seq::empty(), failures: Seq::empty() },
        items,
        now,
    );
}

/// First write wins: reconciling a descriptor whose natural key already
/// exists leaves the catalog unchanged — whatever the descriptor's
/// `difficulty`, `description` or `hint` hold — and returns the stored row.
pub proof fn lemma_first_write_wins(s: CatalogSnap, d: DescriptorSnap, now: int)
    requires
        catalog_wf(s),
        has_category(s, d.category_name),
        has_challenge(s, category_named(s, d.category_name).id, d.title),
    ensures
        apply_descriptor_state(s, d, now) == s,
        apply_descriptor_outcome(s, d, now) == Ok::<ChallengeSnap, StoreError>(
            challenge_keyed(s, category_named(s, d.category_name).id, d.title),
        ),
{
}

// ---------------------------------------------------------------------------
// Stability: settled work stays settled.
// ---------------------------------------------------------------------------

/// Once a category name is bound to a row, every later catalog binds it to
/// the very same row. In particular, a reconciler whose insert lost a race —
/// the name was bound concurrently — re-runs its lookup and resolves to the
/// winner's row, and that identity never changes afterwards.
pub proof fn lemma_category_binding_stable(s: CatalogSnap, t: CatalogSnap, name: Seq<char>)
    requires
        catalog_wf(s),
        catalog_wf(t),
        extends(s, t),
        has_category(s, name),
    ensures
        has_category(t, name),
        category_named(t, name) == category_named(s, name),
{
    lemma_category_index_from(s.categories, name, 0);
    let k = category_index(s.categories, name)->0;
    assert(s.categories[k] == t.categories.subrange(0, s.categories.len() as int)[k]);
    lemma_category_pinned(t, k);
}

/// Once a challenge key is bound to a row, every later catalog binds it to
/// the very same row, whatever further reconciliations ran in between.
pub proof fn lemma_challenge_binding_stable(
    s: CatalogSnap,
    t: CatalogSnap,
    category_id: int,
    name: Seq<char>,
)
    requires
        catalog_wf(s),
        catalog_wf(t),
        extends(s, t),
        has_challenge(s, category_id, name),
    ensures
        has_challenge(t, category_id, name),
        challenge_keyed(t, category_id, name) == challenge_keyed(s, category_id, name),
{
    lemma_challenge_index_from(s.challenges, category_id, name, 0);
    let k = challenge_index(s.challenges, category_id, name)->0;
    assert(s.challenges[k] == t.challenges.subrange(0, s.challenges.len() as int)[k]);
    lemma_challenge_pinned(t, k);
}

/// When the category id counter has not moved between `s` and an extension
/// `t`, no category was inserted: the tables are identical.
proof fn lemma_frozen_categories(s: CatalogSnap, t: CatalogSnap)
    requires
        extends(s, t),
        s.next_category_id == t.next_category_id,
    ensures
        t.categories == s.categories,
{
    assert(t.categories.len() == s.categories.len());
    assert(t.categories =~= t.categories.subrange(0, t.categories.len() as int));
    assert(t.categories =~= s.categories);
}

/// When the challenge id counter has not moved between `s` and an extension
/// `t`, no challenge was inserted: the tables are identical.
proof fn lemma_frozen_challenges(s: CatalogSnap, t: CatalogSnap)
    requires
        extends(s, t),
        s.next_challenge_id == t.next_challenge_id,
    ensures
        t.challenges == s.challenges,
{
    assert(t.challenges.len() == s.challenges.len());
    assert(t.challenges =~= t.challenges.subrange(0, t.challenges.len() as int));
    assert(t.challenges =~= s.challenges);
}

/// The insert-then-re-read protocol of the category reconciler, under
/// interference. This run looked `name` up in `s0` and missed; by the time
/// its insert ran, concurrent reconciliations had moved the catalog to `t`,
/// so the insert either created the row or lost the race to a concurrent
/// insert; the re-read by the natural key runs at `u`, after yet more
/// interference. Whatever happened in between, the re-read finds exactly one
/// row named `name`, the row the winning insert created.
pub proof fn lemma_category_protocol_converges(
    s0: CatalogSnap,
    t: CatalogSnap,
    u: CatalogSnap,
    name: Seq<char>,
)
    requires
        catalog_wf(s0),
        catalog_wf(t),
        catalog_wf(u),
        extends(s0, t),
        !has_category(s0, name),
        // The insert step's two outcomes: it created the row, or a
        // concurrent insert had already bound the name.
        has_category(t, name) || category_insertable(t),
        extends(upsert_category(t, name), u),
    ensures
        has_category(u, name),
        category_named(u, name) == category_named(upsert_category(t, name), name),
{
    lemma_upsert_category_props(t, name);
    lemma_category_binding_stable(upsert_category(t, name), u, name);
}

/// A reconciliation stays settled: at any later catalog that extends its
/// result, reconciling the same descriptor again changes nothing and yields
/// the same outcome — the same row on success, and the same exhaustion
/// failure otherwise.
pub proof fn lemma_apply_stable(
    s: CatalogSnap,
    d: DescriptorSnap,
    now1: int,
    t: CatalogSnap,
    now2: int,
)
    requires
        catalog_wf(s),
        catalog_wf(t),
        extends(apply_descriptor_state(s, d, now1), t),
    ensures
        apply_descriptor_state(t, d, now2) == t,
        apply_descriptor_outcome(t, d, now2) == apply_descriptor_outcome(s, d, now1),
{
    let name = d.category_name;
    lemma_upsert_category_props(s, name);
    let s1 = upsert_category(s, name);
    let post = apply_descriptor_state(s, d, now1);
    lemma_apply_descriptor(s, d, now1);
    if has_category(s1, name) {
        let c = category_named(s1, name);
        lemma_upsert_challenge_props(s1, c.id, d.title, d.difficulty, d.description, d.hint, now1);
        // The category row stands at the same index in s1, post and t.
        lemma_category_index_from(s1.categories, name, 0);
        let kc = category_index(s1.categories, name)->0;
        assert(post.categories[kc] == t.categories.subrange(
            0,
            post.categories.len() as int,
        )[kc]);
        lemma_category_pinned(t, kc);
        lemma_upsert_category_props(t, name);
        if has_challenge(s1, c.id, d.title) {
            // The stored row was returned; it stands unchanged in t.
            lemma_challenge_index_from(s1.challenges, c.id, d.title, 0);
            let kh = challenge_index(s1.challenges, c.id, d.title)->0;
            assert(post.challenges[kh] == t.challenges.subrange(
                0,
                post.challenges.len() as int,
            )[kh]);
            lemma_challenge_pinned(t, kh);
            lemma_upsert_challenge_props(t, c.id, d.title, d.difficulty, d.description, d.hint, now2);
        } else if challenge_insertable(s1) {
            // A row was created; it stands unchanged in t.
            let fresh = fresh_challenge(s1, c.id, d.title, d.difficulty, d.description, d.hint, now1);
            let kh = (post.challenges.len() - 1) as int;
            assert(post.challenges[kh] == fresh);
            assert(post.challenges[kh] == t.challenges.subrange(
                0,
                post.challenges.len() as int,
            )[kh]);
            lemma_challenge_pinned(t, kh);
            lemma_upsert_challenge_props(t, c.id, d.title, d.difficulty, d.description, d.hint, now2);
        } else {
            // The id space was exhausted; it stays exhausted, and no
            // challenge could have appeared meanwhile.
            lemma_frozen_challenges(post, t);
            lemma_upsert_challenge_props(t, c.id, d.title, d.difficulty, d.description, d.hint, now2);
        }
    } else {
        // The category was missing and could not be created; the category id
        // space stays exhausted, so the category table is frozen and the
        // category is still missing in t.
        lemma_frozen_categories(post, t);
        lemma_upsert_category_props(t, name);
    }
}

// ---------------------------------------------------------------------------
// Idempotence of a whole run.
// ---------------------------------------------------------------------------

/// Replaying a run against any catalog that extends the run's result
/// changes nothing and reproduces the run's report entry for entry.
proof fn lemma_sync_replay(
    s: CatalogSnap,
    items: Seq<SyncItemSnap>,
    now1: int,
    now2: int,
    t: CatalogSnap,
)
    requires
        catalog_wf(s),
        catalog_wf(t),
        extends(sync_run(s, items, now1).state, t),
    ensures
        sync_run(t, items, now2) == (SyncSnap {
            state: t,
            loaded: sync_run(s, items, now1).loaded,
            failures: sync_run(s, items, now1).failures,
        }),
    decreases items.len(),
{
    let r1 = sync_run(s, items, now1);
    if items.len() == 0 {
        assert(sync_run(t, items, now2) =~= SyncSnap {
            state: t,
            loaded: r1.loaded,
            failures: r1.failures,
        });
    } else {
        let pre = items.drop_last();
        let it = items.last();
        let q1 = sync_run(s, pre, now1);
        lemma_sync_run_wf(s, pre, now1);
        match it.parsed {
            Ok(d) => {
                lemma_apply_descriptor(q1.state, d, now1);
                lemma_extends_trans(q1.state, r1.state, t);
                lemma_sync_replay(s, pre, now1, now2, t);
                lemma_apply_stable(q1.state, d, now1, t, now2);
                assert(sync_run(t, items, now2) =~= SyncSnap {
                    state: t,
                    loaded: r1.loaded,
                    failures: r1.failures,
                });
            },
            Err(e) => {
                lemma_sync_replay(s, pre, now1, now2, t);
                assert(sync_run(t, items, now2) =~= SyncSnap {
                    state: t,
                    loaded: r1.loaded,
                    failures: r1.failures,
                });
            },
        }
    }
}

/// Idempotence: running a sync twice in succession over the same items
/// leaves zero new rows after the second run — the catalog is exactly the
/// catalog the first run left — and the second report lists the same loaded
/// rows and the same failures as the first.
pub proof fn lemma_sync_idempotent(s: CatalogSnap, items: Seq<SyncItemSnap>, now1: int, now2: int)
    requires
        catalog_wf(s),
    ensures
        ({
            let r1 = sync_run(s, items, now1);
            let r2 = sync_run(r1.state, items, now2);
            r2.state == r1.state && r2.loaded == r1.loaded && r2.failures == r1.failures
        }),
{
    let r1 = sync_run(s, items, now1);
    lemma_sync_run_wf(s, items, now1);
    lemma_extends_refl(r1.state);
    lemma_sync_replay(s, items, now1, now2, r1.state);
}

// ---------------------------------------------------------------------------
// Completeness: success is owed wherever the id space allows it.
// ---------------------------------------------------------------------------

/// A reconciliation can fail only on id-space exhaustion, a machine limit:
/// with a free category id and a free challenge id, reconciling any
/// descriptor returns a row.
pub proof fn lemma_apply_outcome_ok(s: CatalogSnap, d: DescriptorSnap, now: int)
    requires
        catalog_wf(s),
        category_insertable(s),
        challenge_insertable(s),
    ensures
        apply_descriptor_outcome(s, d, now) is Ok,
{
    lemma_upsert_category_props(s, d.category_name);
}

/// A run over parsed items completes in full wherever the id space has
/// headroom for every item: the report lists every item as loaded and no
/// failures, and each item consumes at most one id of each table. The
/// headroom bound is the one input the statement must leave out: without
/// it, the finite id space can force a reconcile failure.
pub proof fn lemma_run_completes(s: CatalogSnap, items: Seq<SyncItemSnap>, now: int)
    requires
        catalog_wf(s),
        forall|k: int| 0 <= k < items.len() ==> (#[trigger] items[k].parsed) is Ok,
        s.next_category_id + items.len() <= i32::MAX as int,
        s.next_challenge_id + items.len() <= i32::MAX as int,
    ensures
        sync_run(s, items, now).failures.len() == 0,
        sync_run(s, items, now).loaded.len() == items.len(),
        sync_run(s, items, now).state.next_category_id <= s.next_category_id + items.len(),
        sync_run(s, items, now).state.next_challenge_id <= s.next_challenge_id + items.len(),
    decreases items.len(),
{
    if items.len() > 0 {
        let pre = items.drop_last();
        assert(forall|k: int| 0 <= k < pre.len() ==> (#[trigger] pre[k]) == items[k]);
        lemma_run_completes(s, pre, now);
        lemma_sync_run_wf(s, pre, now);
        let mid = sync_run(s, pre, now);
        match items.last().parsed {
            Ok(d) => {
                lemma_apply_outcome_ok(mid.state, d, now);
                // The step consumes at most one id of each table.
                let s1 = upsert_category(mid.state, d.category_name);
                assert(s1.next_category_id <= mid.state.next_category_id + 1);
                assert(s1.next_challenge_id == mid.state.next_challenge_id);
                assert(apply_descriptor_state(mid.state, d, now).next_category_id
                    == s1.next_category_id);
                assert(apply_descriptor_state(mid.state, d, now).next_challenge_id
                    <= s1.next_challenge_id + 1);
            },
            Err(_) => {
                assert(items[items.len() - 1].parsed is Err);
                assert(false);
            },
        }
    }
}

// ---------------------------------------------------------------------------
// Concurrent runs.
// ---------------------------------------------------------------------------

/// One reconciliation step of some run: the descriptor it reconciles and
/// the creation timestamp it carries.
pub struct SyncOp {
    pub descriptor: DescriptorSnap,
    pub now: int,
}

/// The catalog after a sequence of reconciliation steps. Concurrent runs
/// interleave their steps into one such sequence: the store serializes the
/// reconciliations, in whatever order the race resolves to.
pub open spec fn apply_ops(s: CatalogSnap, ops: Seq<SyncOp>) -> CatalogSnap
    decreases ops.len(),
{
    if ops.len() == 0 {
        s
    } else {
        apply_descriptor_state(
            apply_ops(s, ops.drop_last()),
            ops.last().descriptor,
            ops.last().now,
        )
    }
}

/// The catalog the step at position `k` acts on.
pub open spec fn op_state_before(s: CatalogSnap, ops: Seq<SyncOp>, k: int) -> CatalogSnap {
    apply_ops(s, ops.subrange(0, k))
}

/// What the step at position `k` returns.
pub open spec fn op_outcome(s: CatalogSnap, ops: Seq<SyncOp>, k: int) -> Result<
    ChallengeSnap,
    StoreError,
> {
    apply_descriptor_outcome(op_state_before(s, ops, k), ops[k].descriptor, ops[k].now)
}

/// Natural-key uniqueness under any interleaving: every catalog reachable
/// by reconciliation steps from a well-formed catalog is well-formed, and
/// rows are only ever appended.
pub proof fn lemma_apply_ops_wf(s: CatalogSnap, ops: Seq<SyncOp>)
    requires
        catalog_wf(s),
    ensures
        catalog_wf(apply_ops(s, ops)),
        extends(s, apply_ops(s, ops)),
    decreases ops.len(),
{
    if ops.len() == 0 {
        lemma_extends_refl(s);
    } else {
        let mid = apply_ops(s, ops.drop_last());
        lemma_apply_ops_wf(s, ops.drop_last());
        lemma_apply_descriptor(mid, ops.last().descriptor, ops.last().now);
        lemma_extends_trans(
            s,
            mid,
            apply_descriptor_state(mid, ops.last().descriptor, ops.last().now),
        );
    }
}

proof fn lemma_apply_ops_concat(s: CatalogSnap, a: Seq<SyncOp>, b: Seq<SyncOp>)
    ensures
        apply_ops(s, a + b) == apply_ops(apply_ops(s, a), b),
    decreases b.len(),
{
    if b.len() == 0 {
        assert(a + b =~= a);
    } else {
        lemma_apply_ops_concat(s, a, b.drop_last());
        assert((a + b).drop_last() =~= a + b.drop_last());
    }
}

/// A successful reconciliation returns a challenge row of the resulting
/// catalog, keyed by the descriptor's title under the category row named by
/// the descriptor.
proof fn lemma_outcome_ok_row(s: CatalogSnap, d: DescriptorSnap, now: int)
    requires
        catalog_wf(s),
        apply_descriptor_outcome(s, d, now) is Ok,
    ensures
        ({
            let post = apply_descriptor_state(s, d, now);
            let c = apply_descriptor_outcome(s, d, now)->Ok_0;
            &&& has_category(post, d.category_name)
            &&& c.category_id == category_named(post, d.category_name).id
            &&& c.name == d.title
            &&& has_challenge(post, c.category_id, c.name)
            &&& challenge_keyed(post, c.category_id, c.name) == c
        }),
{
    lemma_upsert_category_props(s, d.category_name);
    let s1 = upsert_category(s, d.category_name);
    let c0 = category_named(s1, d.category_name);
    lemma_upsert_challenge_props(s1, c0.id, d.title, d.difficulty, d.description, d.hint, now);
    if has_challenge(s1, c0.id, d.title) {
        // The stored row carries the looked-up key.
        lemma_challenge_index_from(s1.challenges, c0.id, d.title, 0);
    }
}

/// The row a successful step returned stands pinned in the final catalog:
/// it is the unique row under the descriptor's natural key there.
proof fn lemma_op_row_in_final(s: CatalogSnap, ops: Seq<SyncOp>, k: int)
    requires
        catalog_wf(s),
        0 <= k < ops.len(),
        op_outcome(s, ops, k) is Ok,
    ensures
        ({
            let fin = apply_ops(s, ops);
            let c = op_outcome(s, ops, k)->Ok_0;
            let name = ops[k].descriptor.category_name;
            &&& has_category(fin, name)
            &&& c.category_id == category_named(fin, name).id
            &&& c.name == ops[k].descriptor.title
            &&& has_challenge(fin, c.category_id, c.name)
            &&& challenge_keyed(fin, c.category_id, c.name) == c
        }),
{
    let pre = op_state_before(s, ops, k);
    let d = ops[k].descriptor;
    let now = ops[k].now;
    let c = op_outcome(s, ops, k)->Ok_0;
    let fin = apply_ops(s, ops);
    lemma_apply_ops_wf(s, ops.subrange(0, k));
    lemma_outcome_ok_row(pre, d, now);
    let post = apply_descriptor_state(pre, d, now);
    lemma_apply_descriptor(pre, d, now);
    // The catalog right after the step is the fold of the first k+1 steps.
    assert(ops.subrange(0, k + 1).drop_last() =~= ops.subrange(0, k));
    assert(post == apply_ops(s, ops.subrange(0, k + 1)));
    // The final catalog extends it.
    lemma_apply_ops_concat(s, ops.subrange(0, k + 1), ops.subrange(k + 1, ops.len() as int));
    assert(ops.subrange(0, k + 1) + ops.subrange(k + 1, ops.len() as int) =~= ops);
    lemma_apply_ops_wf(post, ops.subrange(k + 1, ops.len() as int));
    // The category row named by the descriptor stands at its index.
    lemma_category_index_from(post.categories, d.category_name, 0);
    let kc = category_index(post.categories, d.category_name)->0;
    assert(post.categories[kc] == fin.categories.subrange(0, post.categories.len() as int)[kc]);
    lemma_category_pinned(fin, kc);
    // The returned challenge row stands at its index.
    lemma_challenge_index_from(post.challenges, c.category_id, c.name, 0);
    let kh = challenge_index(post.challenges, c.category_id, c.name)->0;
    assert(post.challenges[kh] == fin.challenges.subrange(0, post.challenges.len() as int)[kh]);
    lemma_challenge_pinned(fin, kh);
}

/// Race convergence: in any interleaving of concurrent reconciliations, two
/// successful steps for the same natural key — the same category name and
/// title — return the very same persisted row, and the final catalog holds
/// exactly one category row and one challenge row for that key (uniqueness
/// is `catalog_wf`, preserved by `lemma_apply_ops_wf`).
pub proof fn lemma_race_convergence(s: CatalogSnap, ops: Seq<SyncOp>, i: int, j: int)
    requires
        catalog_wf(s),
        0 <= i < ops.len(),
        0 <= j < ops.len(),
        ops[i].descriptor.category_name == ops[j].descriptor.category_name,
        ops[i].descriptor.title == ops[j].descriptor.title,
        op_outcome(s, ops, i) is Ok,
        op_outcome(s, ops, j) is Ok,
    ensures
        op_outcome(s, ops, i) == op_outcome(s, ops, j),
        has_category(apply_ops(s, ops), ops[i].descriptor.category_name),
        has_challenge(
            apply_ops(s, ops),
            category_named(apply_ops(s, ops), ops[i].descriptor.category_name).id,
            ops[i].descriptor.title,
        ),
        op_outcome(s, ops, i)->Ok_0 == challenge_keyed(
            apply_ops(s, ops),
            category_named(apply_ops(s, ops), ops[i].descriptor.category_name).id,
            ops[i].descriptor.title,
        ),
{
    lemma_op_row_in_final(s, ops, i);
    lemma_op_row_in_final(s, ops, j);
}

// ---------------------------------------------------------------------------
// Partial-failure isolation.
// ---------------------------------------------------------------------------

proof fn lemma_prefix_contains<A>(a: Seq<A>, b: Seq<A>, x: A)
    requires
        a.is_prefix_of(b),
        a.contains(x),
    ensures
        b.contains(x),
{
    let idx = choose|idx: int| 0 <= idx < a.len() && a[idx] == x;
    assert(a[idx] == b.subrange(0, a.len() as int)[idx]);
    assert(b[idx] == x);
}

proof fn lemma_isolation_from(acc: SyncSnap, items: Seq<SyncItemSnap>, now: int)
    ensures
        ({
            let r = sync_run_from(acc, items, now);
            &&& r.loaded.len() + r.failures.len() == acc.loaded.len() + acc.failures.len()
                + items.len()
            &&& acc.loaded.is_prefix_of(r.loaded)
            &&& acc.failures.is_prefix_of(r.failures)
            &&& forall|k: int|
                0 <= k < items.len() && (#[trigger] items[k].parsed) is Err ==> r.failures.contains(
                    (items[k].path, SyncError::Parse(items[k].parsed->Err_0)),
                )
        }),
    decreases items.len(),
{
    let r = sync_run_from(acc, items, now);
    if items.len() == 0 {
        assert(acc.loaded =~= r.loaded.subrange(0, acc.loaded.len() as int));
        assert(acc.failures =~= r.failures.subrange(0, acc.failures.len() as int));
    } else {
        let pre = items.drop_last();
        let it = items.last();
        let mid = sync_run_from(acc, pre, now);
        lemma_isolation_from(acc, pre, now);
        // One entry is pushed for the last item; pushing keeps prefixes.
        assert(mid.loaded =~= r.loaded.subrange(0, mid.loaded.len() as int));
        assert(mid.failures =~= r.failures.subrange(0, mid.failures.len() as int));
        assert forall|k: int|
            0 <= k < items.len() && (#[trigger] items[k].parsed) is Err implies r.failures.contains(
            (items[k].path, SyncError::Parse(items[k].parsed->Err_0)),
        ) by {
            if k < items.len() - 1 {
                assert(pre[k] == items[k]);
                lemma_prefix_contains(
                    mid.failures,
                    r.failures,
                    (items[k].path, SyncError::Parse(items[k].parsed->Err_0)),
                );
            } else {
                match it.parsed {
                    Err(e) => {
                        assert(r.failures.last() == (it.path, SyncError::Parse(e)));
                    },
                    Ok(_) => {},
                }
            }
        }
        // Prefix transitivity for the accumulated reports.
        assert forall|m: int| 0 <= m < acc.loaded.len() implies acc.loaded[m] == r.loaded.subrange(
            0,
            acc.loaded.len() as int,
        )[m] by {
            assert(acc.loaded[m] == mid.loaded.subrange(0, acc.loaded.len() as int)[m]);
            assert(mid.loaded[m] == r.loaded.subrange(0, mid.loaded.len() as int)[m]);
        }
        assert(acc.loaded =~= r.loaded.subrange(0, acc.loaded.len() as int));
        assert forall|m: int|
            0 <= m < acc.failures.len() implies acc.failures[m] == r.failures.subrange(
            0,
            acc.failures.len() as int,
        )[m] by {
            assert(acc.failures[m] == mid.failures.subrange(0, acc.failures.len() as int)[m]);
            assert(mid.failures[m] == r.failures.subrange(0, mid.failures.len() as int)[m]);
        }
        assert(acc.failures =~= r.failures.subrange(0, acc.failures.len() as int));
    }
}

/// Partial-failure isolation: a run never aborts on a failing item. Every
/// item contributes exactly one report entry — loaded or failure — so the
/// entry counts add up to the item count, and every item the parser
/// rejected is recorded as a parse failure under that item's path.
pub proof fn lemma_partial_failure_isolation(s: CatalogSnap, items: Seq<SyncItemSnap>, now: int)
    ensures
        sync_run(s, items, now).loaded.len() + sync_run(s, items, now).failures.len()
            == items.len(),
        forall|k: int|
            0 <= k < items.len() && (#[trigger] items[k].parsed) is Err ==> sync_run(
                s,
                items,
                now,
            ).failures.contains((items[k].path, SyncError::Parse(items[k].parsed->Err_0))),
{
    lemma_isolation_from(
        SyncSnap { state: s, loaded: Seq::empty(), failures: Seq::empty() },
        items,
        now,
    );
}

} // verus!
