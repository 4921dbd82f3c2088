//! The catalog store: categories and challenges with their natural-key
//! uniqueness invariants.
//!
//! `Catalog` is the executable store; `CatalogSnap` is its mathematical
//! value. The spec functions in this module define exactly how a store with
//! unique natural keys behaves under lookup and insertion, and the lemmas
//! prove the facts about those operations that the reconciliation layer
//! builds on: rows are never mutated or removed, keys stay bound to the same
//! row, and well-formedness is preserved.

use vstd::prelude::*;

use crate::models::category::{Category, CategorySnap};
use crate::models::challenge::{Challenge, ChallengeSnap};

verus! {

/// An error of the catalog store, mirroring the failures a relational
/// backend reports for the catalog schema.
#[derive(Clone, Copy, Debug, PartialEq, Eq, Structural)]
pub enum StoreError {
    /// An insert collided with an existing row of the same natural key.
    UniqueViolation,
    /// An inserted challenge referenced a category id that does not exist.
    ForeignKeyViolation,
    /// The id sequence of the table is used up.
    IdSpaceExhausted,
}

/// The mathematical value of the whole catalog store.
#[verifier::ext_equal]
pub struct CatalogSnap {
    pub categories: Seq<CategorySnap>,
    pub challenges: Seq<ChallengeSnap>,
    pub next_category_id: int,
    pub next_challenge_id: int,
}

/// The executable catalog store.
///
/// Every operation of the store preserves `catalog_wf` of its view: category
/// names are unique, challenge `(category_id, name)` pairs are unique, ids
/// are unique and below the id counters.
pub struct Catalog {
    pub categories: Vec<Category>,
    pub challenges: Vec<Challenge>,
    pub next_category_id: i32,
    pub next_challenge_id: i32,
}

pub open spec fn cats_view(v: Seq<Category>) -> Seq<CategorySnap> {
    v.map_values(|c: Category| c@)
}

pub open spec fn chals_view(v: Seq<Challenge>) -> Seq<ChallengeSnap> {
    v.map_values(|c: Challenge| c@)
}

impl View for Catalog {
    type V = CatalogSnap;

    open spec fn view(&self) -> CatalogSnap {
        CatalogSnap {
            categories: cats_view(self.categories@),
            challenges: chals_view(self.challenges@),
            next_category_id: self.next_category_id as int,
            next_challenge_id: self.next_challenge_id as int,
        }
    }
}

/// The natural keys of two challenge rows coincide.
pub open spec fn same_challenge_key(a: ChallengeSnap, b: ChallengeSnap) -> bool {
    a.category_id == b.category_id && a.name == b.name
}

/// Well-formedness of the catalog: the uniqueness invariants of the schema
/// and the bounds tying every id to the id counters.
pub open spec fn catalog_wf(s: CatalogSnap) -> bool {
    &&& 1 <= s.next_category_id <= i32::MAX as int
    &&& 1 <= s.next_challenge_id <= i32::MAX as int
    &&& (forall|i: int, j: int|
        0 <= i < j < s.categories.len() ==> #[trigger] s.categories[i].name != #[trigger] s.categories[j].name)
    &&& (forall|i: int, j: int|
        0 <= i < j < s.categories.len() ==> #[trigger] s.categories[i].id != #[trigger] s.categories[j].id)
    &&& (forall|i: int|
        0 <= i < s.categories.len() ==> 1 <= #[trigger] s.categories[i].id < s.next_category_id)
    &&& (forall|i: int, j: int|
        0 <= i < j < s.challenges.len() ==> !same_challenge_key(
            #[trigger] s.challenges[i],
            #[trigger] s.challenges[j],
        ))
    &&& (forall|i: int, j: int|
        0 <= i < j < s.challenges.len() ==> #[trigger] s.challenges[i].id != #[trigger] s.challenges[j].id)
    &&& (forall|i: int|
        0 <= i < s.challenges.len() ==> 1 <= #[trigger] s.challenges[i].id < s.next_challenge_id)
}

impl Catalog {
    pub open spec fn wf(&self) -> bool {
        catalog_wf(self@)
    }

    /// Creates an empty catalog.
    pub fn new() -> (r: Catalog)
        ensures
            r@ == empty_catalog(),
            r.wf(),
    {
        let r = Catalog {
            categories: Vec::new(),
            challenges: Vec::new(),
            next_category_id: 1,
            next_challenge_id: 1,
        };
        proof {
            assert(r@ =~= empty_catalog());
        }
        r
    }
}

pub open spec fn empty_catalog() -> CatalogSnap {
    CatalogSnap {
        categories: Seq::empty(),
        challenges: Seq::empty(),
        next_category_id: 1,
        next_challenge_id: 1,
    }
}

// ---------------------------------------------------------------------------
// Lookup by natural key, in specification.
// ---------------------------------------------------------------------------

/// The index of the first category named `name` at or after position `i`.
pub open spec fn category_index_from(cats: Seq<CategorySnap>, name: Seq<char>, i: int) -> Option<int>
    decreases cats.len() - i,
{
    if i < 0 || i >= cats.len() {
        None
    } else if cats[i].name == name {
        Some(i)
    } else {
        category_index_from(cats, name, i + 1)
    }
}

pub open spec fn category_index(cats: Seq<CategorySnap>, name: Seq<char>) -> Option<int> {
    category_index_from(cats, name, 0)
}

pub open spec fn has_category(s: CatalogSnap, name: Seq<char>) -> bool {
    category_index(s.categories, name) is Some
}

/// The category row named `name`; meaningful when `has_category` holds.
pub open spec fn category_named(s: CatalogSnap, name: Seq<char>) -> CategorySnap {
    s.categories[category_index(s.categories, name)->0]
}

/// The index of the first challenge with key `(category_id, name)` at or
/// after position `i`.
pub open spec fn challenge_index_from(
    chals: Seq<ChallengeSnap>,
    category_id: int,
    name: Seq<char>,
    i: int,
) -> Option<int>
    decreases chals.len() - i,
{
    if i < 0 || i >= chals.len() {
        None
    } else if chals[i].category_id == category_id && chals[i].name == name {
        Some(i)
    } else {
        challenge_index_from(chals, category_id, name, i + 1)
    }
}

pub open spec fn challenge_index(chals: Seq<ChallengeSnap>, category_id: int, name: Seq<char>) -> Option<int> {
    challenge_index_from(chals, category_id, name, 0)
}

pub open spec fn has_challenge(s: CatalogSnap, category_id: int, name: Seq<char>) -> bool {
    challenge_index(s.challenges, category_id, name) is Some
}

/// The challenge row with key `(category_id, name)`; meaningful when
/// `has_challenge` holds.
pub open spec fn challenge_keyed(s: CatalogSnap, category_id: int, name: Seq<char>) -> ChallengeSnap {
    s.challenges[challenge_index(s.challenges, category_id, name)->0]
}

/// Whether some category row carries the id `category_id`.
pub open spec fn has_category_id(s: CatalogSnap, category_id: int) -> bool {
    exists|i: int| 0 <= i < s.categories.len() && (#[trigger] s.categories[i].id) == category_id
}

// ---------------------------------------------------------------------------
// Properties of the lookup functions.
// ---------------------------------------------------------------------------

pub proof fn lemma_category_index_from(cats: Seq<CategorySnap>, name: Seq<char>, i: int)
    requires
        0 <= i <= cats.len(),
    ensures
        match category_index_from(cats, name, i) {
            Some(k) => i <= k < cats.len() && cats[k].name == name && (forall|m: int|
                i <= m < k ==> (#[trigger] cats[m].name) != name),
            None => forall|m: int| i <= m < cats.len() ==> (#[trigger] cats[m].name) != name,
        },
    decreases cats.len() - i,
{
    if i < cats.len() && cats[i].name != name {
        lemma_category_index_from(cats, name, i + 1);
    }
}

/// A contained category row is the row that lookup by its name returns.
pub proof fn lemma_category_pinned(s: CatalogSnap, k: int)
    requires
        catalog_wf(s),
        0 <= k < s.categories.len(),
    ensures
        has_category(s, s.categories[k].name),
        category_named(s, s.categories[k].name) == s.categories[k],
        category_index(s.categories, s.categories[k].name) == Some(k),
{
    lemma_category_index_from(s.categories, s.categories[k].name, 0);
    match category_index(s.categories, s.categories[k].name) {
        Some(m) => {
            if m != k {
                assert(s.categories[m].name == s.categories[k].name);
                assert(false);
            }
        },
        None => {
            assert(s.categories[k].name == s.categories[k].name);
            assert(false);
        },
    }
}

pub proof fn lemma_challenge_index_from(
    chals: Seq<ChallengeSnap>,
    category_id: int,
    name: Seq<char>,
    i: int,
)
    requires
        0 <= i <= chals.len(),
    ensures
        match challenge_index_from(chals, category_id, name, i) {
            Some(k) => i <= k < chals.len() && chals[k].category_id == category_id && chals[k].name
                == name && (forall|m: int|
                i <= m < k ==> !((#[trigger] chals[m].category_id) == category_id && chals[m].name
                    == name)),
            None => forall|m: int|
                i <= m < chals.len() ==> !((#[trigger] chals[m].category_id) == category_id
                    && chals[m].name == name),
        },
    decreases chals.len() - i,
{
    if i < chals.len() && !(chals[i].category_id == category_id && chals[i].name == name) {
        lemma_challenge_index_from(chals, category_id, name, i + 1);
    }
}

/// A contained challenge row is the row that lookup by its key returns.
pub proof fn lemma_challenge_pinned(s: CatalogSnap, k: int)
    requires
        catalog_wf(s),
        0 <= k < s.challenges.len(),
    ensures
        has_challenge(s, s.challenges[k].category_id, s.challenges[k].name),
        challenge_keyed(s, s.challenges[k].category_id, s.challenges[k].name) == s.challenges[k],
        challenge_index(s.challenges, s.challenges[k].category_id, s.challenges[k].name) == Some(k),
{
    let cid = s.challenges[k].category_id;
    let name = s.challenges[k].name;
    lemma_challenge_index_from(s.challenges, cid, name, 0);
    match challenge_index(s.challenges, cid, name) {
        Some(m) => {
            if m != k {
                assert(same_challenge_key(s.challenges[m], s.challenges[k]));
                assert(false);
            }
        },
        None => {
            assert(s.challenges[k].category_id == cid && s.challenges[k].name == name);
            assert(false);
        },
    }
}

// ---------------------------------------------------------------------------
// The store operations, in specification.
// ---------------------------------------------------------------------------

/// Whether the category table can still assign a fresh id.
pub open spec fn category_insertable(s: CatalogSnap) -> bool {
    s.next_category_id < i32::MAX as int
}

/// Whether the challenge table can still assign a fresh id.
pub open spec fn challenge_insertable(s: CatalogSnap) -> bool {
    s.next_challenge_id < i32::MAX as int
}

/// The state after inserting a fresh category row named `name`.
pub open spec fn with_category(s: CatalogSnap, name: Seq<char>) -> CatalogSnap {
    CatalogSnap {
        categories: s.categories.push(CategorySnap { id: s.next_category_id, name }),
        next_category_id: s.next_category_id + 1,
        ..s
    }
}

/// The challenge row a fresh insert would create.
pub open spec fn fresh_challenge(s: CatalogSnap, category_id: int, name: Seq<char>, difficulty: Seq<char>, description: Seq<char>, hint: Option<Seq<char>>, created_at: int) -> ChallengeSnap {
    ChallengeSnap {
        id: s.next_challenge_id,
        category_id,
        name,
        difficulty,
        description,
        hint,
        created_at,
    }
}

/// The state after inserting the challenge row `c` with a fresh id.
pub open spec fn with_challenge(s: CatalogSnap, c: ChallengeSnap) -> CatalogSnap {
    CatalogSnap {
        challenges: s.challenges.push(c),
        next_challenge_id: s.next_challenge_id + 1,
        ..s
    }
}

/// The state a find-or-create of the category `name` converges to: the
/// existing row is kept unchanged, a missing row is created once, and a
/// store whose id space is used up is left as it is.
pub open spec fn upsert_category(s: CatalogSnap, name: Seq<char>) -> CatalogSnap {
    if has_category(s, name) {
        s
    } else if category_insertable(s) {
        with_category(s, name)
    } else {
        s
    }
}

/// The state a find-or-create of the challenge `(category_id, name)`
/// converges to, with the remaining descriptor fields used only when a row
/// is created.
pub open spec fn upsert_challenge(
    s: CatalogSnap,
    category_id: int,
    name: Seq<char>,
    difficulty: Seq<char>,
    description: Seq<char>,
    hint: Option<Seq<char>>,
    created_at: int,
) -> CatalogSnap {
    if has_challenge(s, category_id, name) {
        s
    } else if challenge_insertable(s) {
        with_challenge(
            s,
            fresh_challenge(s, category_id, name, difficulty, description, hint, created_at),
        )
    } else {
        s
    }
}

// ---------------------------------------------------------------------------
// Preservation of well-formedness by the store operations.
// ---------------------------------------------------------------------------

pub proof fn lemma_with_category_wf(s: CatalogSnap, name: Seq<char>)
    requires
        catalog_wf(s),
        !has_category(s, name),
        category_insertable(s),
    ensures
        catalog_wf(with_category(s, name)),
        has_category(with_category(s, name), name),
        category_named(with_category(s, name), name) == (CategorySnap {
            id: s.next_category_id,
            name,
        }),
{
    let t = with_category(s, name);
    lemma_category_index_from(s.categories, name, 0);
    assert(forall|i: int, j: int|
        0 <= i < j < t.categories.len() ==> (#[trigger] t.categories[i].name)
            != (#[trigger] t.categories[j].name)) by {
        assert(forall|i: int| 0 <= i < s.categories.len() ==> (#[trigger] s.categories[i].name) != name);
        assert(forall|i: int| 0 <= i < s.categories.len() ==> t.categories[i] == s.categories[i]);
    }
    assert(forall|i: int| 0 <= i < s.categories.len() ==> t.categories[i] == s.categories[i]);
    let k = (t.categories.len() - 1) as int;
    assert(t.categories[k].name == name);
    lemma_category_pinned(t, k);
}

pub proof fn lemma_with_challenge_wf(s: CatalogSnap, c: ChallengeSnap)
    requires
        catalog_wf(s),
        !has_challenge(s, c.category_id, c.name),
        challenge_insertable(s),
        c.id == s.next_challenge_id,
    ensures
        catalog_wf(with_challenge(s, c)),
        has_challenge(with_challenge(s, c), c.category_id, c.name),
        challenge_keyed(with_challenge(s, c), c.category_id, c.name) == c,
        with_challenge(s, c).categories == s.categories,
{
    let t = with_challenge(s, c);
    lemma_challenge_index_from(s.challenges, c.category_id, c.name, 0);
    assert(forall|i: int| 0 <= i < s.challenges.len() ==> t.challenges[i] == s.challenges[i]);
    let k = (t.challenges.len() - 1) as int;
    assert(t.challenges[k] == c);
    lemma_challenge_pinned(t, k);
}

} // verus!
