//! Store operations on the challenge table.

use vstd::prelude::*;

use crate::catalog::{
    challenge_index, challenge_insertable, challenge_keyed, chals_view, fresh_challenge,
    has_category_id, has_challenge, lemma_challenge_index_from, with_challenge, Catalog,
    StoreError,
};
use crate::models::challenge::{hint_view, Challenge, NewChallenge};

verus! {

/// Repository for managing challenges in the catalog store.
pub struct ChallengeRepository;

impl ChallengeRepository {
    /// Retrieves all challenges of the catalog.
    pub fn get_all_challenges(catalog: &Catalog) -> (r: Vec<Challenge>)
        ensures
            chals_view(r@) == catalog@.challenges,
    {
        let mut out: Vec<Challenge> = Vec::new();
        let n = catalog.challenges.len();
        let mut i: usize = 0;
        while i < n
            invariant
                n == catalog.challenges.len(),
                i <= n,
                out@.len() == i,
                forall|m: int| 0 <= m < i ==> (#[trigger] out@[m])@ == catalog@.challenges[m],
            decreases n - i,
        {
            out.push(catalog.challenges[i].duplicate());
            i = i + 1;
        }
        proof {
            assert(chals_view(out@) =~= catalog@.challenges);
        }
        out
    }

    /// Finds a challenge by its natural key: its name together with the id
    /// of its category.
    pub fn find_challenge_by_name_and_category_id(
        catalog: &Catalog,
        challenge_name: &String,
        challenge_category_id: i32,
    ) -> (r: Option<Challenge>)
        ensures
            match r {
                Some(c) => has_challenge(catalog@, challenge_category_id as int, challenge_name@)
                    && c@ == challenge_keyed(
                    catalog@,
                    challenge_category_id as int,
                    challenge_name@,
                ),
                None => !has_challenge(catalog@, challenge_category_id as int, challenge_name@),
            },
    {
        let ghost chals = catalog@.challenges;
        let ghost cid = challenge_category_id as int;
        let ghost name = challenge_name@;
        let n = catalog.challenges.len();
        let mut i: usize = 0;
        while i < n
            invariant
                n == catalog.challenges.len(),
                chals == catalog@.challenges,
                cid == challenge_category_id as int,
                name == challenge_name@,
                i <= n,
                forall|m: int|
                    0 <= m < i ==> !((#[trigger] chals[m].category_id) == cid && chals[m].name
                        == name),
            decreases n - i,
        {
            if catalog.challenges[i].category_id == challenge_category_id
                && catalog.challenges[i].name == *challenge_name {
                proof {
                    lemma_challenge_index_from(chals, cid, name, 0);
                    match challenge_index(chals, cid, name) {
                        Some(k) => {
                            if k < i as int {
                                assert(!(chals[k].category_id == cid && chals[k].name == name));
                            } else if k > i as int {
                                assert(!(chals[i as int].category_id == cid && chals[i as int].name
                                    == name));
                            }
                        },
                        None => {
                            assert(!(chals[i as int].category_id == cid && chals[i as int].name
                                == name));
                        },
                    }
                }
                return Some(catalog.challenges[i].duplicate());
            }
            i = i + 1;
        }
        proof {
            lemma_challenge_index_from(chals, cid, name, 0);
            if challenge_index(chals, cid, name) is Some {
                let k = challenge_index(chals, cid, name)->0;
                assert(!(chals[k].category_id == cid && chals[k].name == name));
            }
        }
        None
    }

    /// Finds a challenge by its assigned ID.
    pub fn find_challenge_by_id(catalog: &Catalog, challenge_id: i32) -> (r: Option<Challenge>)
        ensures
            match r {
                Some(c) => c@.id == challenge_id as int && exists|k: int|
                    0 <= k < catalog@.challenges.len() && (#[trigger] catalog@.challenges[k])
                        == c@,
                None => forall|k: int|
                    0 <= k < catalog@.challenges.len() ==> (#[trigger] catalog@.challenges[k].id)
                        != challenge_id as int,
            },
    {
        let n = catalog.challenges.len();
        let mut i: usize = 0;
        while i < n
            invariant
                n == catalog.challenges.len(),
                i <= n,
                forall|m: int|
                    0 <= m < i ==> (#[trigger] catalog@.challenges[m].id) != challenge_id as int,
            decreases n - i,
        {
            if catalog.challenges[i].id == challenge_id {
                let c = catalog.challenges[i].duplicate();
                proof {
                    assert(catalog@.challenges[i as int] == c@);
                }
                return Some(c);
            }
            i = i + 1;
        }
        None
    }

    /// Inserts a new challenge and returns its assigned ID; `now` is the
    /// creation timestamp the row is stamped with.
    ///
    /// Fails with `ForeignKeyViolation` when no category carries
    /// `new_challenge.category_id`, with `UniqueViolation` when a row of the
    /// same `(category_id, name)` key exists, and with `IdSpaceExhausted`
    /// when no fresh id can be assigned; the catalog is unchanged on failure.
    pub fn insert_challenge(catalog: &mut Catalog, new_challenge: NewChallenge, now: i64) -> (r:
        Result<i32, StoreError>)
        requires
            old(catalog).wf(),
        ensures
            final(catalog).wf(),
            match r {
                Ok(id) => has_category_id(old(catalog)@, new_challenge.category_id as int)
                    && !has_challenge(
                    old(catalog)@,
                    new_challenge.category_id as int,
                    new_challenge.name@,
                ) && challenge_insertable(old(catalog)@) && id as int
                    == old(catalog)@.next_challenge_id && final(catalog)@ == with_challenge(
                    old(catalog)@,
                    fresh_challenge(
                        old(catalog)@,
                        new_challenge.category_id as int,
                        new_challenge.name@,
                        new_challenge.difficulty@,
                        new_challenge.description@,
                        hint_view(new_challenge.hint),
                        now as int,
                    ),
                ),
                Err(StoreError::ForeignKeyViolation) => !has_category_id(
                    old(catalog)@,
                    new_challenge.category_id as int,
                ) && final(catalog)@ == old(catalog)@,
                Err(StoreError::UniqueViolation) => has_challenge(
                    old(catalog)@,
                    new_challenge.category_id as int,
                    new_challenge.name@,
                ) && final(catalog)@ == old(catalog)@,
                Err(StoreError::IdSpaceExhausted) => has_category_id(
                    old(catalog)@,
                    new_challenge.category_id as int,
                ) && !has_challenge(
                    old(catalog)@,
                    new_challenge.category_id as int,
                    new_challenge.name@,
                ) && !challenge_insertable(old(catalog)@) && final(catalog)@ == old(catalog)@,
            },
    {
        if !Self::category_id_exists(catalog, new_challenge.category_id) {
            return Err(StoreError::ForeignKeyViolation);
        }
        let found = Self::find_challenge_by_name_and_category_id(
            catalog,
            &new_challenge.name,
            new_challenge.category_id,
        );
        if found.is_some() {
            return Err(StoreError::UniqueViolation);
        }
        if catalog.next_challenge_id == i32::MAX {
            return Err(StoreError::IdSpaceExhausted);
        }
        let id = catalog.next_challenge_id;
        let ghost pre = catalog@;
        catalog.challenges.push(
            Challenge {
                id,
                category_id: new_challenge.category_id,
                name: new_challenge.name,
                difficulty: new_challenge.difficulty,
                description: new_challenge.description,
                hint: new_challenge.hint,
                created_at: now,
            },
        );
        catalog.next_challenge_id = id + 1;
        proof {
            let c = fresh_challenge(
                pre,
                new_challenge.category_id as int,
                new_challenge.name@,
                new_challenge.difficulty@,
                new_challenge.description@,
                hint_view(new_challenge.hint),
                now as int,
            );
            assert(catalog@ =~= with_challenge(pre, c));
            crate::catalog::lemma_with_challenge_wf(pre, c);
        }
        Ok(id)
    }

    /// Whether some category row carries the given id.
    fn category_id_exists(catalog: &Catalog, category_id: i32) -> (r: bool)
        ensures
            r == has_category_id(catalog@, category_id as int),
    {
        let n = catalog.categories.len();
        let mut i: usize = 0;
        while i < n
            invariant
                n == catalog.categories.len(),
                i <= n,
                forall|m: int|
                    0 <= m < i ==> (#[trigger] catalog@.categories[m].id) != category_id as int,
            decreases n - i,
        {
            if catalog.categories[i].id == category_id {
                proof {
                    assert(catalog@.categories[i as int].id == category_id as int);
                }
                return true;
            }
            i = i + 1;
        }
        false
    }
}

} // verus!
