//! Find-or-create reconciliation of challenges.

use vstd::prelude::*;

use crate::catalog::{
    challenge_insertable, challenge_keyed, chals_view, has_category_id, has_challenge,
    upsert_challenge, Catalog, StoreError,
};
use crate::models::challenge::{hint_view, Challenge, NewChallenge};
use crate::repositories::challenge_repository::ChallengeRepository;

verus! {

/// Service for managing challenges, including retrieval and creation.
pub struct ChallengeService;

/// Returns a copy of an optional borrowed text field.
fn clone_opt(h: Option<&String>) -> (r: Option<String>)
    ensures
        hint_view(r) == opt_view(h),
{
    match h {
        Some(s) => Some(s.clone()),
        None => None,
    }
}

/// The view of an optional borrowed string.
pub open spec fn opt_view(h: Option<&String>) -> Option<Seq<char>> {
    match h {
        Some(s) => Some(s@),
        None => None,
    }
}

impl ChallengeService {
    /// Retrieves all challenges of the catalog.
    pub fn get_all_challenges(catalog: &Catalog) -> (r: Vec<Challenge>)
        ensures
            chals_view(r@) == catalog@.challenges,
    {
        ChallengeRepository::get_all_challenges(catalog)
    }

    /// Finds the challenge keyed `(category_id, challenge_name)` or creates
    /// it when missing.
    ///
    /// The returned row is the unique row of that key in the resulting
    /// catalog. An existing row is returned unchanged — even when
    /// `difficulty`, `description` or `hint` differ from what is stored; the
    /// first write wins. A missing row is inserted with the given fields and
    /// `now` as its creation timestamp, then re-read by its natural key. An
    /// insert that collides with a concurrently created row of the same key
    /// is treated as "found" and answered by re-running the lookup. The call
    /// fails when `category_id` matches no category (and the row is
    /// missing), or when the row is missing and the id space of the
    /// challenge table is used up.
    pub fn find_or_create_challenge(
        catalog: &mut Catalog,
        challenge_name: &String,
        category_id: i32,
        difficulty: &String,
        description: &String,
        hint: Option<&String>,
        now: i64,
    ) -> (r: Result<Challenge, StoreError>)
        requires
            old(catalog).wf(),
        ensures
            final(catalog).wf(),
            final(catalog)@ == (if has_challenge(old(catalog)@, category_id as int, challenge_name@)
                || has_category_id(old(catalog)@, category_id as int) {
                upsert_challenge(
                    old(catalog)@,
                    category_id as int,
                    challenge_name@,
                    difficulty@,
                    description@,
                    opt_view(hint),
                    now as int,
                )
            } else {
                old(catalog)@
            }),
            match r {
                Ok(c) => has_challenge(final(catalog)@, category_id as int, challenge_name@) && c@
                    == challenge_keyed(final(catalog)@, category_id as int, challenge_name@),
                Err(StoreError::ForeignKeyViolation) => !has_challenge(
                    old(catalog)@,
                    category_id as int,
                    challenge_name@,
                ) && !has_category_id(old(catalog)@, category_id as int),
                Err(StoreError::IdSpaceExhausted) => !has_challenge(
                    old(catalog)@,
                    category_id as int,
                    challenge_name@,
                ) && !challenge_insertable(old(catalog)@),
                Err(StoreError::UniqueViolation) => false,
            },
            r is Ok <==> has_challenge(old(catalog)@, category_id as int, challenge_name@) || (
            has_category_id(old(catalog)@, category_id as int) && challenge_insertable(
                old(catalog)@,
            )),
    {
        if let Some(existing_challenge) = ChallengeRepository::find_challenge_by_name_and_category_id(
            catalog,
            challenge_name,
            category_id,
        ) {
            return Ok(existing_challenge);
        }
        let new_challenge = NewChallenge {
            category_id,
            name: challenge_name.clone(),
            difficulty: difficulty.clone(),
            description: description.clone(),
            hint: clone_opt(hint),
        };
        let ghost pre = catalog@;
        let ghost fresh = crate::catalog::fresh_challenge(
            pre,
            category_id as int,
            challenge_name@,
            difficulty@,
            description@,
            opt_view(hint),
            now as int,
        );
        match ChallengeRepository::insert_challenge(catalog, new_challenge, now) {
            Ok(_) | Err(StoreError::UniqueViolation) => {
                // Re-read by the natural key: the row now exists, whether
                // this call created it or a concurrent insert won the race.
                match ChallengeRepository::find_challenge_by_name_and_category_id(
                    catalog,
                    challenge_name,
                    category_id,
                ) {
                    Some(challenge) => Ok(challenge),
                    None => {
                        proof {
                            if !has_challenge(pre, category_id as int, challenge_name@)
                                && challenge_insertable(pre) {
                                crate::catalog::lemma_with_challenge_wf(pre, fresh);
                            }
                            assert(false);
                        }
                        Err(StoreError::UniqueViolation)
                    },
                }
            },
            Err(e) => Err(e),
        }
    }
}

} // verus!
