//! The response shape the challenge listing answers with.

use vstd::prelude::*;

use crate::models::challenge::{hint_view, Challenge};

verus! {

/// One challenge row as the listing endpoint reports it.
#[derive(Debug)]
pub struct ChallengeResponse {
    pub id: i32,
    pub category_id: i32,
    pub name: String,
    pub difficulty: String,
    pub description: String,
    pub hint: Option<String>,
}

impl ChallengeResponse {
    /// The response row for one catalog row; the creation timestamp is not
    /// reported.
    pub fn of_challenge(challenge: &Challenge) -> (r: ChallengeResponse)
        ensures
            r.id == challenge.id,
            r.category_id == challenge.category_id,
            r.name@ == challenge.name@,
            r.difficulty@ == challenge.difficulty@,
            r.description@ == challenge.description@,
            hint_view(r.hint) == hint_view(challenge.hint),
    {
        ChallengeResponse {
            id: challenge.id,
            category_id: challenge.category_id,
            name: challenge.name.clone(),
            difficulty: challenge.difficulty.clone(),
            description: challenge.description.clone(),
            hint: crate::models::challenge::duplicate_hint(&challenge.hint),
        }
    }
}

/// The response rows for a challenge listing, in catalog order.
pub fn challenge_responses(challenges: &Vec<Challenge>) -> (r: Vec<ChallengeResponse>)
    ensures
        r@.len() == challenges@.len(),
        forall|k: int|
            0 <= k < challenges@.len() ==> (#[trigger] r@[k]).id == challenges@[k].id
                && r@[k].category_id == challenges@[k].category_id && r@[k].name@
                == challenges@[k].name@ && r@[k].difficulty@ == challenges@[k].difficulty@
                && r@[k].description@ == challenges@[k].description@ && hint_view(r@[k].hint)
                == hint_view(challenges@[k].hint),
{
    let mut out: Vec<ChallengeResponse> = Vec::new();
    let n = challenges.len();
    let mut i: usize = 0;
    while i < n
        invariant
            n == challenges.len(),
            i <= n,
            out@.len() == i,
            forall|k: int|
                0 <= k < i ==> (#[trigger] out@[k]).id == challenges@[k].id && out@[k].category_id
                    == challenges@[k].category_id && out@[k].name@ == challenges@[k].name@
                    && out@[k].difficulty@ == challenges@[k].difficulty@ && out@[k].description@
                    == challenges@[k].description@ && hint_view(out@[k].hint) == hint_view(
                    challenges@[k].hint,
                ),
        decreases n - i,
    {
        out.push(ChallengeResponse::of_challenge(&challenges[i]));
        i = i + 1;
    }
    out
}

} // verus!
