//! The challenge rows of the catalog.

use vstd::prelude::*;

verus! {

/// A challenge row of the catalog.
///
/// The natural key of a challenge is the pair `(category_id, name)`: two
/// categories may each contain a challenge with the same name, but one
/// category never contains it twice.
#[derive(Debug)]
pub struct Challenge {
    pub id: i32,
    pub category_id: i32,
    pub name: String,
    pub difficulty: String,
    pub description: String,
    pub hint: Option<String>,
    pub created_at: i64,
}

/// A new challenge to be added to the catalog.
pub struct NewChallenge {
    pub category_id: i32,
    pub name: String,
    pub difficulty: String,
    pub description: String,
    pub hint: Option<String>,
}

/// The mathematical value of a challenge row.
#[verifier::ext_equal]
pub struct ChallengeSnap {
    pub id: int,
    pub category_id: int,
    pub name: Seq<char>,
    pub difficulty: Seq<char>,
    pub description: Seq<char>,
    pub hint: Option<Seq<char>>,
    pub created_at: int,
}

pub open spec fn hint_view(h: Option<String>) -> Option<Seq<char>> {
    match h {
        Some(s) => Some(s@),
        None => None,
    }
}

impl View for Challenge {
    type V = ChallengeSnap;

    open spec fn view(&self) -> ChallengeSnap {
        ChallengeSnap {
            id: self.id as int,
            category_id: self.category_id as int,
            name: self.name@,
            difficulty: self.difficulty@,
            description: self.description@,
            hint: hint_view(self.hint),
            created_at: self.created_at as int,
        }
    }
}

/// Returns a copy of an optional text field.
pub fn duplicate_hint(h: &Option<String>) -> (r: Option<String>)
    ensures
        hint_view(r) == hint_view(*h),
{
    match h {
        Some(s) => Some(s.clone()),
        None => None,
    }
}

impl Challenge {
    /// Returns a copy of this row.
    pub fn duplicate(&self) -> (r: Challenge)
        ensures
            r@ == self@,
    {
        Challenge {
            id: self.id,
            category_id: self.category_id,
            name: self.name.clone(),
            difficulty: self.difficulty.clone(),
            description: self.description.clone(),
            hint: duplicate_hint(&self.hint),
            created_at: self.created_at,
        }
    }
}

} // verus!
