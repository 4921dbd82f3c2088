//! The category rows of the catalog.

use vstd::prelude::*;

verus! {

/// A category row of the catalog.
///
/// The natural key of a category is its `name`: the catalog never holds two
/// category rows with the same name.
#[derive(Debug)]
pub struct Category {
    pub id: i32,
    pub name: String,
}

/// A new category to be added to the catalog.
pub struct NewCategory {
    pub name: String,
}

/// The mathematical value of a category row.
#[verifier::ext_equal]
pub struct CategorySnap {
    pub id: int,
    pub name: Seq<char>,
}

impl View for Category {
    type V = CategorySnap;

    open spec fn view(&self) -> CategorySnap {
        CategorySnap { id: self.id as int, name: self.name@ }
    }
}

impl Category {
    /// Returns a copy of this row.
    pub fn duplicate(&self) -> (r: Category)
        ensures
            r@ == self@,
    {
        Category { id: self.id, name: self.name.clone() }
    }
}

} // verus!
