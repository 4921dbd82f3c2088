//! The response shape the category listing answers with.

use vstd::prelude::*;

use crate::models::category::Category;

verus! {

/// One category row as the listing endpoint reports it.
#[derive(Debug)]
pub struct CategoryResponse {
    pub id: i32,
    pub name: String,
}

impl CategoryResponse {
    /// The response row for one catalog row.
    pub fn of_category(category: &Category) -> (r: CategoryResponse)
        ensures
            r.id == category.id,
            r.name@ == category.name@,
    {
        CategoryResponse { id: category.id, name: category.name.clone() }
    }
}

/// The response rows for a category listing, in catalog order.
pub fn category_responses(categories: &Vec<Category>) -> (r: Vec<CategoryResponse>)
    ensures
        r@.len() == categories@.len(),
        forall|k: int|
            0 <= k < categories@.len() ==> (#[trigger] r@[k]).id == categories@[k].id && r@[k].name@
                == categories@[k].name@,
{
    let mut out: Vec<CategoryResponse> = Vec::new();
    let n = categories.len();
    let mut i: usize = 0;
    while i < n
        invariant
            n == categories.len(),
            i <= n,
            out@.len() == i,
            forall|k: int|
                0 <= k < i ==> (#[trigger] out@[k]).id == categories@[k].id && out@[k].name@
                    == categories@[k].name@,
        decreases n - i,
    {
        out.push(CategoryResponse::of_category(&categories[i]));
        i = i + 1;
    }
    out
}

} // verus!
