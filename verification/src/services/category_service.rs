//! Find-or-create reconciliation of categories.

use vstd::prelude::*;

use crate::catalog::{
    category_insertable, category_named, cats_view, has_category, upsert_category, Catalog,
    StoreError,
};
use crate::models::category::{Category, NewCategory};
use crate::repositories::category_repository::CategoryRepository;

verus! {

/// Service for managing categories, including retrieval and creation.
pub struct CategoryService;

impl CategoryService {
    /// Retrieves all categories of the catalog.
    pub fn get_all_categories(catalog: &Catalog) -> (r: Vec<Category>)
        ensures
            cats_view(r@) == catalog@.categories,
    {
        CategoryRepository::get_all_categories(catalog)
    }

    /// Finds the category named `category_name` or creates it when missing.
    ///
    /// The returned row is the unique row of that name in the resulting
    /// catalog. An existing row is returned unchanged; a missing row is
    /// inserted and then re-read by its name. An insert that collides with a
    /// concurrently created row of the same name is treated as "found" and
    /// answered by re-running the lookup. The call fails only when the row
    /// is missing and the id space of the category table is used up.
    pub fn find_or_create_category(catalog: &mut Catalog, category_name: &String) -> (r: Result<
        Category,
        StoreError,
    >)
        requires
            old(catalog).wf(),
        ensures
            final(catalog).wf(),
            final(catalog)@ == upsert_category(old(catalog)@, category_name@),
            match r {
                Ok(c) => has_category(final(catalog)@, category_name@) && c@ == category_named(
                    final(catalog)@,
                    category_name@,
                ),
                Err(e) => e == StoreError::IdSpaceExhausted && !has_category(
                    old(catalog)@,
                    category_name@,
                ) && !category_insertable(old(catalog)@),
            },
            r is Ok <==> has_category(old(catalog)@, category_name@) || category_insertable(
                old(catalog)@,
            ),
    {
        let new_category = NewCategory { name: category_name.clone() };
        if let Some(category) = CategoryRepository::find_category_by_name(catalog, category_name) {
            return Ok(category);
        }
        let ghost pre = catalog@;
        match CategoryRepository::insert_category(catalog, &new_category.name) {
            Ok(_) | Err(StoreError::UniqueViolation) => {
                // Re-read by the natural key: the row now exists, whether
                // this call created it or a concurrent insert won the race.
                match CategoryRepository::find_category_by_name(catalog, category_name) {
                    Some(category) => Ok(category),
                    None => {
                        proof {
                            if !has_category(pre, category_name@) && category_insertable(pre) {
                                crate::catalog::lemma_with_category_wf(pre, category_name@);
                            }
                            assert(false);
                        }
                        Err(StoreError::UniqueViolation)
                    },
                }
            },
            Err(e) => Err(e),
        }
    }
}

} // verus!
