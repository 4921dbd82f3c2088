//! Store operations on the category table.

use vstd::prelude::*;

use crate::catalog::{
    category_index, category_insertable, category_named, cats_view, has_category,
    lemma_category_index_from, with_category, Catalog, StoreError,
};
use crate::models::category::Category;

verus! {

/// Repository for managing categories in the catalog store.
pub struct CategoryRepository;

impl CategoryRepository {
    /// Retrieves all categories of the catalog.
    pub fn get_all_categories(catalog: &Catalog) -> (r: Vec<Category>)
        ensures
            cats_view(r@) == catalog@.categories,
    {
        let mut out: Vec<Category> = Vec::new();
        let n = catalog.categories.len();
        let mut i: usize = 0;
        while i < n
            invariant
                n == catalog.categories.len(),
                i <= n,
                out@.len() == i,
                forall|m: int| 0 <= m < i ==> (#[trigger] out@[m])@ == catalog@.categories[m],
            decreases n - i,
        {
            out.push(catalog.categories[i].duplicate());
            i = i + 1;
        }
        proof {
            assert(cats_view(out@) =~= catalog@.categories);
        }
        out
    }

    /// Finds a category by its name.
    ///
    /// Returns the unique row named `category_name` when the catalog holds
    /// one, and `None` when it does not.
    pub fn find_category_by_name(catalog: &Catalog, category_name: &String) -> (r: Option<Category>)
        ensures
            match r {
                Some(c) => has_category(catalog@, category_name@) && c@ == category_named(
                    catalog@,
                    category_name@,
                ),
                None => !has_category(catalog@, category_name@),
            },
    {
        let ghost cats = catalog@.categories;
        let ghost name = category_name@;
        let n = catalog.categories.len();
        let mut i: usize = 0;
        while i < n
            invariant
                n == catalog.categories.len(),
                cats == catalog@.categories,
                name == category_name@,
                i <= n,
                forall|m: int| 0 <= m < i ==> (#[trigger] cats[m].name) != name,
            decreases n - i,
        {
            if catalog.categories[i].name == *category_name {
                proof {
                    lemma_category_index_from(cats, name, 0);
                    assert(cats[i as int].name == name);
                    match category_index(cats, name) {
                        Some(k) => {
                            if k < i as int {
                                assert(cats[k].name != name);
                            } else if k > i as int {
                                assert(cats[i as int].name != name);
                            }
                        },
                        None => {
                            assert(cats[i as int].name != name);
                        },
                    }
                }
                return Some(catalog.categories[i].duplicate());
            }
            i = i + 1;
        }
        proof {
            lemma_category_index_from(cats, name, 0);
            if category_index(cats, name) is Some {
                let k = category_index(cats, name)->0;
                assert(cats[k].name != name);
            }
        }
        None
    }

    /// Inserts a new category and returns its assigned ID.
    ///
    /// Fails with `UniqueViolation` when a row of the same name exists — the
    /// uniqueness constraint of the table — and with `IdSpaceExhausted` when
    /// no fresh id can be assigned; the catalog is unchanged on failure.
    pub fn insert_category(catalog: &mut Catalog, category_name: &String) -> (r: Result<
        i32,
        StoreError,
    >)
        requires
            old(catalog).wf(),
        ensures
            final(catalog).wf(),
            match r {
                Ok(id) => !has_category(old(catalog)@, category_name@) && category_insertable(
                    old(catalog)@,
                ) && id as int == old(catalog)@.next_category_id && final(catalog)@ == with_category(
                    old(catalog)@,
                    category_name@,
                ),
                Err(StoreError::UniqueViolation) => has_category(old(catalog)@, category_name@)
                    && final(catalog)@ == old(catalog)@,
                Err(StoreError::IdSpaceExhausted) => !has_category(old(catalog)@, category_name@)
                    && !category_insertable(old(catalog)@) && final(catalog)@ == old(catalog)@,
                Err(StoreError::ForeignKeyViolation) => false,
            },
    {
        let found = Self::find_category_by_name(catalog, category_name);
        if found.is_some() {
            return Err(StoreError::UniqueViolation);
        }
        if catalog.next_category_id == i32::MAX {
            return Err(StoreError::IdSpaceExhausted);
        }
        let id = catalog.next_category_id;
        let ghost pre = catalog@;
        catalog.categories.push(Category { id, name: category_name.clone() });
        catalog.next_category_id = id + 1;
        proof {
            assert(catalog@ =~= with_category(pre, category_name@));
            crate::catalog::lemma_with_category_wf(pre, category_name@);
        }
        Ok(id)
    }
}

} // verus!
